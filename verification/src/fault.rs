//! Why an operation on the tables is refused.
use vstd::prelude::*;

use crate::model::JobStatus;
use crate::store::LegacyStage;

verus! {

/// Why an operation on the tables is refused.
#[derive(Debug, Clone, Copy, PartialEq, Eq, Structural)]
pub enum DbError {
    /// The claim that a write needs is gone.
    ClaimLost,
    /// A waiting status is set without a time to wait for.
    WaitStatus(JobStatus),
    /// A waiting status is set on a claimed job without a time to wait for.
    ClaimedWaitStatus(JobStatus),
    /// A time to wait for is set with a status that does not wait.
    NotWaitStatus(JobStatus),
    /// A time to wait for is set on a claimed job with a status that does not wait.
    ClaimedNotWaitStatus(JobStatus),
    /// There is no such job.
    NoJob,
    /// A job in this status cannot be paused.
    NotPausable(JobStatus),
    /// A job in this status cannot be tried again.
    NotRetryable(JobStatus),
    /// Whether the video was submitted is not known.
    UncertainPause,
    /// A job in this status takes no plan for its submission.
    NotPreparable(JobStatus),
    /// The claim of a preparation is gone.
    PrepareClaimLost,
    /// A submission cannot end in this status.
    BadCompletion(JobStatus),
    /// A submission attempt is over.
    AttemptGone,
    /// The outcome of the submission is not in doubt.
    NotUncertain,
    /// The claim of a subtitle is gone.
    SubtitleClaimLost,
    /// The claim of a subtitle is gone, or its video changed.
    SubtitleMoved,
    /// A subtitle attempt is over.
    SubtitleAttemptGone,
    /// A subtitle attempt cannot be settled.
    SubtitleNotReconciled,
    /// The job does not wait for its subtitle.
    NotPendingSubtitle,
    /// There is no such channel.
    NoChannel,
    /// There is no channel of that name on YouTube.
    NoYoutubeChannel,
    /// There is no such candidate.
    NoCandidate,
    /// A stored deadline is no point in time.
    BadDeadline,
    /// The stored end of the quota is no point in time.
    BadQuotaReset,
    /// The stored use of the quota is no number.
    BadQuotaUsed,
    /// Another job has the published video.
    BvidTaken,
    /// A row of that name is there already.
    DuplicateId,
    /// A row names another that is not there.
    ForeignKey,
    /// The job is in a stage that only older versions know.
    LegacyStatus(LegacyStage),
    /// There is no such row.
    NoRow,
    /// There is no number left for another row.
    Full,
    /// A sum or count is too large.
    TooLarge,
    /// A point in time lies outside the calendar.
    OutOfCalendar,
    /// The lock needs an owner.
    HoldOwner,
    /// The lock needs a reason.
    HoldReason,
    /// The lease of the lock must last.
    HoldLease,
    /// The lease of the lock ends outside the range of times.
    HoldRange,
    /// Several jobs have the same published video.
    DuplicateBvid,
    /// What the old lock kept of the deadline before it cannot be read.
    BadLegacyHold,
    /// The time before which nothing is submitted is no point in time.
    BadSubmitTime,
    /// The next submission would wait beyond the calendar.
    CooldownOverflow,
    /// The job that waits for its submission is gone.
    WaitingJobGone,
}

/// The outcome of an operation that is refused.
pub open spec fn refused<T>(e: DbError) -> Result<T, DbError> {
    Err(e)
}

impl DbError {
    /// The message, given what was asked for (`subject`) and what came with it (`extra`).
    pub open spec fn text(self, subject: Seq<char>, extra: Seq<char>) -> Seq<char> {
        match self {
            DbError::ClaimLost => "任务 "@ + subject + " 的 "@ + extra + " 领取权已丢失"@,
            DbError::WaitStatus(x) => "重试等待状态必须用 defer_job_retry 设置退避时间: "@ + x.text(),
            DbError::ClaimedWaitStatus(x) => "重试等待状态必须用 defer_claimed_job_retry 设置退避时间: "@ + x.text(),
            DbError::NotWaitStatus(x) => "defer_job_retry 只接受重试等待状态，收到 "@ + x.text(),
            DbError::ClaimedNotWaitStatus(x) => "defer_claimed_job_retry 只接受重试等待状态，收到 "@ + x.text(),
            DbError::NoJob => "任务不存在: "@ + subject,
            DbError::NotPausable(x) => "任务 "@ + subject + " 当前状态 "@ + x.text() + " 不允许暂停"@,
            DbError::NotRetryable(x) => "任务 "@ + subject + " 当前状态 "@ + x.text() + " 不允许重试"@,
            DbError::UncertainPause => "任务 "@ + subject + " 的投稿结果不确定；请先在 Bilibili 确认，禁止直接重试以免重复投稿"@,
            DbError::NotPreparable(x) => "任务 "@ + subject + " 当前状态 "@ + x.text() + " 不允许写入待上传计划"@,
            DbError::PrepareClaimLost => "任务 "@ + subject + " 的准备领取权已丢失"@,
            DbError::BadCompletion(x) => "投稿完成状态无效: "@ + x.text(),
            DbError::AttemptGone => "任务 "@ + subject + " 的投稿 attempt "@ + extra + " 已失效"@,
            DbError::NotUncertain => "任务 "@ + subject + " 不在有效的投稿结果不确定状态"@,
            DbError::SubtitleClaimLost => "任务 "@ + subject + " 的字幕领取权已丢失"@,
            DbError::SubtitleMoved => "任务 "@ + subject + " 的字幕领取权已丢失或 BVID 已改变"@,
            DbError::SubtitleAttemptGone => "任务 "@ + subject + " 的字幕 attempt "@ + extra + " 已失效"@,
            DbError::SubtitleNotReconciled => "任务 "@ + subject + " 的字幕 attempt "@ + extra + " 无法核对"@,
            DbError::NotPendingSubtitle => "任务不在待补字幕状态: "@ + subject,
            DbError::NoChannel => "频道不存在: "@ + subject,
            DbError::NoYoutubeChannel => "YouTube 频道不存在: "@ + subject,
            DbError::NoCandidate => "候选视频不存在: "@ + subject,
            DbError::BadDeadline => "设置 "@ + subject + " 的时间无效: "@ + extra,
            DbError::BadQuotaReset => "发现配额状态 quota_reset_at 无效: "@ + extra,
            DbError::BadQuotaUsed => "发现配额状态 quota_used_today 无效: "@ + extra,
            DbError::BvidTaken => "UNIQUE constraint failed: jobs.bvid"@,
            DbError::DuplicateId => "UNIQUE constraint failed: "@ + subject,
            DbError::ForeignKey => "FOREIGN KEY constraint failed"@,
            DbError::LegacyStatus(x) => "unknown variant `"@ + x.text() + "`"@,
            DbError::NoRow => "Query returned no rows"@,
            DbError::Full => "database or disk is full"@,
            DbError::TooLarge => "integer overflow"@,
            DbError::OutOfCalendar => "时间超出可表示范围"@,
            DbError::HoldOwner => "维护锁 owner 不能为空"@,
            DbError::HoldReason => "维护锁 reason 不能为空"@,
            DbError::HoldLease => "维护锁租约必须大于 0 秒"@,
            DbError::HoldRange => "维护锁租约到期时间超出可表示范围"@,
            DbError::DuplicateBvid => "迁移 v20 失败：jobs.bvid="@ + subject + " 已被 "@ + extra + " 个任务重复占用，请先人工修复重复 BVID"@,
            DbError::BadLegacyHold => "迁移 v22 失败：旧 live_once 投稿窗口的 previous 值无效"@,
            DbError::BadSubmitTime => "投稿冷却时间无效: "@ + extra,
            DbError::CooldownOverflow => "Bilibili 投稿冷却时间溢出"@,
            DbError::WaitingJobGone => "等待投稿窗口时任务不存在: "@ + subject,
        }
    }

    /// The message, given what was asked for (`subject`) and what came with it (`extra`).
    pub fn message(self, subject: &str, extra: &str) -> (r: String)
        ensures
            r@ == self.text(subject@, extra@),
    {
        match self {
            DbError::ClaimLost => {
                let mut s = "任务 ".to_owned();
                s.append(subject);
                s.append(" 的 ");
                s.append(extra);
                s.append(" 领取权已丢失");
                s
            },
            DbError::WaitStatus(x) => {
                let mut s = "重试等待状态必须用 defer_job_retry 设置退避时间: ".to_owned();
                s.append(x.as_str());
                s
            },
            DbError::ClaimedWaitStatus(x) => {
                let mut s = "重试等待状态必须用 defer_claimed_job_retry 设置退避时间: ".to_owned();
                s.append(x.as_str());
                s
            },
            DbError::NotWaitStatus(x) => {
                let mut s = "defer_job_retry 只接受重试等待状态，收到 ".to_owned();
                s.append(x.as_str());
                s
            },
            DbError::ClaimedNotWaitStatus(x) => {
                let mut s = "defer_claimed_job_retry 只接受重试等待状态，收到 ".to_owned();
                s.append(x.as_str());
                s
            },
            DbError::NoJob => {
                let mut s = "任务不存在: ".to_owned();
                s.append(subject);
                s
            },
            DbError::NotPausable(x) => {
                let mut s = "任务 ".to_owned();
                s.append(subject);
                s.append(" 当前状态 ");
                s.append(x.as_str());
                s.append(" 不允许暂停");
                s
            },
            DbError::NotRetryable(x) => {
                let mut s = "任务 ".to_owned();
                s.append(subject);
                s.append(" 当前状态 ");
                s.append(x.as_str());
                s.append(" 不允许重试");
                s
            },
            DbError::UncertainPause => {
                let mut s = "任务 ".to_owned();
                s.append(subject);
                s.append(" 的投稿结果不确定；请先在 Bilibili 确认，禁止直接重试以免重复投稿");
                s
            },
            DbError::NotPreparable(x) => {
                let mut s = "任务 ".to_owned();
                s.append(subject);
                s.append(" 当前状态 ");
                s.append(x.as_str());
                s.append(" 不允许写入待上传计划");
                s
            },
            DbError::PrepareClaimLost => {
                let mut s = "任务 ".to_owned();
                s.append(subject);
                s.append(" 的准备领取权已丢失");
                s
            },
            DbError::BadCompletion(x) => {
                let mut s = "投稿完成状态无效: ".to_owned();
                s.append(x.as_str());
                s
            },
            DbError::AttemptGone => {
                let mut s = "任务 ".to_owned();
                s.append(subject);
                s.append(" 的投稿 attempt ");
                s.append(extra);
                s.append(" 已失效");
                s
            },
            DbError::NotUncertain => {
                let mut s = "任务 ".to_owned();
                s.append(subject);
                s.append(" 不在有效的投稿结果不确定状态");
                s
            },
            DbError::SubtitleClaimLost => {
                let mut s = "任务 ".to_owned();
                s.append(subject);
                s.append(" 的字幕领取权已丢失");
                s
            },
            DbError::SubtitleMoved => {
                let mut s = "任务 ".to_owned();
                s.append(subject);
                s.append(" 的字幕领取权已丢失或 BVID 已改变");
                s
            },
            DbError::SubtitleAttemptGone => {
                let mut s = "任务 ".to_owned();
                s.append(subject);
                s.append(" 的字幕 attempt ");
                s.append(extra);
                s.append(" 已失效");
                s
            },
            DbError::SubtitleNotReconciled => {
                let mut s = "任务 ".to_owned();
                s.append(subject);
                s.append(" 的字幕 attempt ");
                s.append(extra);
                s.append(" 无法核对");
                s
            },
            DbError::NotPendingSubtitle => {
                let mut s = "任务不在待补字幕状态: ".to_owned();
                s.append(subject);
                s
            },
            DbError::NoChannel => {
                let mut s = "频道不存在: ".to_owned();
                s.append(subject);
                s
            },
            DbError::NoYoutubeChannel => {
                let mut s = "YouTube 频道不存在: ".to_owned();
                s.append(subject);
                s
            },
            DbError::NoCandidate => {
                let mut s = "候选视频不存在: ".to_owned();
                s.append(subject);
                s
            },
            DbError::BadDeadline => {
                let mut s = "设置 ".to_owned();
                s.append(subject);
                s.append(" 的时间无效: ");
                s.append(extra);
                s
            },
            DbError::BadQuotaReset => {
                let mut s = "发现配额状态 quota_reset_at 无效: ".to_owned();
                s.append(extra);
                s
            },
            DbError::BadQuotaUsed => {
                let mut s = "发现配额状态 quota_used_today 无效: ".to_owned();
                s.append(extra);
                s
            },
            DbError::BvidTaken => "UNIQUE constraint failed: jobs.bvid".to_owned(),
            DbError::DuplicateId => {
                let mut s = "UNIQUE constraint failed: ".to_owned();
                s.append(subject);
                s
            },
            DbError::ForeignKey => "FOREIGN KEY constraint failed".to_owned(),
            DbError::LegacyStatus(x) => {
                let mut s = "unknown variant `".to_owned();
                s.append(x.as_str());
                s.append("`");
                s
            },
            DbError::NoRow => "Query returned no rows".to_owned(),
            DbError::Full => "database or disk is full".to_owned(),
            DbError::TooLarge => "integer overflow".to_owned(),
            DbError::OutOfCalendar => "时间超出可表示范围".to_owned(),
            DbError::HoldOwner => "维护锁 owner 不能为空".to_owned(),
            DbError::HoldReason => "维护锁 reason 不能为空".to_owned(),
            DbError::HoldLease => "维护锁租约必须大于 0 秒".to_owned(),
            DbError::HoldRange => "维护锁租约到期时间超出可表示范围".to_owned(),
            DbError::DuplicateBvid => {
                let mut s = "迁移 v20 失败：jobs.bvid=".to_owned();
                s.append(subject);
                s.append(" 已被 ");
                s.append(extra);
                s.append(" 个任务重复占用，请先人工修复重复 BVID");
                s
            },
            DbError::BadLegacyHold => "迁移 v22 失败：旧 live_once 投稿窗口的 previous 值无效".to_owned(),
            DbError::BadSubmitTime => {
                let mut s = "投稿冷却时间无效: ".to_owned();
                s.append(extra);
                s
            },
            DbError::CooldownOverflow => "Bilibili 投稿冷却时间溢出".to_owned(),
            DbError::WaitingJobGone => {
                let mut s = "等待投稿窗口时任务不存在: ".to_owned();
                s.append(subject);
                s
            },
        }
    }
}

} // verus!
