//! What is asked of the model for a publication, what is made of its answer, and what the
//! uploader is called with.
use vstd::prelude::*;
use vstd::string::StringExecFns;

use crate::batching::{
    byte_len, capped, estimate_text_tokens, text_tokens, time_json, time_model,
    PI_MAX_PROMPT_ARGUMENT_BYTES, PI_PROMPT_OVERHEAD_TOKENS,
};
use crate::clock::{utc_date, utc_date_text};
use crate::json::{
    fields_model, fields_model_index, json_text, list_model, list_model_index, member, member_is,
    write_json, Json, JsonModel,
};
use crate::model::{PublicationMetadata, TransferMode, VideoMetadata};
use crate::reply::text_field;
use crate::subtitle::{numbered, numbered_of, Cue};
use crate::text::{chars_of, join, join_all, joined, split_words, string_of, views, words_of};
use crate::wording::{
    cleaned_tags_pass, mark, metadata_fault, publication_fault, sanitize_publication_text,
    sanitize_tags, sanitized, sanitized_is_clean, tags_after, validate_publication_metadata,
    width_of, Field, PublicationError, BILIBILI_TID,
};

verus! {

/// Tokens that are kept free for the model's answer.
pub const PI_METADATA_OUTPUT_RESERVE_TOKENS: usize = 1_024;

/// How often the model is told why its answer was refused.
pub const PUBLICATION_FEEDBACK_RETRIES: usize = 2;

// ---------------------------------------------------------------------------------------------
// Dates and descriptions
// ---------------------------------------------------------------------------------------------

/// Whether `s` is eight ASCII digits.
pub open spec fn is_plain_date(s: Seq<char>) -> bool {
    s.len() == 8 && forall|i: int| 0 <= i < 8 ==> '0' <= #[trigger] s[i] && s[i] <= '9'
}

/// Eight digits as year, month and day with dashes between them.
pub open spec fn dashed(s: Seq<char>) -> Seq<char> {
    s.subrange(0, 4) + seq!['-'] + s.subrange(4, 6) + seq!['-'] + s.subrange(6, 8)
}

/// The day on which a video was published: its upload date, else the date of its timestamp in
/// UTC, else that it is unknown.
pub open spec fn published_on(meta: VideoMetadata) -> Seq<char> {
    if meta.upload_date matches Some(d) && is_plain_date(d@) {
        dashed(meta.upload_date->Some_0@)
    } else {
        match meta.timestamp {
            Some(t) => match utc_date_text(t as int) {
                Some(d) => d,
                None => "未知"@,
            },
            None => "未知"@,
        }
    }
}

fn dashed_date(text: &str) -> (r: Option<String>)
    ensures
        r is Some <==> is_plain_date(text@),
        r matches Some(d) ==> d@ == dashed(text@),
{
    let chars = chars_of(text);
    if chars.len() != 8 {
        return None;
    }
    let mut i: usize = 0;
    while i < 8
        invariant
            chars@ == text@,
            chars@.len() == 8,
            0 <= i <= 8,
            forall|j: int| 0 <= j < i ==> '0' <= #[trigger] text@[j] && text@[j] <= '9',
        decreases 8 - i,
    {
        if !('0' <= chars[i] && chars[i] <= '9') {
            assert(!('0' <= text@[i as int] && text@[i as int] <= '9'));
            return None;
        }
        i = i + 1;
    }
    let mut out = string_of(&chars, 0, 4);
    out.push('-');
    let month = string_of(&chars, 4, 6);
    out.append(month.as_str());
    out.push('-');
    let day = string_of(&chars, 6, 8);
    out.append(day.as_str());
    proof {
        assert(out@ =~= dashed(text@));
    }
    Some(out)
}

/// The day on which a video was published.
pub fn publication_date(meta: &VideoMetadata) -> (r: String)
    ensures
        r@ == published_on(*meta),
{
    match &meta.upload_date {
        Some(d) => match dashed_date(d.as_str()) {
            Some(text) => {
                return text;
            },
            None => {},
        },
        None => {},
    }
    match meta.timestamp {
        Some(t) => match utc_date(t) {
            Some(d) => d,
            None => "未知".to_owned(),
        },
        None => "未知".to_owned(),
    }
}

/// The words of `words[..n]` that are no hashtags.
pub open spec fn spoken_words(words: Seq<Seq<char>>, n: int) -> Seq<Seq<char>>
    decreases n,
{
    if n <= 0 || n > words.len() {
        Seq::empty()
    } else {
        let front = spoken_words(words, n - 1);
        let w = words[n - 1];
        if w.len() > 0 && mark(w[0]) {
            front
        } else {
            front.push(w)
        }
    }
}

/// A title without its hashtags.
pub open spec fn spoken_title(title: Seq<char>) -> Seq<char> {
    joined(spoken_words(words_of(title), words_of(title).len() as int), " "@)
}

/// The title without its hashtags, unless nothing is left.
pub fn original_title_without_hashtags(title: &str) -> (r: Option<String>)
    ensures
        r is Some <==> spoken_title(title@).len() > 0,
        r matches Some(t) ==> t@ == spoken_title(title@),
{
    let words = split_words(title);
    let ghost all = views(words@);
    let mut kept: Vec<String> = Vec::new();
    let mut i: usize = 0;
    proof {
        assert(all.len() == words@.len());
        assert(views(kept@) =~= Seq::empty());
    }
    while i < words.len()
        invariant
            0 <= i <= words@.len(),
            all == views(words@),
            all.len() == words@.len(),
            views(kept@) == spoken_words(all, i as int),
        decreases words@.len() - i,
    {
        let chars = chars_of(words[i].as_str());
        assert(all[i as int] == chars@);
        let ghost before = views(kept@);
        if !(chars.len() > 0 && (chars[0] == '#' || chars[0] == '＃')) {
            kept.push(words[i].clone());
            proof {
                assert(views(kept@) =~= before.push(all[i as int]));
            }
        }
        i = i + 1;
    }
    let clean = join_all(&kept, " ");
    if clean.as_str().is_empty() {
        None
    } else {
        Some(clean)
    }
}

/// The lines of a description.
pub open spec fn description_lines(meta: VideoMetadata) -> Seq<Seq<char>> {
    let rest = seq![
        "来源："@ + meta.page(),
        "原作者："@ + (match meta.author() {
            Some(a) => a,
            None => "未知"@,
        }),
        "原视频发布时间："@ + published_on(meta),
        "处理工具：https://github.com/Mist-wu/y2b-rs"@,
    ];
    if spoken_title(meta.title@).len() > 0 {
        seq!["原标题："@ + spoken_title(meta.title@)] + rest
    } else {
        rest
    }
}

/// The description of a video: its own title without hashtags, where it comes from, who made it,
/// when it was published, and the tool.
pub fn build_description(meta: &VideoMetadata) -> (r: String)
    ensures
        r@ == joined(description_lines(*meta), "\n"@),
{
    let mut lines: Vec<String> = Vec::new();
    match original_title_without_hashtags(meta.title.as_str()) {
        Some(title) => {
            lines.push(join("原标题：", title.as_str()));
        },
        None => {},
    }
    let page = meta.page_url();
    lines.push(join("来源：", page.as_str()));
    let author = meta.author_or("未知");
    lines.push(join("原作者：", author.as_str()));
    let date = publication_date(meta);
    lines.push(join("原视频发布时间：", date.as_str()));
    lines.push("处理工具：https://github.com/Mist-wu/y2b-rs".to_owned());
    proof {
        assert(views(lines@) =~= description_lines(*meta));
    }
    join_all(&lines, "\n")
}

/// The arguments that the uploader is called with.
pub open spec fn upload_args(m: PublicationMetadata, meta: VideoMetadata) -> Seq<Seq<char>> {
    seq![
        "--submit"@,
        "web"@,
        "--title"@,
        m.title@,
        "--desc"@,
        joined(description_lines(meta), "\n"@),
        "--tag"@,
        joined(views(m.tags@), ","@),
        "--tid"@,
        "172"@,
        "--dynamic"@,
        m.dynamic@,
        "--copyright"@,
        "1"@,
        "--no-reprint"@,
        "0"@,
        "--limit"@,
        "1"@,
    ]
}

/// The arguments that the uploader is called with.
pub fn build_upload_args(metadata: &PublicationMetadata, meta: &VideoMetadata) -> (r: Vec<String>)
    ensures
        views(r@) == upload_args(*metadata, *meta),
{
    let mut args: Vec<String> = Vec::new();
    args.push("--submit".to_owned());
    args.push("web".to_owned());
    args.push("--title".to_owned());
    args.push(metadata.title.clone());
    args.push("--desc".to_owned());
    args.push(build_description(meta));
    args.push("--tag".to_owned());
    args.push(join_all(&metadata.tags, ","));
    args.push("--tid".to_owned());
    args.push("172".to_owned());
    args.push("--dynamic".to_owned());
    args.push(metadata.dynamic.clone());
    args.push("--copyright".to_owned());
    args.push("1".to_owned());
    args.push("--no-reprint".to_owned());
    args.push("0".to_owned());
    args.push("--limit".to_owned());
    args.push("1".to_owned());
    proof {
        assert(views(args@) =~= upload_args(*metadata, *meta));
    }
    args
}

// ---------------------------------------------------------------------------------------------
// Sampling
// ---------------------------------------------------------------------------------------------

/// The cues of a sample of `count` out of `len`, evenly spread from the first to the last.
pub open spec fn sample(len: int, count: int) -> Seq<int> {
    if count >= len {
        Seq::new(len as nat, |k: int| k)
    } else if count <= 0 {
        Seq::empty()
    } else if count == 1 {
        seq![0]
    } else {
        Seq::new(count as nat, |k: int| (k * (len - 1)) / (count - 1))
    }
}

/// The integers of a list of places.
pub open spec fn places(v: Seq<usize>) -> Seq<int> {
    v.map_values(|n: usize| n as int)
}

/// The cues of a sample of `count` out of `len`, evenly spread from the first to the last.
pub fn uniform_sample_indices(len: usize, count: usize) -> (r: Vec<usize>)
    ensures
        places(r@) == sample(len as int, count as int),
{
    let mut out: Vec<usize> = Vec::new();
    if count >= len {
        let mut i: usize = 0;
        while i < len
            invariant
                0 <= i <= len,
                out@.len() == i,
                forall|k: int| 0 <= k < i ==> (#[trigger] out@[k]) == k,
            decreases len - i,
        {
            out.push(i);
            i = i + 1;
        }
        proof {
            assert(places(out@) =~= sample(len as int, count as int));
        }
        return out;
    }
    if count == 0 {
        proof {
            assert(places(out@) =~= sample(len as int, count as int));
        }
        return out;
    }
    if count == 1 {
        out.push(0);
        proof {
            assert(places(out@) =~= sample(len as int, count as int));
        }
        return out;
    }
    let mut slot: usize = 0;
    while slot < count
        invariant
            2 <= count < len,
            0 <= slot <= count,
            out@.len() == slot,
            forall|k: int|
                0 <= k < slot ==> (#[trigger] out@[k]) == (k * (len - 1)) / (count - 1),
        decreases count - slot,
    {
        proof {
            assert(slot * (len - 1) <= (count - 1) * (len - 1)) by (nonlinear_arith)
                requires
                    0 <= slot <= count - 1,
                    len >= 1,
            ;
            assert((count - 1) * (len - 1) <= u64::MAX * u64::MAX) by (nonlinear_arith)
                requires
                    0 <= count - 1 <= u64::MAX,
                    0 <= len - 1 <= u64::MAX,
            ;
            assert((slot * (len - 1)) / (count - 1) <= len - 1) by (nonlinear_arith)
                requires
                    slot * (len - 1) <= (count - 1) * (len - 1),
                    count - 1 > 0,
                    len >= 1,
            ;
            assert((slot * (len - 1)) / (count - 1) >= 0) by (nonlinear_arith)
                requires
                    0 <= slot,
                    count - 1 > 0,
                    len >= 1,
            ;
            assert(slot * (len - 1) >= 0) by (nonlinear_arith)
                requires
                    0 <= slot,
                    len >= 1,
            ;
        }
        let product: u128 = slot as u128 * (len - 1) as u128;
        let at: u128 = product / (count - 1) as u128;
        out.push(at as usize);
        slot = slot + 1;
    }
    proof {
        assert(places(out@) =~= sample(len as int, count as int));
    }
    out
}

/// A sample of at least two cues keeps the first and the last cue and takes no cue twice.
pub proof fn sample_keeps_both_ends(len: int, count: int)
    requires
        2 <= count <= len,
    ensures
        sample(len, count).len() == count,
        sample(len, count)[0] == 0,
        sample(len, count)[count - 1] == len - 1,
        forall|a: int, b: int| 0 <= a < b < count ==> sample(len, count)[a] < sample(len, count)[b],
        forall|k: int| 0 <= k < count ==> 0 <= #[trigger] sample(len, count)[k] < len,
{
    if count < len {
        let n = len - 1;
        let d = count - 1;
        assert((0 * n) / d == 0) by (nonlinear_arith)
            requires
                d > 0,
        ;
        assert((d * n) / d == n) by (nonlinear_arith)
            requires
                d > 0,
        ;
        assert forall|a: int, b: int| 0 <= a < b < count implies sample(len, count)[a] < sample(
            len,
            count,
        )[b] by {
            assert((a * n) / d < (b * n) / d) by (nonlinear_arith)
                requires
                    0 <= a < b,
                    n >= d,
                    d > 0,
            {
                assert(b * n >= a * n + d);
                assert((a * n + d) / d == (a * n) / d + 1);
                assert((b * n) / d >= (a * n + d) / d);
            }
        }
        assert forall|k: int| 0 <= k < count implies 0 <= #[trigger] sample(len, count)[k] < len by {
            assert(0 <= (k * n) / d <= n) by (nonlinear_arith)
                requires
                    0 <= k <= d,
                    n >= 0,
                    d > 0,
            {
                assert(k * n <= d * n);
                assert((d * n) / d == n);
                assert((k * n) / d <= (d * n) / d);
                assert(0 <= k * n);
            }
        }
    }
}

// ---------------------------------------------------------------------------------------------
// The prompt
// ---------------------------------------------------------------------------------------------

/// The text of an optional string, or nothing.
pub open spec fn text_or_empty(s: Option<String>) -> Seq<char> {
    match s {
        Some(t) => t@,
        None => ""@,
    }
}

fn owned_or_empty(s: &Option<String>) -> (r: String)
    ensures
        r@ == text_or_empty(*s),
{
    match s {
        Some(t) => t.clone(),
        None => "".to_owned(),
    }
}

/// A cue as it stands in a publication prompt.
pub open spec fn subtitle_model(index: int, cue: Cue) -> JsonModel {
    JsonModel::Object(
        seq![
            ("end"@, time_model(cue.end as int)),
            ("i"@, JsonModel::Int(index)),
            ("source"@, JsonModel::Text(cue.source@)),
            ("start"@, time_model(cue.start as int)),
            ("translation"@, JsonModel::Text(text_or_empty(cue.translation))),
        ],
    )
}

/// The cues of a sample as they stand in a publication prompt.
pub open spec fn subtitles_model(cues: Seq<Cue>, indices: Seq<int>) -> Seq<JsonModel> {
    Seq::new(indices.len(), |k: int| subtitle_model(indices[k], cues[indices[k]]))
}

/// What the prompt tells of the sample.
pub open spec fn sampling_model(total: int, included: int, sampled: bool) -> JsonModel {
    JsonModel::Object(
        seq![
            ("included"@, JsonModel::Int(included)),
            ("sampled"@, JsonModel::Bool(sampled)),
            ("total"@, JsonModel::Int(total)),
        ],
    )
}

/// What the prompt tells of the video.
pub open spec fn youtube_model(meta: VideoMetadata) -> JsonModel {
    JsonModel::Object(
        seq![
            ("description"@, JsonModel::Text(text_or_empty(meta.description))),
            ("published_date"@, JsonModel::Text(published_on(meta))),
            ("title"@, JsonModel::Text(meta.title@)),
            (
                "uploader"@,
                JsonModel::Text(
                    match meta.author() {
                        Some(a) => a,
                        None => ""@,
                    },
                ),
            ),
            ("url"@, JsonModel::Text(meta.page())),
        ],
    )
}

/// The prompt for a publication.
pub open spec fn publication_prompt(
    mode: TransferMode,
    meta: VideoMetadata,
    cues: Seq<Cue>,
    indices: Seq<int>,
    sampled: bool,
) -> JsonModel {
    JsonModel::Object(
        seq![
            (
                "subtitle_sampling"@,
                sampling_model(cues.len() as int, indices.len() as int, sampled),
            ),
            ("subtitles"@, JsonModel::List(subtitles_model(cues, indices))),
            ("task"@, JsonModel::Text("publish_metadata"@)),
            ("transfer_mode"@, JsonModel::Text(mode.text())),
            ("youtube"@, youtube_model(meta)),
        ],
    )
}

fn subtitle_json(index: usize, cue: &Cue) -> (r: Json)
    ensures
        r@ == subtitle_model(index as int, *cue),
{
    let mut fields: Vec<(String, Json)> = Vec::new();
    fields.push(("end".to_owned(), time_json(cue.end)));
    fields.push(("i".to_owned(), Json::Uint(index as u64)));
    fields.push(("source".to_owned(), Json::Text(cue.source.clone())));
    fields.push(("start".to_owned(), time_json(cue.start)));
    fields.push(("translation".to_owned(), Json::Text(owned_or_empty(&cue.translation))));
    proof {
        fields_model_index(fields@);
        assert(fields_model(fields@) =~= subtitle_model(index as int, *cue)->Object_0);
    }
    Json::Object(fields)
}

fn youtube_json(meta: &VideoMetadata) -> (r: Json)
    ensures
        r@ == youtube_model(*meta),
{
    let mut fields: Vec<(String, Json)> = Vec::new();
    fields.push(("description".to_owned(), Json::Text(owned_or_empty(&meta.description))));
    fields.push(("published_date".to_owned(), Json::Text(publication_date(meta))));
    fields.push(("title".to_owned(), Json::Text(meta.title.clone())));
    fields.push(("uploader".to_owned(), Json::Text(meta.author_or(""))));
    fields.push(("url".to_owned(), Json::Text(meta.page_url())));
    proof {
        fields_model_index(fields@);
        assert(fields_model(fields@) =~= youtube_model(*meta)->Object_0);
    }
    Json::Object(fields)
}

/// The prompt for a publication with the cues at the given places.
pub fn publication_payload_value(
    mode: TransferMode,
    meta: &VideoMetadata,
    cues: &[Cue],
    indices: &[usize],
    sampled: bool,
) -> (r: Json)
    requires
        forall|k: int| 0 <= k < indices@.len() ==> (#[trigger] indices@[k]) < cues@.len(),
    ensures
        r@ == publication_prompt(mode, *meta, cues@, places(indices@), sampled),
{
    let mut list: Vec<Json> = Vec::new();
    let mut k: usize = 0;
    while k < indices.len()
        invariant
            0 <= k <= indices@.len(),
            forall|j: int| 0 <= j < indices@.len() ==> (#[trigger] indices@[j]) < cues@.len(),
            list@.len() == k,
            forall|j: int|
                0 <= j < k ==> (#[trigger] list@[j])@ == subtitle_model(
                    indices@[j] as int,
                    cues@[indices@[j] as int],
                ),
        decreases indices@.len() - k,
    {
        let at: usize = indices[k];
        assert(indices@[k as int] < cues@.len());
        list.push(subtitle_json(at, &cues[at]));
        k = k + 1;
    }
    proof {
        list_model_index(list@);
        assert(places(indices@).len() == indices@.len());
        assert(list_model(list@) =~= subtitles_model(cues@, places(indices@)));
    }
    let mut sampling: Vec<(String, Json)> = Vec::new();
    sampling.push(("included".to_owned(), Json::Uint(indices.len() as u64)));
    sampling.push(("sampled".to_owned(), Json::Bool(sampled)));
    sampling.push(("total".to_owned(), Json::Uint(cues.len() as u64)));
    proof {
        fields_model_index(sampling@);
        assert(fields_model(sampling@) =~= sampling_model(
            cues@.len() as int,
            places(indices@).len() as int,
            sampled,
        )->Object_0);
    }
    let mut fields: Vec<(String, Json)> = Vec::new();
    fields.push(("subtitle_sampling".to_owned(), Json::Object(sampling)));
    fields.push(("subtitles".to_owned(), Json::List(list)));
    fields.push(("task".to_owned(), Json::Text("publish_metadata".to_owned())));
    fields.push(("transfer_mode".to_owned(), Json::Text(mode.as_str().to_owned())));
    fields.push(("youtube".to_owned(), youtube_json(meta)));
    proof {
        fields_model_index(fields@);
        assert(fields_model(fields@) =~= publication_prompt(
            mode,
            *meta,
            cues@,
            places(indices@),
            sampled,
        )->Object_0);
    }
    Json::Object(fields)
}

/// Tokens of a publication prompt and of the answer to it.
pub open spec fn prompt_tokens(m: JsonModel) -> int {
    capped(
        PI_PROMPT_OVERHEAD_TOKENS + PI_METADATA_OUTPUT_RESERVE_TOKENS + text_tokens(json_text(m)),
    )
}

/// Bytes of a publication prompt.
pub open spec fn prompt_bytes(m: JsonModel) -> int {
    byte_len(json_text(m))
}

/// Whether a publication prompt fits the limits.
pub open spec fn prompt_fits(m: JsonModel, budget: usize) -> bool {
    prompt_tokens(m) <= budget && prompt_bytes(m) <= PI_MAX_PROMPT_ARGUMENT_BYTES
}

/// Tokens of a publication prompt and of the answer to it.
pub fn estimate_publication_tokens(payload: &Json) -> (r: usize)
    ensures
        r == prompt_tokens(payload@),
{
    let text = write_json(payload);
    let tokens: usize = estimate_text_tokens(text.as_str());
    PI_PROMPT_OVERHEAD_TOKENS.saturating_add(PI_METADATA_OUTPUT_RESERVE_TOKENS).saturating_add(
        tokens,
    )
}

fn payload_bytes(payload: &Json) -> (r: usize)
    ensures
        r == prompt_bytes(payload@),
{
    let text = write_json(payload);
    let bytes = text.as_str().as_bytes();
    bytes.len()
}

/// Whether a publication prompt fits the limits.
pub fn publication_payload_fits(payload: &Json, token_budget: usize) -> (r: bool)
    ensures
        r == prompt_fits(payload@, token_budget),
{
    estimate_publication_tokens(payload) <= token_budget && payload_bytes(payload)
        <= PI_MAX_PROMPT_ARGUMENT_BYTES
}

/// Why there is no publication prompt.
#[derive(Debug, PartialEq, Eq, Structural, Clone, Copy)]
pub enum PayloadError {
    /// A translated video has no cues.
    NoSubtitles,
    /// What YouTube tells of the video is over the limits already.
    TooLarge { tokens: usize, bytes: usize },
    /// The prompt is over the limits with the first and the last cue alone.
    TooLargeWithEnds { tokens: usize, bytes: usize },
}

impl PayloadError {
    /// The message for this error.
    pub open spec fn text(self) -> Seq<char> {
        match self {
            PayloadError::NoSubtitles => "翻译字幕模式缺少双语字幕，不能生成投稿元数据"@,
            PayloadError::TooLarge { tokens, bytes } => numbered_of(
                numbered_of(
                    "YouTube 元数据超过 Pi 输入限制: estimated_tokens="@,
                    tokens,
                    ", bytes="@,
                ),
                bytes,
                ""@,
            ),
            PayloadError::TooLargeWithEnds { tokens, bytes } => numbered_of(
                numbered_of(
                    "保留首尾字幕后投稿元数据仍超过 Pi 输入限制: estimated_tokens="@,
                    tokens,
                    ", bytes="@,
                ),
                bytes,
                ""@,
            ),
        }
    }

    /// The message for this error.
    pub fn message(&self) -> (r: String)
        ensures
            r@ == self.text(),
    {
        match self {
            PayloadError::NoSubtitles => "翻译字幕模式缺少双语字幕，不能生成投稿元数据".to_owned(),
            PayloadError::TooLarge { tokens, bytes } => {
                let a = numbered(
                    "YouTube 元数据超过 Pi 输入限制: estimated_tokens=",
                    *tokens,
                    ", bytes=",
                );
                numbered(a.as_str(), *bytes, "")
            },
            PayloadError::TooLargeWithEnds { tokens, bytes } => {
                let a = numbered(
                    "保留首尾字幕后投稿元数据仍超过 Pi 输入限制: estimated_tokens=",
                    *tokens,
                    ", bytes=",
                );
                numbered(a.as_str(), *bytes, "")
            },
        }
    }
}

/// The prompt with a sample of `count` cues.
pub open spec fn sampled_prompt(
    mode: TransferMode,
    meta: VideoMetadata,
    cues: Seq<Cue>,
    count: int,
) -> JsonModel {
    publication_prompt(mode, meta, cues, sample(cues.len() as int, count), true)
}

/// `capped(count * limit) / size`, or nothing where the size is nothing.
pub open spec fn scaled(count: int, limit: int, size: int) -> int {
    if size == 0 {
        0
    } else {
        capped(count * limit) / size
    }
}

/// The next smaller sample, in proportion to how far the limits are overrun.
pub open spec fn next_count(count: int, tokens: int, bytes: int, budget: usize) -> int {
    let by_tokens = scaled(count, budget as int, tokens);
    let by_bytes = scaled(count, PI_MAX_PROMPT_ARGUMENT_BYTES as int, bytes);
    let least = if by_tokens <= by_bytes {
        by_tokens
    } else {
        by_bytes
    };
    if least < 2 {
        2
    } else if least > count - 1 {
        count - 1
    } else {
        least
    }
}

/// The size of the first sample from `count` on whose prompt fits the limits.
pub open spec fn fitting_count(
    mode: TransferMode,
    meta: VideoMetadata,
    cues: Seq<Cue>,
    budget: usize,
    count: int,
) -> Option<int>
    decreases count,
{
    let m = sampled_prompt(mode, meta, cues, count);
    if prompt_fits(m, budget) {
        Some(count)
    } else if count <= 2 {
        None
    } else {
        fitting_count(
            mode,
            meta,
            cues,
            budget,
            next_count(count, prompt_tokens(m), prompt_bytes(m), budget),
        )
    }
}

/// The first sample that is tried: all cues but one, and at least two.
pub open spec fn first_count(len: int) -> int {
    if len - 1 < 2 {
        2
    } else {
        len - 1
    }
}

fn scale(count: usize, limit: usize, size: usize) -> (r: usize)
    ensures
        r == scaled(count as int, limit as int, size as int),
{
    if size == 0 {
        return 0;
    }
    proof {
        assert(0 <= count * limit <= u64::MAX * u64::MAX) by (nonlinear_arith)
            requires
                0 <= count <= u64::MAX,
                0 <= limit <= u64::MAX,
        ;
    }
    let product: u128 = count as u128 * limit as u128;
    let most: u128 = usize::MAX as u128;
    let low: usize = if product <= most {
        product as usize
    } else {
        usize::MAX
    };
    low / size
}

/// The cues of an optional list.
pub open spec fn cues_or_none(cues: Option<&[Cue]>) -> Seq<Cue> {
    match cues {
        Some(c) => c@,
        None => Seq::empty(),
    }
}

/// The prompt for a publication. All cues go along where they fit the limits; else an even sample
/// with the first and the last cue, made smaller until it fits.
pub fn build_publication_payload(
    mode: TransferMode,
    meta: &VideoMetadata,
    cues: Option<&[Cue]>,
    budget: usize,
) -> (r: Result<Json, PayloadError>)
    ensures
        ({
            let all = cues_or_none(cues);
            let full = publication_prompt(
                mode,
                *meta,
                all,
                sample(all.len() as int, all.len() as int),
                false,
            );
            let count = fitting_count(mode, *meta, all, budget, first_count(all.len() as int));
            if mode == TransferMode::Translated && all.len() == 0 {
                r == Err::<Json, PayloadError>(PayloadError::NoSubtitles)
            } else if prompt_fits(full, budget) {
                r matches Ok(v) && v@ == full
            } else if mode == TransferMode::Direct {
                r matches Err(e) && e == (PayloadError::TooLarge {
                    tokens: prompt_tokens(full) as usize,
                    bytes: prompt_bytes(full) as usize,
                })
            } else if count is Some {
                r matches Ok(v) && v@ == sampled_prompt(mode, *meta, all, count->Some_0)
            } else {
                r matches Err(e) && e == (PayloadError::TooLargeWithEnds {
                    tokens: prompt_tokens(sampled_prompt(mode, *meta, all, 2)) as usize,
                    bytes: prompt_bytes(sampled_prompt(mode, *meta, all, 2)) as usize,
                })
            }
        }),
{
    let ghost all = cues_or_none(cues);
    let none: Vec<Cue> = Vec::new();
    let list: &[Cue] = match cues {
        Some(c) => c,
        None => none.as_slice(),
    };
    proof {
        assert(list@ =~= all);
    }
    let translated = match mode {
        TransferMode::Translated => true,
        TransferMode::Direct => false,
    };
    if translated && list.len() == 0 {
        return Err(PayloadError::NoSubtitles);
    }
    let every = uniform_sample_indices(list.len(), list.len());
    proof {
        assert forall|k: int| 0 <= k < every@.len() implies (#[trigger] every@[k]) < list@.len() by {
            assert(places(every@)[k] == every@[k] as int);
            assert(sample(all.len() as int, all.len() as int)[k] == k);
        }
    }
    let full = publication_payload_value(mode, meta, list, every.as_slice(), false);
    if publication_payload_fits(&full, budget) {
        return Ok(full);
    }
    if !translated {
        return Err(
            PayloadError::TooLarge {
                tokens: estimate_publication_tokens(&full),
                bytes: payload_bytes(&full),
            },
        );
    }
    let mut count: usize = if list.len() < 3 {
        2
    } else {
        list.len() - 1
    };
    loop
        invariant
            list@ == all,
            all.len() > 0,
            translated,
            mode == TransferMode::Translated,
            all == cues_or_none(cues),
            count >= 2,
            fitting_count(mode, *meta, all, budget, count as int) == fitting_count(
                mode,
                *meta,
                all,
                budget,
                first_count(all.len() as int),
            ),
            !prompt_fits(
                publication_prompt(
                    mode,
                    *meta,
                    all,
                    sample(all.len() as int, all.len() as int),
                    false,
                ),
                budget,
            ),
        decreases count,
    {
        let indices = uniform_sample_indices(list.len(), count);
        proof {
            sample_inside(all.len() as int, count as int);
            assert forall|k: int| 0 <= k < indices@.len() implies (#[trigger] indices@[k])
                < list@.len() by {
                assert(places(indices@)[k] == indices@[k] as int);
            }
        }
        let sampled = publication_payload_value(mode, meta, list, indices.as_slice(), true);
        let tokens: usize = estimate_publication_tokens(&sampled);
        let bytes: usize = payload_bytes(&sampled);
        if tokens <= budget && bytes <= PI_MAX_PROMPT_ARGUMENT_BYTES {
            return Ok(sampled);
        }
        if count == 2 {
            return Err(PayloadError::TooLargeWithEnds { tokens, bytes });
        }
        let by_tokens: usize = scale(count, budget, tokens);
        let by_bytes: usize = scale(count, PI_MAX_PROMPT_ARGUMENT_BYTES, bytes);
        let least: usize = if by_tokens <= by_bytes {
            by_tokens
        } else {
            by_bytes
        };
        count = if least < 2 {
            2
        } else if least > count - 1 {
            count - 1
        } else {
            least
        };
    }
}

proof fn sample_inside(len: int, count: int)
    requires
        len > 0,
        count >= 2,
    ensures
        forall|k: int|
            0 <= k < sample(len, count).len() ==> 0 <= #[trigger] sample(len, count)[k] < len,
{
    if count < len {
        sample_keeps_both_ends(len, count);
    }
}

/// A prompt with the model's last refusal in it.
pub open spec fn with_feedback(m: JsonModel, feedback: Seq<char>) -> JsonModel {
    match m {
        JsonModel::Object(fields) => JsonModel::Object(
            seq![("feedback"@, JsonModel::Text(feedback))] + fields,
        ),
        other => other,
    }
}

/// Adds to a prompt why the answer to it was refused.
pub fn add_feedback(payload: Json, feedback: &str) -> (r: Json)
    ensures
        r@ == with_feedback(payload@, feedback@),
{
    match payload {
        Json::Object(fields) => {
            let ghost before = fields@;
            let mut fields = fields;
            fields.insert(0, ("feedback".to_owned(), Json::Text(feedback.to_owned())));
            proof {
                fields_model_index(before);
                fields_model_index(fields@);
                assert(fields_model(fields@) =~= seq![
                    ("feedback"@, JsonModel::Text(feedback@)),
                ] + fields_model(before));
            }
            Json::Object(fields)
        },
        other => other,
    }
}

// ---------------------------------------------------------------------------------------------
// The answer
// ---------------------------------------------------------------------------------------------

/// The list of tags of an answer.
pub open spec fn tag_items(m: JsonModel) -> Option<Seq<JsonModel>> {
    match member(m, "tags"@) {
        Some(JsonModel::List(items)) => Some(items),
        _ => None,
    }
}

/// Whether every item is a text.
pub open spec fn all_texts(items: Seq<JsonModel>) -> bool {
    forall|i: int| 0 <= i < items.len() ==> (#[trigger] items[i]) is Text
}

/// The texts of items that are all texts.
pub open spec fn texts_of(items: Seq<JsonModel>) -> Seq<Seq<char>> {
    items.map_values(|m: JsonModel| m->Text_0)
}

/// What is wrong with an answer to a publication prompt, if anything.
pub open spec fn answer_fault(m: JsonModel) -> Option<PublicationError> {
    match (text_field(m, "title"@), text_field(m, "dynamic"@), tag_items(m)) {
        (None, _, _) => Some(PublicationError::MissingText(Field::Title)),
        (_, None, _) => Some(PublicationError::MissingText(Field::Dynamic)),
        (_, _, None) => Some(PublicationError::MissingTags),
        (Some(title), Some(dynamic), Some(items)) => if items.len() == 0 {
            Some(PublicationError::EmptyTags)
        } else if !all_texts(items) {
            Some(PublicationError::TagNotText)
        } else {
            publication_fault(
                sanitized(title),
                sanitized(dynamic),
                tags_after(texts_of(items), items.len() as int),
                BILIBILI_TID as int,
            )
        },
    }
}

/// Whether `p` is what an answer without fault makes.
pub open spec fn publication_of(m: JsonModel, p: PublicationMetadata) -> bool {
    &&& text_field(m, "title"@) matches Some(t) && p.title@ == sanitized(t)
    &&& text_field(m, "dynamic"@) matches Some(d) && p.dynamic@ == sanitized(d)
    &&& tag_items(m) matches Some(items) && views(p.tags@) == tags_after(
        texts_of(items),
        items.len() as int,
    )
    &&& p.tid == BILIBILI_TID
    &&& p.raw_json@ == json_text(m)
}

fn text_in<'a>(v: &'a Json, key: &str) -> (r: Option<&'a String>)
    ensures
        r is Some <==> text_field(v@, key@) is Some,
        r matches Some(t) ==> text_field(v@, key@) == Some(t@),
{
    match v.get(key) {
        Some(x) => x.as_text(),
        None => None,
    }
}

/// The publication that an answer makes: its texts and tags cleaned, and then checked.
pub fn parse_publication_metadata(value: &Json) -> (r: Result<
    PublicationMetadata,
    PublicationError,
>)
    ensures
        r is Ok <==> answer_fault(value@) is None,
        r matches Ok(p) ==> publication_of(value@, p),
        r matches Err(e) ==> answer_fault(value@) == Some(e),
{
    let title = match text_in(value, "title") {
        Some(t) => sanitize_publication_text(t.as_str()),
        None => {
            return Err(PublicationError::MissingText(Field::Title));
        },
    };
    let dynamic = match text_in(value, "dynamic") {
        Some(t) => sanitize_publication_text(t.as_str()),
        None => {
            return Err(PublicationError::MissingText(Field::Dynamic));
        },
    };
    let items = match value.get("tags") {
        Some(x) => match x.as_list() {
            Some(items) => items,
            None => {
                return Err(PublicationError::MissingTags);
            },
        },
        None => {
            return Err(PublicationError::MissingTags);
        },
    };
    let ghost models = list_model(items@);
    proof {
        list_model_index(items@);
    }
    if items.len() == 0 {
        return Err(PublicationError::EmptyTags);
    }
    let mut raw: Vec<String> = Vec::new();
    let mut i: usize = 0;
    while i < items.len()
        invariant
            0 <= i <= items@.len(),
            items@.len() > 0,
            models == list_model(items@),
            models.len() == items@.len(),
            forall|j: int| 0 <= j < models.len() ==> #[trigger] models[j] == items@[j]@,
            raw@.len() == i,
            forall|j: int|
                0 <= j < i ==> models[j] == JsonModel::Text((#[trigger] raw@[j])@),
            tag_items(value@) == Some(models),
            text_field(value@, "title"@) is Some,
            text_field(value@, "dynamic"@) is Some,
        decreases items@.len() - i,
    {
        assert(models[i as int] == items@[i as int]@);
        match items[i].as_text() {
            Some(t) => {
                raw.push(t.clone());
            },
            None => {
                assert(!(models[i as int] is Text));
                return Err(PublicationError::TagNotText);
            },
        }
        i = i + 1;
    }
    proof {
        assert forall|j: int| 0 <= j < models.len() implies (#[trigger] models[j]) is Text by {
            assert(models[j] == JsonModel::Text(raw@[j]@));
        }
        assert forall|j: int| 0 <= j < models.len() implies views(raw@)[j] == texts_of(
            models,
        )[j] by {
            assert(models[j] == JsonModel::Text(raw@[j]@));
        }
        assert(views(raw@) =~= texts_of(models));
    }
    let metadata = PublicationMetadata {
        title,
        dynamic,
        tags: sanitize_tags(raw.as_slice()),
        tid: BILIBILI_TID,
        raw_json: write_json(value),
    };
    match validate_publication_metadata(&metadata) {
        Ok(()) => Ok(metadata),
        Err(e) => Err(e),
    }
}

/// An answer is never refused for a hashtag, a link or an emoji in its title: cleaning takes them
/// out, and only a title with nothing left is refused, as blank.
pub proof fn links_and_topics_never_refuse_a_title(m: JsonModel)
    ensures
        answer_fault(m) != Some(PublicationError::TitleLinkOrTopic),
        answer_fault(m) != Some(PublicationError::Emoji),
        answer_fault(m) != Some(PublicationError::TagList),
        answer_fault(m) != Some(PublicationError::TagLength),
{
    if text_field(m, "title"@) is Some && text_field(m, "dynamic"@) is Some && tag_items(
        m,
    ) is Some {
        let title = text_field(m, "title"@)->Some_0;
        let dynamic = text_field(m, "dynamic"@)->Some_0;
        let items = tag_items(m)->Some_0;
        sanitized_is_clean(title);
        sanitized_is_clean(dynamic);
        cleaned_tags_pass(texts_of(items), items.len() as int);
    }
}

/// What the model is told after a refused answer.
pub open spec fn refusal_text(error: Seq<char>) -> Seq<char> {
    "上一轮输出被拒绝："@ + error
        + "。请按原因修正（通常需要缩短标题/动态）后重新输出完整 JSON。"@
}

/// What follows from an answer to a publication prompt.
#[derive(Debug)]
pub enum PublishStep {
    /// The publication is used.
    Accept(PublicationMetadata),
    /// The model is asked again, with this feedback.
    Retry { feedback: String },
    /// The answer was refused for the last time.
    Fail(PublicationError),
}

/// Judges answer number `attempt`, counted from 0. A refused answer is asked for again with the
/// reason, twice at most.
pub fn judge_publication(attempt: usize, value: &Json) -> (r: PublishStep)
    ensures
        r is Accept <==> answer_fault(value@) is None,
        r matches PublishStep::Accept(p) ==> publication_of(value@, p),
        r is Retry <==> answer_fault(value@) is Some && attempt < PUBLICATION_FEEDBACK_RETRIES,
        r matches PublishStep::Retry { feedback } ==> feedback@ == refusal_text(
            answer_fault(value@)->Some_0.text(),
        ),
        r matches PublishStep::Fail(e) ==> answer_fault(value@) == Some(e),
{
    match parse_publication_metadata(value) {
        Ok(p) => PublishStep::Accept(p),
        Err(e) => if attempt < PUBLICATION_FEEDBACK_RETRIES {
            let reason = e.message();
            let mut feedback = join("上一轮输出被拒绝：", reason.as_str());
            feedback.append("。请按原因修正（通常需要缩短标题/动态）后重新输出完整 JSON。");
            PublishStep::Retry { feedback }
        } else {
            PublishStep::Fail(e)
        },
    }
}

/// Whether `p` is the saved publication `saved`, cleaned.
pub open spec fn cleaned(saved: PublicationMetadata, p: PublicationMetadata) -> bool {
    &&& p.title@ == sanitized(saved.title@)
    &&& p.dynamic@ == sanitized(saved.dynamic@)
    &&& views(p.tags@) == tags_after(views(saved.tags@), saved.tags@.len() as int)
    &&& p.tid == saved.tid
    &&& p.raw_json@ == saved.raw_json@
}

/// What is wrong with a saved publication after it was cleaned, if anything.
pub open spec fn cleaned_fault(saved: PublicationMetadata) -> Option<PublicationError> {
    publication_fault(
        sanitized(saved.title@),
        sanitized(saved.dynamic@),
        tags_after(views(saved.tags@), saved.tags@.len() as int),
        saved.tid as int,
    )
}

/// The saved publication of a job, where it may still be used: as it is where it passes the
/// checks, else cleaned where it passes them then. Nothing means that a new one is made.
pub fn reuse_publication(saved: PublicationMetadata) -> (r: Option<PublicationMetadata>)
    ensures
        r is Some <==> metadata_fault(saved) is None || cleaned_fault(saved) is None,
        metadata_fault(saved) is None ==> r == Some(saved),
        r matches Some(p) ==> metadata_fault(p) is None && (metadata_fault(saved) is Some
            ==> cleaned(saved, p)),
{
    match validate_publication_metadata(&saved) {
        Ok(()) => Some(saved),
        Err(_) => {
            let p = PublicationMetadata {
                title: sanitize_publication_text(saved.title.as_str()),
                dynamic: sanitize_publication_text(saved.dynamic.as_str()),
                tags: sanitize_tags(saved.tags.as_slice()),
                tid: saved.tid,
                raw_json: saved.raw_json.clone(),
            };
            match validate_publication_metadata(&p) {
                Ok(()) => Some(p),
                Err(_) => None,
            }
        },
    }
}

// ---------------------------------------------------------------------------------------------
// What a submission says
// ---------------------------------------------------------------------------------------------

/// The uploader gets the publication's own title, dynamic and tags behind their flags, whatever the
/// source video is called, and the fixed choices of this service.
pub proof fn upload_says_the_publication(m: PublicationMetadata, meta: VideoMetadata)
    ensures
        upload_args(m, meta).len() == 18,
        upload_args(m, meta)[2] == "--title"@ && upload_args(m, meta)[3] == m.title@,
        upload_args(m, meta)[10] == "--dynamic"@ && upload_args(m, meta)[11] == m.dynamic@,
        upload_args(m, meta)[6] == "--tag"@,
        m.tags@.len() == 1 ==> upload_args(m, meta)[7] == m.tags@[0]@,
        m.tags@.len() == 2 ==> upload_args(m, meta)[7] == m.tags@[0]@ + ","@ + m.tags@[1]@,
        upload_args(m, meta)[0] == "--submit"@ && upload_args(m, meta)[1] == "web"@,
        upload_args(m, meta)[4] == "--desc"@,
        upload_args(m, meta)[8] == "--tid"@ && upload_args(m, meta)[9] == "172"@,
        upload_args(m, meta)[12] == "--copyright"@ && upload_args(m, meta)[13] == "1"@,
        upload_args(m, meta)[14] == "--no-reprint"@ && upload_args(m, meta)[15] == "0"@,
        upload_args(m, meta)[16] == "--limit"@ && upload_args(m, meta)[17] == "1"@,
{
    reveal_with_fuel(joined, 3);
    if m.tags@.len() == 1 {
        assert(views(m.tags@)[0] == m.tags@[0]@);
        assert(views(m.tags@) =~= seq![m.tags@[0]@]);
    }
    if m.tags@.len() == 2 {
        assert(views(m.tags@) =~= seq![m.tags@[0]@, m.tags@[1]@]);
        assert(views(m.tags@).drop_last() =~= seq![m.tags@[0]@]);
    }
}

/// Only the description depends on the source video, and only the rest on the publication: other
/// titles give another title argument, and another source alone gives the same one.
pub proof fn upload_keeps_source_and_publication_apart(
    m: PublicationMetadata,
    n: PublicationMetadata,
    meta: VideoMetadata,
    other: VideoMetadata,
)
    ensures
        forall|i: int|
            0 <= i < 18 && i != 5 ==> #[trigger] upload_args(m, meta)[i] == upload_args(m, other)[i],
        upload_args(m, meta)[5] == upload_args(n, meta)[5],
        m.title@ != n.title@ ==> upload_args(m, meta)[3] != upload_args(n, other)[3],
        m.dynamic@ != n.dynamic@ ==> upload_args(m, meta)[11] != upload_args(n, other)[11],
{
}

/// A description names the source's page, its author and its day of publication, each on a line of
/// its own, after the source's title without hashtags where any is left.
pub proof fn description_names_the_source(meta: VideoMetadata)
    ensures
        ({
            let lines = description_lines(meta);
            let n = lines.len();
            &&& n == 4 || n == 5
            &&& lines[n - 4] == "来源："@ + (match meta.webpage_url {
                Some(u) => u@,
                None => meta.url@,
            })
            &&& meta.uploader matches Some(a) ==> lines[n - 3] == "原作者："@ + a@
            &&& meta.uploader is None ==> (meta.channel matches Some(c) ==> lines[n - 3]
                == "原作者："@ + c@)
            &&& meta.uploader is None && meta.channel is None ==> lines[n - 3] == "原作者：未知"@
            &&& meta.upload_date is None && meta.timestamp is None ==> lines[n - 2]
                == "原视频发布时间：未知"@
            &&& lines[n - 1] == "处理工具：https://github.com/Mist-wu/y2b-rs"@
        }),
{
    reveal_strlit("原作者：");
    reveal_strlit("原作者：未知");
    reveal_strlit("未知");
    reveal_strlit("原视频发布时间：");
    reveal_strlit("原视频发布时间：未知");
    assert("原作者："@ + "未知"@ =~= "原作者：未知"@);
    assert("原视频发布时间："@ + "未知"@ =~= "原视频发布时间：未知"@);
}

/// A day of eight digits is told as year, month and day, in that order.
pub proof fn dates_keep_their_digits(meta: VideoMetadata, d: Seq<char>)
    requires
        meta.upload_date matches Some(x) && x@ == d,
        d.len() == 8,
        forall|i: int| 0 <= i < 8 ==> '0' <= #[trigger] d[i] && d[i] <= '9',
    ensures
        published_on(meta).len() == 10,
        forall|i: int| 0 <= i < 4 ==> #[trigger] published_on(meta)[i] == d[i],
        published_on(meta)[4] == '-' && published_on(meta)[7] == '-',
        published_on(meta)[5] == d[4] && published_on(meta)[6] == d[5],
        published_on(meta)[8] == d[6] && published_on(meta)[9] == d[7],
{
}

/// A title without hashtags has just the words that are none, in their order.
pub proof fn only_hashtags_are_dropped(words: Seq<Seq<char>>, i: int)
    requires
        0 <= i < words.len(),
    ensures
        spoken_words(words, 0).len() == 0,
        words[i].len() > 0 && (words[i][0] == '#' || words[i][0] == '＃') ==> spoken_words(
            words,
            i + 1,
        ) == spoken_words(words, i),
        !(words[i].len() > 0 && (words[i][0] == '#' || words[i][0] == '＃')) ==> spoken_words(
            words,
            i + 1,
        ) == spoken_words(words, i).push(words[i]),
{
}

// ---------------------------------------------------------------------------------------------
// What the model is asked, and what of its answer is used
// ---------------------------------------------------------------------------------------------

/// What the model is asked: to write about this video, in this mode, with these of its cues.
pub proof fn models_are_told_the_video(
    mode: TransferMode,
    meta: VideoMetadata,
    cues: Seq<Cue>,
    indices: Seq<int>,
    sampled: bool,
    k: int,
)
    requires
        0 <= k < indices.len(),
        0 <= indices[k] < cues.len(),
    ensures
        ({
            let m = publication_prompt(mode, meta, cues, indices, sampled);
            &&& member(m, "task"@) == Some(JsonModel::Text("publish_metadata"@))
            &&& mode == TransferMode::Direct ==> member(m, "transfer_mode"@) == Some(
                JsonModel::Text("direct"@),
            )
            &&& mode == TransferMode::Translated ==> member(m, "transfer_mode"@) == Some(
                JsonModel::Text("translated"@),
            )
            &&& member(m, "youtube"@) == Some(youtube_model(meta))
            &&& member(m, "subtitle_sampling"@) == Some(
                sampling_model(cues.len() as int, indices.len() as int, sampled),
            )
            &&& member(m, "subtitles"@) matches Some(JsonModel::List(items))
            &&& items.len() == indices.len()
            &&& items[k] == subtitle_model(indices[k], cues[indices[k]])
        }),
{
    reveal_strlit("subtitle_sampling");
    reveal_strlit("subtitles");
    reveal_strlit("task");
    reveal_strlit("transfer_mode");
    reveal_strlit("youtube");
    assert("subtitle_sampling"@.len() == 17 && "subtitles"@.len() == 9 && "task"@.len() == 4
        && "transfer_mode"@.len() == 13 && "youtube"@.len() == 7);
    let fields = publication_prompt(mode, meta, cues, indices, sampled)->Object_0;
    assert(fields[0].0 == "subtitle_sampling"@ && fields[1].0 == "subtitles"@ && fields[2].0
        == "task"@ && fields[3].0 == "transfer_mode"@ && fields[4].0 == "youtube"@);
    member_is(fields, 0);
    member_is(fields, 1);
    member_is(fields, 2);
    member_is(fields, 3);
    member_is(fields, 4);
}

/// Of a video the model is told its own title, who made it, when, where and what is written below
/// it.
pub proof fn models_are_told_the_source(meta: VideoMetadata)
    ensures
        ({
            let m = youtube_model(meta);
            &&& member(m, "title"@) == Some(JsonModel::Text(meta.title@))
            &&& member(m, "published_date"@) == Some(JsonModel::Text(published_on(meta)))
            &&& meta.description is Some ==> member(m, "description"@) == Some(
                JsonModel::Text(meta.description->Some_0@),
            )
            &&& meta.uploader is Some ==> member(m, "uploader"@) == Some(
                JsonModel::Text(meta.uploader->Some_0@),
            )
            &&& meta.webpage_url is Some ==> member(m, "url"@) == Some(
                JsonModel::Text(meta.webpage_url->Some_0@),
            )
            &&& meta.webpage_url is None ==> member(m, "url"@) == Some(JsonModel::Text(meta.url@))
        }),
{
    reveal_strlit("description");
    reveal_strlit("published_date");
    reveal_strlit("title");
    reveal_strlit("uploader");
    reveal_strlit("url");
    assert("description"@.len() == 11 && "published_date"@.len() == 14 && "title"@.len() == 5
        && "uploader"@.len() == 8 && "url"@.len() == 3);
    let fields = youtube_model(meta)->Object_0;
    assert(fields[0].0 == "description"@ && fields[1].0 == "published_date"@ && fields[2].0
        == "title"@ && fields[3].0 == "uploader"@ && fields[4].0 == "url"@);
    member_is(fields, 0);
    member_is(fields, 1);
    member_is(fields, 2);
    member_is(fields, 3);
    member_is(fields, 4);
}

/// Of a cue the model is told its place, its text and its translation; of the sample, how many
/// there are and how many are told.
pub proof fn models_are_told_the_sample(index: int, cue: Cue, total: int, included: int, sampled: bool)
    ensures
        ({
            let m = subtitle_model(index, cue);
            &&& member(m, "i"@) == Some(JsonModel::Int(index))
            &&& member(m, "source"@) == Some(JsonModel::Text(cue.source@))
            &&& cue.translation is Some ==> member(m, "translation"@) == Some(
                JsonModel::Text(cue.translation->Some_0@),
            )
        }),
        ({
            let m = sampling_model(total, included, sampled);
            &&& member(m, "total"@) == Some(JsonModel::Int(total))
            &&& member(m, "included"@) == Some(JsonModel::Int(included))
            &&& member(m, "sampled"@) == Some(JsonModel::Bool(sampled))
        }),
{
    reveal_strlit("end");
    reveal_strlit("i");
    reveal_strlit("source");
    reveal_strlit("start");
    reveal_strlit("translation");
    reveal_strlit("included");
    reveal_strlit("sampled");
    reveal_strlit("total");
    assert("end"@.len() == 3 && "i"@.len() == 1 && "source"@.len() == 6 && "start"@.len() == 5
        && "translation"@.len() == 11);
    assert("included"@.len() == 8 && "sampled"@.len() == 7 && "total"@.len() == 5);
    let fields = subtitle_model(index, cue)->Object_0;
    assert(fields[0].0 == "end"@ && fields[1].0 == "i"@ && fields[2].0 == "source"@ && fields[3].0
        == "start"@ && fields[4].0 == "translation"@);
    member_is(fields, 1);
    member_is(fields, 2);
    member_is(fields, 4);
    let parts = sampling_model(total, included, sampled)->Object_0;
    assert(parts[0].0 == "included"@ && parts[1].0 == "sampled"@ && parts[2].0 == "total"@);
    member_is(parts, 0);
    member_is(parts, 1);
    member_is(parts, 2);
}

/// A sample of all cues is all of them, in order; a smaller one is spread evenly from the first to
/// the last.
pub proof fn samples_are_spread_evenly(len: int, count: int, k: int)
    requires
        2 <= len,
    ensures
        count >= len && 0 <= k < len ==> sample(len, count).len() == len && sample(len, count)[k] == k,
        2 <= count < len && 0 <= k < count ==> {
            let at = sample(len, count)[k];
            &&& at * (count - 1) <= k * (len - 1)
            &&& k * (len - 1) < (at + 1) * (count - 1)
        },
        count == 1 ==> sample(len, count) == seq![0int],
        count <= 0 ==> sample(len, count).len() == 0,
{
    if 2 <= count < len && 0 <= k < count {
        let x = k * (len - 1);
        let d = count - 1;
        vstd::arithmetic::div_mod::lemma_fundamental_div_mod(x, d);
        vstd::arithmetic::div_mod::lemma_mod_bound(x, d);
        let q = x / d;
        assert(q * d <= x && x < (q + 1) * d) by (nonlinear_arith)
            requires
                x == d * q + x % d,
                0 <= x % d < d,
        ;
    }
}

/// A prompt fits where its tokens, with room for the answer, and its bytes are within the limits.
pub proof fn prompts_leave_room_for_the_answer(m: JsonModel, budget: usize)
    requires
        3_072 + text_tokens(json_text(m)) <= usize::MAX,
    ensures
        prompt_fits(m, budget) <==> 3_072 + text_tokens(json_text(m)) <= budget && byte_len(
            json_text(m),
        ) <= 98_304,
{
}

/// The sample that is used is the first in turn that fits; each next one is smaller, and none has
/// fewer than two cues.
pub proof fn samples_shrink_until_they_fit(
    mode: TransferMode,
    meta: VideoMetadata,
    cues: Seq<Cue>,
    budget: usize,
    count: int,
)
    requires
        count >= 2,
    ensures
        ({
            let r = fitting_count(mode, meta, cues, budget, count);
            &&& r matches Some(n) ==> 2 <= n <= count && prompt_fits(
                sampled_prompt(mode, meta, cues, n),
                budget,
            )
            &&& prompt_fits(sampled_prompt(mode, meta, cues, count), budget) ==> r == Some(count)
            &&& r is None ==> !prompt_fits(sampled_prompt(mode, meta, cues, 2), budget)
        }),
    decreases count,
{
    let m = sampled_prompt(mode, meta, cues, count);
    if !prompt_fits(m, budget) && count > 2 {
        samples_shrink_until_they_fit(
            mode,
            meta,
            cues,
            budget,
            next_count(count, prompt_tokens(m), prompt_bytes(m), budget),
        );
    }
}

/// An answer is used with its title and its dynamic cleaned, its tags behind the game's, in the one
/// section; nothing of the answer's own section counts.
pub proof fn answers_are_cleaned(m: JsonModel, p: PublicationMetadata, title: Seq<char>, dynamic: Seq<char>)
    requires
        publication_of(m, p),
        member(m, "title"@) == Some(JsonModel::Text(title)),
        member(m, "dynamic"@) == Some(JsonModel::Text(dynamic)),
    ensures
        p.title@ == sanitized(title),
        p.dynamic@ == sanitized(dynamic),
        p.tid == 172,
        p.tags@.len() >= 1 && p.tags@[0]@ == "荒野乱斗"@,
        p.raw_json@ == json_text(m),
{
    let items = tag_items(m)->Some_0;
    cleaned_tags_pass(texts_of(items), items.len() as int);
    assert(views(p.tags@)[0] == p.tags@[0]@);
}

/// An answer is refused where its title, its dynamic or its tags are missing, its tags are empty or
/// not all texts.
pub proof fn incomplete_answers_are_refused(m: JsonModel)
    ensures
        answer_fault(m) is None ==> {
            &&& member(m, "title"@) is Some && member(m, "title"@)->Some_0 is Text
            &&& member(m, "dynamic"@) is Some && member(m, "dynamic"@)->Some_0 is Text
            &&& member(m, "tags"@) is Some && member(m, "tags"@)->Some_0 is List
            &&& member(m, "tags"@)->Some_0->List_0.len() > 0
            &&& forall|i: int|
                0 <= i < member(m, "tags"@)->Some_0->List_0.len() ==> (#[trigger] member(
                    m,
                    "tags"@,
                )->Some_0->List_0[i]) is Text
            &&& width_of(sanitized(member(m, "title"@)->Some_0->Text_0)) <= 70
            &&& width_of(sanitized(member(m, "dynamic"@)->Some_0->Text_0)) <= 120
        },
{
}

/// A question that is asked again tells what was wrong, before all that it told the first time.
pub proof fn feedback_is_told(fields: Seq<(Seq<char>, JsonModel)>, feedback: Seq<char>, k: int)
    requires
        0 <= k < fields.len(),
        fields[k].0 != "feedback"@,
        forall|j: int| 0 <= j < k ==> (#[trigger] fields[j]).0 != fields[k].0,
    ensures
        ({
            let m = with_feedback(JsonModel::Object(fields), feedback);
            &&& member(m, "feedback"@) == Some(JsonModel::Text(feedback))
            &&& member(m, fields[k].0) == Some(fields[k].1)
        }),
{
    let all = with_feedback(JsonModel::Object(fields), feedback)->Object_0;
    assert(all[0].0 == "feedback"@);
    member_is(all, 0);
    assert(all[k + 1] == fields[k]);
    assert forall|j: int| 0 <= j < k + 1 implies (#[trigger] all[j]).0 != all[k + 1].0 by {
        if j > 0 {
            assert(all[j] == fields[j - 1]);
        }
    }
    member_is(all, k + 1);
}

/// A title without hashtags keeps all other words; one of hashtags alone is left out of the
/// description.
pub proof fn titles_are_told_without_hashtags(meta: VideoMetadata)
    ensures
        spoken_title(meta.title@).len() > 0 ==> description_lines(meta).len() == 5
            && description_lines(meta)[0] == "原标题："@ + spoken_title(meta.title@),
        spoken_title(meta.title@).len() == 0 ==> description_lines(meta).len() == 4,
        words_of(meta.title@).len() == 1 && words_of(meta.title@)[0].len() > 0
            && words_of(meta.title@)[0][0] != '#' && words_of(meta.title@)[0][0] != '＃'
            ==> spoken_title(meta.title@) == words_of(meta.title@)[0],
{
    let words = words_of(meta.title@);
    if words.len() == 1 {
        only_hashtags_are_dropped(words, 0);
        assert(spoken_words(words, 0) =~= Seq::<Seq<char>>::empty());
        if words[0].len() > 0 && words[0][0] != '#' && words[0][0] != '＃' {
            assert(spoken_words(words, 1) =~= seq![words[0]]);
            assert(joined(seq![words[0]], " "@) == words[0]);
        }
    }
}

/// A publication that was kept is cleaned as a new one is, and keeps its section and its answer.
pub proof fn kept_publications_are_cleaned(saved: PublicationMetadata, p: PublicationMetadata)
    requires
        cleaned(saved, p),
    ensures
        p.title@ == sanitized(saved.title@),
        p.dynamic@ == sanitized(saved.dynamic@),
        p.tid == saved.tid && p.raw_json@ == saved.raw_json@,
        p.tags@.len() >= 1 && p.tags@[0]@ == "荒野乱斗"@,
        p.tags@.len() <= 4,
{
    cleaned_tags_pass(views(saved.tags@), saved.tags@.len() as int);
    assert(views(p.tags@)[0] == p.tags@[0]@);
}

/// Without a plain date the day of publication is that of the timestamp.
pub proof fn dates_come_from_the_timestamp(meta: VideoMetadata, seconds: i64)
    requires
        meta.upload_date is None || meta.upload_date->Some_0@.len() != 8,
        meta.timestamp == Some(seconds),
    ensures
        utc_date_text(seconds as int) is Some ==> published_on(meta) == utc_date_text(
            seconds as int,
        )->Some_0,
        utc_date_text(seconds as int) is None ==> published_on(meta) == "未知"@,
{
}

/// The next sample is as much smaller as the prompt is too large, is smaller in any case, and keeps
/// two cues.
pub proof fn samples_shrink_in_proportion(count: int, tokens: int, bytes: int, budget: usize)
    requires
        count > 2,
        tokens > 0,
        bytes > 0,
    ensures
        2 <= next_count(count, tokens, bytes, budget) < count,
        ({
            let n = next_count(count, tokens, bytes, budget);
            let by_tokens = (count * budget) / tokens;
            let by_bytes = (count * 98_304) / bytes;
            count * budget <= usize::MAX && count * 98_304 <= usize::MAX && 2 <= by_tokens
                && by_tokens <= by_bytes && by_tokens <= count - 1 ==> n == by_tokens
        }),
{
}

/// The title that a video is submitted under is the publication's: it is the same whatever the
/// source, and another where the publication's is another.
pub proof fn submissions_bear_the_publication_title(
    m: &PublicationMetadata,
    n: &PublicationMetadata,
    meta: &VideoMetadata,
    other: &VideoMetadata,
    a: Vec<String>,
    b: Vec<String>,
    c: Vec<String>,
)
    requires
        call_ensures(build_upload_args, (m, meta), a),
        call_ensures(build_upload_args, (m, other), b),
        call_ensures(build_upload_args, (n, other), c),
    ensures
        a@.len() == 18 && b@.len() == 18 && c@.len() == 18,
        a@[2]@ == "--title"@ && a@[3]@ == m.title@,
        a@[3]@ == b@[3]@,
        m.title@ != n.title@ ==> a@[3]@ != c@[3]@,
        a@[11]@ == m.dynamic@ && a@[11]@ == b@[11]@,
{
    upload_says_the_publication(*m, *meta);
    upload_says_the_publication(*m, *other);
    upload_says_the_publication(*n, *other);
    assert(views(a@).len() == a@.len() && views(b@).len() == b@.len() && views(c@).len() == c@.len());
    assert(views(a@)[2] == a@[2]@ && views(a@)[3] == a@[3]@ && views(a@)[11] == a@[11]@);
    assert(views(b@)[3] == b@[3]@ && views(b@)[11] == b@[11]@);
    assert(views(c@)[3] == c@[3]@);
}

} // verus!
