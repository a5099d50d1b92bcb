//! How rows are kept as the plain values that a database holds.
use vstd::prelude::*;

use crate::channels::WebSubChannel;
use crate::clock::{
    parse_timestamp, rfc3339_millis, stamp_text, stored_millis, timestamp_text, YEAR_9999_END_MS,
};
use crate::model::{
    status_texts_differ, stored_texts_differ, AiUsage, CandidateSource, ChannelPriority, GateState,
    JobStatus, PreparedUpload, TransferMode, VideoMetadata,
};
use crate::store::{
    CandidateModel, Channel, ChannelModel, ChannelRow, ChannelRowModel, HoldAction, HoldEventModel,
    HoldModel, Job, JobModel, JobRow, LegacyStage, MaintenanceHold, MaintenanceHoldEvent, RowModel,
    VideoCandidate,
};
use crate::text::opt_view;

verus! {

/// One value of a row. Lengths of time are whole milliseconds.
#[derive(Debug)]
pub enum Cell {
    Null,
    Int(i64),
    Text(String),
}

/// One value of a row.
pub enum CellModel {
    Null,
    Int(int),
    Text(Seq<char>),
}

impl Cell {
    /// The value.
    pub open spec fn view(&self) -> CellModel {
        match self {
            Cell::Null => CellModel::Null,
            Cell::Int(n) => CellModel::Int(*n as int),
            Cell::Text(t) => CellModel::Text(t@),
        }
    }
}

/// The values of a row.
pub open spec fn cell_models(v: Seq<Cell>) -> Seq<CellModel> {
    v.map_values(|c: Cell| c@)
}

/// What a column holds.
#[derive(Debug, Clone, Copy, PartialEq, Eq, Structural)]
pub enum Kind {
    Text,
    OptText,
    Whole,
    OptWhole,
    Count,
    OptCount,
    Flag,
    Time,
    OptTime,
    Status,
    AnyStatus,
    Mode,
    Priority,
    Source,
    Screening,
    Action,
}

/// A column that does not hold what it should.
#[derive(Debug, Clone, Copy, PartialEq, Eq, Structural)]
pub struct RowFault {
    pub column: usize,
    pub kind: Kind,
}

/// Whether a value is the text of a point in time.
pub open spec fn is_time(c: CellModel) -> bool {
    c matches CellModel::Text(t) && stored_millis(t) is Some
}

/// Whether a text is that of a status.
pub open spec fn names_status(t: Seq<char>) -> bool {
    exists|x: JobStatus| #[trigger] x.text() == t
}

/// Whether a text is that of a stage that only older rows name.
pub open spec fn names_stage(t: Seq<char>) -> bool {
    exists|x: LegacyStage| #[trigger] x.text() == t
}

/// Whether a value is what a column should hold.
pub open spec fn holds(c: CellModel, kind: Kind) -> bool {
    match kind {
        Kind::Text => c is Text,
        Kind::OptText => c is Null || c is Text,
        Kind::Whole => c is Int,
        Kind::OptWhole => c is Null || c is Int,
        Kind::Count => c matches CellModel::Int(n) && 0 <= n <= u32::MAX,
        Kind::OptCount => c is Null || (c matches CellModel::Int(n) && 0 <= n),
        Kind::Flag => c is Int,
        Kind::Time => is_time(c),
        Kind::OptTime => c is Null || is_time(c),
        Kind::Status => c matches CellModel::Text(t) && names_status(t),
        Kind::AnyStatus => c matches CellModel::Text(t) && (names_status(t) || names_stage(t)),
        Kind::Mode => c matches CellModel::Text(t) && exists|x: TransferMode| #[trigger]
            x.text() == t,
        Kind::Priority => c matches CellModel::Text(t) && exists|x: ChannelPriority| #[trigger]
            x.text() == t,
        Kind::Source => c matches CellModel::Text(t) && exists|x: CandidateSource| #[trigger]
            x.text() == t,
        Kind::Screening => c matches CellModel::Text(t) && exists|x: GateState| #[trigger]
            x.text() == t,
        Kind::Action => c matches CellModel::Text(t) && exists|x: HoldAction| #[trigger]
            x.text() == t,
    }
}

/// Whether a column of a row holds what it should.
pub open spec fn column_holds(cells: Seq<CellModel>, column: (usize, Kind)) -> bool {
    column.0 < cells.len() && holds(cells[column.0 as int], column.1)
}

/// The first column, from column `k` of the list on, that does not hold what it should.
pub open spec fn first_fault(cells: Seq<CellModel>, columns: Seq<(usize, Kind)>, k: int) -> Option<RowFault>
    decreases columns.len() - k,
{
    if k < 0 || k >= columns.len() {
        None
    } else if !column_holds(cells, columns[k]) {
        Some(RowFault { column: columns[k].0, kind: columns[k].1 })
    } else {
        first_fault(cells, columns, k + 1)
    }
}

fn is_kind(c: &Cell, kind: Kind) -> (r: bool)
    ensures
        r == holds(c@, kind),
{
    match kind {
        Kind::Text => match c {
            Cell::Text(_) => true,
            _ => false,
        },
        Kind::OptText => match c {
            Cell::Int(_) => false,
            _ => true,
        },
        Kind::Whole | Kind::Flag => match c {
            Cell::Int(_) => true,
            _ => false,
        },
        Kind::OptWhole => match c {
            Cell::Text(_) => false,
            _ => true,
        },
        Kind::Count => match c {
            Cell::Int(n) => 0 <= *n && *n <= 0xffff_ffff,
            _ => false,
        },
        Kind::OptCount => match c {
            Cell::Null => true,
            Cell::Int(n) => 0 <= *n,
            Cell::Text(_) => false,
        },
        Kind::Time => match c {
            Cell::Text(t) => parse_timestamp(t.as_str()).is_some(),
            _ => false,
        },
        Kind::OptTime => match c {
            Cell::Null => true,
            Cell::Text(t) => parse_timestamp(t.as_str()).is_some(),
            Cell::Int(_) => false,
        },
        Kind::Status => match c {
            Cell::Text(t) => JobStatus::from_text(t.as_str()).is_some(),
            _ => false,
        },
        Kind::AnyStatus => match c {
            Cell::Text(t) => JobStatus::from_text(t.as_str()).is_some() || LegacyStage::from_text(
                t.as_str(),
            ).is_some(),
            _ => false,
        },
        Kind::Mode => match c {
            Cell::Text(t) => TransferMode::from_text(t.as_str()).is_some(),
            _ => false,
        },
        Kind::Priority => match c {
            Cell::Text(t) => ChannelPriority::from_text(t.as_str()).is_some(),
            _ => false,
        },
        Kind::Source => match c {
            Cell::Text(t) => CandidateSource::from_text(t.as_str()).is_some(),
            _ => false,
        },
        Kind::Screening => match c {
            Cell::Text(t) => GateState::from_text(t.as_str()).is_some(),
            _ => false,
        },
        Kind::Action => match c {
            Cell::Text(t) => HoldAction::from_text(t.as_str()).is_some(),
            _ => false,
        },
    }
}

fn check(cells: &[Cell], columns: &Vec<(usize, Kind)>) -> (r: Option<RowFault>)
    ensures
        r == first_fault(cell_models(cells@), columns@, 0),
        r is None ==> forall|k: int|
            0 <= k < columns@.len() ==> column_holds(cell_models(cells@), #[trigger] columns@[k]),
{
    let ghost models = cell_models(cells@);
    let mut k: usize = 0;
    while k < columns.len()
        invariant
            0 <= k <= columns@.len(),
            models == cell_models(cells@),
            first_fault(models, columns@, 0) == first_fault(models, columns@, k as int),
            forall|j: int| 0 <= j < k ==> column_holds(models, #[trigger] columns@[j]),
        decreases columns@.len() - k,
    {
        let (column, kind) = columns[k];
        if column >= cells.len() {
            return Some(RowFault { column, kind });
        }
        assert(models[column as int] == cells@[column as int]@);
        if !is_kind(&cells[column], kind) {
            return Some(RowFault { column, kind });
        }
        k = k + 1;
    }
    None
}

// ---------------------------------------------------------------------------------------------
// What a value means
// ---------------------------------------------------------------------------------------------

/// Whether a value is a text.
pub open spec fn reads_text(c: CellModel, v: Seq<char>) -> bool {
    c == CellModel::Text(v)
}

/// Whether a value is a text or the lack of one.
pub open spec fn reads_opt_text(c: CellModel, v: Option<Seq<char>>) -> bool {
    match v {
        Some(t) => c == CellModel::Text(t),
        None => c is Null,
    }
}

/// Whether a value is a number.
pub open spec fn reads_whole(c: CellModel, v: i64) -> bool {
    c == CellModel::Int(v as int)
}

/// Whether a value is a number or the lack of one.
pub open spec fn reads_opt_whole(c: CellModel, v: Option<i64>) -> bool {
    match v {
        Some(n) => c == CellModel::Int(n as int),
        None => c is Null,
    }
}

/// Whether a value is a count.
pub open spec fn reads_count(c: CellModel, v: u32) -> bool {
    c == CellModel::Int(v as int)
}

/// Whether a value is a length or the lack of one.
pub open spec fn reads_opt_count(c: CellModel, v: Option<u64>) -> bool {
    match v {
        Some(n) => c == CellModel::Int(n as int),
        None => c is Null,
    }
}

/// Whether a value says yes or no: a number other than zero says yes.
pub open spec fn reads_flag(c: CellModel, v: bool) -> bool {
    c matches CellModel::Int(n) && v == (n != 0)
}

/// Whether a value is a point in time.
pub open spec fn reads_time(c: CellModel, v: i64) -> bool {
    c matches CellModel::Text(t) && stored_millis(t) == Some(v as int)
}

/// Whether a value is a point in time or the lack of one.
pub open spec fn reads_opt_time(c: CellModel, v: Option<i64>) -> bool {
    match v {
        Some(ms) => reads_time(c, ms),
        None => c is Null,
    }
}

fn text_at(cells: &[Cell], i: usize) -> (r: String)
    requires
        column_holds(cell_models(cells@), (i, Kind::Text)),
    ensures
        reads_text(cell_models(cells@)[i as int], r@),
{
    match &cells[i] {
        Cell::Text(t) => t.clone(),
        _ => String::new(),
    }
}

fn opt_text_at(cells: &[Cell], i: usize) -> (r: Option<String>)
    requires
        column_holds(cell_models(cells@), (i, Kind::OptText)),
    ensures
        reads_opt_text(cell_models(cells@)[i as int], opt_view(r)),
{
    match &cells[i] {
        Cell::Text(t) => Some(t.clone()),
        _ => None,
    }
}

fn whole_at(cells: &[Cell], i: usize) -> (r: i64)
    requires
        column_holds(cell_models(cells@), (i, Kind::Whole)),
    ensures
        reads_whole(cell_models(cells@)[i as int], r),
{
    match &cells[i] {
        Cell::Int(n) => *n,
        _ => 0,
    }
}

fn opt_whole_at(cells: &[Cell], i: usize) -> (r: Option<i64>)
    requires
        column_holds(cell_models(cells@), (i, Kind::OptWhole)),
    ensures
        reads_opt_whole(cell_models(cells@)[i as int], r),
{
    match &cells[i] {
        Cell::Int(n) => Some(*n),
        _ => None,
    }
}

fn count_at(cells: &[Cell], i: usize) -> (r: u32)
    requires
        column_holds(cell_models(cells@), (i, Kind::Count)),
    ensures
        reads_count(cell_models(cells@)[i as int], r),
{
    match &cells[i] {
        Cell::Int(n) => *n as u32,
        _ => 0,
    }
}

fn opt_count_at(cells: &[Cell], i: usize) -> (r: Option<u64>)
    requires
        column_holds(cell_models(cells@), (i, Kind::OptCount)),
    ensures
        reads_opt_count(cell_models(cells@)[i as int], r),
{
    match &cells[i] {
        Cell::Int(n) => Some(*n as u64),
        _ => None,
    }
}

fn flag_at(cells: &[Cell], i: usize) -> (r: bool)
    requires
        column_holds(cell_models(cells@), (i, Kind::Flag)),
    ensures
        reads_flag(cell_models(cells@)[i as int], r),
{
    match &cells[i] {
        Cell::Int(n) => *n != 0,
        _ => false,
    }
}

fn time_at(cells: &[Cell], i: usize) -> (r: i64)
    requires
        column_holds(cell_models(cells@), (i, Kind::Time)),
    ensures
        reads_time(cell_models(cells@)[i as int], r),
{
    match &cells[i] {
        Cell::Text(t) => match parse_timestamp(t.as_str()) {
            Some(ms) => ms,
            None => 0,
        },
        _ => 0,
    }
}

fn opt_time_at(cells: &[Cell], i: usize) -> (r: Option<i64>)
    requires
        column_holds(cell_models(cells@), (i, Kind::OptTime)),
    ensures
        reads_opt_time(cell_models(cells@)[i as int], r),
{
    match &cells[i] {
        Cell::Text(t) => parse_timestamp(t.as_str()),
        _ => None,
    }
}

fn mode_at(cells: &[Cell], i: usize) -> (r: TransferMode)
    requires
        column_holds(cell_models(cells@), (i, Kind::Mode)),
    ensures
        cell_models(cells@)[i as int] == CellModel::Text(r.text()),
{
    match &cells[i] {
        Cell::Text(t) => match TransferMode::from_text(t.as_str()) {
            Some(x) => x,
            None => TransferMode::Direct,
        },
        _ => TransferMode::Direct,
    }
}

fn priority_at(cells: &[Cell], i: usize) -> (r: ChannelPriority)
    requires
        column_holds(cell_models(cells@), (i, Kind::Priority)),
    ensures
        cell_models(cells@)[i as int] == CellModel::Text(r.text()),
{
    match &cells[i] {
        Cell::Text(t) => match ChannelPriority::from_text(t.as_str()) {
            Some(x) => x,
            None => ChannelPriority::Normal,
        },
        _ => ChannelPriority::Normal,
    }
}

fn source_at(cells: &[Cell], i: usize) -> (r: CandidateSource)
    requires
        column_holds(cell_models(cells@), (i, Kind::Source)),
    ensures
        cell_models(cells@)[i as int] == CellModel::Text(r.text()),
{
    match &cells[i] {
        Cell::Text(t) => match CandidateSource::from_text(t.as_str()) {
            Some(x) => x,
            None => CandidateSource::Rss,
        },
        _ => CandidateSource::Rss,
    }
}

fn screening_at(cells: &[Cell], i: usize) -> (r: GateState)
    requires
        column_holds(cell_models(cells@), (i, Kind::Screening)),
    ensures
        cell_models(cells@)[i as int] == CellModel::Text(r.text()),
{
    match &cells[i] {
        Cell::Text(t) => match GateState::from_text(t.as_str()) {
            Some(x) => x,
            None => GateState::Pending,
        },
        _ => GateState::Pending,
    }
}

fn action_at(cells: &[Cell], i: usize) -> (r: HoldAction)
    requires
        column_holds(cell_models(cells@), (i, Kind::Action)),
    ensures
        cell_models(cells@)[i as int] == CellModel::Text(r.text()),
{
    match &cells[i] {
        Cell::Text(t) => match HoldAction::from_text(t.as_str()) {
            Some(x) => x,
            None => HoldAction::Acquired,
        },
        _ => HoldAction::Acquired,
    }
}

fn status_at(cells: &[Cell], i: usize) -> (r: JobStatus)
    requires
        column_holds(cell_models(cells@), (i, Kind::AnyStatus)),
    ensures
        cell_models(cells@)[i as int] == CellModel::Text(r.text()) || (cell_models(
            cells@,
        )[i as int] matches CellModel::Text(t) && !names_status(t)),
{
    match &cells[i] {
        Cell::Text(t) => match JobStatus::from_text(t.as_str()) {
            Some(x) => x,
            None => JobStatus::Queued,
        },
        _ => JobStatus::Queued,
    }
}

fn stage_at(cells: &[Cell], i: usize) -> (r: Option<LegacyStage>)
    requires
        column_holds(cell_models(cells@), (i, Kind::AnyStatus)),
    ensures
        match r {
            Some(x) => cell_models(cells@)[i as int] == CellModel::Text(x.text())
                && !names_status(x.text()),
            None => cell_models(cells@)[i as int] matches CellModel::Text(t) && names_status(t),
        },
{
    match &cells[i] {
        Cell::Text(t) => match JobStatus::from_text(t.as_str()) {
            Some(_) => None,
            None => LegacyStage::from_text(t.as_str()),
        },
        _ => None,
    }
}

fn opt_text_cell(v: &Option<String>) -> (r: Cell)
    ensures
        reads_opt_text(r@, opt_view(*v)),
{
    match v {
        Some(t) => Cell::Text(t.clone()),
        None => Cell::Null,
    }
}

fn opt_whole_cell(v: Option<i64>) -> (r: Cell)
    ensures
        reads_opt_whole(r@, v),
{
    match v {
        Some(n) => Cell::Int(n),
        None => Cell::Null,
    }
}

fn opt_count_cell(v: Option<u64>) -> (r: Cell)
    ensures
        (v matches Some(n) ==> n <= i64::MAX) ==> reads_opt_count(r@, v),
{
    match v {
        Some(n) => Cell::Int(
            if n <= 0x7fff_ffff_ffff_ffff {
                n as i64
            } else {
                i64::MAX
            },
        ),
        None => Cell::Null,
    }
}

fn flag_cell(v: bool) -> (r: Cell)
    ensures
        reads_flag(r@, v),
{
    if v {
        Cell::Int(1)
    } else {
        Cell::Int(0)
    }
}

/// Whether a point in time can be kept: from the epoch to the end of the year 9999.
pub open spec fn in_range(ms: i64) -> bool {
    0 <= ms <= YEAR_9999_END_MS
}

fn time_cell(ms: i64) -> (r: Cell)
    ensures
        in_range(ms) ==> reads_time(r@, ms),
        match stamp_text(ms as int) {
            Some(t) => r@ == CellModel::Text(t),
            None => r@ is Null,
        },
{
    match timestamp_text(ms) {
        Some(t) => Cell::Text(t),
        None => Cell::Null,
    }
}

fn opt_time_cell(v: Option<i64>) -> (r: Cell)
    ensures
        (v matches Some(ms) ==> in_range(ms)) ==> reads_opt_time(r@, v),
{
    match v {
        Some(ms) => time_cell(ms),
        None => Cell::Null,
    }
}

// ---------------------------------------------------------------------------------------------
// Jobs
// ---------------------------------------------------------------------------------------------

/// The columns of a job, in the order in which they are read.
pub open spec fn job_columns() -> Seq<(usize, Kind)> {
    seq![
        (5usize, Kind::Status),
        (6usize, Kind::Mode),
        (0usize, Kind::Text),
        (1usize, Kind::OptWhole),
        (2usize, Kind::Text),
        (3usize, Kind::Text),
        (4usize, Kind::OptText),
        (7usize, Kind::OptTime),
        (8usize, Kind::OptTime),
        (9usize, Kind::Time),
        (10usize, Kind::Flag),
        (11usize, Kind::OptCount),
        (12usize, Kind::OptWhole),
        (13usize, Kind::OptWhole),
        (14usize, Kind::OptText),
        (15usize, Kind::OptText),
        (16usize, Kind::OptText),
        (17usize, Kind::OptText),
        (18usize, Kind::Whole),
        (19usize, Kind::OptText),
        (20usize, Kind::Whole),
    ]
}

fn job_column_list() -> (r: Vec<(usize, Kind)>)
    ensures
        r@ == job_columns(),
{
    let mut out: Vec<(usize, Kind)> = Vec::new();
    out.push((5, Kind::Status));
    out.push((6, Kind::Mode));
    out.push((0, Kind::Text));
    out.push((1, Kind::OptWhole));
    out.push((2, Kind::Text));
    out.push((3, Kind::Text));
    out.push((4, Kind::OptText));
    out.push((7, Kind::OptTime));
    out.push((8, Kind::OptTime));
    out.push((9, Kind::Time));
    out.push((10, Kind::Flag));
    out.push((11, Kind::OptCount));
    out.push((12, Kind::OptWhole));
    out.push((13, Kind::OptWhole));
    out.push((14, Kind::OptText));
    out.push((15, Kind::OptText));
    out.push((16, Kind::OptText));
    out.push((17, Kind::OptText));
    out.push((18, Kind::Whole));
    out.push((19, Kind::OptText));
    out.push((20, Kind::Whole));
    out
}

/// Whether values are those of a job, but for its status.
pub open spec fn job_rest(cells: Seq<CellModel>, job: JobModel) -> bool {
    &&& reads_text(cells[0], job.id)
    &&& reads_opt_whole(cells[1], job.channel_id)
    &&& reads_text(cells[2], job.video_id)
    &&& reads_text(cells[3], job.url)
    &&& reads_opt_text(cells[4], job.title)
    &&& cells[6] == CellModel::Text(job.transfer_mode.text())
    &&& reads_opt_time(cells[7], job.published_at)
    &&& reads_opt_time(cells[8], job.youtube_updated_at)
    &&& reads_time(cells[9], job.discovered_at)
    &&& reads_flag(cells[10], job.is_short)
    &&& reads_opt_count(cells[11], job.duration_ms)
    &&& reads_opt_whole(cells[12], job.width)
    &&& reads_opt_whole(cells[13], job.height)
    &&& reads_opt_text(cells[14], job.bvid)
    &&& reads_opt_text(cells[15], job.provider)
    &&& reads_opt_text(cells[16], job.ai_model)
    &&& reads_opt_text(cells[17], job.thinking)
    &&& reads_whole(cells[18], job.attempt)
    &&& reads_opt_text(cells[19], job.error)
    &&& reads_whole(cells[20], job.subtitle_attempt)
}

/// Whether values are those of a job.
pub open spec fn job_reads(cells: Seq<CellModel>, job: JobModel) -> bool {
    cells[5] == CellModel::Text(job.status.text()) && job_rest(cells, job)
}

fn build_job(cells: &[Cell]) -> (r: Job)
    requires
        column_holds(cell_models(cells@), (5, Kind::AnyStatus)),
        forall|k: int|
            1 <= k < job_columns().len() ==> column_holds(
                cell_models(cells@),
                #[trigger] job_columns()[k],
            ),
    ensures
        job_rest(cell_models(cells@), r@),
        cell_models(cells@)[5] == CellModel::Text(r.status.text()) || (cell_models(
            cells@,
        )[5] matches CellModel::Text(t) && !names_status(t)),
{
    proof {
        assert(job_columns()[1] == (6usize, Kind::Mode));
        assert(job_columns()[2] == (0usize, Kind::Text));
        assert(job_columns()[3] == (1usize, Kind::OptWhole));
        assert(job_columns()[4] == (2usize, Kind::Text));
        assert(job_columns()[5] == (3usize, Kind::Text));
        assert(job_columns()[6] == (4usize, Kind::OptText));
        assert(job_columns()[7] == (7usize, Kind::OptTime));
        assert(job_columns()[8] == (8usize, Kind::OptTime));
        assert(job_columns()[9] == (9usize, Kind::Time));
        assert(job_columns()[10] == (10usize, Kind::Flag));
        assert(job_columns()[11] == (11usize, Kind::OptCount));
        assert(job_columns()[12] == (12usize, Kind::OptWhole));
        assert(job_columns()[13] == (13usize, Kind::OptWhole));
        assert(job_columns()[14] == (14usize, Kind::OptText));
        assert(job_columns()[15] == (15usize, Kind::OptText));
        assert(job_columns()[16] == (16usize, Kind::OptText));
        assert(job_columns()[17] == (17usize, Kind::OptText));
        assert(job_columns()[18] == (18usize, Kind::Whole));
        assert(job_columns()[19] == (19usize, Kind::OptText));
        assert(job_columns()[20] == (20usize, Kind::Whole));
    }
    Job {
        id: text_at(cells, 0),
        channel_id: opt_whole_at(cells, 1),
        video_id: text_at(cells, 2),
        url: text_at(cells, 3),
        title: opt_text_at(cells, 4),
        status: status_at(cells, 5),
        transfer_mode: mode_at(cells, 6),
        published_at: opt_time_at(cells, 7),
        youtube_updated_at: opt_time_at(cells, 8),
        discovered_at: time_at(cells, 9),
        is_short: flag_at(cells, 10),
        duration_ms: opt_count_at(cells, 11),
        width: opt_whole_at(cells, 12),
        height: opt_whole_at(cells, 13),
        bvid: opt_text_at(cells, 14),
        provider: opt_text_at(cells, 15),
        ai_model: opt_text_at(cells, 16),
        thinking: opt_text_at(cells, 17),
        attempt: whole_at(cells, 18),
        error: opt_text_at(cells, 19),
        subtitle_attempt: whole_at(cells, 20),
    }
}

/// A job, from the values of its row.
pub fn job_from_row(cells: &[Cell]) -> (r: Result<Job, RowFault>)
    ensures
        match first_fault(cell_models(cells@), job_columns(), 0) {
            Some(e) => r == Err::<Job, RowFault>(e),
            None => r matches Ok(job) && job_reads(cell_models(cells@), job@),
        },
{
    let columns = job_column_list();
    match check(cells, &columns) {
        Some(e) => Err(e),
        None => {
            proof {
                assert(job_columns()[0] == (5usize, Kind::Status));
            }
            Ok(build_job(cells))
        },
    }
}

/// The columns of a whole row of the table of jobs, in the order in which they are read. Older rows
/// may name a stage in place of a status.
pub open spec fn job_row_columns() -> Seq<(usize, Kind)> {
    seq![
        (5usize, Kind::AnyStatus),
        (6usize, Kind::Mode),
        (0usize, Kind::Text),
        (1usize, Kind::OptWhole),
        (2usize, Kind::Text),
        (3usize, Kind::Text),
        (4usize, Kind::OptText),
        (7usize, Kind::OptTime),
        (8usize, Kind::OptTime),
        (9usize, Kind::Time),
        (10usize, Kind::Flag),
        (11usize, Kind::OptCount),
        (12usize, Kind::OptWhole),
        (13usize, Kind::OptWhole),
        (14usize, Kind::OptText),
        (15usize, Kind::OptText),
        (16usize, Kind::OptText),
        (17usize, Kind::OptText),
        (18usize, Kind::Whole),
        (19usize, Kind::OptText),
        (20usize, Kind::Whole),
        (21usize, Kind::OptTime),
        (22usize, Kind::OptTime),
        (23usize, Kind::OptText),
        (24usize, Kind::OptText),
        (25usize, Kind::OptTime),
        (26usize, Kind::OptText),
        (27usize, Kind::OptText),
        (28usize, Kind::OptText),
        (29usize, Kind::Time),
        (30usize, Kind::Time),
    ]
}

fn job_row_column_list() -> (r: Vec<(usize, Kind)>)
    ensures
        r@ == job_row_columns(),
{
    let mut out: Vec<(usize, Kind)> = Vec::new();
    out.push((5, Kind::AnyStatus));
    out.push((6, Kind::Mode));
    out.push((0, Kind::Text));
    out.push((1, Kind::OptWhole));
    out.push((2, Kind::Text));
    out.push((3, Kind::Text));
    out.push((4, Kind::OptText));
    out.push((7, Kind::OptTime));
    out.push((8, Kind::OptTime));
    out.push((9, Kind::Time));
    out.push((10, Kind::Flag));
    out.push((11, Kind::OptCount));
    out.push((12, Kind::OptWhole));
    out.push((13, Kind::OptWhole));
    out.push((14, Kind::OptText));
    out.push((15, Kind::OptText));
    out.push((16, Kind::OptText));
    out.push((17, Kind::OptText));
    out.push((18, Kind::Whole));
    out.push((19, Kind::OptText));
    out.push((20, Kind::Whole));
    out.push((21, Kind::OptTime));
    out.push((22, Kind::OptTime));
    out.push((23, Kind::OptText));
    out.push((24, Kind::OptText));
    out.push((25, Kind::OptTime));
    out.push((26, Kind::OptText));
    out.push((27, Kind::OptText));
    out.push((28, Kind::OptText));
    out.push((29, Kind::Time));
    out.push((30, Kind::Time));
    out
}

/// Whether values are those of a row of the table of jobs. A row that names a stage in place of a
/// status keeps the stage.
pub open spec fn job_row_reads(cells: Seq<CellModel>, row: RowModel) -> bool {
    &&& match row.legacy {
        Some(stage) => cells[5] == CellModel::Text(stage.text()),
        None => cells[5] == CellModel::Text(row.job.status.text()),
    }
    &&& job_rest(cells, row.job)
    &&& reads_opt_time(cells[21], row.retry_at)
    &&& reads_opt_time(cells[22], row.subtitle_retry_at)
    &&& reads_opt_text(cells[23], row.claim_kind)
    &&& reads_opt_text(cells[24], row.claim_owner)
    &&& reads_opt_time(cells[25], row.claim_expires_at)
    &&& reads_opt_text(cells[26], row.raw_video_path)
    &&& reads_opt_text(cells[27], row.rendered_path)
    &&& reads_opt_text(cells[28], row.subtitle_path)
    &&& reads_time(cells[29], row.created_at)
    &&& reads_time(cells[30], row.updated_at)
}

/// A row of the table of jobs, from its values, its plan and what YouTube told of its video.
pub fn job_row_from(
    cells: &[Cell],
    prepared_upload: Option<PreparedUpload>,
    source_metadata: Option<VideoMetadata>,
) -> (r: Result<JobRow, RowFault>)
    ensures
        match first_fault(cell_models(cells@), job_row_columns(), 0) {
            Some(e) => r == Err::<JobRow, RowFault>(e),
            None => r matches Ok(row) && job_row_reads(cell_models(cells@), row@)
                && row.prepared_upload == prepared_upload && row.source_metadata == source_metadata,
        },
{
    let columns = job_row_column_list();
    match check(cells, &columns) {
        Some(e) => Err(e),
        None => {
            proof {
                assert(job_row_columns()[0] == (5usize, Kind::AnyStatus));
                assert(job_row_columns()[1] == (6usize, Kind::Mode));
                assert(job_row_columns()[2] == (0usize, Kind::Text));
                assert(job_row_columns()[3] == (1usize, Kind::OptWhole));
                assert(job_row_columns()[4] == (2usize, Kind::Text));
                assert(job_row_columns()[5] == (3usize, Kind::Text));
                assert(job_row_columns()[6] == (4usize, Kind::OptText));
                assert(job_row_columns()[7] == (7usize, Kind::OptTime));
                assert(job_row_columns()[8] == (8usize, Kind::OptTime));
                assert(job_row_columns()[9] == (9usize, Kind::Time));
                assert(job_row_columns()[10] == (10usize, Kind::Flag));
                assert(job_row_columns()[11] == (11usize, Kind::OptCount));
                assert(job_row_columns()[12] == (12usize, Kind::OptWhole));
                assert(job_row_columns()[13] == (13usize, Kind::OptWhole));
                assert(job_row_columns()[14] == (14usize, Kind::OptText));
                assert(job_row_columns()[15] == (15usize, Kind::OptText));
                assert(job_row_columns()[16] == (16usize, Kind::OptText));
                assert(job_row_columns()[17] == (17usize, Kind::OptText));
                assert(job_row_columns()[18] == (18usize, Kind::Whole));
                assert(job_row_columns()[19] == (19usize, Kind::OptText));
                assert(job_row_columns()[20] == (20usize, Kind::Whole));
                assert(job_row_columns()[21] == (21usize, Kind::OptTime));
                assert(job_row_columns()[22] == (22usize, Kind::OptTime));
                assert(job_row_columns()[23] == (23usize, Kind::OptText));
                assert(job_row_columns()[24] == (24usize, Kind::OptText));
                assert(job_row_columns()[25] == (25usize, Kind::OptTime));
                assert(job_row_columns()[26] == (26usize, Kind::OptText));
                assert(job_row_columns()[27] == (27usize, Kind::OptText));
                assert(job_row_columns()[28] == (28usize, Kind::OptText));
                assert(job_row_columns()[29] == (29usize, Kind::Time));
                assert(job_row_columns()[30] == (30usize, Kind::Time));
                assert forall|k: int| 1 <= k < job_columns().len() implies column_holds(
                    cell_models(cells@),
                    #[trigger] job_columns()[k],
                ) by {
                    assert(job_columns()[k] == job_row_columns()[k]);
                }
            }
            let legacy = stage_at(cells, 5);
            let job = build_job(cells);
            Ok(
                JobRow {
                    job,
                    legacy,
                    retry_at: opt_time_at(cells, 21),
                    subtitle_retry_at: opt_time_at(cells, 22),
                    claim_kind: opt_text_at(cells, 23),
                    claim_owner: opt_text_at(cells, 24),
                    claim_expires_at: opt_time_at(cells, 25),
                    raw_video_path: opt_text_at(cells, 26),
                    rendered_path: opt_text_at(cells, 27),
                    subtitle_path: opt_text_at(cells, 28),
                    created_at: time_at(cells, 29),
                    updated_at: time_at(cells, 30),
                    prepared_upload,
                    source_metadata,
                },
            )
        },
    }
}

/// Whether the points in time and the length of a row can be kept.
pub open spec fn job_row_fits(row: RowModel) -> bool {
    &&& row.job.published_at matches Some(t) ==> in_range(t)
    &&& row.job.youtube_updated_at matches Some(t) ==> in_range(t)
    &&& in_range(row.job.discovered_at)
    &&& row.job.duration_ms matches Some(n) ==> n <= i64::MAX
    &&& row.retry_at matches Some(t) ==> in_range(t)
    &&& row.subtitle_retry_at matches Some(t) ==> in_range(t)
    &&& row.claim_expires_at matches Some(t) ==> in_range(t)
    &&& in_range(row.created_at)
    &&& in_range(row.updated_at)
}


fn job_part_first(row: &JobRow) -> (r: Vec<Cell>)
    ensures
        r@.len() == 6,
        reads_text(cell_models(r@)[0], row.job.id@),
        reads_opt_whole(cell_models(r@)[1], row.job.channel_id),
        reads_text(cell_models(r@)[2], row.job.video_id@),
        reads_text(cell_models(r@)[3], row.job.url@),
        reads_opt_text(cell_models(r@)[4], opt_view(row.job.title)),
        cell_models(r@)[5] == CellModel::Text(
            match row.legacy {
                Some(stage) => stage.text(),
                None => row.job.status.text(),
            },
        ),
{
    let mut out: Vec<Cell> = Vec::new();
    out.push(Cell::Text(row.job.id.clone()));
    out.push(opt_whole_cell(row.job.channel_id));
    out.push(Cell::Text(row.job.video_id.clone()));
    out.push(Cell::Text(row.job.url.clone()));
    out.push(opt_text_cell(&row.job.title));
    out.push(
        Cell::Text(
            match row.legacy {
                Some(stage) => stage.as_str().to_owned(),
                None => row.job.status.as_str().to_owned(),
            },
        ),
    );
    out
}

fn job_part_second(row: &JobRow) -> (r: Vec<Cell>)
    ensures
        r@.len() == 6,
        cell_models(r@)[0] == CellModel::Text(row.job.transfer_mode.text()),
        (row.job.published_at matches Some(t) ==> in_range(t)) ==> reads_opt_time(
            cell_models(r@)[1],
            row.job.published_at,
        ),
        (row.job.youtube_updated_at matches Some(t) ==> in_range(t)) ==> reads_opt_time(
            cell_models(r@)[2],
            row.job.youtube_updated_at,
        ),
        in_range(row.job.discovered_at) ==> reads_time(cell_models(r@)[3], row.job.discovered_at),
        reads_flag(cell_models(r@)[4], row.job.is_short),
        (row.job.duration_ms matches Some(n) ==> n <= i64::MAX) ==> reads_opt_count(
            cell_models(r@)[5],
            row.job.duration_ms,
        ),
{
    let mut out: Vec<Cell> = Vec::new();
    out.push(Cell::Text(row.job.transfer_mode.as_str().to_owned()));
    out.push(opt_time_cell(row.job.published_at));
    out.push(opt_time_cell(row.job.youtube_updated_at));
    out.push(time_cell(row.job.discovered_at));
    out.push(flag_cell(row.job.is_short));
    out.push(opt_count_cell(row.job.duration_ms));
    out
}

fn job_part_third(row: &JobRow) -> (r: Vec<Cell>)
    ensures
        r@.len() == 6,
        reads_opt_whole(cell_models(r@)[0], row.job.width),
        reads_opt_whole(cell_models(r@)[1], row.job.height),
        reads_opt_text(cell_models(r@)[2], opt_view(row.job.bvid)),
        reads_opt_text(cell_models(r@)[3], opt_view(row.job.provider)),
        reads_opt_text(cell_models(r@)[4], opt_view(row.job.ai_model)),
        reads_opt_text(cell_models(r@)[5], opt_view(row.job.thinking)),
{
    let mut out: Vec<Cell> = Vec::new();
    out.push(opt_whole_cell(row.job.width));
    out.push(opt_whole_cell(row.job.height));
    out.push(opt_text_cell(&row.job.bvid));
    out.push(opt_text_cell(&row.job.provider));
    out.push(opt_text_cell(&row.job.ai_model));
    out.push(opt_text_cell(&row.job.thinking));
    out
}

fn job_part_fourth(row: &JobRow) -> (r: Vec<Cell>)
    ensures
        r@.len() == 6,
        reads_whole(cell_models(r@)[0], row.job.attempt),
        reads_opt_text(cell_models(r@)[1], opt_view(row.job.error)),
        reads_whole(cell_models(r@)[2], row.job.subtitle_attempt),
        (row.retry_at matches Some(t) ==> in_range(t)) ==> reads_opt_time(
            cell_models(r@)[3],
            row.retry_at,
        ),
        (row.subtitle_retry_at matches Some(t) ==> in_range(t)) ==> reads_opt_time(
            cell_models(r@)[4],
            row.subtitle_retry_at,
        ),
        reads_opt_text(cell_models(r@)[5], opt_view(row.claim_kind)),
{
    let mut out: Vec<Cell> = Vec::new();
    out.push(Cell::Int(row.job.attempt));
    out.push(opt_text_cell(&row.job.error));
    out.push(Cell::Int(row.job.subtitle_attempt));
    out.push(opt_time_cell(row.retry_at));
    out.push(opt_time_cell(row.subtitle_retry_at));
    out.push(opt_text_cell(&row.claim_kind));
    out
}

fn job_part_fifth(row: &JobRow) -> (r: Vec<Cell>)
    ensures
        r@.len() == 6,
        reads_opt_text(cell_models(r@)[0], opt_view(row.claim_owner)),
        (row.claim_expires_at matches Some(t) ==> in_range(t)) ==> reads_opt_time(
            cell_models(r@)[1],
            row.claim_expires_at,
        ),
        reads_opt_text(cell_models(r@)[2], opt_view(row.raw_video_path)),
        reads_opt_text(cell_models(r@)[3], opt_view(row.rendered_path)),
        reads_opt_text(cell_models(r@)[4], opt_view(row.subtitle_path)),
        in_range(row.created_at) ==> reads_time(cell_models(r@)[5], row.created_at),
{
    let mut out: Vec<Cell> = Vec::new();
    out.push(opt_text_cell(&row.claim_owner));
    out.push(opt_time_cell(row.claim_expires_at));
    out.push(opt_text_cell(&row.raw_video_path));
    out.push(opt_text_cell(&row.rendered_path));
    out.push(opt_text_cell(&row.subtitle_path));
    out.push(time_cell(row.created_at));
    out
}

fn job_part_sixth(row: &JobRow) -> (r: Vec<Cell>)
    ensures
        r@.len() == 1,
        in_range(row.updated_at) ==> reads_time(cell_models(r@)[0], row.updated_at),
{
    let mut out: Vec<Cell> = Vec::new();
    out.push(time_cell(row.updated_at));
    out
}

/// The values of a row of the table of jobs. They read back as the row wherever its points in time
/// and its length can be kept.
pub fn job_row_cells(row: &JobRow) -> (r: Vec<Cell>)
    ensures
        r@.len() == 31,
        job_row_fits(row@) ==> job_row_reads(cell_models(r@), row@),
{
    let mut out = job_part_first(row);
    let mut part = job_part_second(row);
    let ghost added = cell_models(part@);
    let ghost before = cell_models(out@);
    out.append(&mut part);
    proof {
        assert(cell_models(out@) =~= before + added);
    }
    let mut part = job_part_third(row);
    let ghost added = cell_models(part@);
    let ghost before = cell_models(out@);
    out.append(&mut part);
    proof {
        assert(cell_models(out@) =~= before + added);
    }
    let mut part = job_part_fourth(row);
    let ghost added = cell_models(part@);
    let ghost before = cell_models(out@);
    out.append(&mut part);
    proof {
        assert(cell_models(out@) =~= before + added);
    }
    let mut part = job_part_fifth(row);
    let ghost added = cell_models(part@);
    let ghost before = cell_models(out@);
    out.append(&mut part);
    proof {
        assert(cell_models(out@) =~= before + added);
    }
    let mut part = job_part_sixth(row);
    let ghost added = cell_models(part@);
    let ghost before = cell_models(out@);
    out.append(&mut part);
    proof {
        assert(cell_models(out@) =~= before + added);
    }
    out
}

// ---------------------------------------------------------------------------------------------
// Channels
// ---------------------------------------------------------------------------------------------

/// The columns of a channel, in the order in which they are read.
pub open spec fn channel_columns() -> Seq<(usize, Kind)> {
    seq![
        (5usize, Kind::Mode),
        (6usize, Kind::Priority),
        (0usize, Kind::Whole),
        (1usize, Kind::Text),
        (2usize, Kind::Text),
        (3usize, Kind::Text),
        (4usize, Kind::Flag),
        (7usize, Kind::OptTime),
        (8usize, Kind::OptText),
        (9usize, Kind::OptTime),
        (10usize, Kind::Count),
        (11usize, Kind::OptText),
        (12usize, Kind::OptTime),
        (13usize, Kind::OptText),
        (14usize, Kind::OptTime),
        (15usize, Kind::OptTime),
    ]
}

fn channel_column_list() -> (r: Vec<(usize, Kind)>)
    ensures
        r@ == channel_columns(),
{
    let mut out: Vec<(usize, Kind)> = Vec::new();
    out.push((5, Kind::Mode));
    out.push((6, Kind::Priority));
    out.push((0, Kind::Whole));
    out.push((1, Kind::Text));
    out.push((2, Kind::Text));
    out.push((3, Kind::Text));
    out.push((4, Kind::Flag));
    out.push((7, Kind::OptTime));
    out.push((8, Kind::OptText));
    out.push((9, Kind::OptTime));
    out.push((10, Kind::Count));
    out.push((11, Kind::OptText));
    out.push((12, Kind::OptTime));
    out.push((13, Kind::OptText));
    out.push((14, Kind::OptTime));
    out.push((15, Kind::OptTime));
    out
}

/// Whether values are those of a channel.
pub open spec fn channel_reads(cells: Seq<CellModel>, channel: ChannelModel) -> bool {
    &&& reads_whole(cells[0], channel.id)
    &&& reads_text(cells[1], channel.youtube_channel_id)
    &&& reads_text(cells[2], channel.name)
    &&& reads_text(cells[3], channel.url)
    &&& reads_flag(cells[4], channel.enabled)
    &&& cells[5] == CellModel::Text(channel.transfer_mode.text())
    &&& cells[6] == CellModel::Text(channel.priority.text())
    &&& reads_opt_time(cells[7], channel.last_checked_at)
    &&& reads_opt_text(cells[8], channel.last_error)
    &&& reads_opt_time(cells[9], channel.next_poll_at)
    &&& reads_count(cells[10], channel.consecutive_failures)
    &&& reads_opt_text(cells[11], channel.uploads_playlist_id)
    &&& reads_opt_time(cells[12], channel.next_data_api_poll_at)
    &&& reads_opt_text(cells[13], channel.data_api_etag)
    &&& reads_opt_time(cells[14], channel.websub_lease_expires_at)
    &&& reads_opt_time(cells[15], channel.websub_last_received_at)
}

/// A channel, from the values of its row.
pub fn channel_from_row(cells: &[Cell]) -> (r: Result<Channel, RowFault>)
    ensures
        match first_fault(cell_models(cells@), channel_columns(), 0) {
            Some(e) => r == Err::<Channel, RowFault>(e),
            None => r matches Ok(channel) && channel_reads(cell_models(cells@), channel@),
        },
{
    let columns = channel_column_list();
    match check(cells, &columns) {
        Some(e) => Err(e),
        None => {
            proof {
                assert(channel_columns()[0] == (5usize, Kind::Mode));
                assert(channel_columns()[1] == (6usize, Kind::Priority));
                assert(channel_columns()[2] == (0usize, Kind::Whole));
                assert(channel_columns()[3] == (1usize, Kind::Text));
                assert(channel_columns()[4] == (2usize, Kind::Text));
                assert(channel_columns()[5] == (3usize, Kind::Text));
                assert(channel_columns()[6] == (4usize, Kind::Flag));
                assert(channel_columns()[7] == (7usize, Kind::OptTime));
                assert(channel_columns()[8] == (8usize, Kind::OptText));
                assert(channel_columns()[9] == (9usize, Kind::OptTime));
                assert(channel_columns()[10] == (10usize, Kind::Count));
                assert(channel_columns()[11] == (11usize, Kind::OptText));
                assert(channel_columns()[12] == (12usize, Kind::OptTime));
                assert(channel_columns()[13] == (13usize, Kind::OptText));
                assert(channel_columns()[14] == (14usize, Kind::OptTime));
                assert(channel_columns()[15] == (15usize, Kind::OptTime));
            }
            Ok(
                Channel {
                    id: whole_at(cells, 0),
                    youtube_channel_id: text_at(cells, 1),
                    name: text_at(cells, 2),
                    url: text_at(cells, 3),
                    enabled: flag_at(cells, 4),
                    transfer_mode: mode_at(cells, 5),
                    priority: priority_at(cells, 6),
                    last_checked_at: opt_time_at(cells, 7),
                    last_error: opt_text_at(cells, 8),
                    next_poll_at: opt_time_at(cells, 9),
                    consecutive_failures: count_at(cells, 10),
                    uploads_playlist_id: opt_text_at(cells, 11),
                    next_data_api_poll_at: opt_time_at(cells, 12),
                    data_api_etag: opt_text_at(cells, 13),
                    websub_lease_expires_at: opt_time_at(cells, 14),
                    websub_last_received_at: opt_time_at(cells, 15),
                },
            )
        },
    }
}

/// The further columns of a whole row of the table of channels.
pub open spec fn channel_row_columns() -> Seq<(usize, Kind)> {
    seq![
        (16usize, Kind::Text),
        (17usize, Kind::OptTime),
        (18usize, Kind::OptTime),
        (19usize, Kind::Time),
        (20usize, Kind::OptText),
        (21usize, Kind::OptText),
    ]
}

fn channel_row_column_list() -> (r: Vec<(usize, Kind)>)
    ensures
        r@ == channel_row_columns(),
{
    let mut out: Vec<(usize, Kind)> = Vec::new();
    out.push((16, Kind::Text));
    out.push((17, Kind::OptTime));
    out.push((18, Kind::OptTime));
    out.push((19, Kind::Time));
    out.push((20, Kind::OptText));
    out.push((21, Kind::OptText));
    out
}

/// Whether values are those of a row of the table of channels.
pub open spec fn channel_row_reads(cells: Seq<CellModel>, row: ChannelRowModel) -> bool {
    &&& channel_reads(cells, row.channel)
    &&& reads_text(cells[16], row.feed_url)
    &&& reads_opt_time(cells[17], row.baseline_at)
    &&& reads_opt_time(cells[18], row.last_reconcile_at)
    &&& reads_time(cells[19], row.created_at)
    &&& reads_opt_text(cells[20], row.websub_secret)
    &&& reads_opt_text(cells[21], row.websub_callback_path)
}

/// The first column of a whole row of the table of channels that does not hold what it should.
pub open spec fn channel_row_fault(cells: Seq<CellModel>) -> Option<RowFault> {
    match first_fault(cells, channel_columns(), 0) {
        Some(e) => Some(e),
        None => first_fault(cells, channel_row_columns(), 0),
    }
}

/// A row of the table of channels, from its values.
pub fn channel_row_from(cells: &[Cell]) -> (r: Result<ChannelRow, RowFault>)
    ensures
        match channel_row_fault(cell_models(cells@)) {
            Some(e) => r == Err::<ChannelRow, RowFault>(e),
            None => r matches Ok(row) && channel_row_reads(cell_models(cells@), row@),
        },
{
    let channel = match channel_from_row(cells) {
        Ok(channel) => channel,
        Err(e) => {
            return Err(e);
        },
    };
    let columns = channel_row_column_list();
    match check(cells, &columns) {
        Some(e) => Err(e),
        None => {
            proof {
                assert(channel_row_columns()[0] == (16usize, Kind::Text));
                assert(channel_row_columns()[1] == (17usize, Kind::OptTime));
                assert(channel_row_columns()[2] == (18usize, Kind::OptTime));
                assert(channel_row_columns()[3] == (19usize, Kind::Time));
                assert(channel_row_columns()[4] == (20usize, Kind::OptText));
                assert(channel_row_columns()[5] == (21usize, Kind::OptText));
            }
            Ok(
                ChannelRow {
                    channel,
                    feed_url: text_at(cells, 16),
                    baseline_at: opt_time_at(cells, 17),
                    last_reconcile_at: opt_time_at(cells, 18),
                    created_at: time_at(cells, 19),
                    websub_secret: opt_text_at(cells, 20),
                    websub_callback_path: opt_text_at(cells, 21),
                },
            )
        },
    }
}

/// Whether the points in time of a row can be kept.
pub open spec fn channel_row_fits(row: ChannelRowModel) -> bool {
    &&& row.channel.last_checked_at matches Some(t) ==> in_range(t)
    &&& row.channel.next_poll_at matches Some(t) ==> in_range(t)
    &&& row.channel.next_data_api_poll_at matches Some(t) ==> in_range(t)
    &&& row.channel.websub_lease_expires_at matches Some(t) ==> in_range(t)
    &&& row.channel.websub_last_received_at matches Some(t) ==> in_range(t)
    &&& row.baseline_at matches Some(t) ==> in_range(t)
    &&& row.last_reconcile_at matches Some(t) ==> in_range(t)
    &&& in_range(row.created_at)
}


fn channel_part_first(row: &ChannelRow) -> (r: Vec<Cell>)
    ensures
        r@.len() == 6,
        reads_whole(cell_models(r@)[0], row.channel.id),
        reads_text(cell_models(r@)[1], row.channel.youtube_channel_id@),
        reads_text(cell_models(r@)[2], row.channel.name@),
        reads_text(cell_models(r@)[3], row.channel.url@),
        reads_flag(cell_models(r@)[4], row.channel.enabled),
        cell_models(r@)[5] == CellModel::Text(row.channel.transfer_mode.text()),
{
    let mut out: Vec<Cell> = Vec::new();
    out.push(Cell::Int(row.channel.id));
    out.push(Cell::Text(row.channel.youtube_channel_id.clone()));
    out.push(Cell::Text(row.channel.name.clone()));
    out.push(Cell::Text(row.channel.url.clone()));
    out.push(flag_cell(row.channel.enabled));
    out.push(Cell::Text(row.channel.transfer_mode.as_str().to_owned()));
    out
}

fn channel_part_second(row: &ChannelRow) -> (r: Vec<Cell>)
    ensures
        r@.len() == 6,
        cell_models(r@)[0] == CellModel::Text(row.channel.priority.text()),
        (row.channel.last_checked_at matches Some(t) ==> in_range(t)) ==> reads_opt_time(
            cell_models(r@)[1],
            row.channel.last_checked_at,
        ),
        reads_opt_text(cell_models(r@)[2], opt_view(row.channel.last_error)),
        (row.channel.next_poll_at matches Some(t) ==> in_range(t)) ==> reads_opt_time(
            cell_models(r@)[3],
            row.channel.next_poll_at,
        ),
        reads_count(cell_models(r@)[4], row.channel.consecutive_failures),
        reads_opt_text(cell_models(r@)[5], opt_view(row.channel.uploads_playlist_id)),
{
    let mut out: Vec<Cell> = Vec::new();
    out.push(Cell::Text(row.channel.priority.as_str().to_owned()));
    out.push(opt_time_cell(row.channel.last_checked_at));
    out.push(opt_text_cell(&row.channel.last_error));
    out.push(opt_time_cell(row.channel.next_poll_at));
    out.push(Cell::Int(row.channel.consecutive_failures as i64));
    out.push(opt_text_cell(&row.channel.uploads_playlist_id));
    out
}

fn channel_part_third(row: &ChannelRow) -> (r: Vec<Cell>)
    ensures
        r@.len() == 6,
        (row.channel.next_data_api_poll_at matches Some(t) ==> in_range(t)) ==> reads_opt_time(
            cell_models(r@)[0],
            row.channel.next_data_api_poll_at,
        ),
        reads_opt_text(cell_models(r@)[1], opt_view(row.channel.data_api_etag)),
        (row.channel.websub_lease_expires_at matches Some(t) ==> in_range(t)) ==> reads_opt_time(
            cell_models(r@)[2],
            row.channel.websub_lease_expires_at,
        ),
        (row.channel.websub_last_received_at matches Some(t) ==> in_range(t)) ==> reads_opt_time(
            cell_models(r@)[3],
            row.channel.websub_last_received_at,
        ),
        reads_text(cell_models(r@)[4], row.feed_url@),
        (row.baseline_at matches Some(t) ==> in_range(t)) ==> reads_opt_time(
            cell_models(r@)[5],
            row.baseline_at,
        ),
{
    let mut out: Vec<Cell> = Vec::new();
    out.push(opt_time_cell(row.channel.next_data_api_poll_at));
    out.push(opt_text_cell(&row.channel.data_api_etag));
    out.push(opt_time_cell(row.channel.websub_lease_expires_at));
    out.push(opt_time_cell(row.channel.websub_last_received_at));
    out.push(Cell::Text(row.feed_url.clone()));
    out.push(opt_time_cell(row.baseline_at));
    out
}

fn channel_part_fourth(row: &ChannelRow) -> (r: Vec<Cell>)
    ensures
        r@.len() == 4,
        (row.last_reconcile_at matches Some(t) ==> in_range(t)) ==> reads_opt_time(
            cell_models(r@)[0],
            row.last_reconcile_at,
        ),
        in_range(row.created_at) ==> reads_time(cell_models(r@)[1], row.created_at),
        reads_opt_text(cell_models(r@)[2], opt_view(row.websub_secret)),
        reads_opt_text(cell_models(r@)[3], opt_view(row.websub_callback_path)),
{
    let mut out: Vec<Cell> = Vec::new();
    out.push(opt_time_cell(row.last_reconcile_at));
    out.push(time_cell(row.created_at));
    out.push(opt_text_cell(&row.websub_secret));
    out.push(opt_text_cell(&row.websub_callback_path));
    out
}

/// The values of a row of the table of channels. They read back as the row wherever its points in
/// time can be kept.
pub fn channel_row_cells(row: &ChannelRow) -> (r: Vec<Cell>)
    ensures
        r@.len() == 22,
        channel_row_fits(row@) ==> channel_row_reads(cell_models(r@), row@),
{
    let mut out = channel_part_first(row);
    let mut part = channel_part_second(row);
    let ghost added = cell_models(part@);
    let ghost before = cell_models(out@);
    out.append(&mut part);
    proof {
        assert(cell_models(out@) =~= before + added);
    }
    let mut part = channel_part_third(row);
    let ghost added = cell_models(part@);
    let ghost before = cell_models(out@);
    out.append(&mut part);
    proof {
        assert(cell_models(out@) =~= before + added);
    }
    let mut part = channel_part_fourth(row);
    let ghost added = cell_models(part@);
    let ghost before = cell_models(out@);
    out.append(&mut part);
    proof {
        assert(cell_models(out@) =~= before + added);
    }
    out
}

// ---------------------------------------------------------------------------------------------
// Candidates
// ---------------------------------------------------------------------------------------------

/// The columns of a candidate, in the order in which they are read.
pub open spec fn candidate_columns() -> Seq<(usize, Kind)> {
    seq![
        (5usize, Kind::Source),
        (7usize, Kind::Screening),
        (0usize, Kind::Text),
        (1usize, Kind::OptWhole),
        (2usize, Kind::Text),
        (3usize, Kind::OptText),
        (4usize, Kind::OptTime),
        (6usize, Kind::Time),
        (8usize, Kind::Whole),
        (9usize, Kind::OptTime),
        (10usize, Kind::OptText),
        (11usize, Kind::OptText),
        (12usize, Kind::Flag),
    ]
}

fn candidate_column_list() -> (r: Vec<(usize, Kind)>)
    ensures
        r@ == candidate_columns(),
{
    let mut out: Vec<(usize, Kind)> = Vec::new();
    out.push((5, Kind::Source));
    out.push((7, Kind::Screening));
    out.push((0, Kind::Text));
    out.push((1, Kind::OptWhole));
    out.push((2, Kind::Text));
    out.push((3, Kind::OptText));
    out.push((4, Kind::OptTime));
    out.push((6, Kind::Time));
    out.push((8, Kind::Whole));
    out.push((9, Kind::OptTime));
    out.push((10, Kind::OptText));
    out.push((11, Kind::OptText));
    out.push((12, Kind::Flag));
    out
}

/// Whether values are those of a candidate.
pub open spec fn candidate_reads(cells: Seq<CellModel>, candidate: CandidateModel) -> bool {
    &&& reads_text(cells[0], candidate.video_id)
    &&& reads_opt_whole(cells[1], candidate.channel_id)
    &&& reads_text(cells[2], candidate.url)
    &&& reads_opt_text(cells[3], candidate.title)
    &&& reads_opt_time(cells[4], candidate.published_at)
    &&& cells[5] == CellModel::Text(candidate.source.text())
    &&& reads_time(cells[6], candidate.discovered_at)
    &&& cells[7] == CellModel::Text(candidate.gate_state.text())
    &&& reads_whole(cells[8], candidate.gate_attempts)
    &&& reads_opt_time(cells[9], candidate.next_gate_at)
    &&& reads_opt_text(cells[10], candidate.last_error)
    &&& reads_opt_text(cells[11], candidate.source_language)
    &&& reads_flag(cells[12], candidate.source_language_mismatch)
}

/// A candidate, from the values of its row.
pub fn candidate_from_row(cells: &[Cell]) -> (r: Result<VideoCandidate, RowFault>)
    ensures
        match first_fault(cell_models(cells@), candidate_columns(), 0) {
            Some(e) => r == Err::<VideoCandidate, RowFault>(e),
            None => r matches Ok(candidate) && candidate_reads(cell_models(cells@), candidate@),
        },
{
    let columns = candidate_column_list();
    match check(cells, &columns) {
        Some(e) => Err(e),
        None => {
            proof {
                assert(candidate_columns()[0] == (5usize, Kind::Source));
                assert(candidate_columns()[1] == (7usize, Kind::Screening));
                assert(candidate_columns()[2] == (0usize, Kind::Text));
                assert(candidate_columns()[3] == (1usize, Kind::OptWhole));
                assert(candidate_columns()[4] == (2usize, Kind::Text));
                assert(candidate_columns()[5] == (3usize, Kind::OptText));
                assert(candidate_columns()[6] == (4usize, Kind::OptTime));
                assert(candidate_columns()[7] == (6usize, Kind::Time));
                assert(candidate_columns()[8] == (8usize, Kind::Whole));
                assert(candidate_columns()[9] == (9usize, Kind::OptTime));
                assert(candidate_columns()[10] == (10usize, Kind::OptText));
                assert(candidate_columns()[11] == (11usize, Kind::OptText));
                assert(candidate_columns()[12] == (12usize, Kind::Flag));
            }
            Ok(
                VideoCandidate {
                    video_id: text_at(cells, 0),
                    channel_id: opt_whole_at(cells, 1),
                    url: text_at(cells, 2),
                    title: opt_text_at(cells, 3),
                    published_at: opt_time_at(cells, 4),
                    source: source_at(cells, 5),
                    discovered_at: time_at(cells, 6),
                    gate_state: screening_at(cells, 7),
                    gate_attempts: whole_at(cells, 8),
                    next_gate_at: opt_time_at(cells, 9),
                    last_error: opt_text_at(cells, 10),
                    source_language: opt_text_at(cells, 11),
                    source_language_mismatch: flag_at(cells, 12),
                },
            )
        },
    }
}

/// Whether the points in time of a candidate can be kept.
pub open spec fn candidate_fits(candidate: CandidateModel) -> bool {
    &&& candidate.published_at matches Some(t) ==> in_range(t)
    &&& in_range(candidate.discovered_at)
    &&& candidate.next_gate_at matches Some(t) ==> in_range(t)
}

/// The values of a candidate. They read back as the candidate wherever its points in time can be
/// kept.
pub fn candidate_cells(candidate: &VideoCandidate) -> (r: Vec<Cell>)
    ensures
        r@.len() == 13,
        candidate_fits(candidate@) ==> candidate_reads(cell_models(r@), candidate@),
{
    let mut out: Vec<Cell> = Vec::new();
    out.push(Cell::Text(candidate.video_id.clone()));
    out.push(opt_whole_cell(candidate.channel_id));
    out.push(Cell::Text(candidate.url.clone()));
    out.push(opt_text_cell(&candidate.title));
    out.push(opt_time_cell(candidate.published_at));
    out.push(Cell::Text(candidate.source.as_str().to_owned()));
    out.push(time_cell(candidate.discovered_at));
    out.push(Cell::Text(candidate.gate_state.as_str().to_owned()));
    out.push(Cell::Int(candidate.gate_attempts));
    out.push(opt_time_cell(candidate.next_gate_at));
    out.push(opt_text_cell(&candidate.last_error));
    out.push(opt_text_cell(&candidate.source_language));
    out.push(flag_cell(candidate.source_language_mismatch));
    out
}

// ---------------------------------------------------------------------------------------------
// Other rows
// ---------------------------------------------------------------------------------------------

/// The columns of a subscription, in the order in which they are read.
pub open spec fn subscription_columns() -> Seq<(usize, Kind)> {
    seq![
        (0usize, Kind::Whole),
        (1usize, Kind::Text),
        (2usize, Kind::Text),
        (3usize, Kind::Flag),
        (4usize, Kind::OptTime),
        (5usize, Kind::OptText),
        (6usize, Kind::OptText),
        (7usize, Kind::OptTime),
    ]
}

fn subscription_column_list() -> (r: Vec<(usize, Kind)>)
    ensures
        r@ == subscription_columns(),
{
    let mut out: Vec<(usize, Kind)> = Vec::new();
    out.push((0, Kind::Whole));
    out.push((1, Kind::Text));
    out.push((2, Kind::Text));
    out.push((3, Kind::Flag));
    out.push((4, Kind::OptTime));
    out.push((5, Kind::OptText));
    out.push((6, Kind::OptText));
    out.push((7, Kind::OptTime));
    out
}

/// Whether values are those of a subscription.
pub open spec fn subscription_reads(cells: Seq<CellModel>, v: WebSubChannel) -> bool {
    &&& reads_whole(cells[0], v.id)
    &&& reads_text(cells[1], v.youtube_channel_id@)
    &&& reads_text(cells[2], v.name@)
    &&& reads_flag(cells[3], v.enabled)
    &&& reads_opt_time(cells[4], v.lease_expires_at)
    &&& reads_opt_text(cells[5], opt_view(v.secret))
    &&& reads_opt_text(cells[6], opt_view(v.callback_path))
    &&& reads_opt_time(cells[7], v.last_received_at)
}

/// A subscription, from the values of a row.
pub fn websub_channel_from_row(cells: &[Cell]) -> (r: Result<WebSubChannel, RowFault>)
    ensures
        match first_fault(cell_models(cells@), subscription_columns(), 0) {
            Some(e) => r == Err::<WebSubChannel, RowFault>(e),
            None => r matches Ok(v) && subscription_reads(cell_models(cells@), v),
        },
{
    let columns = subscription_column_list();
    match check(cells, &columns) {
        Some(e) => Err(e),
        None => {
            proof {
                assert(subscription_columns()[0] == (0usize, Kind::Whole));
                assert(subscription_columns()[1] == (1usize, Kind::Text));
                assert(subscription_columns()[2] == (2usize, Kind::Text));
                assert(subscription_columns()[3] == (3usize, Kind::Flag));
                assert(subscription_columns()[4] == (4usize, Kind::OptTime));
                assert(subscription_columns()[5] == (5usize, Kind::OptText));
                assert(subscription_columns()[6] == (6usize, Kind::OptText));
                assert(subscription_columns()[7] == (7usize, Kind::OptTime));
            }
            Ok(
                WebSubChannel {
                    id: whole_at(cells, 0),
                    youtube_channel_id: text_at(cells, 1),
                    name: text_at(cells, 2),
                    enabled: flag_at(cells, 3),
                    lease_expires_at: opt_time_at(cells, 4),
                    secret: opt_text_at(cells, 5),
                    callback_path: opt_text_at(cells, 6),
                    last_received_at: opt_time_at(cells, 7),
                },
            )
        },
    }
}

/// The columns of the tokens and the cost of calls, in the order in which they are read.
pub open spec fn usage_columns() -> Seq<(usize, Kind)> {
    seq![
        (0usize, Kind::Whole),
        (1usize, Kind::Whole),
        (2usize, Kind::Whole),
        (3usize, Kind::Whole),
        (4usize, Kind::Whole),
        (5usize, Kind::Whole),
        (6usize, Kind::OptWhole),
    ]
}

fn usage_column_list() -> (r: Vec<(usize, Kind)>)
    ensures
        r@ == usage_columns(),
{
    let mut out: Vec<(usize, Kind)> = Vec::new();
    out.push((0, Kind::Whole));
    out.push((1, Kind::Whole));
    out.push((2, Kind::Whole));
    out.push((3, Kind::Whole));
    out.push((4, Kind::Whole));
    out.push((5, Kind::Whole));
    out.push((6, Kind::OptWhole));
    out
}

/// Whether values are those of the tokens and the cost of calls.
pub open spec fn usage_reads(cells: Seq<CellModel>, v: AiUsage) -> bool {
    &&& reads_whole(cells[0], v.input)
    &&& reads_whole(cells[1], v.output)
    &&& reads_whole(cells[2], v.reasoning)
    &&& reads_whole(cells[3], v.cache_read)
    &&& reads_whole(cells[4], v.cache_write)
    &&& reads_whole(cells[5], v.total)
    &&& reads_opt_whole(cells[6], v.cost)
}

/// The tokens and the cost of calls, from the values of a row. The cost is in billionths.
pub fn usage_from_row(cells: &[Cell]) -> (r: Result<AiUsage, RowFault>)
    ensures
        match first_fault(cell_models(cells@), usage_columns(), 0) {
            Some(e) => r == Err::<AiUsage, RowFault>(e),
            None => r matches Ok(v) && usage_reads(cell_models(cells@), v),
        },
{
    let columns = usage_column_list();
    match check(cells, &columns) {
        Some(e) => Err(e),
        None => {
            proof {
                assert(usage_columns()[0] == (0usize, Kind::Whole));
                assert(usage_columns()[1] == (1usize, Kind::Whole));
                assert(usage_columns()[2] == (2usize, Kind::Whole));
                assert(usage_columns()[3] == (3usize, Kind::Whole));
                assert(usage_columns()[4] == (4usize, Kind::Whole));
                assert(usage_columns()[5] == (5usize, Kind::Whole));
                assert(usage_columns()[6] == (6usize, Kind::OptWhole));
            }
            Ok(
                AiUsage {
                    input: whole_at(cells, 0),
                    output: whole_at(cells, 1),
                    reasoning: whole_at(cells, 2),
                    cache_read: whole_at(cells, 3),
                    cache_write: whole_at(cells, 4),
                    total: whole_at(cells, 5),
                    cost: opt_whole_at(cells, 6),
                },
            )
        },
    }
}

/// The columns of the lock, in the order in which they are read.
pub open spec fn hold_columns() -> Seq<(usize, Kind)> {
    seq![
        (0usize, Kind::Text),
        (1usize, Kind::Text),
        (2usize, Kind::Time),
        (3usize, Kind::Time),
        (4usize, Kind::Time),
    ]
}

fn hold_column_list() -> (r: Vec<(usize, Kind)>)
    ensures
        r@ == hold_columns(),
{
    let mut out: Vec<(usize, Kind)> = Vec::new();
    out.push((0, Kind::Text));
    out.push((1, Kind::Text));
    out.push((2, Kind::Time));
    out.push((3, Kind::Time));
    out.push((4, Kind::Time));
    out
}

/// Whether values are those of the lock.
pub open spec fn hold_reads(cells: Seq<CellModel>, v: HoldModel) -> bool {
    &&& reads_text(cells[0], v.owner)
    &&& reads_text(cells[1], v.reason)
    &&& reads_time(cells[2], v.acquired_at)
    &&& reads_time(cells[3], v.heartbeat_at)
    &&& reads_time(cells[4], v.expires_at)
}

/// The lock, from the values of a row.
pub fn maintenance_hold_from_row(cells: &[Cell]) -> (r: Result<MaintenanceHold, RowFault>)
    ensures
        match first_fault(cell_models(cells@), hold_columns(), 0) {
            Some(e) => r == Err::<MaintenanceHold, RowFault>(e),
            None => r matches Ok(v) && hold_reads(cell_models(cells@), v@),
        },
{
    let columns = hold_column_list();
    match check(cells, &columns) {
        Some(e) => Err(e),
        None => {
            proof {
                assert(hold_columns()[0] == (0usize, Kind::Text));
                assert(hold_columns()[1] == (1usize, Kind::Text));
                assert(hold_columns()[2] == (2usize, Kind::Time));
                assert(hold_columns()[3] == (3usize, Kind::Time));
                assert(hold_columns()[4] == (4usize, Kind::Time));
            }
            Ok(
                MaintenanceHold {
                    owner: text_at(cells, 0),
                    reason: text_at(cells, 1),
                    acquired_at: time_at(cells, 2),
                    heartbeat_at: time_at(cells, 3),
                    expires_at: time_at(cells, 4),
                },
            )
        },
    }
}

/// The columns of an event of the lock, in the order in which they are read.
pub open spec fn hold_event_columns() -> Seq<(usize, Kind)> {
    seq![
        (0usize, Kind::Whole),
        (1usize, Kind::Action),
        (2usize, Kind::Text),
        (3usize, Kind::OptText),
        (4usize, Kind::Text),
        (5usize, Kind::OptText),
        (6usize, Kind::Time),
        (7usize, Kind::OptTime),
    ]
}

fn hold_event_column_list() -> (r: Vec<(usize, Kind)>)
    ensures
        r@ == hold_event_columns(),
{
    let mut out: Vec<(usize, Kind)> = Vec::new();
    out.push((0, Kind::Whole));
    out.push((1, Kind::Action));
    out.push((2, Kind::Text));
    out.push((3, Kind::OptText));
    out.push((4, Kind::Text));
    out.push((5, Kind::OptText));
    out.push((6, Kind::Time));
    out.push((7, Kind::OptTime));
    out
}

/// Whether values are those of an event of the lock.
pub open spec fn hold_event_reads(cells: Seq<CellModel>, v: HoldEventModel) -> bool {
    &&& reads_whole(cells[0], v.id)
    &&& cells[1] == CellModel::Text(v.action.text())
    &&& reads_text(cells[2], v.owner)
    &&& reads_opt_text(cells[3], v.previous_owner)
    &&& reads_text(cells[4], v.reason)
    &&& reads_opt_text(cells[5], v.previous_reason)
    &&& reads_time(cells[6], v.occurred_at)
    &&& reads_opt_time(cells[7], v.expires_at)
}

/// An event of the lock, from the values of a row.
pub fn maintenance_hold_event_from_row(cells: &[Cell]) -> (r: Result<MaintenanceHoldEvent, RowFault>)
    ensures
        match first_fault(cell_models(cells@), hold_event_columns(), 0) {
            Some(e) => r == Err::<MaintenanceHoldEvent, RowFault>(e),
            None => r matches Ok(v) && hold_event_reads(cell_models(cells@), v@),
        },
{
    let columns = hold_event_column_list();
    match check(cells, &columns) {
        Some(e) => Err(e),
        None => {
            proof {
                assert(hold_event_columns()[0] == (0usize, Kind::Whole));
                assert(hold_event_columns()[1] == (1usize, Kind::Action));
                assert(hold_event_columns()[2] == (2usize, Kind::Text));
                assert(hold_event_columns()[3] == (3usize, Kind::OptText));
                assert(hold_event_columns()[4] == (4usize, Kind::Text));
                assert(hold_event_columns()[5] == (5usize, Kind::OptText));
                assert(hold_event_columns()[6] == (6usize, Kind::Time));
                assert(hold_event_columns()[7] == (7usize, Kind::OptTime));
            }
            Ok(
                MaintenanceHoldEvent {
                    id: whole_at(cells, 0),
                    action: action_at(cells, 1),
                    owner: text_at(cells, 2),
                    previous_owner: opt_text_at(cells, 3),
                    reason: text_at(cells, 4),
                    previous_reason: opt_text_at(cells, 5),
                    occurred_at: time_at(cells, 6),
                    expires_at: opt_time_at(cells, 7),
                },
            )
        },
    }
}

// ---------------------------------------------------------------------------------------------
// Reading back
// ---------------------------------------------------------------------------------------------

/// Values are those of one job at most: two jobs that are kept as the same values are the same.
pub proof fn one_job_reads(cells: Seq<CellModel>, a: JobModel, b: JobModel)
    requires
        job_reads(cells, a),
        job_reads(cells, b),
    ensures
        a == b,
{
    status_texts_differ(a.status, b.status);
    stored_texts_differ();
}

/// Values are those of one channel at most.
pub proof fn one_channel_reads(cells: Seq<CellModel>, a: ChannelRowModel, b: ChannelRowModel)
    requires
        channel_row_reads(cells, a),
        channel_row_reads(cells, b),
    ensures
        a == b,
{
    stored_texts_differ();
}

/// Values are those of one candidate at most.
pub proof fn one_candidate_reads(cells: Seq<CellModel>, a: CandidateModel, b: CandidateModel)
    requires
        candidate_reads(cells, a),
        candidate_reads(cells, b),
    ensures
        a == b,
{
    stored_texts_differ();
}

// ---------------------------------------------------------------------------------------------
// Where each value stands in a row
// ---------------------------------------------------------------------------------------------

/// A job's values stand in their own columns.
pub proof fn jobs_stand_in_their_columns(cells: Seq<CellModel>, job: JobModel)
    requires
        job_reads(cells, job),
    ensures
        cells[0] == CellModel::Text(job.id),
        cells[2] == CellModel::Text(job.video_id),
        cells[3] == CellModel::Text(job.url),
        cells[1] == if job.channel_id is Some {
            CellModel::Int(job.channel_id->Some_0 as int)
        } else {
            CellModel::Null
        },
        cells[4] == if job.title is Some { CellModel::Text(job.title->Some_0) } else { CellModel::Null },
        cells[5] == CellModel::Text(job.status.text()),
        job.transfer_mode == TransferMode::Direct ==> cells[6] == CellModel::Text("direct"@),
        job.transfer_mode == TransferMode::Translated ==> cells[6] == CellModel::Text("translated"@),
        job.published_at is None <==> cells[7] is Null,
        cells[12] == if job.width is Some {
            CellModel::Int(job.width->Some_0 as int)
        } else {
            CellModel::Null
        },
        cells[13] == if job.height is Some {
            CellModel::Int(job.height->Some_0 as int)
        } else {
            CellModel::Null
        },
        cells[14] == if job.bvid is Some { CellModel::Text(job.bvid->Some_0) } else { CellModel::Null },
        cells[15] == if job.provider is Some {
            CellModel::Text(job.provider->Some_0)
        } else {
            CellModel::Null
        },
        cells[16] == if job.ai_model is Some {
            CellModel::Text(job.ai_model->Some_0)
        } else {
            CellModel::Null
        },
        cells[18] == CellModel::Int(job.attempt as int),
        cells[19] == if job.error is Some { CellModel::Text(job.error->Some_0) } else { CellModel::Null },
        cells[20] == CellModel::Int(job.subtitle_attempt as int),
        cells[10] is Int && (job.is_short <==> cells[10]->Int_0 != 0),
{
}

/// A channel's values stand in their own columns.
pub proof fn channels_stand_in_their_columns(cells: Seq<CellModel>, row: ChannelRowModel)
    requires
        channel_row_reads(cells, row),
    ensures
        cells[0] == CellModel::Int(row.channel.id as int),
        cells[1] == CellModel::Text(row.channel.youtube_channel_id),
        cells[2] == CellModel::Text(row.channel.name),
        cells[3] == CellModel::Text(row.channel.url),
        cells[4] is Int && (row.channel.enabled <==> cells[4]->Int_0 != 0),
        row.channel.transfer_mode == TransferMode::Direct ==> cells[5] == CellModel::Text("direct"@),
        row.channel.transfer_mode == TransferMode::Translated ==> cells[5] == CellModel::Text(
            "translated"@,
        ),
        row.channel.priority == ChannelPriority::Normal ==> cells[6] == CellModel::Text("normal"@),
        row.channel.priority == ChannelPriority::Priority ==> cells[6] == CellModel::Text(
            "priority"@,
        ),
        row.channel.next_poll_at is None <==> cells[9] is Null,
        cells[10] == CellModel::Int(row.channel.consecutive_failures as int),
        cells[16] == CellModel::Text(row.feed_url),
        row.baseline_at is None <==> cells[17] is Null,
{
}

/// A candidate's values stand in their own columns.
pub proof fn candidates_stand_in_their_columns(cells: Seq<CellModel>, c: CandidateModel)
    requires
        candidate_reads(cells, c),
    ensures
        cells[0] == CellModel::Text(c.video_id),
        cells[2] == CellModel::Text(c.url),
        cells[3] == if c.title is Some { CellModel::Text(c.title->Some_0) } else { CellModel::Null },
        c.source == CandidateSource::Rss ==> cells[5] == CellModel::Text("rss"@),
        c.source == CandidateSource::DataApi ==> cells[5] == CellModel::Text("data_api"@),
        c.source == CandidateSource::Ytdlp ==> cells[5] == CellModel::Text("ytdlp"@),
        c.gate_state == GateState::Pending ==> cells[7] == CellModel::Text("pending"@),
        c.gate_state == GateState::Deferred ==> cells[7] == CellModel::Text("deferred"@),
        c.gate_state == GateState::Rejected ==> cells[7] == CellModel::Text("rejected"@),
        c.gate_state == GateState::Promoted ==> cells[7] == CellModel::Text("promoted"@),
        cells[8] == CellModel::Int(c.gate_attempts as int),
        c.next_gate_at is None <==> cells[9] is Null,
        cells[12] is Int && (c.source_language_mismatch <==> cells[12]->Int_0 != 0),
{
}

/// A time is read from its text, and one that is not there is none.
pub proof fn times_are_read_from_their_texts(c: CellModel, t: Seq<char>, at: i64, v: Option<i64>)
    requires
        reads_opt_time(c, v),
    ensures
        c is Null <==> v is None,
        c == CellModel::Text(t) && rfc3339_millis(t) == Some(at as int) ==> v == Some(at),
{
}

/// A fault of a row is its first column, in the order of reading, that does not hold what it should.
pub proof fn first_bad_column_is_told(cells: Seq<CellModel>, columns: Seq<(usize, Kind)>, k: int, j: int)
    requires
        0 <= k <= j < columns.len(),
        !(columns[j].0 < cells.len() && holds(cells[columns[j].0 as int], columns[j].1)),
        forall|i: int|
            k <= i < j ==> (#[trigger] columns[i]).0 < cells.len() && holds(
                cells[columns[i].0 as int],
                columns[i].1,
            ),
    ensures
        first_fault(cells, columns, k) == Some(
            RowFault { column: columns[j].0, kind: columns[j].1 },
        ),
    decreases j - k,
{
    if k < j {
        assert(column_holds(cells, columns[k]));
        first_bad_column_is_told(cells, columns, k + 1, j);
    }
}

/// What is kept beside a job stands in columns of its own, behind the job's.
pub proof fn rows_stand_in_their_columns(cells: Seq<CellModel>, row: RowModel)
    requires
        job_row_reads(cells, row),
    ensures
        row.legacy is None ==> cells[5] == CellModel::Text(row.job.status.text()),
        row.legacy is Some ==> cells[5] == CellModel::Text(row.legacy->Some_0.text()),
        cells[0] == CellModel::Text(row.job.id) && cells[2] == CellModel::Text(row.job.video_id),
        row.retry_at is None <==> cells[21] is Null,
        row.subtitle_retry_at is None <==> cells[22] is Null,
        cells[23] == if row.claim_kind is Some {
            CellModel::Text(row.claim_kind->Some_0)
        } else {
            CellModel::Null
        },
        cells[24] == if row.claim_owner is Some {
            CellModel::Text(row.claim_owner->Some_0)
        } else {
            CellModel::Null
        },
        row.claim_expires_at is None <==> cells[25] is Null,
        cells[26] == if row.raw_video_path is Some {
            CellModel::Text(row.raw_video_path->Some_0)
        } else {
            CellModel::Null
        },
        cells[28] == if row.subtitle_path is Some {
            CellModel::Text(row.subtitle_path->Some_0)
        } else {
            CellModel::Null
        },
        cells[29] is Text && cells[30] is Text,
{
}

/// A usage, a lock and a line of its log stand in their own columns.
pub proof fn usages_and_locks_stand_in_their_columns(
    cells: Seq<CellModel>,
    u: AiUsage,
    h: HoldModel,
    e: HoldEventModel,
)
    ensures
        usage_reads(cells, u) ==> cells[0] == CellModel::Int(u.input as int) && cells[1]
            == CellModel::Int(u.output as int) && cells[2] == CellModel::Int(u.reasoning as int)
            && cells[3] == CellModel::Int(u.cache_read as int) && cells[4] == CellModel::Int(
            u.cache_write as int,
        ) && cells[5] == CellModel::Int(u.total as int),
        hold_reads(cells, h) ==> cells[0] == CellModel::Text(h.owner) && cells[1] == CellModel::Text(
            h.reason,
        ) && (cells[4] matches CellModel::Text(t) ==> stored_millis(t) == Some(h.expires_at as int))
            && (cells[2] matches CellModel::Text(t) ==> stored_millis(t) == Some(
            h.acquired_at as int,
        )),
        hold_event_reads(cells, e) ==> cells[0] == CellModel::Int(e.id as int) && cells[2]
            == CellModel::Text(e.owner) && cells[4] == CellModel::Text(e.reason) && (
        e.previous_owner is None <==> cells[3] is Null) && (e.action == HoldAction::Acquired
            ==> cells[1] == CellModel::Text("acquired"@)) && (e.action == HoldAction::TakenOver
            ==> cells[1] == CellModel::Text("taken_over"@)) && (e.action == HoldAction::Renewed
            ==> cells[1] == CellModel::Text("renewed"@)) && (e.action == HoldAction::Released
            ==> cells[1] == CellModel::Text("released"@)),
{
}

} // verus!
