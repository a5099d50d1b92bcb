//! What the model's process prints: a stream of JSON lines, the last answer in it, and the ranges
//! and translations that an answer holds.
use vstd::prelude::*;

use crate::json::{
    json_text, list_model, list_model_index, member, parsed, read_json, write_json, Json, JsonModel,
};
use crate::text::{
    chars_of, is_space, lines_of, opt_view, same_text, skip_back, skip_front, split_lines, string_of,
    strip_back, strip_front, stripping_takes_all_of_them, trim_bounds, trimmed,
    trimming_keeps_the_inside, views,
};

verus! {

/// Token counts that the model reports for one answer. The cost keeps the text of its number.
#[derive(Debug)]
pub struct PiUsage {
    pub input: i64,
    pub output: i64,
    pub reasoning: i64,
    pub cache_read: i64,
    pub cache_write: i64,
    pub total: i64,
    pub cost: Option<String>,
}

/// Why an answer cannot be used.
#[derive(Debug, PartialEq, Eq, Structural, Clone, Copy)]
pub enum ReplyError {
    /// The stream holds no final text.
    NoText,
    /// The final text is no JSON.
    NotJson,
    /// There is no list of ranges.
    NoRanges,
    /// A range has no start.
    RangeStart(usize),
    /// A range has no end.
    RangeEnd(usize),
    /// There is no list of translations.
    NoTranslations,
    /// A translation has no index.
    TranslationIndex(usize),
    /// A translation has no text.
    TranslationText(usize),
}

impl ReplyError {
    /// The message for this error.
    pub open spec fn text(self) -> Seq<char> {
        match self {
            ReplyError::NoText => "Pi JSON 流中没有最终文本"@,
            ReplyError::NotJson => "Pi 最终文本不是 JSON"@,
            ReplyError::NoRanges => "分句结果缺少 ranges"@,
            ReplyError::RangeStart(_) => "range.start"@,
            ReplyError::RangeEnd(_) => "range.end"@,
            ReplyError::NoTranslations => "翻译结果缺少 translations"@,
            ReplyError::TranslationIndex(_) => "translation.i"@,
            ReplyError::TranslationText(_) => "translation.text"@,
        }
    }

    /// The message for this error.
    pub fn message(&self) -> (r: String)
        ensures
            r@ == self.text(),
    {
        match self {
            ReplyError::NoText => "Pi JSON 流中没有最终文本".to_owned(),
            ReplyError::NotJson => "Pi 最终文本不是 JSON".to_owned(),
            ReplyError::NoRanges => "分句结果缺少 ranges".to_owned(),
            ReplyError::RangeStart(_) => "range.start".to_owned(),
            ReplyError::RangeEnd(_) => "range.end".to_owned(),
            ReplyError::NoTranslations => "翻译结果缺少 translations".to_owned(),
            ReplyError::TranslationIndex(_) => "translation.i".to_owned(),
            ReplyError::TranslationText(_) => "translation.text".to_owned(),
        }
    }
}

/// The integer of field `key`, where `i64` holds it.
pub open spec fn int_field(m: JsonModel, key: Seq<char>) -> Option<int> {
    match member(m, key) {
        Some(JsonModel::Int(n)) => if i64::MIN <= n <= i64::MAX {
            Some(n)
        } else {
            None
        },
        _ => None,
    }
}

/// The integer of field `key`, or 0.
pub open spec fn count_field(m: JsonModel, key: Seq<char>) -> int {
    match int_field(m, key) {
        Some(n) => n,
        None => 0,
    }
}

fn count_of(v: &Json, key: &str) -> (r: i64)
    ensures
        r == count_field(v@, key@),
{
    match v.get(key) {
        Some(x) => match x.as_i64() {
            Some(n) => n,
            None => 0,
        },
        None => 0,
    }
}

/// The text of the number `cost.total`.
pub open spec fn cost_text(m: JsonModel) -> Option<Seq<char>> {
    match member(m, "cost"@) {
        Some(c) => match member(c, "total"@) {
            Some(JsonModel::Int(n)) => Some(json_text(JsonModel::Int(n))),
            Some(JsonModel::Real(t)) => Some(t),
            _ => None,
        },
        None => None,
    }
}

/// Whether `u` holds the counts that `m` reports; a count that is missing is 0.
pub open spec fn usage_of(m: JsonModel, u: PiUsage) -> bool {
    &&& u.input == count_field(m, "input"@)
    &&& u.output == count_field(m, "output"@)
    &&& u.reasoning == count_field(m, "reasoning"@)
    &&& u.cache_read == count_field(m, "cacheRead"@)
    &&& u.cache_write == count_field(m, "cacheWrite"@)
    &&& u.total == count_field(m, "totalTokens"@)
    &&& opt_view(u.cost) == cost_text(m)
}

/// The counts that a report holds.
pub fn parse_usage(v: &Json) -> (r: PiUsage)
    ensures
        usage_of(v@, r),
{
    let cost = match v.get("cost") {
        Some(c) => match c.get("total") {
            Some(t) => match t {
                Json::Uint(_) | Json::Int(_) | Json::Real(_) => Some(write_json(t)),
                _ => None,
            },
            None => None,
        },
        None => None,
    };
    PiUsage {
        input: count_of(v, "input"),
        output: count_of(v, "output"),
        reasoning: count_of(v, "reasoning"),
        cache_read: count_of(v, "cacheRead"),
        cache_write: count_of(v, "cacheWrite"),
        total: count_of(v, "totalTokens"),
        cost,
    }
}

/// Whether field `key` is the string `text`.
pub open spec fn field_is(m: JsonModel, key: Seq<char>, text: Seq<char>) -> bool {
    member(m, key) == Some(JsonModel::Text(text))
}

fn field_equals(v: &Json, key: &str, text: &str) -> (r: bool)
    ensures
        r == field_is(v@, key@, text@),
{
    match v.get(key) {
        Some(x) => match x.as_text() {
            Some(t) => same_text(t.as_str(), text),
            None => false,
        },
        None => false,
    }
}

/// The last message of `messages[..n]` that the assistant wrote.
pub open spec fn last_answer(messages: Seq<JsonModel>, n: int) -> Option<JsonModel>
    decreases n,
{
    if n <= 0 || n > messages.len() {
        None
    } else if field_is(messages[n - 1], "role"@, "assistant"@) {
        Some(messages[n - 1])
    } else {
        last_answer(messages, n - 1)
    }
}

/// The assistant's last message of a line that ends the conversation; other lines have none.
pub open spec fn answer_of(m: JsonModel) -> Option<JsonModel> {
    if field_is(m, "type"@, "agent_end"@) {
        match member(m, "messages"@) {
            Some(JsonModel::List(messages)) => last_answer(messages, messages.len() as int),
            _ => None,
        }
    } else {
        None
    }
}

/// The answer of a line; a line that is no JSON has none.
pub open spec fn line_answer(line: Seq<char>) -> Option<JsonModel> {
    match parsed(line) {
        Some(m) => answer_of(m),
        None => None,
    }
}

/// The answer of the last of `lines[..n]` that has one.
pub open spec fn stream_answer(lines: Seq<Seq<char>>, n: int) -> Option<JsonModel>
    decreases n,
{
    if n <= 0 || n > lines.len() {
        None
    } else {
        match line_answer(lines[n - 1]) {
            Some(m) => Some(m),
            None => stream_answer(lines, n - 1),
        }
    }
}

/// The last string field `text` of `content[..n]`.
pub open spec fn last_text(content: Seq<JsonModel>, n: int) -> Option<Seq<char>>
    decreases n,
{
    if n <= 0 || n > content.len() {
        None
    } else {
        match member(content[n - 1], "text"@) {
            Some(JsonModel::Text(t)) => Some(t),
            _ => last_text(content, n - 1),
        }
    }
}

/// The final text of an answer.
pub open spec fn answer_text(answer: JsonModel) -> Option<Seq<char>> {
    match member(answer, "content"@) {
        Some(JsonModel::List(content)) => last_text(content, content.len() as int),
        _ => None,
    }
}

/// The final text without the fence of a code block and the white space around it.
pub open spec fn unfenced(text: Seq<char>) -> Seq<char> {
    trimmed(strip_back(strip_front(strip_front(trimmed(text), "```json"@), "```"@), "```"@))
}

/// The final text of a stream, without a fence around it.
pub open spec fn final_text(stream: Seq<char>) -> Option<Seq<char>> {
    match stream_answer(lines_of(stream), lines_of(stream).len() as int) {
        Some(answer) => match answer_text(answer) {
            Some(t) => Some(unfenced(t)),
            None => None,
        },
        None => None,
    }
}

fn unfence(text: &str) -> (r: String)
    ensures
        r@ == unfenced(text@),
{
    let chars = chars_of(text);
    let n: usize = chars.len();
    let (a, b) = trim_bounds(&chars, 0, n);
    proof {
        assert(chars@.subrange(0, n as int) =~= text@);
    }
    let c: usize = skip_front(&chars, a, b, &chars_of("```json"));
    let d: usize = skip_front(&chars, c, b, &chars_of("```"));
    let e: usize = skip_back(&chars, d, b, &chars_of("```"));
    let (f, g) = trim_bounds(&chars, d, e);
    string_of(&chars, f, g)
}

fn find_answer(messages: &Vec<Json>) -> (r: Option<&Json>)
    ensures
        r is Some <==> last_answer(list_model(messages@), messages@.len() as int) is Some,
        r matches Some(v) ==> last_answer(list_model(messages@), messages@.len() as int) == Some(
            v@,
        ),
{
    let ghost models = list_model(messages@);
    proof {
        list_model_index(messages@);
    }
    let mut n: usize = messages.len();
    while n > 0
        invariant
            0 <= n <= messages@.len(),
            models == list_model(messages@),
            models.len() == messages@.len(),
            forall|i: int| 0 <= i < models.len() ==> #[trigger] models[i] == messages@[i]@,
            last_answer(models, messages@.len() as int) == last_answer(models, n as int),
        decreases n,
    {
        assert(models[n - 1] == messages@[n - 1]@);
        if field_equals(&messages[n - 1], "role", "assistant") {
            return Some(&messages[n - 1]);
        }
        n = n - 1;
    }
    None
}

fn find_text(content: &Vec<Json>) -> (r: Option<&String>)
    ensures
        r is Some <==> last_text(list_model(content@), content@.len() as int) is Some,
        r matches Some(t) ==> last_text(list_model(content@), content@.len() as int) == Some(t@),
{
    let ghost models = list_model(content@);
    proof {
        list_model_index(content@);
    }
    let mut n: usize = content.len();
    while n > 0
        invariant
            0 <= n <= content@.len(),
            models == list_model(content@),
            models.len() == content@.len(),
            forall|i: int| 0 <= i < models.len() ==> #[trigger] models[i] == content@[i]@,
            last_text(models, content@.len() as int) == last_text(models, n as int),
        decreases n,
    {
        assert(models[n - 1] == content@[n - 1]@);
        match content[n - 1].get("text") {
            Some(x) => match x.as_text() {
                Some(t) => {
                    return Some(t);
                },
                None => {},
            },
            None => {},
        }
        n = n - 1;
    }
    None
}

fn answer_in(v: &Json) -> (r: Option<&Json>)
    ensures
        r is Some <==> answer_of(v@) is Some,
        r matches Some(a) ==> answer_of(v@) == Some(a@),
{
    if !field_equals(v, "type", "agent_end") {
        return None;
    }
    match v.get("messages") {
        Some(m) => match m.as_list() {
            Some(messages) => {
                proof {
                    list_model_index(messages@);
                }
                find_answer(messages)
            },
            None => None,
        },
        None => None,
    }
}

fn text_in(answer: &Json) -> (r: Option<&String>)
    ensures
        r is Some <==> answer_text(answer@) is Some,
        r matches Some(t) ==> answer_text(answer@) == Some(t@),
{
    match answer.get("content") {
        Some(c) => match c.as_list() {
            Some(content) => {
                proof {
                    list_model_index(content@);
                }
                find_text(content)
            },
            None => None,
        },
        None => None,
    }
}

/// What the report of an answer says of its usage.
pub open spec fn answer_usage(answer: JsonModel) -> JsonModel {
    match member(answer, "usage"@) {
        Some(u) => u,
        None => JsonModel::Null,
    }
}

/// The answer that ends a stream of JSON lines: its text read as JSON, and its usage. Lines that
/// are no JSON are passed over.
pub fn parse_pi_stream(stream: &str) -> (r: Result<(Json, PiUsage), ReplyError>)
    ensures
        r is Ok <==> (final_text(stream@) matches Some(t) && parsed(t) is Some),
        r matches Ok((value, usage)) ==> {
            &&& final_text(stream@) matches Some(t) && parsed(t) == Some(value@)
            &&& stream_answer(lines_of(stream@), lines_of(stream@).len() as int) matches Some(a)
                && usage_of(answer_usage(a), usage)
        },
        r matches Err(e) ==> e == if final_text(stream@) is None {
            ReplyError::NoText
        } else {
            ReplyError::NotJson
        },
{
    let lines = split_lines(stream);
    let ghost all = lines_of(stream@);
    let mut n: usize = lines.len();
    proof {
        assert(views(lines@).len() == lines@.len());
    }
    while n > 0
        invariant
            0 <= n <= lines@.len(),
            views(lines@) == all,
            all == lines_of(stream@),
            stream_answer(all, all.len() as int) == stream_answer(all, n as int),
            all.len() == lines@.len(),
        decreases n,
    {
        assert(all[n - 1] == lines@[n - 1]@);
        match read_json(lines[n - 1].as_str()) {
            Some(v) => match answer_in(&v) {
                Some(answer) => {
                    proof {
                        assert(line_answer(all[n - 1]) == Some(answer@));
                        assert(stream_answer(all, all.len() as int) == Some(answer@));
                    }
                    let usage = match answer.get("usage") {
                        Some(u) => parse_usage(u),
                        None => parse_usage(&Json::Null),
                    };
                    return match text_in(answer) {
                        Some(text) => {
                            let clean = unfence(text.as_str());
                            match read_json(clean.as_str()) {
                                Some(value) => Ok((value, usage)),
                                None => Err(ReplyError::NotJson),
                            }
                        },
                        None => Err(ReplyError::NoText),
                    };
                },
                None => {},
            },
            None => {},
        }
        n = n - 1;
    }
    Err(ReplyError::NoText)
}

/// A field that is an unsigned integer.
pub open spec fn index_field(m: JsonModel, key: Seq<char>) -> Option<usize> {
    match member(m, key) {
        Some(JsonModel::Int(n)) => if 0 <= n <= usize::MAX && n <= u64::MAX {
            Some(n as usize)
        } else {
            None
        },
        _ => None,
    }
}

fn index_of(v: &Json, key: &str) -> (r: Option<usize>)
    ensures
        r == index_field(v@, key@),
{
    match v.get(key) {
        Some(x) => match x.as_u64() {
            Some(n) => if n <= usize::MAX as u64 {
                Some(n as usize)
            } else {
                None
            },
            None => None,
        },
        None => None,
    }
}

/// The range that an item spells.
pub open spec fn item_range(m: JsonModel) -> Option<(usize, usize)> {
    match (index_field(m, "start"@), index_field(m, "end"@)) {
        (Some(a), Some(b)) => Some((a, b)),
        _ => None,
    }
}

/// Whether `ranges` are those that `items` spell.
pub open spec fn ranges_of(items: Seq<JsonModel>, ranges: Seq<(usize, usize)>) -> bool {
    &&& ranges.len() == items.len()
    &&& forall|i: int| 0 <= i < items.len() ==> item_range(#[trigger] items[i]) == Some(ranges[i])
}

/// Whether every item spells a range.
pub open spec fn all_ranges(items: Seq<JsonModel>) -> bool {
    forall|i: int| 0 <= i < items.len() ==> item_range(#[trigger] items[i]) is Some
}

/// The list of ranges of an answer.
pub open spec fn range_items(m: JsonModel) -> Option<Seq<JsonModel>> {
    match member(m, "ranges"@) {
        Some(JsonModel::List(items)) => Some(items),
        _ => None,
    }
}

/// Whether `e` says what is wrong first with the ranges of an answer.
pub open spec fn ranges_fault(m: JsonModel, e: ReplyError) -> bool {
    match range_items(m) {
        None => e == ReplyError::NoRanges,
        Some(items) => {
            ||| e matches ReplyError::RangeStart(i) && i < items.len() && all_ranges(
                items.take(i as int),
            ) && index_field(items[i as int], "start"@) is None
            ||| e matches ReplyError::RangeEnd(i) && i < items.len() && all_ranges(
                items.take(i as int),
            ) && index_field(items[i as int], "start"@) is Some && index_field(
                items[i as int],
                "end"@,
            ) is None
        },
    }
}

/// The ranges that an answer holds.
pub fn parse_ranges(v: &Json) -> (r: Result<Vec<(usize, usize)>, ReplyError>)
    ensures
        r is Ok <==> (range_items(v@) matches Some(items) && all_ranges(items)),
        r matches Ok(ranges) ==> (range_items(v@) matches Some(items) && ranges_of(items, ranges@)),
        r matches Err(e) ==> ranges_fault(v@, e),
{
    let items = match v.get("ranges") {
        Some(x) => match x.as_list() {
            Some(items) => items,
            None => {
                return Err(ReplyError::NoRanges);
            },
        },
        None => {
            return Err(ReplyError::NoRanges);
        },
    };
    let ghost models = list_model(items@);
    proof {
        list_model_index(items@);
    }
    let mut out: Vec<(usize, usize)> = Vec::new();
    let mut i: usize = 0;
    while i < items.len()
        invariant
            0 <= i <= items@.len(),
            range_items(v@) == Some(models),
            models.len() == items@.len(),
            forall|j: int| 0 <= j < models.len() ==> #[trigger] models[j] == items@[j]@,
            out@.len() == i,
            forall|j: int| 0 <= j < i ==> item_range(#[trigger] models[j]) == Some(out@[j]),
        decreases items@.len() - i,
    {
        assert(models[i as int] == items@[i as int]@);
        let start: usize = match index_of(&items[i], "start") {
            Some(n) => n,
            None => {
                assert(item_range(models[i as int]) is None);
                assert forall|j: int| 0 <= j < i implies item_range(
                    #[trigger] models.take(i as int)[j],
                ) is Some by {
                    assert(models.take(i as int)[j] == models[j]);
                }
                return Err(ReplyError::RangeStart(i));
            },
        };
        let end: usize = match index_of(&items[i], "end") {
            Some(n) => n,
            None => {
                assert(item_range(models[i as int]) is None);
                assert forall|j: int| 0 <= j < i implies item_range(
                    #[trigger] models.take(i as int)[j],
                ) is Some by {
                    assert(models.take(i as int)[j] == models[j]);
                }
                return Err(ReplyError::RangeEnd(i));
            },
        };
        out.push((start, end));
        i = i + 1;
    }
    Ok(out)
}

/// The text of a string field.
pub open spec fn text_field(m: JsonModel, key: Seq<char>) -> Option<Seq<char>> {
    match member(m, key) {
        Some(JsonModel::Text(t)) => Some(t),
        _ => None,
    }
}

/// Whether an item spells a translation.
pub open spec fn is_translation(m: JsonModel) -> bool {
    index_field(m, "i"@) is Some && text_field(m, "text"@) is Some
}

/// Whether every item spells a translation.
pub open spec fn all_translations(items: Seq<JsonModel>) -> bool {
    forall|i: int| 0 <= i < items.len() ==> is_translation(#[trigger] items[i])
}

/// Whether item `m` spells the translation `t`.
pub open spec fn spells(m: JsonModel, t: (usize, String)) -> bool {
    index_field(m, "i"@) == Some(t.0) && text_field(m, "text"@) == Some(t.1@)
}

/// Whether `translations` are those that `items` spell.
pub open spec fn translations_of(items: Seq<JsonModel>, translations: Seq<(usize, String)>) -> bool {
    &&& translations.len() == items.len()
    &&& forall|i: int| 0 <= i < items.len() ==> spells(#[trigger] items[i], translations[i])
}

/// The list of translations of an answer.
pub open spec fn translation_items(m: JsonModel) -> Option<Seq<JsonModel>> {
    match member(m, "translations"@) {
        Some(JsonModel::List(items)) => Some(items),
        _ => None,
    }
}

/// Whether `e` says what is wrong first with the translations of an answer.
pub open spec fn translations_fault(m: JsonModel, e: ReplyError) -> bool {
    match translation_items(m) {
        None => e == ReplyError::NoTranslations,
        Some(items) => {
            ||| e matches ReplyError::TranslationIndex(i) && i < items.len() && all_translations(
                items.take(i as int),
            ) && index_field(items[i as int], "i"@) is None
            ||| e matches ReplyError::TranslationText(i) && i < items.len() && all_translations(
                items.take(i as int),
            ) && index_field(items[i as int], "i"@) is Some && text_field(
                items[i as int],
                "text"@,
            ) is None
        },
    }
}

/// The translations that an answer holds.
pub fn parse_translations(v: &Json) -> (r: Result<Vec<(usize, String)>, ReplyError>)
    ensures
        r is Ok <==> (translation_items(v@) matches Some(items) && all_translations(items)),
        r matches Ok(out) ==> (translation_items(v@) matches Some(items) && translations_of(
            items,
            out@,
        )),
        r matches Err(e) ==> translations_fault(v@, e),
{
    let items = match v.get("translations") {
        Some(x) => match x.as_list() {
            Some(items) => items,
            None => {
                return Err(ReplyError::NoTranslations);
            },
        },
        None => {
            return Err(ReplyError::NoTranslations);
        },
    };
    let ghost models = list_model(items@);
    proof {
        list_model_index(items@);
    }
    let mut out: Vec<(usize, String)> = Vec::new();
    let mut i: usize = 0;
    while i < items.len()
        invariant
            0 <= i <= items@.len(),
            translation_items(v@) == Some(models),
            models.len() == items@.len(),
            forall|j: int| 0 <= j < models.len() ==> #[trigger] models[j] == items@[j]@,
            out@.len() == i,
            forall|j: int| 0 <= j < i ==> spells(#[trigger] models[j], out@[j]),
        decreases items@.len() - i,
    {
        assert(models[i as int] == items@[i as int]@);
        proof {
            assert forall|j: int| 0 <= j < i implies is_translation(
                #[trigger] models.take(i as int)[j],
            ) by {
                assert(models.take(i as int)[j] == models[j]);
            }
        }
        let index: usize = match index_of(&items[i], "i") {
            Some(n) => n,
            None => {
                assert(!is_translation(models[i as int]));
                return Err(ReplyError::TranslationIndex(i));
            },
        };
        let text = match items[i].get("text") {
            Some(x) => match x.as_text() {
                Some(t) => t.clone(),
                None => {
                    assert(!is_translation(models[i as int]));
                    return Err(ReplyError::TranslationText(i));
                },
            },
            None => {
                assert(!is_translation(models[i as int]));
                return Err(ReplyError::TranslationText(i));
            },
        };
        out.push((index, text));
        i = i + 1;
    }
    Ok(out)
}

// ---------------------------------------------------------------------------------------------
// What counts as the answer
// ---------------------------------------------------------------------------------------------

/// The answer is the assistant's last message: those of others are passed over.
pub proof fn last_message_of_the_assistant_counts(messages: Seq<JsonModel>, m: JsonModel)
    ensures
        member(m, "role"@) == Some(JsonModel::Text("assistant"@)) ==> last_answer(
            messages.push(m),
            messages.len() as int + 1,
        ) == Some(m),
        member(m, "role"@) != Some(JsonModel::Text("assistant"@)) ==> last_answer(
            messages.push(m),
            messages.len() as int + 1,
        ) == last_answer(messages, messages.len() as int),
{
    answers_of_the_front(messages, m, messages.len() as int);
}

proof fn answers_of_the_front(messages: Seq<JsonModel>, m: JsonModel, n: int)
    requires
        0 <= n <= messages.len(),
    ensures
        last_answer(messages.push(m), n) == last_answer(messages, n),
    decreases n,
{
    if n > 0 {
        answers_of_the_front(messages, m, n - 1);
    }
}

/// The last line that ends the work tells the answer; other lines are passed over.
pub proof fn last_end_of_work_counts(lines: Seq<Seq<char>>, line: Seq<char>)
    ensures
        line_answer(line) is Some ==> stream_answer(lines.push(line), lines.len() as int + 1)
            == line_answer(line),
        line_answer(line) is None ==> stream_answer(lines.push(line), lines.len() as int + 1)
            == stream_answer(lines, lines.len() as int),
        parsed(line) is None ==> line_answer(line) is None,
        parsed(line) is Some && member(parsed(line)->Some_0, "type"@) != Some(
            JsonModel::Text("agent_end"@),
        ) ==> line_answer(line) is None,
{
    stream_of_the_front(lines, line, lines.len() as int);
}

proof fn stream_of_the_front(lines: Seq<Seq<char>>, line: Seq<char>, n: int)
    requires
        0 <= n <= lines.len(),
    ensures
        stream_answer(lines.push(line), n) == stream_answer(lines, n),
    decreases n,
{
    if n > 0 {
        stream_of_the_front(lines, line, n - 1);
    }
}

/// Of an answer's parts the last text counts.
pub proof fn last_text_counts(content: Seq<JsonModel>, part: JsonModel, t: Seq<char>)
    ensures
        member(part, "text"@) == Some(JsonModel::Text(t)) ==> last_text(
            content.push(part),
            content.len() as int + 1,
        ) == Some(t),
        member(part, "text"@) is None ==> last_text(content.push(part), content.len() as int + 1)
            == last_text(content, content.len() as int),
{
    texts_of_the_front(content, part, content.len() as int);
}

proof fn texts_of_the_front(content: Seq<JsonModel>, part: JsonModel, n: int)
    requires
        0 <= n <= content.len(),
    ensures
        last_text(content.push(part), n) == last_text(content, n),
    decreases n,
{
    if n > 0 {
        texts_of_the_front(content, part, n - 1);
    }
}

/// A text inside a fence of code is the text; one without a fence stays as it is.
pub proof fn fences_are_taken_off(t: Seq<char>)
    requires
        t.len() > 0,
        !is_space(t[0]),
        !is_space(t.last()),
        t[0] != '`',
        t.last() != '`',
    ensures
        unfenced("```json\n"@ + t + "\n```"@) == t,
        unfenced("```\n"@ + t + "\n```"@) == t,
        unfenced(t) == t,
        unfenced(" "@ + t + "\n"@) == t,
{
    reveal_strlit("```json\n");
    reveal_strlit("```json");
    reveal_strlit("```\n");
    reveal_strlit("```");
    reveal_strlit("\n```");
    reveal_strlit("\n");
    reveal_strlit(" ");
    let none = Seq::<char>::empty();
    let feed = "\n"@;
    assert(is_space('\n') && is_space(' '));
    trimming_keeps_the_inside(none, t, none);
    assert(none + t + none =~= t);
    trimming_keeps_the_inside(feed, t, feed);
    trimming_keeps_the_inside(feed, t, none);
    assert(feed + t + none =~= feed + t);
    trimming_keeps_the_inside(" "@, t, feed);
    let inner = feed + t + feed;
    // With the name of the language.
    let a = "```json\n"@ + t + "\n```"@;
    assert(a[0] == '`' && a.last() == '`');
    trimming_keeps_the_inside(none, a, none);
    assert(none + a + none =~= a);
    assert(a =~= "```json"@ + (inner + "```"@));
    let rest = inner + "```"@;
    assert(rest[0] == '\n');
    stripping_takes_all_of_them(rest, "```json"@);
    if rest.len() >= 7 {
        assert(rest.take(7)[0] == '\n' && "```json"@[0] == '`');
    }
    stripping_takes_all_of_them(rest, "```"@);
    assert(rest.take(3)[0] == '\n' && "```"@[0] == '`');
    stripping_takes_all_of_them(inner, "```"@);
    assert(inner.skip(inner.len() - 3)[2] == '\n' && "```"@[2] == '`');
    // Without it.
    let b = "```\n"@ + t + "\n```"@;
    assert(b[0] == '`' && b.last() == '`');
    trimming_keeps_the_inside(none, b, none);
    assert(none + b + none =~= b);
    assert(b =~= "```"@ + rest);
    stripping_takes_all_of_them(b, "```json"@);
    assert(b.len() >= 7);
    assert(b.take(7)[3] == '\n' && "```json"@[3] == 'j');
    // Bare.
    stripping_takes_all_of_them(t, "```json"@);
    stripping_takes_all_of_them(t, "```"@);
    if t.len() >= 7 {
        assert(t.take(7)[0] == t[0] && "```json"@[0] == '`');
    }
    if t.len() >= 3 {
        assert(t.take(3)[0] == t[0] && "```"@[0] == '`');
        assert(t.skip(t.len() - 3)[2] == t.last() && "```"@[2] == '`');
    }
}

/// A count is the number of its own field, and zero where there is none.
pub proof fn usage_counts_stand_in_their_fields(m: JsonModel, u: PiUsage, n: int)
    requires
        usage_of(m, u),
        i64::MIN <= n <= i64::MAX,
    ensures
        member(m, "input"@) == Some(JsonModel::Int(n)) ==> u.input == n,
        member(m, "output"@) == Some(JsonModel::Int(n)) ==> u.output == n,
        member(m, "reasoning"@) == Some(JsonModel::Int(n)) ==> u.reasoning == n,
        member(m, "cacheRead"@) == Some(JsonModel::Int(n)) ==> u.cache_read == n,
        member(m, "cacheWrite"@) == Some(JsonModel::Int(n)) ==> u.cache_write == n,
        member(m, "totalTokens"@) == Some(JsonModel::Int(n)) ==> u.total == n,
        member(m, "input"@) is None ==> u.input == 0,
        member(m, "output"@) is None ==> u.output == 0,
        member(m, "totalTokens"@) is None ==> u.total == 0,
        member(m, "cost"@) is None ==> u.cost is None,
{
}

/// A range is what its two fields say, and a translation too.
pub proof fn items_say_what_their_fields_say(m: JsonModel, a: usize, b: usize, t: (usize, String))
    requires
        a <= u64::MAX,
        b <= u64::MAX,
    ensures
        member(m, "start"@) == Some(JsonModel::Int(a as int)) && member(m, "end"@) == Some(
            JsonModel::Int(b as int),
        ) ==> item_range(m) == Some((a, b)),
        spells(m, t) ==> member(m, "i"@) == Some(JsonModel::Int(t.0 as int)) && member(m, "text"@)
            == Some(JsonModel::Text(t.1@)),
{
}

} // verus!
