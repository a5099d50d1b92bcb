//! What is sent to and read from the platform's interface for soft subtitles.
use vstd::prelude::*;
use vstd::string::StringExecFns;

use crate::batching::{seconds_of, time_json, time_model};
use crate::captions::{cc_models, CcCue, CcModel};
use crate::json::{
    fields_model, fields_model_index, json_text, list_model, list_model_index, member, member_is,
    parsed, read_json, write_json, Json, JsonModel,
};
use crate::reply::{int_field, text_field};
use crate::text::{
    join, join_all, joined, lowered, same_ignoring_case, same_text, signed_decimal,
    signed_decimal_of, views,
};

verus! {

/// The address that tells of a published video.
pub const VIEW_API: &'static str = "https://api.bilibili.com/x/web-interface/view";

/// The address that tells the languages of a video's subtitles.
pub const LAN_API: &'static str = "https://api.bilibili.com/x/v2/dm/subtitle/lan/search/cid";

/// The address that takes subtitles.
pub const SUBMIT_API: &'static str = "https://api.bilibili.com/x/v2/dm/subtitle/draft/save";

/// The most bytes that are read of an answer.
pub const BILIBILI_API_BODY_LIMIT: usize = 2_097_152;

/// Whether subtitles are those of a language. The platform's names are not tags of a language
/// family: `zh` is what was submitted, `zh-CN` what the platform made by itself.
pub fn language_matches(actual: &str, requested: &str) -> (r: bool)
    ensures
        r == (lowered(actual@) == lowered(requested@)),
{
    same_ignoring_case(actual, requested)
}

// ---------------------------------------------------------------------------------------------
// The account
// ---------------------------------------------------------------------------------------------

/// The account under which requests are made.
#[derive(Debug)]
pub struct Credentials {
    pub cookie_header: String,
    pub csrf: String,
}

/// A cookie of the account.
#[derive(Debug)]
pub struct Cookie {
    pub name: String,
    pub value: String,
}

/// Cookies do not hold the token that requests carry.
#[derive(Debug, Clone, Copy, PartialEq, Eq, Structural)]
pub struct NoToken;

impl NoToken {
    /// The message for it.
    pub open spec fn text(self) -> Seq<char> {
        "cookies 缺少 bili_jct，请重新登录 Bilibili"@
    }

    /// The message for it.
    pub fn message(self) -> (r: &'static str)
        ensures
            r@ == self.text(),
    {
        "cookies 缺少 bili_jct，请重新登录 Bilibili"
    }
}

/// How a cookie is sent.
pub open spec fn cookie_text(c: Cookie) -> Seq<char> {
    c.name@ + "="@ + c.value@
}

/// The token among the first `n` cookies: that of the last one that carries it.
pub open spec fn token_of(items: Seq<Cookie>, n: int) -> Seq<char>
    decreases n,
{
    if n <= 0 {
        Seq::empty()
    } else if items[n - 1].name@ == "bili_jct"@ {
        items[n - 1].value@
    } else {
        token_of(items, n - 1)
    }
}

/// How cookies are sent.
pub open spec fn cookie_texts(items: Seq<Cookie>) -> Seq<Seq<char>> {
    items.map_values(|c: Cookie| cookie_text(c))
}

/// The text of a string field, or nothing at all.
pub open spec fn text_or_empty(m: JsonModel, key: Seq<char>) -> Seq<char> {
    match text_field(m, key) {
        Some(t) => t,
        None => Seq::empty(),
    }
}

fn field_text<'a>(v: &'a Json, key: &str) -> (r: Option<&'a String>)
    ensures
        r is Some <==> text_field(v@, key@) is Some,
        r matches Some(t) ==> text_field(v@, key@) == Some(t@),
{
    match v.get(key) {
        Some(x) => x.as_text(),
        None => None,
    }
}

fn field_int(v: &Json, key: &str) -> (r: Option<i64>)
    ensures
        r is Some <==> int_field(v@, key@) is Some,
        r matches Some(n) ==> int_field(v@, key@) == Some(n as int),
{
    match v.get(key) {
        Some(x) => x.as_i64(),
        None => None,
    }
}

/// The account that cookies stand for.
pub fn credentials_from(cookies: &Vec<Cookie>) -> (r: Result<Credentials, NoToken>)
    ensures
        r is Ok <==> token_of(cookies@, cookies@.len() as int).len() > 0,
        r matches Ok(c) ==> c.cookie_header@ == joined(cookie_texts(cookies@), "; "@) && c.csrf@
            == token_of(cookies@, cookies@.len() as int),
{
    let mut parts: Vec<String> = Vec::new();
    let mut csrf = String::new();
    proof {
        assert(csrf@ =~= token_of(cookies@, 0));
    }
    let mut i: usize = 0;
    while i < cookies.len()
        invariant
            0 <= i <= cookies@.len(),
            parts@.len() == i,
            forall|j: int| 0 <= j < i ==> (#[trigger] parts@[j])@ == cookie_text(cookies@[j]),
            csrf@ == token_of(cookies@, i as int),
        decreases cookies@.len() - i,
    {
        let cookie = &cookies[i];
        if same_text(cookie.name.as_str(), "bili_jct") {
            csrf = cookie.value.clone();
        }
        let mut part = cookie.name.clone();
        part.append("=");
        part.append(cookie.value.as_str());
        parts.push(part);
        i = i + 1;
    }
    proof {
        assert(views(parts@) =~= cookie_texts(cookies@));
    }
    if csrf.as_str().is_empty() {
        return Err(NoToken);
    }
    Ok(Credentials { cookie_header: join_all(&parts, "; "), csrf })
}

// ---------------------------------------------------------------------------------------------
// Answers
// ---------------------------------------------------------------------------------------------

/// A field of an answer; null where it is missing.
pub open spec fn field_or_null(m: JsonModel, key: Seq<char>) -> JsonModel {
    match member(m, key) {
        Some(x) => x,
        None => JsonModel::Null,
    }
}

/// Whether an answer says that the request went well.
pub open spec fn went_well(m: JsonModel) -> bool {
    int_field(m, "code"@) == Some(0int)
}

/// What an answer that did not go well says of it.
pub open spec fn complaint(head: Seq<char>, m: JsonModel) -> Seq<char> {
    head + "失败: code="@ + json_text(field_or_null(m, "code"@)) + " "@ + text_or_empty(
        m,
        "message"@,
    )
}

fn complain(head: &str, v: &Json) -> (r: String)
    ensures
        r@ == complaint(head@, v@),
{
    let mut s = head.to_owned();
    s.append("失败: code=");
    match v.get("code") {
        Some(c) => {
            s.append(write_json(c).as_str());
        },
        None => {
            let c = write_json(&Json::Null);
            s.append(c.as_str());
        },
    }
    s.append(" ");
    match field_text(v, "message") {
        Some(t) => {
            s.append(t.as_str());
        },
        None => {
            assert(s@ + Seq::<char>::empty() =~= s@);
        },
    }
    s
}

/// What the platform tells of a published video; its length is in milliseconds.
#[derive(Debug)]
pub struct VideoView {
    pub aid: i64,
    pub cid: i64,
    pub title: String,
    pub duration_ms: i64,
}

/// What is wrong with the answer about a video, if anything.
pub open spec fn view_fault(m: JsonModel, bvid: Seq<char>, duration_ms: Option<i64>) -> Option<Seq<char>> {
    let data = field_or_null(m, "data"@);
    if !went_well(m) {
        Some(complaint("查询稿件 "@ + bvid + " "@, m))
    } else if int_field(data, "aid"@) is None {
        Some("响应缺少 aid"@)
    } else if int_field(data, "cid"@) is None {
        Some("响应缺少 cid"@)
    } else if duration_ms is None {
        Some("响应缺少 duration"@)
    } else {
        None
    }
}

/// What the answer about a video tells. The length, which need not be an integer there, comes along
/// in milliseconds.
pub fn view_from(v: &Json, bvid: &str, duration_ms: Option<i64>) -> (r: Result<VideoView, String>)
    ensures
        match view_fault(v@, bvid@, duration_ms) {
            Some(e) => r matches Err(x) && x@ == e,
            None => {
                let data = field_or_null(v@, "data"@);
                &&& r matches Ok(view)
                &&& int_field(data, "aid"@) == Some(view.aid as int)
                &&& int_field(data, "cid"@) == Some(view.cid as int)
                &&& view.title@ == text_or_empty(data, "title"@)
                &&& duration_ms == Some(view.duration_ms)
            },
        },
{
    match field_int(v, "code") {
        Some(0) => {},
        _ => {
            let mut head = join("查询稿件 ", bvid);
            head.append(" ");
            return Err(complain(head.as_str(), v));
        },
    }
    let none = Json::Null;
    let data = match v.get("data") {
        Some(d) => d,
        None => &none,
    };
    let aid: i64 = match field_int(data, "aid") {
        Some(n) => n,
        None => {
            return Err("响应缺少 aid".to_owned());
        },
    };
    let cid: i64 = match field_int(data, "cid") {
        Some(n) => n,
        None => {
            return Err("响应缺少 cid".to_owned());
        },
    };
    let title = match field_text(data, "title") {
        Some(t) => t.clone(),
        None => {
            let t = String::new();
            assert(t@ =~= Seq::<char>::empty());
            t
        },
    };
    match duration_ms {
        Some(d) => Ok(VideoView { aid, cid, title, duration_ms: d }),
        None => Err("响应缺少 duration".to_owned()),
    }
}

/// Whether one of the languages of an answer is the one looked for.
pub open spec fn lists_language(m: JsonModel, lan: Seq<char>) -> bool {
    match field_or_null(field_or_null(m, "data"@), "lans"@) {
        JsonModel::List(items) => exists|i: int|
            0 <= i < items.len() && (text_field(#[trigger] items[i], "lan"@) matches Some(t)
                && lowered(t) == lowered(lan)),
        _ => false,
    }
}

/// Whether a video has subtitles of a language, from the answer about its languages.
pub fn has_subtitle_lan(v: &Json, lan: &str) -> (r: Result<bool, String>)
    ensures
        if went_well(v@) {
            r matches Ok(b) && b == lists_language(v@, lan@)
        } else {
            r matches Err(e) && e@ == complaint("查询字幕语言"@, v@)
        },
{
    match field_int(v, "code") {
        Some(0) => {},
        _ => {
            return Err(complain("查询字幕语言", v));
        },
    }
    let none = Json::Null;
    let data = match v.get("data") {
        Some(d) => d,
        None => &none,
    };
    let items = match data.get("lans") {
        Some(list) => match list.as_list() {
            Some(items) => items,
            None => {
                return Ok(false);
            },
        },
        None => {
            return Ok(false);
        },
    };
    let ghost models = list_model(items@);
    proof {
        list_model_index(items@);
    }
    let mut i: usize = 0;
    while i < items.len()
        invariant
            0 <= i <= items@.len(),
            models == list_model(items@),
            models.len() == items@.len(),
            went_well(v@),
            field_or_null(field_or_null(v@, "data"@), "lans"@) == JsonModel::List(models),
            forall|j: int| 0 <= j < models.len() ==> #[trigger] models[j] == items@[j]@,
            forall|j: int|
                0 <= j < i ==> !(text_field(#[trigger] models[j], "lan"@) matches Some(t)
                    && lowered(t) == lowered(lan@)),
        decreases items@.len() - i,
    {
        assert(models[i as int] == items@[i as int]@);
        match field_text(&items[i], "lan") {
            Some(actual) => {
                if language_matches(actual.as_str(), lan) {
                    return Ok(true);
                }
            },
            None => {},
        }
        i = i + 1;
    }
    Ok(false)
}

// ---------------------------------------------------------------------------------------------
// Submitting
// ---------------------------------------------------------------------------------------------

/// One line as it is submitted.
pub open spec fn line_model(c: CcModel) -> JsonModel {
    JsonModel::Object(
        seq![
            ("content"@, JsonModel::Text(c.content)),
            ("from"@, time_model(c.from)),
            ("location"@, JsonModel::Int(1)),
            ("to"@, time_model(c.to)),
        ],
    )
}

/// The lines as they are submitted.
pub open spec fn body_model(lines: Seq<CcModel>) -> JsonModel {
    JsonModel::Object(
        seq![("body"@, JsonModel::List(Seq::new(lines.len(), |i: int| line_model(lines[i]))))],
    )
}

fn line_json(c: &CcCue) -> (r: Json)
    ensures
        r@ == line_model(c@),
{
    let mut fields: Vec<(String, Json)> = Vec::new();
    fields.push(("content".to_owned(), Json::Text(c.content.clone())));
    fields.push(("from".to_owned(), time_json(c.from)));
    fields.push(("location".to_owned(), Json::Uint(1)));
    fields.push(("to".to_owned(), time_json(c.to)));
    proof {
        fields_model_index(fields@);
        assert(fields_model(fields@) =~= line_model(c@)->Object_0);
    }
    Json::Object(fields)
}

/// The text that holds the lines of a submission.
pub fn subtitle_data(lines: &[CcCue]) -> (r: String)
    ensures
        r@ == json_text(body_model(cc_models(lines@))),
{
    let mut items: Vec<Json> = Vec::new();
    let mut i: usize = 0;
    while i < lines.len()
        invariant
            0 <= i <= lines@.len(),
            items@.len() == i,
            forall|j: int| 0 <= j < i ==> (#[trigger] items@[j])@ == line_model(lines@[j]@),
        decreases lines@.len() - i,
    {
        items.push(line_json(&lines[i]));
        i = i + 1;
    }
    let ghost models = Seq::new(
        cc_models(lines@).len(),
        |i: int| line_model(cc_models(lines@)[i]),
    );
    proof {
        list_model_index(items@);
        assert(list_model(items@) =~= models);
    }
    let mut fields: Vec<(String, Json)> = Vec::new();
    fields.push(("body".to_owned(), Json::List(items)));
    proof {
        fields_model_index(fields@);
        assert(fields_model(fields@) =~= body_model(cc_models(lines@))->Object_0);
    }
    write_json(&Json::Object(fields))
}

/// The names and values of a form.
pub open spec fn pair_texts(v: Seq<(&'static str, String)>) -> Seq<(Seq<char>, Seq<char>)> {
    v.map_values(|p: (&'static str, String)| (p.0@, p.1@))
}

/// The form that submits lines for a video.
pub fn submit_form(view: &VideoView, lan: &str, lines: &[CcCue], csrf: &str) -> (r: Vec<
    (&'static str, String),
>)
    ensures
        pair_texts(r@) == seq![
            ("type"@, "1"@),
            ("oid"@, signed_decimal_of(view.cid as int)),
            ("aid"@, signed_decimal_of(view.aid as int)),
            ("lan"@, lan@),
            ("data"@, json_text(body_model(cc_models(lines@)))),
            ("submit"@, "1"@),
            ("csrf"@, csrf@),
        ],
{
    let mut out: Vec<(&'static str, String)> = Vec::new();
    out.push(("type", "1".to_owned()));
    out.push(("oid", signed_decimal(view.cid)));
    out.push(("aid", signed_decimal(view.aid)));
    out.push(("lan", lan.to_owned()));
    out.push(("data", subtitle_data(lines)));
    out.push(("submit", "1".to_owned()));
    out.push(("csrf", csrf.to_owned()));
    out
}

/// What an answer says of single lines, from its first `n` rows.
pub open spec fn row_complaints(rows: Seq<JsonModel>, n: int) -> Seq<Seq<char>>
    decreases n,
{
    if n <= 0 {
        Seq::empty()
    } else {
        let front = row_complaints(rows, n - 1);
        match text_field(rows[n - 1], "error_msg"@) {
            Some(t) => front.push(
                "line "@ + json_text(field_or_null(rows[n - 1], "line"@)) + ": "@ + t,
            ),
            None => front,
        }
    }
}

/// What an answer says of single lines.
pub open spec fn row_detail(m: JsonModel) -> Seq<char> {
    match field_or_null(m, "data"@) {
        JsonModel::List(rows) => joined(row_complaints(rows, rows.len() as int), "; "@),
        _ => Seq::empty(),
    }
}

/// What is wrong with the answer to a submission, if anything.
pub open spec fn submit_fault(m: JsonModel) -> Option<Seq<char>> {
    match int_field(m, "code"@) {
        None => Some("提交字幕失败: 响应缺少 code"@),
        Some(code) => if code == 0 {
            None
        } else {
            let head = "提交字幕失败: code="@ + signed_decimal_of(code) + " "@ + text_or_empty(
                m,
                "message"@,
            );
            if row_detail(m).len() == 0 {
                Some(head)
            } else {
                Some(head + "（"@ + row_detail(m) + "）"@)
            }
        },
    }
}

fn detail_of(v: &Json) -> (r: String)
    ensures
        r@ == row_detail(v@),
{
    let none = Json::Null;
    let data = match v.get("data") {
        Some(d) => d,
        None => &none,
    };
    let rows = match data.as_list() {
        Some(rows) => rows,
        None => {
            let s = String::new();
            assert(s@ =~= Seq::<char>::empty());
            return s;
        },
    };
    let ghost models = list_model(rows@);
    proof {
        list_model_index(rows@);
    }
    let mut parts: Vec<String> = Vec::new();
    proof {
        assert(views(parts@) =~= row_complaints(models, 0));
    }
    let mut i: usize = 0;
    while i < rows.len()
        invariant
            0 <= i <= rows@.len(),
            models.len() == rows@.len(),
            forall|j: int| 0 <= j < models.len() ==> #[trigger] models[j] == rows@[j]@,
            views(parts@) == row_complaints(models, i as int),
        decreases rows@.len() - i,
    {
        assert(models[i as int] == rows@[i as int]@);
        let ghost before = views(parts@);
        match field_text(&rows[i], "error_msg") {
            Some(t) => {
                let mut s = "line ".to_owned();
                match rows[i].get("line") {
                    Some(n) => {
                        s.append(write_json(n).as_str());
                    },
                    None => {
                        s.append(write_json(&Json::Null).as_str());
                    },
                }
                s.append(": ");
                s.append(t.as_str());
                parts.push(s);
                proof {
                    assert(views(parts@) =~= before.push(s@));
                }
            },
            None => {},
        }
        i = i + 1;
    }
    join_all(&parts, "; ")
}

/// Whether the lines were taken, from the answer to their submission.
pub fn check_submission(v: &Json) -> (r: Result<(), String>)
    ensures
        match submit_fault(v@) {
            None => r is Ok,
            Some(e) => r matches Err(x) && x@ == e,
        },
{
    match field_int(v, "code") {
        None => Err("提交字幕失败: 响应缺少 code".to_owned()),
        Some(code) => {
            if code == 0 {
                return Ok(());
            }
            let mut s = "提交字幕失败: code=".to_owned();
            s.append(signed_decimal(code).as_str());
            s.append(" ");
            match field_text(v, "message") {
                Some(t) => {
                    s.append(t.as_str());
                },
                None => {
                    assert(s@ + Seq::<char>::empty() =~= s@);
                },
            }
            let detail = detail_of(v);
            if !detail.as_str().is_empty() {
                s.append("（");
                s.append(detail.as_str());
                s.append("）");
            }
            Err(s)
        },
    }
}

// ---------------------------------------------------------------------------------------------
// What is sent, and what an answer means
// ---------------------------------------------------------------------------------------------

/// The token is the value of the last cookie of its name; cookies of other names do not count.
pub proof fn token_is_in_its_cookie(items: Seq<Cookie>, c: Cookie)
    ensures
        token_of(items, 0).len() == 0,
        c.name@ == "bili_jct"@ ==> token_of(items.push(c), items.len() as int + 1) == c.value@,
        c.name@ != "bili_jct"@ ==> token_of(items.push(c), items.len() as int + 1) == token_of(
            items,
            items.len() as int,
        ),
{
    token_of_the_front(items, c, items.len() as int);
}

proof fn token_of_the_front(items: Seq<Cookie>, c: Cookie, n: int)
    requires
        0 <= n <= items.len(),
    ensures
        token_of(items.push(c), n) == token_of(items, n),
    decreases n,
{
    if n > 0 {
        token_of_the_front(items, c, n - 1);
    }
}

/// A cookie is sent as its name, an equals sign and its value.
pub proof fn cookies_are_sent_as_pairs(items: Seq<Cookie>, i: int)
    requires
        0 <= i < items.len(),
    ensures
        cookie_texts(items).len() == items.len(),
        cookie_texts(items)[i] == items[i].name@.push('=') + items[i].value@,
{
    reveal_strlit("=");
    assert(items[i].name@ + "="@ + items[i].value@ =~= items[i].name@.push('=') + items[i].value@);
}

/// A line is sent with its text and its times in seconds, at the foot of the picture.
pub proof fn lines_are_sent_with_their_times(lines: Seq<CcModel>, i: int)
    requires
        0 <= i < lines.len(),
    ensures
        ({
            let m = body_model(lines);
            &&& member(m, "body"@) matches Some(JsonModel::List(items))
            &&& items.len() == lines.len()
            &&& member(items[i], "content"@) == Some(JsonModel::Text(lines[i].content))
            &&& member(items[i], "location"@) == Some(JsonModel::Int(1))
            &&& lines[i].from != i64::MIN ==> member(items[i], "from"@) == Some(
                JsonModel::Real(seconds_of(lines[i].from)),
            )
            &&& lines[i].to != i64::MIN ==> member(items[i], "to"@) == Some(
                JsonModel::Real(seconds_of(lines[i].to)),
            )
        }),
{
    reveal_strlit("content");
    reveal_strlit("from");
    reveal_strlit("location");
    reveal_strlit("to");
    let whole = body_model(lines)->Object_0;
    assert(whole[0].0 == "body"@);
    member_is(whole, 0);
    let fields = line_model(lines[i])->Object_0;
    assert(fields[0].0 == "content"@ && fields[1].0 == "from"@ && fields[2].0 == "location"@
        && fields[3].0 == "to"@);
    assert("content"@.len() == 7 && "from"@.len() == 4 && "location"@.len() == 8 && "to"@.len() == 2);
    member_is(fields, 0);
    member_is(fields, 1);
    member_is(fields, 2);
    member_is(fields, 3);
}

/// A submission went well if and only if its code is zero; nothing else counts.
pub proof fn only_code_zero_is_well(m: JsonModel, code: int)
    requires
        i64::MIN <= code <= i64::MAX,
    ensures
        member(m, "code"@) == Some(JsonModel::Int(code)) ==> (submit_fault(m) is None <==> code == 0),
        member(m, "code"@) is None ==> submit_fault(m) is Some,
        member(m, "code"@) == Some(JsonModel::Int(code)) ==> (went_well(m) <==> code == 0),
        member(m, "code"@) is None ==> !went_well(m),
{
}

/// A video is known where its answer went well and names it, its part and its length.
pub proof fn views_need_all_their_numbers(m: JsonModel, bvid: Seq<char>, duration_ms: Option<i64>)
    ensures
        view_fault(m, bvid, duration_ms) is None ==> {
            &&& int_field(m, "code"@) == Some(0int)
            &&& member(m, "data"@) is Some
            &&& int_field(member(m, "data"@)->Some_0, "aid"@) is Some
            &&& int_field(member(m, "data"@)->Some_0, "cid"@) is Some
            &&& duration_ms is Some
        },
        int_field(m, "code"@) == Some(0int) && member(m, "data"@) is Some && int_field(
            member(m, "data"@)->Some_0,
            "aid"@,
        ) is Some && int_field(member(m, "data"@)->Some_0, "cid"@) is Some && duration_ms is Some
            ==> view_fault(m, bvid, duration_ms) is None,
{
}

/// A language is there where the list names it, in letters of any size.
pub proof fn languages_are_found_in_the_list(m: JsonModel, items: Seq<JsonModel>, data: JsonModel, lan: Seq<char>)
    requires
        member(m, "data"@) == Some(data),
        member(data, "lans"@) == Some(JsonModel::List(items)),
    ensures
        lists_language(m, lan) <==> exists|i: int|
            0 <= i < items.len() && (#[trigger] member(items[i], "lan"@)) is Some && member(
                items[i],
                "lan"@,
            )->Some_0 is Text && lowered(member(items[i], "lan"@)->Some_0->Text_0) == lowered(lan),
{
    if lists_language(m, lan) {
        let i = choose|i: int|
            0 <= i < items.len() && (text_field(#[trigger] items[i], "lan"@) matches Some(t)
                && lowered(t) == lowered(lan));
        assert(member(items[i], "lan"@) is Some);
    }
}

} // verus!
