//! YouTube's ids, addresses, languages and metadata.
use vstd::prelude::*;
use vstd::string::StringExecFns;

use crate::json::{
    list_model, list_model_index, member, parsed, read_json, Json, JsonModel,
};
use crate::model::VideoMetadata;
use crate::reply::{field_is, int_field, text_field};
use crate::text::{
    ascii_word, chars_of, contains_text, debug_form, debug_text, decimal, decimal_of, found_at,
    is_ascii_word, is_space, join, lowered, occurs_at, occurs_in, opt_view, parts_occur,
    same_ignoring_case, same_text, skip_back, starts, starts_with, string_of, strip_back,
    stripping_takes_all_of_them, trim, trim_bounds, trimmed, trimming_keeps_the_inside, views,
};

verus! {

// ---------------------------------------------------------------------------------------------
// Ids and addresses
// ---------------------------------------------------------------------------------------------

/// Whether `s` is a video id: 11 ASCII letters, digits, dashes or underscores.
pub open spec fn is_video_id(s: Seq<char>) -> bool {
    s.len() == 11 && forall|i: int| 0 <= i < 11 ==> id_char(#[trigger] s[i])
}

/// The characters of a video id.
pub open spec fn id_char(c: char) -> bool {
    is_ascii_word(c) || c == '-' || c == '_'
}

/// Whether `value` is a video id.
pub fn is_youtube_video_id(value: &str) -> (r: bool)
    ensures
        r == is_video_id(value@),
{
    let chars = chars_of(value);
    if chars.len() != 11 {
        return false;
    }
    let mut i: usize = 0;
    while i < 11
        invariant
            chars@ == value@,
            chars@.len() == 11,
            0 <= i <= 11,
            forall|j: int| 0 <= j < i ==> id_char(#[trigger] value@[j]),
        decreases 11 - i,
    {
        let c = chars[i];
        if !(ascii_word(c) || c == '-' || c == '_') {
            assert(!id_char(value@[i as int]));
            return false;
        }
        i = i + 1;
    }
    true
}

/// Why an address or an id is refused.
#[derive(Debug, PartialEq, Eq, Structural, Clone, Copy)]
pub enum AddressError {
    /// The text is no complete address.
    NotAnAddress,
    /// The address is neither http nor https.
    Scheme,
    /// The address names a user.
    UserInfo,
    /// The address names a port.
    Port,
    /// The address names no host.
    NoHost,
    /// The address has no path.
    NoPath,
    /// A short address does not hold just an id.
    ShortAddress,
    /// The host is not YouTube's.
    Host,
    /// A watch address has no id.
    NoVideoId,
    /// A watch address has several ids.
    SeveralVideoIds,
    /// The address is not that of one video.
    NotOneVideo,
    /// The address of a channel names no host.
    NoChannelHost,
    /// The host of a channel's address is not YouTube's.
    ChannelHost,
    /// The address of a channel has no path.
    NoChannelPath,
}

impl AddressError {
    /// The message for this error.
    pub open spec fn text(self) -> Seq<char> {
        match self {
            AddressError::NotAnAddress => "请输入完整的 YouTube URL"@,
            AddressError::Scheme => "YouTube URL 只允许 http 或 https"@,
            AddressError::UserInfo => "YouTube URL 不允许包含用户信息"@,
            AddressError::Port => "YouTube URL 不允许自定义端口"@,
            AddressError::NoHost => "YouTube URL 缺少域名"@,
            AddressError::NoPath => "YouTube URL 路径无效"@,
            AddressError::ShortAddress => "youtu.be URL 必须只包含 video ID"@,
            AddressError::Host => "视频 URL 只允许 youtube.com 或 youtu.be 域名"@,
            AddressError::NoVideoId => "YouTube watch URL 缺少 video ID"@,
            AddressError::SeveralVideoIds => "YouTube watch URL 包含多个 video ID"@,
            AddressError::NotOneVideo => "请输入单个 YouTube 视频 URL"@,
            AddressError::NoChannelHost => "YouTube 频道 URL 缺少域名"@,
            AddressError::ChannelHost => "频道 URL 只允许 youtube.com 域名"@,
            AddressError::NoChannelPath => "YouTube 频道 URL 缺少频道路径"@,
        }
    }

    /// The message for this error.
    pub fn message(&self) -> (r: &'static str)
        ensures
            r@ == self.text(),
    {
        match self {
            AddressError::NotAnAddress => "请输入完整的 YouTube URL",
            AddressError::Scheme => "YouTube URL 只允许 http 或 https",
            AddressError::UserInfo => "YouTube URL 不允许包含用户信息",
            AddressError::Port => "YouTube URL 不允许自定义端口",
            AddressError::NoHost => "YouTube URL 缺少域名",
            AddressError::NoPath => "YouTube URL 路径无效",
            AddressError::ShortAddress => "youtu.be URL 必须只包含 video ID",
            AddressError::Host => "视频 URL 只允许 youtube.com 或 youtu.be 域名",
            AddressError::NoVideoId => "YouTube watch URL 缺少 video ID",
            AddressError::SeveralVideoIds => "YouTube watch URL 包含多个 video ID",
            AddressError::NotOneVideo => "请输入单个 YouTube 视频 URL",
            AddressError::NoChannelHost => "YouTube 频道 URL 缺少域名",
            AddressError::ChannelHost => "频道 URL 只允许 youtube.com 域名",
            AddressError::NoChannelPath => "YouTube 频道 URL 缺少频道路径",
        }
    }
}

/// The message for an id that is not one of a video.
pub open spec fn bad_id_text(id: Seq<char>) -> Seq<char> {
    "YouTube video ID 必须是 11 位 ASCII 字母、数字、连字符或下划线: "@ + debug_text(id)
}

/// The message for an id that is not one of a video.
pub fn bad_id_message(id: &str) -> (r: String)
    ensures
        r@ == bad_id_text(id@),
{
    let quoted = debug_form(id);
    join("YouTube video ID 必须是 11 位 ASCII 字母、数字、连字符或下划线: ", quoted.as_str())
}

/// An id that is not one of a video.
#[derive(Debug, PartialEq, Eq)]
pub struct BadVideoId {
    pub id: String,
}

impl BadVideoId {
    /// The message for it.
    pub fn message(&self) -> (r: String)
        ensures
            r@ == bad_id_text(self.id@),
    {
        bad_id_message(self.id.as_str())
    }
}

/// Why an address does not lead to a video.
#[derive(Debug, PartialEq, Eq)]
pub enum VideoAddressError {
    Address(AddressError),
    /// The id is not one of a video.
    VideoId(BadVideoId),
}

/// Why an address does not lead to a video.
pub enum VideoFault {
    Address(AddressError),
    VideoId(Seq<char>),
}

impl VideoFault {
    /// The message for it.
    pub open spec fn text(self) -> Seq<char> {
        match self {
            VideoFault::Address(e) => e.text(),
            VideoFault::VideoId(id) => bad_id_text(id),
        }
    }
}

impl VideoAddressError {
    /// What the error says.
    pub open spec fn view(&self) -> VideoFault {
        match self {
            VideoAddressError::Address(e) => VideoFault::Address(*e),
            VideoAddressError::VideoId(bad) => VideoFault::VideoId(bad.id@),
        }
    }

    /// The message for this error.
    pub fn message(&self) -> (r: String)
        ensures
            r@ == self@.text(),
    {
        match self {
            VideoAddressError::Address(e) => e.message().to_owned(),
            VideoAddressError::VideoId(bad) => bad.message(),
        }
    }
}

/// Checks that `value` is a video id.
pub fn validate_youtube_video_id(value: &str) -> (r: Result<(), BadVideoId>)
    ensures
        r is Ok <==> is_video_id(value@),
        r matches Err(e) ==> e.id@ == value@,
{
    if is_youtube_video_id(value) {
        Ok(())
    } else {
        Err(BadVideoId { id: value.to_owned() })
    }
}

/// The one address of a video.
pub open spec fn watch_url(id: Seq<char>) -> Seq<char> {
    "https://www.youtube.com/watch?v="@ + id
}

/// The one address of a video.
pub fn canonical_youtube_video_url(video_id: &str) -> (r: Result<String, BadVideoId>)
    ensures
        r is Ok <==> is_video_id(video_id@),
        r matches Ok(u) ==> u@ == watch_url(video_id@),
        r matches Err(e) ==> e.id@ == video_id@,
{
    match validate_youtube_video_id(video_id) {
        Ok(()) => Ok(join("https://www.youtube.com/watch?v=", video_id)),
        Err(e) => Err(e),
    }
}

/// The parts of an address.
#[derive(Debug)]
pub struct UrlParts {
    pub scheme: String,
    pub username: String,
    pub password: Option<String>,
    pub port: Option<u16>,
    pub host: Option<String>,
    pub path: String,
    pub segments: Option<Vec<String>>,
    pub pairs: Vec<(String, String)>,
}

/// The texts of the parts of an address.
pub struct UrlModel {
    pub scheme: Seq<char>,
    pub username: Seq<char>,
    pub password: Option<Seq<char>>,
    pub port: Option<u16>,
    pub host: Option<Seq<char>>,
    pub path: Seq<char>,
    pub segments: Option<Seq<Seq<char>>>,
    pub pairs: Seq<(Seq<char>, Seq<char>)>,
}

/// The texts of a list of pairs.
pub open spec fn pair_views(v: Seq<(String, String)>) -> Seq<(Seq<char>, Seq<char>)> {
    v.map_values(|p: (String, String)| (p.0@, p.1@))
}

impl UrlParts {
    /// The texts of the parts.
    pub open spec fn view(&self) -> UrlModel {
        UrlModel {
            scheme: self.scheme@,
            username: self.username@,
            password: opt_view(self.password),
            port: self.port,
            host: opt_view(self.host),
            path: self.path@,
            segments: match self.segments {
                Some(v) => Some(views(v@)),
                None => None,
            },
            pairs: pair_views(self.pairs@),
        }
    }
}

/// The parts of the address that a text spells; nothing where it spells none
/// (`reqwest::Url::parse`).
pub uninterp spec fn url_of(text: Seq<char>) -> Option<UrlModel>;

/// The characters of a path that is spelled out: those that are neither blank nor escaped, and no
/// backslash.
pub open spec fn page_char(c: char) -> bool {
    '!' <= c && c <= '~' && c != '"' && c != '#' && c != '<' && c != '>' && c != '?' && c != '`' && c
        != '{' && c != '}' && c != '\\'
}

/// Whether a text is a dot, or one that is escaped.
pub open spec fn is_dot(s: Seq<char>) -> bool {
    ||| s.len() == 1 && s[0] == '.'
    ||| s.len() == 3 && s[0] == '%' && s[1] == '2' && (s[2] == 'e' || s[2] == 'E')
}

/// Whether a part of a path leads nowhere: it is one dot or two.
pub open spec fn dotted(s: Seq<char>) -> bool {
    is_dot(s) || exists|k: int|
        0 <= k <= s.len() && #[trigger] is_dot(s.subrange(0, k)) && is_dot(
            s.subrange(k, s.len() as int),
        )
}

/// Whether a part of a path stands between two places.
pub open spec fn part_at(p: Seq<char>, i: int, j: int) -> bool {
    &&& 0 < i <= j <= p.len()
    &&& p[i - 1] == '/'
    &&& j == p.len() || p[j] == '/'
    &&& forall|k: int| i <= k < j ==> #[trigger] p[k] != '/'
}

/// Whether a path is spelled out in full, so that reading it leaves it as it is.
pub open spec fn settled(p: Seq<char>) -> bool {
    &&& p.len() > 0 && p[0] == '/'
    &&& forall|k: int| 0 <= k < p.len() ==> page_char(#[trigger] p[k])
    &&& forall|i: int, j: int| #[trigger] part_at(p, i, j) ==> !dotted(p.subrange(i, j))
}

/// Whether a scheme is that of web pages.
pub open spec fn web_scheme(s: Seq<char>) -> bool {
    s == "http"@ || s == "https"@
}

/// What stands behind YouTube's host.
pub open spec fn page_path(s: Seq<char>) -> Seq<char> {
    s.skip("https://www.youtube.com"@.len() as int)
}

/// Whether a text is YouTube's host with a path that is spelled out in full.
pub open spec fn is_page(s: Seq<char>) -> bool {
    starts(s, "https://www.youtube.com"@) && settled(page_path(s))
}

/// What stands behind the beginning of the one address of a video.
pub open spec fn watched_id(s: Seq<char>) -> Seq<char> {
    s.skip("https://www.youtube.com/watch?v="@.len() as int)
}

/// Whether a text is the one address of a video.
pub open spec fn is_watch_url(s: Seq<char>) -> bool {
    starts(s, "https://www.youtube.com/watch?v="@) && is_video_id(watched_id(s))
}

/// Whether an address is one of YouTube's with a path, and names neither a user nor a port.
pub open spec fn leads_to(u: UrlModel, path: Seq<char>) -> bool {
    &&& u.scheme == "https"@
    &&& u.username.len() == 0
    &&& u.password is None
    &&& u.port is None
    &&& u.host == Some("www.youtube.com"@)
    &&& u.path == path
}

/// Whether an address is the one address of a video.
pub open spec fn watches(u: UrlModel, id: Seq<char>) -> bool {
    &&& leads_to(u, "/watch"@)
    &&& u.segments == Some(seq!["watch"@])
    &&& u.pairs == seq![("v"@, id)]
}

/// `reqwest::Url::parse` and the methods that read its parts (`scheme`, `username`, `password`,
/// `port`, `host_str`, `path`, `path_segments`, `query_pairs`). The parts depend on the text
/// alone; the grammar of addresses is left to the crate. The path of an http address is spelled out
/// in full, such a path behind YouTube's host is left as it is, and the one address of a video is
/// read as its parts.
#[verifier::external_body]
fn parse_url(text: &str) -> (r: Option<UrlParts>)
    ensures
        r is Some <==> url_of(text@) is Some,
        r matches Some(u) ==> url_of(text@) == Some(u@),
        r matches Some(u) ==> (web_scheme(u@.scheme) ==> settled(u@.path)),
        r is None ==> !(is_page(text@) && text@.len() <= u32::MAX),
        r matches Some(u) ==> (is_page(text@) ==> leads_to(u@, page_path(text@))),
        r is None ==> !is_watch_url(text@),
        r matches Some(u) ==> (is_watch_url(text@) ==> watches(u@, watched_id(text@))),
{
    let url = reqwest::Url::parse(text).ok()?;
    Some(
        UrlParts {
            scheme: url.scheme().to_owned(),
            username: url.username().to_owned(),
            password: url.password().map(|x| x.to_owned()),
            port: url.port(),
            host: url.host_str().map(|x| x.to_owned()),
            path: url.path().to_owned(),
            segments: url.path_segments().map(|x| x.map(|y| y.to_owned()).collect()),
            pairs: url.query_pairs().map(|(k, v)| (k.into_owned(), v.into_owned())).collect(),
        },
    )
}

/// What is wrong with an address that an operator gave, if anything.
pub open spec fn operator_fault(u: UrlModel) -> Option<AddressError> {
    if !web_scheme(u.scheme) {
        Some(AddressError::Scheme)
    } else if u.username.len() > 0 || u.password is Some {
        Some(AddressError::UserInfo)
    } else if u.port is Some {
        Some(AddressError::Port)
    } else {
        None
    }
}

fn check_operator_url(url: &UrlParts) -> (r: Result<(), AddressError>)
    ensures
        r is Ok <==> operator_fault(url@) is None,
        r matches Err(e) ==> operator_fault(url@) == Some(e),
{
    if !same_text(url.scheme.as_str(), "http") && !same_text(url.scheme.as_str(), "https") {
        return Err(AddressError::Scheme);
    }
    if !url.username.as_str().is_empty() || url.password.is_some() {
        return Err(AddressError::UserInfo);
    }
    if url.port.is_some() {
        return Err(AddressError::Port);
    }
    Ok(())
}

/// The hosts of YouTube's own pages.
pub open spec fn youtube_host(s: Seq<char>) -> bool {
    s == "youtube.com"@ || s == "www.youtube.com"@ || s == "m.youtube.com"@ || s
        == "music.youtube.com"@
}

/// Whether `host` is one of YouTube's own pages.
pub fn is_youtube_host(host: &str) -> (r: bool)
    ensures
        r == youtube_host(host@),
{
    same_text(host, "youtube.com") || same_text(host, "www.youtube.com") || same_text(
        host,
        "m.youtube.com",
    ) || same_text(host, "music.youtube.com")
}

/// The parts of a path that are not empty.
pub open spec fn filled(segments: Seq<Seq<char>>) -> Seq<Seq<char>> {
    segments.filter(|s: Seq<char>| s.len() > 0)
}

/// The values of the parameter `v` of `pairs[..n]`.
pub open spec fn v_values(pairs: Seq<(Seq<char>, Seq<char>)>, n: int) -> Seq<Seq<char>>
    decreases n,
{
    if n <= 0 || n > pairs.len() {
        Seq::empty()
    } else {
        let front = v_values(pairs, n - 1);
        if pairs[n - 1].0 == "v"@ {
            front.push(pairs[n - 1].1)
        } else {
            front
        }
    }
}

/// Whether a path leads to a video by its second part.
pub open spec fn video_route(s: Seq<char>) -> bool {
    s == "shorts"@ || s == "live"@ || s == "embed"@
}

/// The id that an address holds, or why it holds none.
pub open spec fn id_of(u: UrlModel) -> Result<Seq<char>, VideoFault> {
    if operator_fault(u) is Some {
        Err(VideoFault::Address(operator_fault(u)->Some_0))
    } else if u.host is None {
        Err(VideoFault::Address(AddressError::NoHost))
    } else if u.segments is None {
        Err(VideoFault::Address(AddressError::NoPath))
    } else {
        let host = u.host->Some_0;
        let parts = filled(u.segments->Some_0);
        let values = v_values(u.pairs, u.pairs.len() as int);
        let found = if host == "youtu.be"@ {
            if parts.len() == 1 {
                Ok(parts[0])
            } else {
                Err(VideoFault::Address(AddressError::ShortAddress))
            }
        } else if !youtube_host(host) {
            Err(VideoFault::Address(AddressError::Host))
        } else if parts.len() == 1 && parts[0] == "watch"@ {
            if values.len() == 0 {
                Err(VideoFault::Address(AddressError::NoVideoId))
            } else if values.len() > 1 {
                Err(VideoFault::Address(AddressError::SeveralVideoIds))
            } else {
                Ok(values[0])
            }
        } else if parts.len() == 2 && video_route(parts[0]) {
            Ok(parts[1])
        } else {
            Err(VideoFault::Address(AddressError::NotOneVideo))
        };
        match found {
            Ok(id) => if is_video_id(id) {
                Ok(id)
            } else {
                Err(VideoFault::VideoId(id))
            },
            Err(e) => Err(e),
        }
    }
}

fn filled_segments(segments: &Vec<String>) -> (r: Vec<String>)
    ensures
        views(r@) == filled(views(segments@)),
{
    let ghost f = |s: Seq<char>| s.len() > 0;
    let ghost all = views(segments@);
    let mut out: Vec<String> = Vec::new();
    let mut i: usize = 0;
    proof {
        assert(all.take(0).filter(f) =~= Seq::empty());
        assert(views(out@) =~= Seq::empty());
    }
    while i < segments.len()
        invariant
            f == (|s: Seq<char>| s.len() > 0),
            all == views(segments@),
            0 <= i <= segments@.len(),
            views(out@) == all.take(i as int).filter(f),
        decreases segments@.len() - i,
    {
        proof {
            assert(all.take(i + 1).drop_last() =~= all.take(i as int));
            assert(all.take(i + 1).last() == segments@[i as int]@);
            reveal(Seq::filter);
        }
        let ghost before = views(out@);
        if !segments[i].as_str().is_empty() {
            out.push(segments[i].clone());
            proof {
                assert(views(out@) =~= before.push(segments@[i as int]@));
            }
        }
        i = i + 1;
    }
    proof {
        assert(all.take(i as int) =~= all);
    }
    out
}

fn collect_v_values(pairs: &Vec<(String, String)>) -> (r: Vec<String>)
    ensures
        views(r@) == v_values(pair_views(pairs@), pairs@.len() as int),
{
    let mut out: Vec<String> = Vec::new();
    let mut i: usize = 0;
    proof {
        assert(views(out@) =~= Seq::empty());
    }
    while i < pairs.len()
        invariant
            0 <= i <= pairs@.len(),
            views(out@) == v_values(pair_views(pairs@), i as int),
        decreases pairs@.len() - i,
    {
        let ghost before = views(out@);
        assert(pair_views(pairs@)[i as int] == (pairs@[i as int].0@, pairs@[i as int].1@));
        if same_text(pairs[i].0.as_str(), "v") {
            out.push(pairs[i].1.clone());
            proof {
                assert(views(out@) =~= before.push(pairs@[i as int].1@));
            }
        }
        i = i + 1;
    }
    out
}

/// The id that the parts of an address hold.
pub fn video_id_of(url: &UrlParts) -> (r: Result<String, VideoAddressError>)
    ensures
        r matches Ok(id) ==> id_of(url@) == Ok::<Seq<char>, VideoFault>(id@),
        r matches Err(e) ==> id_of(url@) == Err::<Seq<char>, VideoFault>(e@),
{
    match check_operator_url(url) {
        Err(e) => {
            return Err(VideoAddressError::Address(e));
        },
        Ok(()) => {},
    }
    let host = match &url.host {
        Some(h) => h,
        None => {
            return Err(VideoAddressError::Address(AddressError::NoHost));
        },
    };
    let parts = match &url.segments {
        Some(s) => filled_segments(s),
        None => {
            return Err(VideoAddressError::Address(AddressError::NoPath));
        },
    };
    let ghost p = filled(url@.segments->Some_0);
    proof {
        assert(views(parts@) == p);
        assert(p.len() == parts@.len());
        assert forall|i: int| 0 <= i < p.len() implies p[i] == parts@[i]@ by {
            assert(views(parts@)[i] == parts@[i]@);
        }
    }
    let id = if same_text(host.as_str(), "youtu.be") {
        if parts.len() != 1 {
            return Err(VideoAddressError::Address(AddressError::ShortAddress));
        }
        parts[0].clone()
    } else if !is_youtube_host(host.as_str()) {
        return Err(VideoAddressError::Address(AddressError::Host));
    } else if parts.len() == 1 && same_text(parts[0].as_str(), "watch") {
        let values = collect_v_values(&url.pairs);
        proof {
            assert(views(values@).len() == values@.len());
            assert(pair_views(url.pairs@).len() == url.pairs@.len());
        }
        if values.len() == 0 {
            return Err(VideoAddressError::Address(AddressError::NoVideoId));
        }
        if values.len() > 1 {
            return Err(VideoAddressError::Address(AddressError::SeveralVideoIds));
        }
        assert(views(values@)[0] == values@[0]@);
        values[0].clone()
    } else if parts.len() == 2 && (same_text(parts[0].as_str(), "shorts") || same_text(
        parts[0].as_str(),
        "live",
    ) || same_text(parts[0].as_str(), "embed")) {
        parts[1].clone()
    } else {
        return Err(VideoAddressError::Address(AddressError::NotOneVideo));
    };
    match validate_youtube_video_id(id.as_str()) {
        Ok(()) => Ok(id),
        Err(e) => Err(VideoAddressError::VideoId(e)),
    }
}

proof fn trimmed_already(s: Seq<char>)
    requires
        s.len() > 0,
        !is_space(s[0]),
        !is_space(s.last()),
    ensures
        trimmed(s) == s,
{
}

/// The one address of a video holds its id.
pub proof fn canonical_address_reads_back(u: UrlModel, id: Seq<char>)
    requires
        is_video_id(id),
        watches(u, id),
    ensures
        id_of(u) == Ok::<Seq<char>, VideoFault>(id),
{
    reveal_strlit("www.youtube.com");
    reveal_strlit("youtu.be");
    reveal_strlit("watch");
    reveal_with_fuel(v_values, 2);
    reveal_with_fuel(Seq::filter, 2);
    assert("www.youtube.com"@.len() != "youtu.be"@.len());
    let one = seq!["watch"@];
    assert(one.drop_last() =~= Seq::empty());
    assert(one.last() == "watch"@);
    assert(filled(one) =~= one);
    assert(v_values(u.pairs, 1) =~= seq![id]);
}

proof fn watch_url_is_trimmed(text: Seq<char>)
    requires
        is_watch_url(text),
    ensures
        trimmed(text) == text,
        watch_url(watched_id(text)) == text,
{
    reveal_strlit("https://www.youtube.com/watch?v=");
    let base = "https://www.youtube.com/watch?v="@;
    let id = watched_id(text);
    assert(text.subrange(0, base.len() as int) =~= base);
    assert(text =~= base + id);
    assert(text[0] == base[0]);
    assert(text.last() == id[10]);
    assert(id_char(id[10]));
    trimmed_already(text);
}

proof fn watch_url_is_one(id: Seq<char>)
    requires
        is_video_id(id),
    ensures
        is_watch_url(watch_url(id)),
        watched_id(watch_url(id)) == id,
{
    let base = "https://www.youtube.com/watch?v="@;
    assert(watch_url(id).subrange(0, base.len() as int) =~= base);
    assert(watch_url(id).skip(base.len() as int) =~= id);
}

/// The id and the one address of the video that an address leads to. The one address of a video is
/// given back as it is.
pub fn canonicalize_youtube_video_url(value: &str) -> (r: Result<(String, String), VideoAddressError>)
    ensures
        match url_of(trimmed(value@)) {
            None => r matches Err(x) && x@ == VideoFault::Address(AddressError::NotAnAddress),
            Some(u) => match id_of(u) {
                Ok(id) => r matches Ok((a, b)) && a@ == id && b@ == watch_url(id),
                Err(e) => r matches Err(x) && x@ == e,
            },
        },
        r matches Ok((a, b)) ==> is_video_id(a@) && b@ == watch_url(a@),
        is_watch_url(value@) ==> (r matches Ok((a, b)) && a@ == watched_id(value@) && b@ == value@),
        r matches Ok((a, b)) ==> is_watch_url(b@) && watched_id(b@) == a@,
{
    let text = trim(value);
    proof {
        if is_watch_url(value@) {
            watch_url_is_trimmed(value@);
        }
    }
    match parse_url(text.as_str()) {
        None => Err(VideoAddressError::Address(AddressError::NotAnAddress)),
        Some(url) => {
            proof {
                if is_watch_url(value@) {
                    canonical_address_reads_back(url@, watched_id(value@));
                }
            }
            match video_id_of(&url) {
                Err(e) => Err(e),
                Ok(id) => match canonical_youtube_video_url(id.as_str()) {
                    Ok(canonical) => {
                        proof {
                            watch_url_is_one(id@);
                        }
                        Ok((id, canonical))
                    },
                    Err(e) => Err(VideoAddressError::VideoId(e)),
                },
            }
        },
    }
}

/// Whether `s` ends with `p`.
pub open spec fn ends(s: Seq<char>, p: Seq<char>) -> bool {
    occurs_at(s, p, s.len() - p.len())
}

fn ends_with(s: &Vec<char>, p: &str) -> (r: bool)
    ensures
        r == ends(s@, p@),
{
    let b = chars_of(p);
    if b.len() > s.len() {
        return false;
    }
    found_at(s, &b, s.len() - b.len())
}

/// The page of a channel that an address leads to, or why it leads to none. An address without
/// a tab leads to the channel's videos.
pub open spec fn channel_page(u: UrlModel) -> Result<Seq<char>, AddressError> {
    if operator_fault(u) is Some {
        Err(operator_fault(u)->Some_0)
    } else if u.host is None {
        Err(AddressError::NoChannelHost)
    } else if !youtube_host(u.host->Some_0) {
        Err(AddressError::ChannelHost)
    } else {
        let path = strip_back(u.path, "/"@);
        if path.len() == 0 {
            Err(AddressError::NoChannelPath)
        } else if ends(path, "/videos"@) || ends(path, "/shorts"@) || ends(path, "/streams"@) {
            Ok("https://www.youtube.com"@ + path)
        } else {
            Ok("https://www.youtube.com"@ + path + "/videos"@)
        }
    }
}

/// Whether a path is that of a tab.
pub open spec fn tab_path(p: Seq<char>) -> bool {
    settled(p) && (ends(p, "/videos"@) || ends(p, "/shorts"@) || ends(p, "/streams"@))
}

/// Whether an address is that of a channel's page, in the one way in which it is kept.
pub open spec fn is_channel_page(s: Seq<char>) -> bool {
    is_page(s) && tab_path(page_path(s))
}

proof fn stripped_is_settled(p: Seq<char>)
    requires
        settled(p),
    ensures
        ({
            let q = strip_back(p, "/"@);
            q.len() == 0 || (settled(q) && q.last() != '/')
        }),
    decreases p.len(),
{
    reveal_strlit("/");
    assert("/"@.len() == 1);
    if occurs_at(p, "/"@, p.len() - 1) {
        let q = p.subrange(0, p.len() - 1);
        assert(strip_back(p, "/"@) == strip_back(q, "/"@));
        assert(p.subrange(p.len() - 1, p.len() as int)[0] == "/"@[0]);
        assert(p.last() == '/');
        if q.len() > 0 {
            assert forall|i: int, j: int| #[trigger] part_at(q, i, j) implies !dotted(
                q.subrange(i, j),
            ) by {
                assert forall|k: int| i <= k < j implies #[trigger] p[k] != '/' by {
                    assert(q[k] != '/');
                }
                assert(part_at(p, i, j));
                assert(q.subrange(i, j) =~= p.subrange(i, j));
            }
            stripped_is_settled(q);
        } else {
            assert(!occurs_at(q, "/"@, q.len() - 1));
        }
    } else {
        assert(p.last() != '/') by {
            if p.last() == '/' {
                assert(p.subrange(p.len() - 1, p.len() as int) =~= "/"@);
                assert(occurs_at(p, "/"@, p.len() - 1));
            }
        }
    }
}

proof fn tab_is_settled(q: Seq<char>)
    requires
        settled(q),
        q.last() != '/',
    ensures
        tab_path(q + "/videos"@),
{
    reveal_strlit("/videos");
    let t = "/videos"@;
    let p = q + t;
    assert forall|k: int| 0 <= k < p.len() implies page_char(#[trigger] p[k]) by {
        if k < q.len() {
            assert(p[k] == q[k]);
        } else {
            assert(p[k] == t[k - q.len()]);
        }
    }
    assert forall|i: int, j: int| #[trigger] part_at(p, i, j) implies !dotted(p.subrange(i, j)) by {
        let part = p.subrange(i, j);
        assert(p[q.len() as int] == '/');
        if j <= q.len() {
            assert forall|k: int| i <= k < j implies #[trigger] q[k] != '/' by {
                assert(p[k] != '/');
            }
            assert(p[i - 1] == q[i - 1]);
            assert(part_at(q, i, j));
            assert(part =~= q.subrange(i, j));
        } else {
            if i <= q.len() {
                assert(p[q.len() as int] != '/');
            }
            assert(p[i - 1] == t[i - 1 - q.len()]);
            assert(i == q.len() + 1);
            if j < p.len() {
                assert(p[j] == t[j - q.len()]);
            }
            assert(j == p.len());
            assert(part[0] == 'v');
            assert forall|k: int| 0 <= k <= part.len() implies !is_dot(
                #[trigger] part.subrange(0, k),
            ) by {
                if k > 0 {
                    assert(part.subrange(0, k)[0] == 'v');
                }
            }
        }
    }
    assert(ends(p, t)) by {
        assert(p.subrange(q.len() as int, p.len() as int) =~= t);
    }
}

proof fn page_is_kept(u: UrlModel)
    requires
        settled(u.path),
    ensures
        channel_page(u) matches Ok(page) ==> is_channel_page(page),
{
    if channel_page(u) is Ok {
        let q = strip_back(u.path, "/"@);
        let base = "https://www.youtube.com"@;
        stripped_is_settled(u.path);
        let p = if ends(q, "/videos"@) || ends(q, "/shorts"@) || ends(q, "/streams"@) {
            q
        } else {
            tab_is_settled(q);
            q + "/videos"@
        };
        assert(base + q + "/videos"@ =~= base + (q + "/videos"@));
        let page = base + p;
        assert(channel_page(u)->Ok_0 == page);
        assert(page.skip(base.len() as int) =~= p);
        assert(page.subrange(0, base.len() as int) =~= base);
    }
}

/// The page of a channel, in the one way in which it is kept, leads to itself.
pub proof fn normalized_page_stays(u: UrlModel, page: Seq<char>)
    requires
        is_channel_page(page),
        leads_to(u, page_path(page)),
    ensures
        channel_page(u) == Ok::<Seq<char>, AddressError>(page),
{
    let base = "https://www.youtube.com"@;
    let p = page.skip(base.len() as int);
    tab_ends_in_s(p);
    reveal_strlit("/");
    assert(strip_back(p, "/"@) == p) by {
        if occurs_at(p, "/"@, p.len() - 1) {
            assert(p[p.len() - 1] == "/"@[0]);
        }
    }
    assert(base + p =~= page) by {
        assert(page.subrange(0, base.len() as int) =~= base);
    }
}

proof fn tab_ends_in_s(p: Seq<char>)
    requires
        tab_path(p),
    ensures
        p.last() == 's',
{
    reveal_strlit("/videos");
    reveal_strlit("/shorts");
    reveal_strlit("/streams");
    if ends(p, "/videos"@) {
        assert(p.last() == "/videos"@[6]);
    } else if ends(p, "/shorts"@) {
        assert(p.last() == "/shorts"@[6]);
    } else {
        assert(p.last() == "/streams"@[7]);
    }
}

proof fn page_is_trimmed(page: Seq<char>)
    requires
        is_channel_page(page),
    ensures
        trimmed(page) == page,
{
    reveal_strlit("https://www.youtube.com");
    let base = "https://www.youtube.com"@;
    let p = page.skip(base.len() as int);
    tab_ends_in_s(p);
    assert(page.subrange(0, base.len() as int) =~= base);
    assert(page =~= base + p);
    assert(page[0] == base[0]);
    assert(page.last() == p.last());
    trimmed_already(page);
}

/// The page of a channel that the parts of an address lead to.
pub fn channel_page_of(url: &UrlParts) -> (r: Result<String, AddressError>)
    ensures
        r matches Ok(p) ==> channel_page(url@) == Ok::<Seq<char>, AddressError>(p@),
        r matches Err(e) ==> channel_page(url@) == Err::<Seq<char>, AddressError>(e),
{
    match check_operator_url(url) {
        Err(e) => {
            return Err(e);
        },
        Ok(()) => {},
    }
    match &url.host {
        Some(h) => {
            if !is_youtube_host(h.as_str()) {
                return Err(AddressError::ChannelHost);
            }
        },
        None => {
            return Err(AddressError::NoChannelHost);
        },
    }
    let chars = chars_of(url.path.as_str());
    let end: usize = skip_back(&chars, 0, chars.len(), &chars_of("/"));
    proof {
        assert(chars@.subrange(0, chars@.len() as int) =~= url.path@);
    }
    let path = string_of(&chars, 0, end);
    let path_chars = chars_of(path.as_str());
    if path_chars.len() == 0 {
        return Err(AddressError::NoChannelPath);
    }
    let page = join("https://www.youtube.com", path.as_str());
    if ends_with(&path_chars, "/videos") || ends_with(&path_chars, "/shorts") || ends_with(
        &path_chars,
        "/streams",
    ) {
        Ok(page)
    } else {
        Ok(join(page.as_str(), "/videos"))
    }
}

/// The page of a channel that an address leads to. A page in the one way in which it is kept is given
/// back as it is.
pub fn normalize_channel_url(value: &str) -> (r: Result<String, AddressError>)
    ensures
        match url_of(trimmed(value@)) {
            None => r == Err::<String, AddressError>(AddressError::NotAnAddress),
            Some(u) => match channel_page(u) {
                Ok(page) => r matches Ok(p) && p@ == page,
                Err(e) => r == Err::<String, AddressError>(e),
            },
        },
        r matches Ok(p) ==> is_channel_page(p@),
        is_channel_page(value@) && value@.len() <= u32::MAX ==> (r matches Ok(p) && p@ == value@),
{
    let text = trim(value);
    proof {
        if is_channel_page(value@) {
            page_is_trimmed(value@);
        }
    }
    match parse_url(text.as_str()) {
        None => Err(AddressError::NotAnAddress),
        Some(url) => {
            proof {
                if operator_fault(url@) is None {
                    page_is_kept(url@);
                }
                if is_channel_page(value@) && value@.len() <= u32::MAX {
                    normalized_page_stays(url@, value@);
                }
            }
            channel_page_of(&url)
        },
    }
}

// ---------------------------------------------------------------------------------------------
// Languages
// ---------------------------------------------------------------------------------------------

/// The first place of `s` from `k` on where a dash or an underscore stands.
pub open spec fn tag_end(s: Seq<char>, k: int) -> int
    decreases s.len() - k,
{
    if k >= s.len() || s[k] == '-' || s[k] == '_' {
        k
    } else {
        tag_end(s, k + 1)
    }
}

/// The language of a tag without its region.
pub open spec fn primary_tag(s: Seq<char>) -> Seq<char> {
    trimmed(s.take(tag_end(s, 0)))
}

fn primary(text: &str) -> (r: String)
    ensures
        r@ == primary_tag(text@),
{
    let chars = chars_of(text);
    let mut k: usize = 0;
    while k < chars.len() && chars[k] != '-' && chars[k] != '_'
        invariant
            chars@ == text@,
            0 <= k <= chars@.len(),
            tag_end(text@, 0) == tag_end(text@, k as int),
        decreases chars@.len() - k,
    {
        k = k + 1;
    }
    let (a, b) = trim_bounds(&chars, 0, k);
    proof {
        assert(chars@.subrange(0, k as int) =~= text@.take(k as int));
    }
    string_of(&chars, a, b)
}

/// Whether a tag names no language: it is empty, without linguistic content, or undetermined.
pub open spec fn unknown_language(s: Seq<char>) -> bool {
    let p = primary_tag(s);
    p.len() == 0 || lowered(p) == lowered("zxx"@) || lowered(p) == lowered("und"@)
}

/// Whether a tag names no language.
pub fn is_unknown_language(actual: &str) -> (r: bool)
    ensures
        r == unknown_language(actual@),
{
    let p = primary(actual);
    p.as_str().is_empty() || same_ignoring_case(p.as_str(), "zxx") || same_ignoring_case(
        p.as_str(),
        "und",
    )
}

/// Whether a video in the language `actual` may stand for one in `expected`: it may where its
/// language is unknown, and where the two differ in the region alone.
pub open spec fn language_accepted(expected: Seq<char>, actual: Seq<char>) -> bool {
    unknown_language(actual) || (primary_tag(expected).len() > 0 && lowered(primary_tag(expected))
        == lowered(primary_tag(actual)))
}

/// Whether a video in the language `actual` may stand for one in `expected`.
pub fn source_language_matches(expected: &str, actual: &str) -> (r: bool)
    ensures
        r == language_accepted(expected@, actual@),
{
    if is_unknown_language(actual) {
        return true;
    }
    let a = primary(expected);
    let b = primary(actual);
    !a.as_str().is_empty() && same_ignoring_case(a.as_str(), b.as_str())
}

// ---------------------------------------------------------------------------------------------
// Live content and length
// ---------------------------------------------------------------------------------------------

/// What a refusal for live content starts with.
pub open spec fn live_prefix() -> Seq<char> {
    "直播内容尚未就绪，暂不处理"@
}

/// What a refusal for length starts with.
pub open spec fn duration_prefix() -> Seq<char> {
    "视频时长超过上限"@
}

/// Whether a text tells that a live event has no recording yet.
pub open spec fn live_marked(s: Seq<char>) -> bool {
    ||| occurs_in(s, "This live event will begin"@)
    ||| occurs_in(s, "This live stream will begin"@)
    ||| occurs_in(s, "has not yet started"@)
    ||| occurs_in(s, "This live event has ended"@)
}

/// Whether a text tells that a live event has no recording yet.
pub fn contains_live_markers(text: &str) -> (r: bool)
    ensures
        r == live_marked(text@),
{
    contains_text(text, "This live event will begin") || contains_text(
        text,
        "This live stream will begin",
    ) || contains_text(text, "has not yet started") || contains_text(
        text,
        "This live event has ended",
    )
}

/// Whether one message of an error's chain tells of live content.
pub open spec fn chain_is_live(chain: Seq<Seq<char>>) -> bool {
    exists|i: int|
        0 <= i < chain.len() && (starts(#[trigger] chain[i], live_prefix()) || live_marked(
            chain[i],
        ))
}

/// Whether one message of an error's chain tells of an overlong video.
pub open spec fn chain_is_overlong(chain: Seq<Seq<char>>) -> bool {
    exists|i: int| 0 <= i < chain.len() && starts(#[trigger] chain[i], duration_prefix())
}

/// Whether an error, given by the messages of its chain, tells of live content without a
/// recording.
pub fn is_live_content_pending(chain: &[String]) -> (r: bool)
    ensures
        r == chain_is_live(views(chain@)),
{
    let mut i: usize = 0;
    while i < chain.len()
        invariant
            0 <= i <= chain@.len(),
            forall|j: int|
                0 <= j < i ==> !(starts((#[trigger] chain@[j])@, live_prefix()) || live_marked(
                    chain@[j]@,
                )),
        decreases chain@.len() - i,
    {
        if starts_with(chain[i].as_str(), "直播内容尚未就绪，暂不处理") || contains_live_markers(
            chain[i].as_str(),
        ) {
            proof {
                assert(views(chain@)[i as int] == chain@[i as int]@);
            }
            return true;
        }
        i = i + 1;
    }
    proof {
        assert forall|j: int| 0 <= j < views(chain@).len() implies !(starts(
            #[trigger] views(chain@)[j],
            live_prefix(),
        ) || live_marked(views(chain@)[j])) by {
            assert(views(chain@)[j] == chain@[j]@);
        }
    }
    false
}

/// Whether an error, given by the messages of its chain, tells of an overlong video.
pub fn exceeds_duration_limit(chain: &[String]) -> (r: bool)
    ensures
        r == chain_is_overlong(views(chain@)),
{
    let mut i: usize = 0;
    while i < chain.len()
        invariant
            0 <= i <= chain@.len(),
            forall|j: int| 0 <= j < i ==> !starts((#[trigger] chain@[j])@, duration_prefix()),
        decreases chain@.len() - i,
    {
        if starts_with(chain[i].as_str(), "视频时长超过上限") {
            proof {
                assert(views(chain@)[i as int] == chain@[i as int]@);
            }
            return true;
        }
        i = i + 1;
    }
    proof {
        assert forall|j: int| 0 <= j < views(chain@).len() implies !starts(
            #[trigger] views(chain@)[j],
            duration_prefix(),
        ) by {
            assert(views(chain@)[j] == chain@[j]@);
        }
    }
    false
}

/// A video that is longer than allowed.
#[derive(Debug, PartialEq, Eq, Structural, Clone, Copy)]
pub struct Overlong {
    pub duration_ms: u64,
    pub limit_seconds: u64,
}

/// Milliseconds as whole seconds, rounded to the nearest, halves to the even one.
pub open spec fn rounded_seconds(ms: int) -> int {
    let q = ms / 1000;
    let r = ms % 1000;
    if r > 500 || (r == 500 && q % 2 == 1) {
        q + 1
    } else {
        q
    }
}

impl Overlong {
    /// The message for this refusal.
    pub open spec fn text(self) -> Seq<char> {
        duration_prefix() + ": "@ + decimal_of(rounded_seconds(self.duration_ms as int) as nat)
            + "s > "@ + decimal_of(self.limit_seconds as nat) + "s"@
    }

    /// The message for this refusal.
    pub fn message(&self) -> (r: String)
        ensures
            r@ == self.text(),
    {
        let q: u64 = self.duration_ms / 1000;
        let rest: u64 = self.duration_ms % 1000;
        let seconds: u64 = if rest > 500 || (rest == 500 && q % 2 == 1) {
            q + 1
        } else {
            q
        };
        let mut s = join("视频时长超过上限", ": ");
        let a = decimal(seconds);
        s.append(a.as_str());
        s.append("s > ");
        let b = decimal(self.limit_seconds);
        s.append(b.as_str());
        s.append("s");
        s
    }
}

/// A refusal for length is recognised as one wherever it stands in an error's chain.
pub proof fn overlong_is_recognised(o: Overlong, chain: Seq<Seq<char>>, i: int)
    requires
        0 <= i < chain.len(),
        chain[i] == o.text(),
    ensures
        chain_is_overlong(chain),
{
    assert(o.text().subrange(0, duration_prefix().len() as int) =~= duration_prefix());
    assert(starts(chain[i], duration_prefix()));
}

/// Whether a video of that length is refused. A limit of 0 refuses none, and so does an unknown
/// length.
pub open spec fn overlong(duration_ms: Option<u64>, limit_seconds: u64) -> bool {
    limit_seconds > 0 && (duration_ms matches Some(d) && d > limit_seconds * 1000)
}

/// Checks the length of a video.
pub fn validate_duration(duration_ms: Option<u64>, limit_seconds: u64) -> (r: Result<(), Overlong>)
    ensures
        r is Err <==> overlong(duration_ms, limit_seconds),
        r matches Err(e) ==> duration_ms == Some(e.duration_ms) && e.limit_seconds == limit_seconds,
{
    if limit_seconds == 0 {
        return Ok(());
    }
    match duration_ms {
        None => Ok(()),
        Some(d) => {
            let limit: u128 = limit_seconds as u128 * 1000;
            if d as u128 > limit {
                Err(Overlong { duration_ms: d, limit_seconds })
            } else {
                Ok(())
            }
        },
    }
}

/// Live content without a recording: under way, announced, or ended a moment ago.
#[derive(Debug, PartialEq, Eq, Structural, Clone, Copy)]
pub enum LiveStatus {
    IsLive,
    IsUpcoming,
    PostLive,
}

/// The status of live content without a recording; recordings and other videos have none.
pub open spec fn live_status_of(s: Seq<char>) -> Option<LiveStatus> {
    if s == "is_live"@ {
        Some(LiveStatus::IsLive)
    } else if s == "is_upcoming"@ {
        Some(LiveStatus::IsUpcoming)
    } else if s == "post_live"@ {
        Some(LiveStatus::PostLive)
    } else {
        None
    }
}

/// The status of live content without a recording.
pub fn not_ready(status: &str) -> (r: Option<LiveStatus>)
    ensures
        r == live_status_of(status@),
{
    if same_text(status, "is_live") {
        Some(LiveStatus::IsLive)
    } else if same_text(status, "is_upcoming") {
        Some(LiveStatus::IsUpcoming)
    } else if same_text(status, "post_live") {
        Some(LiveStatus::PostLive)
    } else {
        None
    }
}

/// Why metadata is not that of one video that can be carried over.
#[derive(Debug, PartialEq, Eq, Structural, Clone, Copy)]
pub enum VideoRefusal {
    Playlist,
    Live(LiveStatus),
}

impl VideoRefusal {
    /// The message for this refusal.
    pub open spec fn text(self) -> Seq<char> {
        match self {
            VideoRefusal::Playlist => "请输入单个 YouTube 视频 URL，不支持播放列表"@,
            VideoRefusal::Live(LiveStatus::IsLive) => live_prefix() + ": Some(\"is_live\")"@,
            VideoRefusal::Live(LiveStatus::IsUpcoming) => live_prefix()
                + ": Some(\"is_upcoming\")"@,
            VideoRefusal::Live(LiveStatus::PostLive) => live_prefix() + ": Some(\"post_live\")"@,
        }
    }

    /// The message for this refusal.
    pub fn message(&self) -> (r: String)
        ensures
            r@ == self.text(),
    {
        match self {
            VideoRefusal::Playlist => "请输入单个 YouTube 视频 URL，不支持播放列表".to_owned(),
            VideoRefusal::Live(status) => match status {
                LiveStatus::IsLive => join(
                    "直播内容尚未就绪，暂不处理",
                    ": Some(\"is_live\")",
                ),
                LiveStatus::IsUpcoming => join(
                    "直播内容尚未就绪，暂不处理",
                    ": Some(\"is_upcoming\")",
                ),
                LiveStatus::PostLive => join(
                    "直播内容尚未就绪，暂不处理",
                    ": Some(\"post_live\")",
                ),
            },
        }
    }
}

/// A refusal for live content is recognised as one wherever it stands in an error's chain.
pub proof fn live_refusal_is_recognised(status: LiveStatus, chain: Seq<Seq<char>>, i: int)
    requires
        0 <= i < chain.len(),
        chain[i] == VideoRefusal::Live(status).text(),
    ensures
        chain_is_live(chain),
{
    assert(chain[i].subrange(0, live_prefix().len() as int) =~= live_prefix());
    assert(starts(chain[i], live_prefix()));
}

/// Why metadata is refused, if it is.
pub open spec fn video_refusal(v: JsonModel) -> Option<VideoRefusal> {
    if field_is(v, "_type"@, "playlist"@) || (member(v, "entries"@) matches Some(
        JsonModel::List(_),
    )) {
        Some(VideoRefusal::Playlist)
    } else {
        match text_field(v, "live_status"@) {
            Some(s) => match live_status_of(s) {
                Some(status) => Some(VideoRefusal::Live(status)),
                None => None,
            },
            None => None,
        }
    }
}

fn text_at<'a>(v: &'a Json, key: &str) -> (r: Option<&'a String>)
    ensures
        r is Some <==> text_field(v@, key@) is Some,
        r matches Some(t) ==> text_field(v@, key@) == Some(t@),
{
    match v.get(key) {
        Some(x) => x.as_text(),
        None => None,
    }
}

/// Checks that metadata is that of one video, and that the video is no live content without a
/// recording.
pub fn validate_single_video(v: &Json) -> (r: Result<(), VideoRefusal>)
    ensures
        r is Ok <==> video_refusal(v@) is None,
        r matches Err(e) ==> video_refusal(v@) == Some(e),
{
    let playlist = match text_at(v, "_type") {
        Some(t) => same_text(t.as_str(), "playlist"),
        None => false,
    };
    let entries = match v.get("entries") {
        Some(x) => x.as_list().is_some(),
        None => false,
    };
    if playlist || entries {
        return Err(VideoRefusal::Playlist);
    }
    match text_at(v, "live_status") {
        Some(s) => match not_ready(s.as_str()) {
            Some(status) => Err(VideoRefusal::Live(status)),
            None => Ok(()),
        },
        None => Ok(()),
    }
}

// ---------------------------------------------------------------------------------------------
// Metadata
// ---------------------------------------------------------------------------------------------

/// A field that is an unsigned integer.
pub open spec fn count_of(m: JsonModel, key: Seq<char>) -> Option<int> {
    match member(m, key) {
        Some(JsonModel::Int(n)) => if 0 <= n <= u64::MAX {
            Some(n)
        } else {
            None
        },
        _ => None,
    }
}

fn count_at(v: &Json, key: &str) -> (r: Option<u64>)
    ensures
        r is Some <==> count_of(v@, key@) is Some,
        r matches Some(n) ==> count_of(v@, key@) == Some(n as int),
{
    match v.get(key) {
        Some(x) => x.as_u64(),
        None => None,
    }
}

/// The area of a picture of known size that has an address, up to the largest `u64`.
pub open spec fn area_of(item: JsonModel) -> Option<int> {
    match (text_field(item, "url"@), count_of(item, "width"@), count_of(item, "height"@)) {
        (Some(_), Some(w), Some(h)) => Some(
            if w * h <= u64::MAX {
                w * h
            } else {
                u64::MAX as int
            },
        ),
        _ => None,
    }
}

/// Whether picture `k` is the largest of known size; of several as large, the last.
pub open spec fn is_largest(items: Seq<JsonModel>, k: int) -> bool {
    &&& 0 <= k < items.len()
    &&& area_of(items[k]) is Some
    &&& forall|j: int|
        0 <= j < items.len() && area_of(#[trigger] items[j]) is Some ==> area_of(items[j])->Some_0
            <= area_of(items[k])->Some_0 && (j > k ==> area_of(items[j])->Some_0 < area_of(
            items[k],
        )->Some_0)
}

/// The last address of `items[..n]`.
pub open spec fn last_url(items: Seq<JsonModel>, n: int) -> Option<Seq<char>>
    decreases n,
{
    if n <= 0 || n > items.len() {
        None
    } else {
        match text_field(items[n - 1], "url"@) {
            Some(u) => Some(u),
            None => last_url(items, n - 1),
        }
    }
}

/// The pictures that metadata lists.
pub open spec fn thumbnails_of(v: JsonModel) -> Option<Seq<JsonModel>> {
    match member(v, "thumbnails"@) {
        Some(JsonModel::List(items)) => Some(items),
        _ => None,
    }
}

/// Whether a picture of known size is listed.
pub open spec fn has_largest(items: Seq<JsonModel>) -> bool {
    exists|k: int| is_largest(items, k)
}

/// Whether `r` is the address of the largest picture of known size.
pub open spec fn is_largest_url(items: Seq<JsonModel>, r: Option<Seq<char>>) -> bool {
    exists|k: int| #[trigger] is_largest(items, k) && r == text_field(items[k], "url"@)
}

/// Whether `r` is the address of the cover: the largest picture of known size, else the one that
/// YouTube chose, else the last that has an address.
pub open spec fn cover_among(
    items: Seq<JsonModel>,
    chosen: Option<Seq<char>>,
    r: Option<Seq<char>>,
) -> bool {
    if has_largest(items) {
        is_largest_url(items, r)
    } else if chosen is Some {
        r == chosen
    } else {
        r == last_url(items, items.len() as int)
    }
}

/// Whether `r` is the address of the cover that metadata tells.
pub open spec fn is_cover(v: JsonModel, r: Option<Seq<char>>) -> bool {
    match thumbnails_of(v) {
        Some(items) => cover_among(items, text_field(v, "thumbnail"@), r),
        None => r == text_field(v, "thumbnail"@),
    }
}

fn area_at(item: &Json) -> (r: Option<u64>)
    ensures
        r is Some <==> area_of(item@) is Some,
        r matches Some(n) ==> area_of(item@) == Some(n as int),
{
    match (text_at(item, "url"), count_at(item, "width"), count_at(item, "height")) {
        (Some(_), Some(w), Some(h)) => {
            proof {
                assert(0 <= w * h <= 0xffff_ffff_ffff_ffff * 0xffff_ffff_ffff_ffff) by (
                nonlinear_arith)
                    requires
                        0 <= w <= 0xffff_ffff_ffff_ffff,
                        0 <= h <= 0xffff_ffff_ffff_ffff,
                ;
            }
            let area: u128 = w as u128 * h as u128;
            if area <= u64::MAX as u128 {
                Some(area as u64)
            } else {
                Some(u64::MAX)
            }
        },
        _ => None,
    }
}

fn largest(items: &Vec<Json>) -> (r: Option<usize>)
    ensures
        r matches Some(k) ==> is_largest(list_model(items@), k as int),
        r is None ==> forall|k: int| !is_largest(list_model(items@), k),
{
    let ghost models = list_model(items@);
    proof {
        list_model_index(items@);
    }
    let mut best: Option<usize> = None;
    let mut best_area: u64 = 0;
    let mut i: usize = 0;
    while i < items.len()
        invariant
            0 <= i <= items@.len(),
            models == list_model(items@),
            models.len() == items@.len(),
            forall|j: int| 0 <= j < models.len() ==> #[trigger] models[j] == items@[j]@,
            best is None ==> forall|j: int| 0 <= j < i ==> area_of(#[trigger] models[j]) is None,
            best matches Some(k) ==> {
                &&& k < i
                &&& area_of(models[k as int]) == Some(best_area as int)
                &&& forall|j: int|
                    0 <= j < i && area_of(#[trigger] models[j]) is Some ==> area_of(
                        models[j],
                    )->Some_0 <= best_area && (j > k ==> area_of(models[j])->Some_0 < best_area)
            },
        decreases items@.len() - i,
    {
        assert(models[i as int] == items@[i as int]@);
        match area_at(&items[i]) {
            Some(area) => {
                let better = match best {
                    None => true,
                    Some(_) => area >= best_area,
                };
                if better {
                    best = Some(i);
                    best_area = area;
                }
            },
            None => {},
        }
        i = i + 1;
    }
    best
}

fn find_last_url(items: &Vec<Json>) -> (r: Option<String>)
    ensures
        opt_view(r) == last_url(list_model(items@), items@.len() as int),
{
    let ghost models = list_model(items@);
    proof {
        list_model_index(items@);
    }
    let mut n: usize = items.len();
    while n > 0
        invariant
            0 <= n <= items@.len(),
            models == list_model(items@),
            models.len() == items@.len(),
            forall|j: int| 0 <= j < models.len() ==> #[trigger] models[j] == items@[j]@,
            last_url(models, items@.len() as int) == last_url(models, n as int),
        decreases n,
    {
        assert(models[n - 1] == items@[n - 1]@);
        match text_at(&items[n - 1], "url") {
            Some(u) => {
                return Some(u.clone());
            },
            None => {},
        }
        n = n - 1;
    }
    None
}

/// The address of a video's cover.
pub fn extract_thumbnail_url(v: &Json) -> (r: Option<String>)
    ensures
        is_cover(v@, opt_view(r)),
{
    let chosen = match text_at(v, "thumbnail") {
        Some(t) => Some(t.clone()),
        None => None,
    };
    match v.get("thumbnails") {
        Some(x) => match x.as_list() {
            Some(items) => {
                let ghost models = list_model(items@);
                proof {
                    list_model_index(items@);
                    assert(thumbnails_of(v@) == Some(models));
                }
                match largest(items) {
                    Some(k) => {
                        assert(models[k as int] == items@[k as int]@);
                        match text_at(&items[k], "url") {
                            Some(u) => {
                                let out = Some(u.clone());
                                proof {
                                    assert(is_largest(models, k as int) && opt_view(out)
                                        == text_field(models[k as int], "url"@));
                                    assert(is_largest_url(models, opt_view(out)));
                                    assert(has_largest(models));
                                }
                                return out;
                            },
                            None => {},
                        }
                    },
                    None => {},
                }
                match chosen {
                    Some(t) => Some(t),
                    None => find_last_url(items),
                }
            },
            None => chosen,
        },
        None => chosen,
    }
}

/// The value of the first of two fields that is there, where it is a text.
pub open spec fn text_of_either(v: JsonModel, a: Seq<char>, b: Seq<char>) -> Option<Seq<char>> {
    if member(v, a) is Some {
        text_field(v, a)
    } else {
        text_field(v, b)
    }
}

fn either_text(v: &Json, a: &str, b: &str) -> (r: Option<String>)
    ensures
        opt_view(r) == text_of_either(v@, a@, b@),
{
    let found = match v.get(a) {
        Some(x) => x.as_text(),
        None => text_at(v, b),
    };
    match found {
        Some(t) => Some(t.clone()),
        None => None,
    }
}

fn owned_text(v: &Json, key: &str) -> (r: Option<String>)
    ensures
        opt_view(r) == text_field(v@, key@),
{
    match text_at(v, key) {
        Some(t) => Some(t.clone()),
        None => None,
    }
}

/// A field that is an integer that `i64` holds.
pub open spec fn int_at(m: JsonModel, key: Seq<char>) -> Option<int> {
    int_field(m, key)
}

fn owned_int(v: &Json, key: &str) -> (r: Option<i64>)
    ensures
        r is Some <==> int_at(v@, key@) is Some,
        r matches Some(n) ==> int_at(v@, key@) == Some(n as int),
{
    match v.get(key) {
        Some(x) => x.as_i64(),
        None => None,
    }
}

/// The integer of an optional number.
pub open spec fn opt_int(n: Option<i64>) -> Option<int> {
    match n {
        Some(x) => Some(x as int),
        None => None,
    }
}

/// Why what was printed about a video holds no metadata.
#[derive(Debug, PartialEq, Eq, Structural, Clone, Copy)]
pub enum PrintFault {
    /// The video is live content without a recording.
    Live,
    /// It is no JSON.
    NotJson,
}

impl PrintFault {
    /// The message for this fault.
    pub open spec fn text(self) -> Seq<char> {
        match self {
            PrintFault::Live => live_prefix() + ": yt-dlp 无 JSON 输出"@,
            PrintFault::NotJson => "yt-dlp 输出不是 JSON"@,
        }
    }

    /// The message for this fault.
    pub fn message(&self) -> (r: String)
        ensures
            r@ == self.text(),
    {
        match self {
            PrintFault::Live => join("直播内容尚未就绪，暂不处理", ": yt-dlp 无 JSON 输出"),
            PrintFault::NotJson => "yt-dlp 输出不是 JSON".to_owned(),
        }
    }
}

/// Live content that is only told of in words is recognised as such wherever it stands in an
/// error's chain.
pub proof fn live_words_are_recognised(chain: Seq<Seq<char>>, i: int)
    requires
        0 <= i < chain.len(),
        chain[i] == PrintFault::Live.text(),
    ensures
        chain_is_live(chain),
{
    assert(chain[i].subrange(0, live_prefix().len() as int) =~= live_prefix());
    assert(starts(chain[i], live_prefix()));
}

/// Reads what was printed about a video. For live content there may be no JSON, only words on
/// either stream.
pub fn read_printed(stdout: &str, stderr: &str) -> (r: Result<Json, PrintFault>)
    ensures
        match parsed(trimmed(stdout@)) {
            Some(m) => r matches Ok(v) && v@ == m,
            None => r == Err::<Json, PrintFault>(
                if live_marked(stdout@ + "\n"@ + stderr@) {
                    PrintFault::Live
                } else {
                    PrintFault::NotJson
                },
            ),
        },
{
    let clean = trim(stdout);
    match read_json(clean.as_str()) {
        Some(v) => Ok(v),
        None => {
            let head = join(stdout, "\n");
            let merged = join(head.as_str(), stderr);
            if contains_live_markers(merged.as_str()) {
                Err(PrintFault::Live)
            } else {
                Err(PrintFault::NotJson)
            }
        },
    }
}

/// Why the metadata that was fetched for a video is not used.
#[derive(Debug, PartialEq, Eq, Structural, Clone, Copy)]
pub enum MetadataError {
    Refused(VideoRefusal),
    TooLong(Overlong),
    NoId,
    BadId,
    OtherId,
}

impl MetadataError {
    /// The message for this error, where `found` is the id of the metadata.
    pub open spec fn text(self, found: Seq<char>, requested: Seq<char>) -> Seq<char> {
        match self {
            MetadataError::Refused(e) => e.text(),
            MetadataError::TooLong(e) => e.text(),
            MetadataError::NoId => "yt-dlp 未返回 YouTube video ID"@,
            MetadataError::BadId => bad_id_text(found),
            MetadataError::OtherId => "yt-dlp 返回的 video ID 与输入 URL 不一致: "@ + found + " != "@
                + requested,
        }
    }

    /// The message for this error, where `found` is the id of the metadata.
    pub fn message(&self, found: &str, requested: &str) -> (r: String)
        ensures
            r@ == self.text(found@, requested@),
    {
        match self {
            MetadataError::Refused(e) => e.message(),
            MetadataError::TooLong(e) => e.message(),
            MetadataError::NoId => "yt-dlp 未返回 YouTube video ID".to_owned(),
            MetadataError::BadId => bad_id_message(found),
            MetadataError::OtherId => {
                let mut s = "yt-dlp 返回的 video ID 与输入 URL 不一致: ".to_owned();
                s.append(found);
                s.append(" != ");
                s.append(requested);
                s
            },
        }
    }
}

/// What is wrong with fetched metadata, if anything.
pub open spec fn metadata_error(
    v: JsonModel,
    requested: Seq<char>,
    duration_ms: Option<u64>,
    limit_seconds: u64,
) -> Option<MetadataError> {
    if video_refusal(v) is Some {
        Some(MetadataError::Refused(video_refusal(v)->Some_0))
    } else if overlong(duration_ms, limit_seconds) {
        Some(
            MetadataError::TooLong(
                Overlong { duration_ms: duration_ms->Some_0, limit_seconds },
            ),
        )
    } else {
        match text_field(v, "id"@) {
            None => Some(MetadataError::NoId),
            Some(id) => if !is_video_id(id) {
                Some(MetadataError::BadId)
            } else if id != requested {
                Some(MetadataError::OtherId)
            } else {
                None
            },
        }
    }
}

/// Whether `m` holds what fetched metadata tells.
pub open spec fn metadata_of(
    v: JsonModel,
    canonical_url: Seq<char>,
    duration_ms: Option<u64>,
    fps_milli: Option<u64>,
    m: VideoMetadata,
) -> bool {
    &&& text_field(v, "id"@) == Some(m.id@)
    &&& m.url@ == canonical_url
    &&& m.title@ == match text_field(v, "title"@) {
        Some(t) => t,
        None => "Untitled"@,
    }
    &&& opt_view(m.description) == text_field(v, "description"@)
    &&& opt_view(m.uploader) == text_of_either(v, "uploader"@, "channel"@)
    &&& opt_view(m.upload_date) == text_field(v, "upload_date"@)
    &&& opt_view(m.channel) == text_field(v, "channel"@)
    &&& opt_view(m.channel_id) == text_field(v, "channel_id"@)
    &&& opt_int(m.timestamp) == int_at(v, "timestamp"@)
    &&& m.duration_ms == duration_ms
    &&& opt_int(m.width) == int_at(v, "width"@)
    &&& opt_int(m.height) == int_at(v, "height"@)
    &&& m.fps_milli == fps_milli
    &&& is_cover(v, opt_view(m.thumbnail_url))
    &&& opt_view(m.webpage_url) == Some(canonical_url)
    &&& opt_view(m.live_status) == text_field(v, "live_status"@)
    &&& m.default_audio_language is None
}

/// The metadata of the requested video, from what was fetched for it. Length and frame rate, which
/// are no integers there, come along as integers.
pub fn metadata_from_json(
    v: &Json,
    requested: &str,
    canonical_url: &str,
    duration_ms: Option<u64>,
    fps_milli: Option<u64>,
    limit_seconds: u64,
) -> (r: Result<VideoMetadata, MetadataError>)
    ensures
        r is Ok <==> metadata_error(v@, requested@, duration_ms, limit_seconds) is None,
        r matches Ok(m) ==> metadata_of(v@, canonical_url@, duration_ms, fps_milli, m),
        r matches Err(e) ==> metadata_error(v@, requested@, duration_ms, limit_seconds) == Some(e),
{
    match validate_single_video(v) {
        Err(e) => {
            return Err(MetadataError::Refused(e));
        },
        Ok(()) => {},
    }
    match validate_duration(duration_ms, limit_seconds) {
        Err(e) => {
            return Err(MetadataError::TooLong(e));
        },
        Ok(()) => {},
    }
    let id = match text_at(v, "id") {
        Some(t) => t.clone(),
        None => {
            return Err(MetadataError::NoId);
        },
    };
    if !is_youtube_video_id(id.as_str()) {
        return Err(MetadataError::BadId);
    }
    if !same_text(id.as_str(), requested) {
        return Err(MetadataError::OtherId);
    }
    let title = match text_at(v, "title") {
        Some(t) => t.clone(),
        None => "Untitled".to_owned(),
    };
    Ok(
        VideoMetadata {
            id,
            url: canonical_url.to_owned(),
            title,
            description: owned_text(v, "description"),
            uploader: either_text(v, "uploader", "channel"),
            upload_date: owned_text(v, "upload_date"),
            channel: owned_text(v, "channel"),
            channel_id: owned_text(v, "channel_id"),
            timestamp: owned_int(v, "timestamp"),
            duration_ms,
            width: owned_int(v, "width"),
            height: owned_int(v, "height"),
            fps_milli,
            thumbnail_url: extract_thumbnail_url(v),
            webpage_url: Some(canonical_url.to_owned()),
            live_status: owned_text(v, "live_status"),
            default_audio_language: None,
        },
    )
}

/// A channel as YouTube names it.
#[derive(Debug)]
pub struct ResolvedChannel {
    pub channel_id: String,
    pub name: String,
    pub url: String,
    pub feed_url: String,
}

/// The channel that metadata tells of; nothing where it names no channel id.
pub fn channel_from_json(v: &Json, url: &str) -> (r: Option<ResolvedChannel>)
    ensures
        r is Some <==> text_of_either(v@, "channel_id"@, "uploader_id"@) is Some,
        r matches Some(c) ==> {
            &&& text_of_either(v@, "channel_id"@, "uploader_id"@) == Some(c.channel_id@)
            &&& c.name@ == match text_of_either(v@, "channel"@, "uploader"@) {
                Some(n) => n,
                None => c.channel_id@,
            }
            &&& c.url@ == url@
            &&& c.feed_url@ == "https://www.youtube.com/feeds/videos.xml?channel_id"@ + "="@
                + c.channel_id@
        },
{
    let channel_id = match either_text(v, "channel_id", "uploader_id") {
        Some(t) => t,
        None => {
            return None;
        },
    };
    let name = match either_text(v, "channel", "uploader") {
        Some(t) => t,
        None => channel_id.clone(),
    };
    let mut feed_url = join("https://www.youtube.com/feeds/videos.xml?channel_id", "=");
    feed_url.append(channel_id.as_str());
    Some(ResolvedChannel { channel_id, name, url: url.to_owned(), feed_url })
}

// ---------------------------------------------------------------------------------------------
// How yt-dlp is called
// ---------------------------------------------------------------------------------------------

/// The client that yt-dlp takes for YouTube.
pub const YOUTUBE_EXTRACTOR_ARGS: &'static str = "youtube:player_client=web_creator";

/// The arguments that every call of yt-dlp starts with.
pub open spec fn first_args(cookies: Option<Seq<char>>) -> Seq<Seq<char>> {
    let always = seq![
        "--js-runtimes"@,
        "node"@,
        "--extractor-args"@,
        YOUTUBE_EXTRACTOR_ARGS@,
    ];
    match cookies {
        Some(path) => always + seq!["--cookies"@, path],
        None => always,
    }
}

/// The arguments that every call of yt-dlp starts with, with the file of cookies where it is there.
pub fn ytdlp_args(cookies: Option<&str>) -> (r: Vec<String>)
    ensures
        views(r@) == first_args(
            match cookies {
                Some(path) => Some(path@),
                None => None,
            },
        ),
{
    let mut out: Vec<String> = Vec::new();
    out.push("--js-runtimes".to_owned());
    out.push("node".to_owned());
    out.push("--extractor-args".to_owned());
    out.push(YOUTUBE_EXTRACTOR_ARGS.to_owned());
    match cookies {
        Some(path) => {
            out.push("--cookies".to_owned());
            out.push(path.to_owned());
        },
        None => {},
    }
    proof {
        assert(views(out@) =~= first_args(
            match cookies {
                Some(path) => Some(path@),
                None => None,
            },
        ));
    }
    out
}

// ---------------------------------------------------------------------------------------------
// What an address, a language and an answer mean
// ---------------------------------------------------------------------------------------------

/// A video's id is eleven letters, digits, dashes or underscores, and nothing else is.
pub proof fn ids_are_eleven_characters(s: Seq<char>)
    ensures
        is_video_id(s) <==> s.len() == 11 && forall|i: int|
            0 <= i < 11 ==> ({
                let c = #[trigger] s[i];
                ||| 'a' <= c && c <= 'z'
                ||| 'A' <= c && c <= 'Z'
                ||| '0' <= c && c <= '9'
                ||| c == '-'
                ||| c == '_'
            }),
{
    if is_video_id(s) {
        assert forall|i: int| 0 <= i < 11 implies ({
            let c = #[trigger] s[i];
            ||| 'a' <= c && c <= 'z'
            ||| 'A' <= c && c <= 'Z'
            ||| '0' <= c && c <= '9'
            ||| c == '-'
            ||| c == '_'
        }) by {
            assert(id_char(s[i]));
        }
    }
}

/// A short address, and one of a short, a live broadcast or an embedded video, means the id behind
/// it; a watch address means the id that it asks for.
pub proof fn addresses_mean_their_video(u: UrlModel, id: Seq<char>, host: Seq<char>, route: Seq<char>)
    requires
        is_video_id(id),
        u.scheme == "http"@ || u.scheme == "https"@,
        u.username.len() == 0,
        u.password is None,
        u.port is None,
        host == "youtube.com"@ || host == "www.youtube.com"@ || host == "m.youtube.com"@ || host
            == "music.youtube.com"@,
        route == "shorts"@ || route == "live"@ || route == "embed"@,
    ensures
        u.host == Some("youtu.be"@) && u.segments == Some(seq![id]) ==> id_of(u) == Ok::<
            Seq<char>,
            VideoFault,
        >(id),
        u.host == Some(host) && u.segments == Some(seq![route, id]) ==> id_of(u) == Ok::<
            Seq<char>,
            VideoFault,
        >(id),
        u.host == Some(host) && u.segments == Some(seq!["watch"@]) && u.pairs == seq![("v"@, id)]
            ==> id_of(u) == Ok::<Seq<char>, VideoFault>(id),
        u.host == Some(host) && u.segments == Some(seq!["watch"@]) && u.pairs.len() == 0 ==> id_of(u)
            == Err::<Seq<char>, VideoFault>(VideoFault::Address(AddressError::NoVideoId)),
        u.host == Some(host) && u.segments == Some(seq!["watch"@]) && u.pairs == seq![
            ("v"@, id),
            ("v"@, id),
        ] ==> id_of(u) == Err::<Seq<char>, VideoFault>(
            VideoFault::Address(AddressError::SeveralVideoIds),
        ),
{
    reveal_strlit("youtu.be");
    reveal_strlit("youtube.com");
    reveal_strlit("www.youtube.com");
    reveal_strlit("m.youtube.com");
    reveal_strlit("music.youtube.com");
    reveal_strlit("shorts");
    reveal_strlit("live");
    reveal_strlit("embed");
    reveal_strlit("watch");
    assert("youtu.be"@.len() == 8 && "youtube.com"@.len() == 11 && "www.youtube.com"@.len() == 15
        && "m.youtube.com"@.len() == 13 && "music.youtube.com"@.len() == 17);
    assert("shorts"@.len() == 6 && "live"@.len() == 4 && "embed"@.len() == 5 && "watch"@.len() == 5);
    assert(host != "youtu.be"@);
    filled_all(seq![id]);
    filled_all(seq![route, id]);
    filled_all(seq!["watch"@]);
    reveal_with_fuel(v_values, 3);
}

proof fn filled_all(parts: Seq<Seq<char>>)
    requires
        forall|i: int| 0 <= i < parts.len() ==> (#[trigger] parts[i]).len() > 0,
    ensures
        filled(parts) == parts,
    decreases parts.len(),
{
    reveal(Seq::filter);
    if parts.len() > 0 {
        let front = parts.drop_last();
        assert forall|i: int| 0 <= i < front.len() implies (#[trigger] front[i]).len() > 0 by {
            assert(front[i] == parts[i]);
        }
        filled_all(front);
        assert(parts[parts.len() - 1].len() > 0);
        assert(front.push(parts.last()) =~= parts);
    } else {
        assert(filled(parts) =~= parts);
    }
}

/// An address of another host, scheme, user or port means no video.
pub proof fn foreign_addresses_are_refused(u: UrlModel)
    ensures
        u.scheme != "http"@ && u.scheme != "https"@ ==> id_of(u) == Err::<Seq<char>, VideoFault>(
            VideoFault::Address(AddressError::Scheme),
        ) && channel_page(u) is Err,
        u.username.len() > 0 || u.password is Some || u.port is Some ==> id_of(u) is Err
            && channel_page(u) is Err,
        u.host is None ==> id_of(u) is Err && channel_page(u) is Err,
        u.host is Some && u.host->Some_0 != "youtu.be"@ && u.host->Some_0 != "youtube.com"@
            && u.host->Some_0 != "www.youtube.com"@ && u.host->Some_0 != "m.youtube.com"@
            && u.host->Some_0 != "music.youtube.com"@ ==> id_of(u) is Err && channel_page(u) is Err,
        id_of(u) matches Ok(id) ==> is_video_id(id),
{
}

/// A channel's page is the one of its videos, without slashes behind, where its address names no
/// other tab.
pub proof fn channel_pages_show_the_videos(u: UrlModel, path: Seq<char>, host: Seq<char>)
    requires
        u.scheme == "https"@ || u.scheme == "http"@,
        u.username.len() == 0,
        u.password is None,
        u.port is None,
        host == "youtube.com"@ || host == "www.youtube.com"@ || host == "m.youtube.com"@ || host
            == "music.youtube.com"@,
        u.host == Some(host),
        path.len() > 0,
        path.last() != '/',
        u.path == path || u.path == path.push('/'),
    ensures
        path.last() != 's' ==> channel_page(u) == Ok::<Seq<char>, AddressError>(
            "https://www.youtube.com"@ + path + "/videos"@,
        ),
        path.len() >= 7 && path.skip(path.len() - 7) == "/videos"@ ==> channel_page(u) == Ok::<
            Seq<char>,
            AddressError,
        >("https://www.youtube.com"@ + path),
        path.len() >= 7 && path.skip(path.len() - 7) == "/shorts"@ ==> channel_page(u) == Ok::<
            Seq<char>,
            AddressError,
        >("https://www.youtube.com"@ + path),
        path.len() >= 8 && path.skip(path.len() - 8) == "/streams"@ ==> channel_page(u) == Ok::<
            Seq<char>,
            AddressError,
        >("https://www.youtube.com"@ + path),
{
    reveal_strlit("/");
    reveal_strlit("/videos");
    reveal_strlit("/shorts");
    reveal_strlit("/streams");
    stripping_takes_all_of_them(path, "/"@);
    assert(path.push('/') =~= path + "/"@);
    assert(path.skip(path.len() - 1)[0] == path.last() && "/"@[0] == '/');
    assert(strip_back(u.path, "/"@) == path);
    let n = path.len() as int;
    if n >= 7 {
        assert(path.subrange(n - 7, n) =~= path.skip(n - 7));
        assert(path.skip(n - 7)[6] == path.last());
    }
    if n >= 8 {
        assert(path.subrange(n - 8, n) =~= path.skip(n - 8));
        assert(path.skip(n - 8)[7] == path.last());
    }
    assert("/videos"@[6] == 's' && "/shorts"@[6] == 's' && "/streams"@[7] == 's');
}

/// A language stands for itself in every region and in letters of any size, not for another, and a
/// language that is not known stands for any.
pub proof fn languages_match_by_their_name(p: Seq<char>, q: Seq<char>, region: Seq<char>)
    requires
        p.len() > 0,
        q.len() > 0,
        forall|i: int| 0 <= i < p.len() ==> #[trigger] p[i] != '-' && p[i] != '_' && !is_space(p[i]),
        forall|i: int| 0 <= i < q.len() ==> #[trigger] q[i] != '-' && q[i] != '_' && !is_space(q[i]),
    ensures
        lowered(p) == lowered(q) ==> language_accepted(p, q) && language_accepted(
            p,
            q.push('-') + region,
        ) && language_accepted(p.push('-') + region, q) && language_accepted(
            p,
            q.push('_') + region,
        ),
        lowered(q) != lowered("und"@) && lowered(q) != lowered("zxx"@) && lowered(p) != lowered(q)
            ==> !language_accepted(p, q) && !language_accepted(p, q.push('-') + region),
        lowered(q) == lowered("und"@) || lowered(q) == lowered("zxx"@) ==> language_accepted(p, q),
        language_accepted(p, Seq::<char>::empty()),
{
    names_of_languages(p, region);
    names_of_languages(q, region);
    assert(Seq::<char>::empty().take(0) =~= Seq::<char>::empty());
    trimming_keeps_the_inside(Seq::empty(), Seq::empty(), Seq::empty());
    assert(Seq::<char>::empty() + Seq::<char>::empty() + Seq::<char>::empty() =~= Seq::<
        char,
    >::empty());
}

proof fn names_of_languages(p: Seq<char>, region: Seq<char>)
    requires
        p.len() > 0,
        forall|i: int| 0 <= i < p.len() ==> #[trigger] p[i] != '-' && p[i] != '_' && !is_space(p[i]),
    ensures
        primary_tag(p) == p,
        primary_tag(p.push('-') + region) == p,
        primary_tag(p.push('_') + region) == p,
{
    let none = Seq::<char>::empty();
    let a = p.push('-') + region;
    let b = p.push('_') + region;
    let n = p.len() as int;
    assert(p.last() == p[n - 1]);
    trimming_keeps_the_inside(none, p, none);
    assert(none + p + none =~= p);
    tag_runs(p, 0, n);
    assert(p.take(n) =~= p);
    assert forall|i: int| 0 <= i < n implies #[trigger] a[i] != '-' && a[i] != '_' by {
        assert(a[i] == p[i]);
    }
    tag_runs(a, 0, n);
    assert(a.take(n) =~= p);
    assert forall|i: int| 0 <= i < n implies #[trigger] b[i] != '-' && b[i] != '_' by {
        assert(b[i] == p[i]);
    }
    tag_runs(b, 0, n);
    assert(b.take(n) =~= p);
}

proof fn tag_runs(s: Seq<char>, k: int, n: int)
    requires
        0 <= k <= n <= s.len(),
        forall|i: int| k <= i < n ==> #[trigger] s[i] != '-' && s[i] != '_',
        n == s.len() || s[n] == '-' || s[n] == '_',
    ensures
        tag_end(s, k) == n,
    decreases n - k,
{
    if k < n {
        assert(s[k] != '-');
        tag_runs(s, k + 1, n);
    }
}

/// A failure tells of live content where it says that a broadcast is to begin or has just ended, or
/// bears the words of this library.
pub proof fn words_tell_of_live_content(chain: Seq<Seq<char>>, i: int, a: Seq<char>, b: Seq<char>)
    requires
        0 <= i < chain.len(),
        chain[i] == a + "This live event will begin"@ + b || chain[i] == a
            + "This live stream will begin"@ + b || chain[i] == a + "has not yet started"@ + b
            || chain[i] == a + "This live event has ended"@ + b || chain[i]
            == "直播内容尚未就绪，暂不处理"@ + b,
    ensures
        chain_is_live(chain),
{
    parts_occur(a, "This live event will begin"@, b);
    parts_occur(a, "This live stream will begin"@, b);
    parts_occur(a, "has not yet started"@, b);
    parts_occur(a, "This live event has ended"@, b);
    parts_occur(a, "直播内容尚未就绪，暂不处理"@, b);
}

/// A failure tells of length where it starts with the words of this library, and plain failures tell
/// of neither.
pub proof fn words_tell_of_length(chain: Seq<Seq<char>>, i: int, b: Seq<char>)
    ensures
        0 <= i < chain.len() && chain[i] == "视频时长超过上限"@ + b ==> chain_is_overlong(chain),
        chain.len() == 0 ==> !chain_is_live(chain) && !chain_is_overlong(chain),
{
    parts_occur(b, "视频时长超过上限"@, b);
}

/// A video is too long where a limit is set and its length is known and beyond it.
pub proof fn lengths_are_held_to_the_limit(duration_ms: Option<u64>, limit_seconds: u64)
    ensures
        overlong(duration_ms, limit_seconds) <==> limit_seconds != 0 && duration_ms is Some
            && duration_ms->Some_0 > limit_seconds * 1_000,
{
}

/// Half seconds go to the even one, others to the nearest.
pub proof fn seconds_are_rounded(ms: int)
    requires
        ms >= 0,
    ensures
        -500 <= rounded_seconds(ms) * 1_000 - ms <= 500,
        ms % 1_000 == 500 ==> rounded_seconds(ms) % 2 == 0,
        ms % 1_000 == 0 ==> rounded_seconds(ms) * 1_000 == ms,
{
}

/// What a video tells of itself is kept field by field.
pub proof fn answers_are_kept_field_by_field(
    v: JsonModel,
    url: Seq<char>,
    duration_ms: Option<u64>,
    fps_milli: Option<u64>,
    m: VideoMetadata,
    t: Seq<char>,
    n: int,
)
    requires
        metadata_of(v, url, duration_ms, fps_milli, m),
        i64::MIN <= n <= i64::MAX,
    ensures
        m.url@ == url,
        m.webpage_url is Some && m.webpage_url->Some_0@ == url,
        m.duration_ms == duration_ms && m.fps_milli == fps_milli,
        member(v, "id"@) == Some(JsonModel::Text(m.id@)),
        member(v, "title"@) == Some(JsonModel::Text(t)) ==> m.title@ == t,
        member(v, "title"@) is None ==> m.title@ == "Untitled"@,
        member(v, "description"@) == Some(JsonModel::Text(t)) ==> m.description is Some
            && m.description->Some_0@ == t,
        member(v, "uploader"@) == Some(JsonModel::Text(t)) ==> m.uploader is Some
            && m.uploader->Some_0@ == t,
        member(v, "uploader"@) is None && member(v, "channel"@) == Some(JsonModel::Text(t))
            ==> m.uploader is Some && m.uploader->Some_0@ == t,
        member(v, "channel"@) == Some(JsonModel::Text(t)) ==> m.channel is Some
            && m.channel->Some_0@ == t,
        member(v, "channel_id"@) == Some(JsonModel::Text(t)) ==> m.channel_id is Some
            && m.channel_id->Some_0@ == t,
        member(v, "upload_date"@) == Some(JsonModel::Text(t)) ==> m.upload_date is Some
            && m.upload_date->Some_0@ == t,
        member(v, "live_status"@) == Some(JsonModel::Text(t)) ==> m.live_status is Some
            && m.live_status->Some_0@ == t,
        member(v, "timestamp"@) == Some(JsonModel::Int(n)) ==> m.timestamp is Some
            && m.timestamp->Some_0 == n,
        member(v, "width"@) == Some(JsonModel::Int(n)) ==> m.width is Some && m.width->Some_0 == n,
        member(v, "height"@) == Some(JsonModel::Int(n)) ==> m.height is Some && m.height->Some_0
            == n,
        member(v, "description"@) is None ==> m.description is None,
        member(v, "timestamp"@) is None ==> m.timestamp is None,
        member(v, "live_status"@) is None ==> m.live_status is None,
        m.default_audio_language is None,
{
}

/// An answer is used if and only if it is of one video that is not live nor too long and whose id is
/// the one that was asked for.
pub proof fn only_the_video_asked_for_is_used(
    v: JsonModel,
    requested: Seq<char>,
    duration_ms: Option<u64>,
    limit_seconds: u64,
)
    ensures
        ({
            let live = member(v, "live_status"@);
            let list = member(v, "_type"@) == Some(JsonModel::Text("playlist"@)) || (member(
                v,
                "entries"@,
            ) is Some && member(v, "entries"@)->Some_0 is List);
            let pending = live == Some(JsonModel::Text("is_live"@)) || live == Some(
                JsonModel::Text("is_upcoming"@),
            ) || live == Some(JsonModel::Text("post_live"@));
            let long = limit_seconds != 0 && duration_ms is Some && duration_ms->Some_0
                > limit_seconds * 1_000;
            let r = metadata_error(v, requested, duration_ms, limit_seconds);
            &&& r is None <==> !list && !pending && !long && member(v, "id"@) == Some(
                JsonModel::Text(requested),
            ) && is_video_id(requested)
            &&& list ==> r == Some(MetadataError::Refused(VideoRefusal::Playlist))
            &&& !list && !pending && long ==> r is Some && r->Some_0 is TooLong
        }),
{
}

/// The cover is the picture with the most points, and of those the last; without sizes the one that
/// is named counts, then the last with an address.
pub proof fn covers_are_the_largest(items: Seq<JsonModel>, chosen: Option<Seq<char>>, r: Option<Seq<char>>, j: int)
    requires
        cover_among(items, chosen, r),
        0 <= j < items.len(),
        area_of(items[j]) is Some,
        forall|i: int|
            0 <= i < items.len() && i != j && area_of(#[trigger] items[i]) is Some ==> area_of(
                items[i],
            )->Some_0 < area_of(items[j])->Some_0,
    ensures
        r == text_field(items[j], "url"@),
{
    assert(is_largest(items, j)) by {
        assert forall|i: int|
            0 <= i < items.len() && area_of(#[trigger] items[i]) is Some implies area_of(
            items[i],
        )->Some_0 <= area_of(items[j])->Some_0 && (i > j ==> area_of(items[i])->Some_0 < area_of(
            items[j],
        )->Some_0) by {}
    }
    let k = choose|k: int| #[trigger] is_largest(items, k) && r == text_field(items[k], "url"@);
    if k != j {
        assert(area_of(items[k])->Some_0 < area_of(items[j])->Some_0);
        assert(area_of(items[j])->Some_0 <= area_of(items[k])->Some_0);
    }
}

/// A picture's points are its width times its height.
pub proof fn areas_are_width_times_height(item: JsonModel, w: int, h: int, u: Seq<char>)
    requires
        0 <= w <= 1_000_000,
        0 <= h <= 1_000_000,
        member(item, "width"@) == Some(JsonModel::Int(w)),
        member(item, "height"@) == Some(JsonModel::Int(h)),
        member(item, "url"@) == Some(JsonModel::Text(u)),
    ensures
        area_of(item) == Some(w * h),
{
    assert(0 <= w * h <= 1_000_000_000_000) by (nonlinear_arith)
        requires
            0 <= w <= 1_000_000,
            0 <= h <= 1_000_000,
    ;
}

/// yt-dlp is called with its runtime and its client, and with the cookies where there are some.
pub proof fn programs_are_given_the_cookies(path: Seq<char>)
    ensures
        first_args(None).len() == 4,
        first_args(Some(path)).len() == 6,
        first_args(Some(path))[4] == "--cookies"@,
        first_args(Some(path))[5] == path,
        first_args(None)[2] == "--extractor-args"@,
        first_args(None)[3] == "youtube:player_client=web_creator"@,
        forall|i: int| 0 <= i < 4 ==> #[trigger] first_args(Some(path))[i] == first_args(None)[i],
{
}

} // verus!
