//! Whether everything that the service needs is there and unchanged.
use vstd::prelude::*;
use vstd::string::StringExecFns;

use crate::config::{below, path_below, Config};
use crate::prepare::GIB;
use crate::schema::CURRENT_SCHEMA_VERSION;
use crate::text::{
    blank, decimal, decimal_of, is_blank, join, join_all, joined, lines_of, opt_view, same_text,
    signed_decimal, signed_decimal_of, split_lines, starts, starts_with, trim, trimmed, views,
};

verus! {

/// What one check found.
#[derive(Debug)]
pub struct CheckItem {
    pub name: String,
    pub ok: bool,
    pub required: bool,
    pub detail: String,
}

/// What one check found.
#[verifier::ext_equal]
pub struct CheckModel {
    pub name: Seq<char>,
    pub ok: bool,
    pub required: bool,
    pub detail: Seq<char>,
}

impl CheckItem {
    /// What the check found.
    pub open spec fn view(&self) -> CheckModel {
        CheckModel {
            name: self.name@,
            ok: self.ok,
            required: self.required,
            detail: self.detail@,
        }
    }
}

/// What checks found.
pub open spec fn check_models(v: Seq<CheckItem>) -> Seq<CheckModel> {
    v.map_values(|c: CheckItem| c@)
}

/// A program or file as it was when everything was in order.
#[derive(Debug)]
pub struct BaselineItem {
    pub name: String,
    pub path: String,
    pub version: String,
    pub sha256: Option<String>,
}

/// A program or file as it was.
#[verifier::ext_equal]
pub struct BaselineModel {
    pub name: Seq<char>,
    pub path: Seq<char>,
    pub version: Seq<char>,
    pub sha256: Option<Seq<char>>,
}

impl BaselineItem {
    /// The program or file as it was.
    pub open spec fn view(&self) -> BaselineModel {
        BaselineModel {
            name: self.name@,
            path: self.path@,
            version: self.version@,
            sha256: opt_view(self.sha256),
        }
    }
}

/// Programs and files as they were.
pub open spec fn baseline_models(v: Seq<BaselineItem>) -> Seq<BaselineModel> {
    v.map_values(|b: BaselineItem| b@)
}

/// Everything as it was when it was in order.
#[derive(Debug)]
pub struct Baseline {
    pub generated_at: String,
    pub os: String,
    pub arch: String,
    pub items: Vec<BaselineItem>,
    /// Further facts by their names, in the order of the names.
    pub details: Vec<(String, String)>,
}

fn item(name: &str, ok: bool, required: bool, detail: String) -> (r: CheckItem)
    ensures
        r@ == (CheckModel { name: name@, ok, required, detail: detail@ }),
{
    CheckItem { name: name.to_owned(), ok, required, detail }
}

// ---------------------------------------------------------------------------------------------
// What is checked
// ---------------------------------------------------------------------------------------------

/// A path with another last part (`std::path::Path::with_file_name`).
pub uninterp spec fn sibling_of(path: Seq<char>, name: Seq<char>) -> Seq<char>;

/// `std::path::Path::with_file_name`: a path with another last part, which depends on the two alone.
/// Which part is the last is left to the library.
#[verifier::external_body]
pub(crate) fn sibling(path: &str, name: &str) -> (r: String)
    ensures
        r@ == sibling_of(path@, name@),
{
    std::path::Path::new(path).with_file_name(name).display().to_string()
}

/// Whether two paths are the same part by part (`std::path::Path` and `==`).
pub uninterp spec fn paths_equal(a: Seq<char>, b: Seq<char>) -> bool;

/// `==` of `std::path::Path`: whether two paths are the same part by part, which depends on the two
/// alone and holds of equal texts. Which other texts name the same parts is left to the library.
#[verifier::external_body]
pub(crate) fn same_path(a: &str, b: &str) -> (r: bool)
    ensures
        r == paths_equal(a@, b@),
        !r ==> a@ != b@,
{
    std::path::Path::new(a) == std::path::Path::new(b)
}

/// Whether two paths are the same, as texts or part by part.
pub open spec fn same_parts(a: Seq<char>, b: Seq<char>) -> bool {
    a == b || paths_equal(a, b)
}

/// A program that is needed, and the argument that makes it tell its version.
#[derive(Debug)]
pub struct Tool {
    pub name: &'static str,
    pub path: String,
    pub version_arg: &'static str,
}

/// The names and paths of the programs that are needed.
pub open spec fn tools_of(c: Config) -> Seq<(Seq<char>, Seq<char>)> {
    seq![
        ("pi"@, c.ai.pi@),
        ("yt-dlp"@, c.youtube.yt_dlp@),
        ("ffmpeg"@, c.render.ffmpeg@),
        ("ffprobe"@, c.render.ffprobe@),
        ("biliup"@, c.bilibili.biliup@),
    ]
}

/// The arguments that make the programs tell their versions.
pub open spec fn version_args() -> Seq<Seq<char>> {
    seq!["--version"@, "--version"@, "-version"@, "-version"@, "--version"@]
}

/// The names and paths of programs.
pub open spec fn tool_pairs(v: Seq<Tool>) -> Seq<(Seq<char>, Seq<char>)> {
    v.map_values(|t: Tool| (t.name@, t.path@))
}

/// The programs that are needed.
pub fn tool_checks(config: &Config) -> (r: Vec<Tool>)
    ensures
        tool_pairs(r@) == tools_of(*config),
        r@.len() == 5,
        forall|i: int| 0 <= i < 5 ==> (#[trigger] r@[i]).version_arg@ == version_args()[i],
{
    let mut out: Vec<Tool> = Vec::new();
    out.push(Tool { name: "pi", path: config.ai.pi.clone(), version_arg: "--version" });
    out.push(Tool { name: "yt-dlp", path: config.youtube.yt_dlp.clone(), version_arg: "--version" });
    out.push(Tool { name: "ffmpeg", path: config.render.ffmpeg.clone(), version_arg: "-version" });
    out.push(Tool { name: "ffprobe", path: config.render.ffprobe.clone(), version_arg: "-version" });
    out.push(Tool { name: "biliup", path: config.bilibili.biliup.clone(), version_arg: "--version" });
    proof {
        assert(tool_pairs(out@) =~= tools_of(*config));
    }
    out
}

/// A file that the models need: its name, how it is shown, and its path.
#[derive(Debug)]
pub struct Resource {
    pub name: &'static str,
    pub label: &'static str,
    pub path: String,
}

/// The names, labels and paths of the files that the models need.
pub open spec fn resources_of(c: Config) -> Seq<(Seq<char>, Seq<char>, Seq<char>)> {
    seq![
        ("pi-extension"@, "Pi extension"@, c.ai.extension@),
        ("pi-policy"@, "Pi policy"@, c.ai.policy@),
        ("pi-audit-policy"@, "Pi audit policy"@, sibling_of(c.ai.policy@, "audit-policy.json"@)),
        (
            "brawl-stars-glossary"@,
            "Brawl Stars glossary"@,
            sibling_of(c.ai.policy@, "brawl-stars-glossary.json"@),
        ),
    ]
}

/// The names, labels and paths of files.
pub open spec fn resource_texts(v: Seq<Resource>) -> Seq<(Seq<char>, Seq<char>, Seq<char>)> {
    v.map_values(|r: Resource| (r.name@, r.label@, r.path@))
}

/// The files that the models need.
pub fn policy_resources(config: &Config) -> (r: Vec<Resource>)
    ensures
        resource_texts(r@) == resources_of(*config),
        r@.len() == 4,
{
    let policy = config.ai.policy.as_str();
    let mut out: Vec<Resource> = Vec::new();
    out.push(
        Resource { name: "pi-extension", label: "Pi extension", path: config.ai.extension.clone() },
    );
    out.push(Resource { name: "pi-policy", label: "Pi policy", path: config.ai.policy.clone() });
    out.push(
        Resource {
            name: "pi-audit-policy",
            label: "Pi audit policy",
            path: sibling(policy, "audit-policy.json"),
        },
    );
    out.push(
        Resource {
            name: "brawl-stars-glossary",
            label: "Brawl Stars glossary",
            path: sibling(policy, "brawl-stars-glossary.json"),
        },
    );
    proof {
        assert(resource_texts(out@) =~= resources_of(*config));
    }
    out
}

// ---------------------------------------------------------------------------------------------
// Digests
// ---------------------------------------------------------------------------------------------

/// The SHA-256 digest of bytes in hexadecimal (`sha2::Sha256::digest`, `hex::encode`).
pub uninterp spec fn sha256_of(bytes: Seq<u8>) -> Seq<char>;

/// `sha2::Sha256::digest` and `hex::encode`: the digest of bytes, which depends on the bytes alone,
/// in 64 hexadecimal digits. The digest itself is left to the crates.
#[verifier::external_body]
fn sha256(bytes: &[u8]) -> (r: String)
    ensures
        r@ == sha256_of(bytes@),
        r@.len() == 64,
{
    hex::encode(<sha2::Sha256 as sha2::Digest>::digest(bytes))
}

/// The digest of what a file holds.
pub fn hash_bytes(bytes: &[u8]) -> (r: String)
    ensures
        r@ == sha256_of(bytes@),
{
    sha256(bytes)
}

/// A file that was looked at, with the digest of what it holds; nothing where it cannot be read.
#[derive(Debug)]
pub struct FileHash {
    pub path: String,
    pub sha256: Option<String>,
}

/// The digest of the first file of that path.
pub open spec fn hash_at(files: Seq<FileHash>, path: Seq<char>) -> Option<Seq<char>>
    decreases files.len(),
{
    if files.len() == 0 {
        None
    } else if files[0].path@ == path {
        opt_view(files[0].sha256)
    } else {
        hash_at(files.skip(1), path)
    }
}

fn find_hash<'a>(files: &'a [FileHash], path: &str) -> (r: Option<&'a String>)
    ensures
        match r {
            Some(h) => hash_at(files@, path@) == Some(h@),
            None => hash_at(files@, path@) is None,
        },
{
    let mut i: usize = 0;
    proof {
        assert(files@.skip(0) =~= files@);
    }
    while i < files.len()
        invariant
            0 <= i <= files@.len(),
            hash_at(files@, path@) == hash_at(files@.skip(i as int), path@),
        decreases files@.len() - i,
    {
        proof {
            assert(files@.skip(i as int)[0] == files@[i as int]);
            assert(files@.skip(i as int).skip(1) =~= files@.skip(i + 1));
        }
        if same_text(files[i].path.as_str(), path) {
            return match &files[i].sha256 {
                Some(h) => Some(h),
                None => None,
            };
        }
        i = i + 1;
    }
    None
}

/// Whether what a file holds is what it was.
pub open spec fn unchanged(b: BaselineModel, path: Seq<char>, files: Seq<FileHash>) -> bool {
    b.sha256 is Some && hash_at(files, path) == b.sha256
}

/// Whether what a file holds is what it was. An item without a digest never matches.
pub fn baseline_hash_matches(b: &BaselineItem, path: &str, files: &[FileHash]) -> (r: bool)
    ensures
        r == unchanged(b@, path@, files@),
{
    match &b.sha256 {
        None => false,
        Some(expected) => match find_hash(files, path) {
            None => false,
            Some(actual) => same_text(actual.as_str(), expected.as_str()),
        },
    }
}

// ---------------------------------------------------------------------------------------------
// The baseline
// ---------------------------------------------------------------------------------------------

/// The name of the service itself among the programs.
pub const OWN_NAME: &'static str = "y2b";

/// What a baseline must hold besides the service itself, by name, in the order of the names.
pub open spec fn expected_of(c: Config) -> Seq<(Seq<char>, Seq<char>)> {
    seq![
        ("biliup"@, c.bilibili.biliup@),
        ("brawl-stars-glossary"@, sibling_of(c.ai.policy@, "brawl-stars-glossary.json"@)),
        ("ffmpeg"@, c.render.ffmpeg@),
        ("pi"@, c.ai.pi@),
        ("pi-audit-policy"@, sibling_of(c.ai.policy@, "audit-policy.json"@)),
        ("pi-extension"@, c.ai.extension@),
        ("pi-policy"@, c.ai.policy@),
        ("yt-dlp"@, c.youtube.yt_dlp@),
    ]
}

/// Names with paths.
pub open spec fn name_pairs(v: Seq<(&'static str, String)>) -> Seq<(Seq<char>, Seq<char>)> {
    v.map_values(|p: (&'static str, String)| (p.0@, p.1@))
}

fn expected_items(config: &Config) -> (r: Vec<(&'static str, String)>)
    ensures
        name_pairs(r@) == expected_of(*config),
{
    let policy = config.ai.policy.as_str();
    let mut out: Vec<(&'static str, String)> = Vec::new();
    out.push(("biliup", config.bilibili.biliup.clone()));
    out.push(("brawl-stars-glossary", sibling(policy, "brawl-stars-glossary.json")));
    out.push(("ffmpeg", config.render.ffmpeg.clone()));
    out.push(("pi", config.ai.pi.clone()));
    out.push(("pi-audit-policy", sibling(policy, "audit-policy.json")));
    out.push(("pi-extension", config.ai.extension.clone()));
    out.push(("pi-policy", config.ai.policy.clone()));
    out.push(("yt-dlp", config.youtube.yt_dlp.clone()));
    proof {
        assert(name_pairs(out@) =~= expected_of(*config));
    }
    out
}

/// Whether one of the first `n` items has that name.
pub open spec fn named_before(items: Seq<BaselineModel>, n: int, name: Seq<char>) -> bool {
    exists|j: int| 0 <= j < n && (#[trigger] items[j]).name == name
}

/// Whether a name with that path is expected, and which path.
pub open spec fn expected_path(expected: Seq<(Seq<char>, Seq<char>)>, name: Seq<char>) -> Option<
    Seq<char>,
>
    decreases expected.len(),
{
    if expected.len() == 0 {
        None
    } else if expected[0].0 == name {
        Some(expected[0].1)
    } else {
        expected_path(expected.skip(1), name)
    }
}

/// What is wrong with item `n` of a baseline, if anything. The service itself is looked at apart.
pub open spec fn item_drift(
    expected: Seq<(Seq<char>, Seq<char>)>,
    items: Seq<BaselineModel>,
    files: Seq<FileHash>,
    n: int,
) -> Option<Seq<char>> {
    let b = items[n];
    if b.name == OWN_NAME@ {
        None
    } else {
        match expected_path(expected, b.name) {
            Some(path) if !named_before(items, n, b.name) => if !same_parts(b.path, path)
                || !unchanged(b, path, files) {
                Some(b.name)
            } else {
                None
            },
            _ => Some(b.name + "（重复或未知条目）"@),
        }
    }
}

/// What is wrong with the first `n` items of a baseline.
pub open spec fn drift_of(
    expected: Seq<(Seq<char>, Seq<char>)>,
    items: Seq<BaselineModel>,
    files: Seq<FileHash>,
    n: int,
) -> Seq<Seq<char>>
    decreases n,
{
    if n <= 0 {
        Seq::empty()
    } else {
        let front = drift_of(expected, items, files, n - 1);
        match item_drift(expected, items, files, n - 1) {
            Some(t) => front.push(t),
            None => front,
        }
    }
}

/// Which of the first `n` expected names are missing.
pub open spec fn missing_of(expected: Seq<(Seq<char>, Seq<char>)>, items: Seq<BaselineModel>, n: int) -> Seq<
    Seq<char>,
>
    decreases n,
{
    if n <= 0 {
        Seq::empty()
    } else {
        let front = missing_of(expected, items, n - 1);
        if named_before(items, items.len() as int, expected[n - 1].0) {
            front
        } else {
            front.push(expected[n - 1].0 + "（缺少条目）"@)
        }
    }
}

/// Whether the service itself is not there exactly once as it was, as far as the first `n` items
/// tell: a second item, or one that changed.
pub open spec fn own_drift(items: Seq<BaselineModel>, files: Seq<FileHash>, n: int) -> bool
    decreases n,
{
    if n <= 0 {
        false
    } else {
        own_drift(items, files, n - 1) || (items[n - 1].name == OWN_NAME@ && (named_before(
            items,
            n - 1,
            OWN_NAME@,
        ) || !unchanged(items[n - 1], items[n - 1].path, files)))
    }
}

/// All that is wrong with a baseline besides the service itself.
pub open spec fn all_drift(c: Config, items: Seq<BaselineModel>, files: Seq<FileHash>) -> Seq<Seq<char>> {
    let expected = expected_of(c);
    drift_of(expected, items, files, items.len() as int) + missing_of(
        expected,
        items,
        expected.len() as int,
    )
}

/// Whether the service itself differs from a baseline.
pub open spec fn own_differs(items: Seq<BaselineModel>, files: Seq<FileHash>) -> bool {
    own_drift(items, files, items.len() as int) || !named_before(
        items,
        items.len() as int,
        OWN_NAME@,
    )
}

/// What is told of the service itself.
pub open spec fn own_text() -> Seq<char> {
    "y2b 自身与基线不一致（部署预期变更，仅告警）"@
}

/// What is told of a baseline.
pub open spec fn baseline_details(drift: Seq<Seq<char>>, own: bool) -> Seq<Seq<char>> {
    let outer = if drift.len() == 0 {
        Seq::empty()
    } else {
        seq!["漂移或基线不完整: "@ + joined(drift, ", "@)]
    };
    if own {
        outer.push(own_text())
    } else {
        outer
    }
}

/// What the check of a baseline finds. Where only the service itself differs, nothing required
/// failed.
pub open spec fn baseline_model(c: Config, b: Baseline, files: Seq<FileHash>) -> CheckModel {
    let items = baseline_models(b.items@);
    let drift = all_drift(c, items, files);
    let own = own_differs(items, files);
    let details = baseline_details(drift, own);
    CheckModel {
        name: "dependency baseline"@,
        ok: details.len() == 0,
        required: drift.len() > 0 || !own,
        detail: if details.len() == 0 {
            "无漂移，基线 "@ + b.generated_at@
        } else {
            joined(details, "；"@)
        },
    }
}

fn find_expected<'a>(expected: &'a Vec<(&'static str, String)>, name: &str) -> (r: Option<&'a String>)
    ensures
        match r {
            Some(p) => expected_path(name_pairs(expected@), name@) == Some(p@),
            None => expected_path(name_pairs(expected@), name@) is None,
        },
{
    let ghost pairs = name_pairs(expected@);
    let mut i: usize = 0;
    proof {
        assert(pairs.skip(0) =~= pairs);
    }
    while i < expected.len()
        invariant
            0 <= i <= expected@.len(),
            pairs == name_pairs(expected@),
            pairs.len() == expected@.len(),
            expected_path(pairs, name@) == expected_path(pairs.skip(i as int), name@),
        decreases expected@.len() - i,
    {
        proof {
            assert(pairs.skip(i as int)[0] == (expected@[i as int].0@, expected@[i as int].1@));
            assert(pairs.skip(i as int).skip(1) =~= pairs.skip(i + 1));
        }
        if same_text(expected[i].0, name) {
            return Some(&expected[i].1);
        }
        i = i + 1;
    }
    None
}

fn has_name(items: &Vec<BaselineItem>, n: usize, name: &str) -> (r: bool)
    requires
        n <= items@.len(),
    ensures
        r == named_before(baseline_models(items@), n as int, name@),
{
    let ghost models = baseline_models(items@);
    let mut j: usize = 0;
    while j < n
        invariant
            0 <= j <= n <= items@.len(),
            models == baseline_models(items@),
            forall|i: int| 0 <= i < j ==> (#[trigger] models[i]).name != name@,
        decreases n - j,
    {
        assert(models[j as int] == items@[j as int]@);
        if same_text(items[j].name.as_str(), name) {
            return true;
        }
        j = j + 1;
    }
    false
}

fn drift_at(
    expected: &Vec<(&'static str, String)>,
    items: &Vec<BaselineItem>,
    files: &[FileHash],
    n: usize,
) -> (r: Option<String>)
    requires
        n < items@.len(),
    ensures
        opt_view(r) == item_drift(
            name_pairs(expected@),
            baseline_models(items@),
            files@,
            n as int,
        ),
{
    let b = &items[n];
    proof {
        assert(baseline_models(items@)[n as int] == b@);
    }
    if same_text(b.name.as_str(), OWN_NAME) {
        return None;
    }
    match find_expected(expected, b.name.as_str()) {
        Some(path) => {
            if has_name(items, n, b.name.as_str()) {
                return Some(join(b.name.as_str(), "（重复或未知条目）"));
            }
            if !same_path(b.path.as_str(), path.as_str()) || !baseline_hash_matches(
                b,
                path.as_str(),
                files,
            ) {
                Some(b.name.clone())
            } else {
                None
            }
        },
        None => Some(join(b.name.as_str(), "（重复或未知条目）")),
    }
}

fn collect_drift(config: &Config, items: &Vec<BaselineItem>, files: &[FileHash]) -> (r: Vec<String>)
    ensures
        views(r@) == all_drift(*config, baseline_models(items@), files@),
{
    let expected = expected_items(config);
    let ghost pairs = expected_of(*config);
    let ghost models = baseline_models(items@);
    let mut out: Vec<String> = Vec::new();
    proof {
        assert(views(out@) =~= drift_of(pairs, models, files@, 0));
    }
    let mut n: usize = 0;
    while n < items.len()
        invariant
            0 <= n <= items@.len(),
            pairs == name_pairs(expected@),
            models == baseline_models(items@),
            views(out@) == drift_of(pairs, models, files@, n as int),
        decreases items@.len() - n,
    {
        let ghost before = views(out@);
        match drift_at(&expected, items, files, n) {
            Some(t) => {
                out.push(t);
                proof {
                    assert(views(out@) =~= before.push(t@));
                }
            },
            None => {},
        }
        n = n + 1;
    }
    let ghost front = views(out@);
    proof {
        assert(front + missing_of(pairs, models, 0) =~= front);
    }
    let mut m: usize = 0;
    while m < expected.len()
        invariant
            0 <= m <= expected@.len(),
            pairs == name_pairs(expected@),
            models == baseline_models(items@),
            models.len() == items@.len(),
            views(out@) == front + missing_of(pairs, models, m as int),
        decreases expected@.len() - m,
    {
        let ghost before = views(out@);
        proof {
            assert(pairs[m as int] == (expected@[m as int].0@, expected@[m as int].1@));
        }
        if !has_name(items, items.len(), expected[m].0) {
            let t = join(expected[m].0, "（缺少条目）");
            out.push(t);
            proof {
                assert(views(out@) =~= before.push(t@));
            }
        }
        m = m + 1;
        proof {
            assert(views(out@) =~= front + missing_of(pairs, models, m as int));
        }
    }
    out
}

fn own_program_differs(items: &Vec<BaselineItem>, files: &[FileHash]) -> (r: bool)
    ensures
        r == own_differs(baseline_models(items@), files@),
{
    let ghost models = baseline_models(items@);
    let mut drift = false;
    let mut n: usize = 0;
    while n < items.len()
        invariant
            0 <= n <= items@.len(),
            models == baseline_models(items@),
            drift == own_drift(models, files@, n as int),
        decreases items@.len() - n,
    {
        proof {
            assert(models[n as int] == items@[n as int]@);
        }
        if same_text(items[n].name.as_str(), OWN_NAME) && (has_name(items, n, OWN_NAME)
            || !baseline_hash_matches(&items[n], items[n].path.as_str(), files)) {
            drift = true;
        }
        n = n + 1;
    }
    drift || !has_name(items, items.len(), OWN_NAME)
}

/// Whether the programs and files are as they were, given the digests of those that were looked at.
pub fn baseline_check(config: &Config, baseline: &Baseline, files: &[FileHash]) -> (r: CheckItem)
    ensures
        r@ == baseline_model(*config, *baseline, files@),
{
    let drift = collect_drift(config, &baseline.items, files);
    let own = own_program_differs(&baseline.items, files);
    let mut details: Vec<String> = Vec::new();
    let ghost drifts = views(drift@);
    if drift.len() > 0 {
        details.push(join("漂移或基线不完整: ", join_all(&drift, ", ").as_str()));
    }
    if own {
        details.push("y2b 自身与基线不一致（部署预期变更，仅告警）".to_owned());
    }
    proof {
        assert(drifts.len() == drift@.len());
        assert(views(details@) =~= baseline_details(drifts, own));
    }
    let detail = if details.len() == 0 {
        join("无漂移，基线 ", baseline.generated_at.as_str())
    } else {
        join_all(&details, "；")
    };
    item("dependency baseline", details.len() == 0, drift.len() > 0 || !own, detail)
}

proof fn drift_grows(
    expected: Seq<(Seq<char>, Seq<char>)>,
    items: Seq<BaselineModel>,
    files: Seq<FileHash>,
    k: int,
    n: int,
)
    requires
        0 <= k < n <= items.len(),
        item_drift(expected, items, files, k) is Some,
    ensures
        drift_of(expected, items, files, n).len() > 0,
    decreases n,
{
    if k < n - 1 {
        drift_grows(expected, items, files, k, n - 1);
    }
}

proof fn missing_grows(expected: Seq<(Seq<char>, Seq<char>)>, items: Seq<BaselineModel>, k: int, n: int)
    requires
        0 <= k < n <= expected.len(),
        !named_before(items, items.len() as int, expected[k].0),
    ensures
        missing_of(expected, items, n).len() > 0,
    decreases n,
{
    if k < n - 1 {
        missing_grows(expected, items, k, n - 1);
    }
}

/// A baseline passes exactly where nothing differs from it. It fails what is required exactly where
/// something besides the service itself differs; a change of the service alone is a warning.
pub proof fn own_change_is_a_warning(c: Config, b: Baseline, files: Seq<FileHash>)
    ensures
        ({
            let m = baseline_model(c, b, files);
            let drift = all_drift(c, baseline_models(b.items@), files);
            let own = own_differs(baseline_models(b.items@), files);
            &&& m.ok <==> drift.len() == 0 && !own
            &&& (!m.ok && m.required) <==> drift.len() > 0
            &&& (!m.ok && !m.required) <==> drift.len() == 0 && own
        }),
{
}

/// A baseline that lacks what is expected, or holds an item that is unknown, comes twice, lies
/// elsewhere or changed, fails what is required.
pub proof fn incomplete_baseline_fails(c: Config, b: Baseline, files: Seq<FileHash>)
    requires
        ({
            let items = baseline_models(b.items@);
            let expected = expected_of(c);
            (exists|k: int|
                0 <= k < expected.len() && !named_before(
                    items,
                    items.len() as int,
                    (#[trigger] expected[k]).0,
                )) || (exists|n: int|
                0 <= n < items.len() && (#[trigger] item_drift(expected, items, files, n)) is Some)
        }),
    ensures
        !baseline_model(c, b, files).ok,
        baseline_model(c, b, files).required,
{
    let items = baseline_models(b.items@);
    let expected = expected_of(c);
    if exists|k: int|
        0 <= k < expected.len() && !named_before(
            items,
            items.len() as int,
            (#[trigger] expected[k]).0,
        ) {
        let k = choose|k: int|
            0 <= k < expected.len() && !named_before(
                items,
                items.len() as int,
                (#[trigger] expected[k]).0,
            );
        missing_grows(expected, items, k, expected.len() as int);
    } else {
        let n = choose|n: int|
            0 <= n < items.len() && (#[trigger] item_drift(expected, items, files, n)) is Some;
        drift_grows(expected, items, files, n, items.len() as int);
    }
}

// ---------------------------------------------------------------------------------------------
// The single checks
// ---------------------------------------------------------------------------------------------

/// The first line from line `k` on that holds something, trimmed.
pub open spec fn first_filled(lines: Seq<Seq<char>>, k: int) -> Seq<char>
    decreases lines.len() - k,
{
    if k < 0 || k >= lines.len() {
        Seq::empty()
    } else if is_blank(lines[k]) {
        first_filled(lines, k + 1)
    } else {
        trimmed(lines[k])
    }
}

/// The first line of a text that holds something, trimmed.
pub fn first_line(text: &str) -> (r: String)
    ensures
        r@ == first_filled(lines_of(text@), 0),
{
    let lines = split_lines(text);
    let mut k: usize = 0;
    while k < lines.len()
        invariant
            0 <= k <= lines@.len(),
            views(lines@) == lines_of(text@),
            first_filled(lines_of(text@), 0) == first_filled(lines_of(text@), k as int),
        decreases lines@.len() - k,
    {
        proof {
            assert(views(lines@)[k as int] == lines@[k as int]@);
        }
        if !blank(lines[k].as_str()) {
            return trim(lines[k].as_str());
        }
        k = k + 1;
    }
    let r = String::new();
    assert(r@ =~= Seq::<char>::empty());
    r
}

/// What was found of a program: it is missing, it ran and printed something, or it failed.
#[derive(Debug)]
pub enum ToolProbe {
    Missing,
    Ran { stdout: String, stderr: String },
    Failed(String),
}

/// What the check of a program finds.
pub open spec fn tool_model(name: Seq<char>, path: Seq<char>, probe: ToolProbe) -> CheckModel {
    CheckModel {
        name,
        ok: probe is Ran,
        required: true,
        detail: match probe {
            ToolProbe::Missing => "未找到 "@ + path,
            ToolProbe::Ran { stdout, stderr } => first_filled(lines_of(stdout@ + stderr@), 0),
            ToolProbe::Failed(e) => e@,
        },
    }
}

fn tool_item(name: &str, path: &str, probe: &ToolProbe) -> (r: CheckItem)
    ensures
        r@ == tool_model(name@, path@, *probe),
{
    match probe {
        ToolProbe::Missing => item(name, false, true, join("未找到 ", path)),
        ToolProbe::Ran { stdout, stderr } => {
            let all = join(stdout.as_str(), stderr.as_str());
            item(name, true, true, first_line(all.as_str()))
        },
        ToolProbe::Failed(e) => item(name, false, true, e.clone()),
    }
}

/// What the check of the swap finds; the list of swaps has a heading.
pub open spec fn swap_model(swaps: Option<Seq<char>>) -> CheckModel {
    let on = swaps matches Some(t) && lines_of(t).len() > 1;
    CheckModel {
        name: "swap"@,
        ok: on,
        required: false,
        detail: if on {
            "已启用"@
        } else {
            "未启用"@
        },
    }
}

fn swap_item(swaps: &Option<String>) -> (r: CheckItem)
    ensures
        r@ == swap_model(opt_view(*swaps)),
{
    let on = match swaps {
        Some(t) => {
            let lines = split_lines(t.as_str());
            assert(views(lines@).len() == lines@.len());
            lines.len() > 1
        },
        None => false,
    };
    if on {
        item("swap", true, false, "已启用".to_owned())
    } else {
        item("swap", false, false, "未启用".to_owned())
    }
}

/// What the check of the room finds, from the free bytes or why they cannot be read.
pub open spec fn disk_model(free: Result<u64, String>, stop_free_gib: u64) -> CheckModel {
    CheckModel {
        name: "disk"@,
        ok: free matches Ok(bytes) && bytes / GIB >= stop_free_gib,
        required: true,
        detail: match free {
            Ok(bytes) => "剩余 "@ + decimal_of((bytes / GIB) as nat) + " GiB"@,
            Err(e) => "读取磁盘空间失败: "@ + e@,
        },
    }
}

fn disk_item(free: &Result<u64, String>, stop_free_gib: u64) -> (r: CheckItem)
    ensures
        r@ == disk_model(*free, stop_free_gib),
{
    match free {
        Ok(bytes) => {
            let gib: u64 = *bytes / GIB;
            let mut s = join("剩余 ", decimal(gib).as_str());
            s.append(" GiB");
            item("disk", gib >= stop_free_gib, true, s)
        },
        Err(e) => item("disk", false, true, join("读取磁盘空间失败: ", e.as_str())),
    }
}

/// What the check of the tables' version finds.
pub open spec fn version_model(version: i64) -> CheckModel {
    CheckModel {
        name: "database schema"@,
        ok: version == CURRENT_SCHEMA_VERSION,
        required: true,
        detail: "v"@ + signed_decimal_of(version as int) + "，期望 v"@ + signed_decimal_of(
            CURRENT_SCHEMA_VERSION as int,
        ),
    }
}

/// Whether the tables have the version that this program works on: none older and none newer.
pub fn schema_check(schema: i64) -> (r: CheckItem)
    ensures
        r@ == version_model(schema),
{
    let mut s = join("v", signed_decimal(schema).as_str());
    s.append("，期望 v");
    s.append(signed_decimal(CURRENT_SCHEMA_VERSION).as_str());
    item("database schema", schema == CURRENT_SCHEMA_VERSION, true, s)
}

/// What is found of the baseline: there is none, it cannot be read, or what it holds.
#[derive(Debug)]
pub enum BaselineProbe {
    Missing,
    Invalid,
    Read(Baseline),
}

/// What was found of everything that is checked.
#[derive(Debug)]
pub struct Probes {
    /// The programs, in the order in which they are needed.
    pub tools: Vec<ToolProbe>,
    /// The list of swaps.
    pub swaps: Option<String>,
    /// The free bytes, or why they cannot be read.
    pub free_bytes: Result<u64, String>,
    /// What the database says of itself.
    pub integrity: String,
    /// The version of the tables, or why it cannot be read.
    pub schema: Result<i64, String>,
    /// Whether the cookies of YouTube and of Bilibili are there.
    pub cookies: (bool, bool),
    /// Whether the files that the models need are there, in their order.
    pub resources: Vec<bool>,
    pub baseline: BaselineProbe,
    /// The digests of the files that the baseline is about.
    pub files: Vec<FileHash>,
    /// What was noted of the accounts of YouTube and of Bilibili, or why it cannot be read.
    pub accounts: (Result<Option<String>, String>, Result<Option<String>, String>),
}

/// What the checks of the programs find.
pub open spec fn tool_models(c: Config, probes: Seq<ToolProbe>) -> Seq<CheckModel> {
    Seq::new(5, |i: int| tool_model(tools_of(c)[i].0, tools_of(c)[i].1, probes[i]))
}

/// What the check of the tables' version finds, or why it cannot be read.
pub open spec fn schema_model(schema: Result<i64, String>) -> CheckModel {
    match schema {
        Ok(v) => version_model(v),
        Err(e) => CheckModel {
            name: "database schema"@,
            ok: false,
            required: true,
            detail: "读取版本失败: "@ + e@,
        },
    }
}

/// What the check of a file finds.
pub open spec fn file_model(name: Seq<char>, path: Seq<char>, there: bool) -> CheckModel {
    CheckModel { name, ok: there, required: true, detail: path }
}

/// What the checks of the files that the models need find.
pub open spec fn resource_models(c: Config, there: Seq<bool>) -> Seq<CheckModel> {
    Seq::new(4, |i: int| file_model(resources_of(c)[i].1, resources_of(c)[i].2, there[i]))
}

/// Where the baseline is kept.
pub open spec fn baseline_path_of(c: Config) -> Seq<char> {
    below(c.runtime.data_dir@, "dependency-baseline.json"@)
}

/// What the check of the baseline finds.
pub open spec fn baseline_probe_model(c: Config, probe: BaselineProbe, files: Seq<FileHash>) -> CheckModel {
    match probe {
        BaselineProbe::Missing => CheckModel {
            name: "dependency baseline"@,
            ok: false,
            required: true,
            detail: "未找到 "@ + baseline_path_of(c),
        },
        BaselineProbe::Invalid => CheckModel {
            name: "dependency baseline"@,
            ok: false,
            required: true,
            detail: "基线 JSON 无效"@,
        },
        BaselineProbe::Read(b) => baseline_model(c, b, files),
    }
}

/// What the check of an account finds: it is good where that was noted.
pub open spec fn account_model(label: Seq<char>, noted: Result<Option<String>, String>) -> CheckModel {
    CheckModel {
        name: label,
        ok: noted matches Ok(Some(t)) && starts(t@, "ok "@),
        required: true,
        detail: match noted {
            Ok(Some(t)) => t@,
            Ok(None) => "未检查"@,
            Err(e) => "读取状态失败: "@ + e@,
        },
    }
}

fn account_item(label: &str, noted: &Result<Option<String>, String>) -> (r: CheckItem)
    ensures
        r@ == account_model(label@, *noted),
{
    match noted {
        Ok(Some(t)) => item(label, starts_with(t.as_str(), "ok "), true, t.clone()),
        Ok(None) => item(label, false, true, "未检查".to_owned()),
        Err(e) => item(label, false, true, join("读取状态失败: ", e.as_str())),
    }
}

/// What the checks of the machine and of the database find.
pub open spec fn state_models(c: Config, p: Probes) -> Seq<CheckModel> {
    seq![
        swap_model(opt_view(p.swaps)),
        disk_model(p.free_bytes, c.storage.stop_free_gib),
        CheckModel {
            name: "database"@,
            ok: p.integrity@ == "ok"@,
            required: true,
            detail: p.integrity@,
        },
        schema_model(p.schema),
        file_model("YouTube cookies"@, c.youtube.cookies@, p.cookies.0),
        file_model("Bilibili cookies"@, c.bilibili.cookies@, p.cookies.1),
    ]
}

/// What the checks of the baseline and of the accounts find.
pub open spec fn last_models(c: Config, p: Probes) -> Seq<CheckModel> {
    seq![
        baseline_probe_model(c, p.baseline, p.files@),
        account_model("YouTube auth"@, p.accounts.0),
        account_model("Bilibili auth"@, p.accounts.1),
    ]
}

/// All that the checks find, in order.
pub open spec fn checks_of(c: Config, p: Probes) -> Seq<CheckModel> {
    tool_models(c, p.tools@) + state_models(c, p) + resource_models(c, p.resources@) + last_models(
        c,
        p,
    )
}

/// All that the checks find.
pub fn run(config: &Config, p: &Probes) -> (r: Vec<CheckItem>)
    requires
        p.tools@.len() == 5,
        p.resources@.len() == 4,
    ensures
        check_models(r@) == checks_of(*config, *p),
{
    let mut out: Vec<CheckItem> = Vec::new();
    let tools = tool_checks(config);
    proof {
        assert(check_models(out@) =~= tool_models(*config, p.tools@).take(0));
    }
    let mut i: usize = 0;
    while i < 5
        invariant
            0 <= i <= 5,
            p.tools@.len() == 5,
            tools@.len() == 5,
            tool_pairs(tools@) == tools_of(*config),
            check_models(out@) == tool_models(*config, p.tools@).take(i as int),
        decreases 5 - i,
    {
        let ghost before = check_models(out@);
        out.push(tool_item(tools[i].name, tools[i].path.as_str(), &p.tools[i]));
        proof {
            assert(tool_pairs(tools@)[i as int] == (tools@[i as int].name@, tools@[i as int].path@));
            assert(check_models(out@) =~= before.push(out@.last()@));
            assert(tool_models(*config, p.tools@).take(i + 1) =~= before.push(out@.last()@));
        }
        i = i + 1;
    }
    proof {
        assert(tool_models(*config, p.tools@).take(5) =~= tool_models(*config, p.tools@));
    }
    let ghost part1 = check_models(out@);
    out.push(swap_item(&p.swaps));
    out.push(disk_item(&p.free_bytes, config.storage.stop_free_gib));
    out.push(
        item("database", same_text(p.integrity.as_str(), "ok"), true, p.integrity.clone()),
    );
    out.push(
        match &p.schema {
            Ok(v) => schema_check(*v),
            Err(e) => item("database schema", false, true, join("读取版本失败: ", e.as_str())),
        },
    );
    out.push(item("YouTube cookies", p.cookies.0, true, config.youtube.cookies.clone()));
    out.push(item("Bilibili cookies", p.cookies.1, true, config.bilibili.cookies.clone()));
    let ghost part2 = check_models(out@);
    proof {
        assert(part2 =~= part1 + state_models(*config, *p));
    }
    let resources = policy_resources(config);
    proof {
        assert(part2 + resource_models(*config, p.resources@).take(0) =~= part2);
    }
    let mut k: usize = 0;
    while k < 4
        invariant
            0 <= k <= 4,
            p.resources@.len() == 4,
            resources@.len() == 4,
            resource_texts(resources@) == resources_of(*config),
            check_models(out@) == part2 + resource_models(*config, p.resources@).take(k as int),
        decreases 4 - k,
    {
        let ghost before = check_models(out@);
        out.push(item(resources[k].label, p.resources[k], true, resources[k].path.clone()));
        proof {
            assert(resource_texts(resources@)[k as int] == (
                resources@[k as int].name@,
                resources@[k as int].label@,
                resources@[k as int].path@,
            ));
            assert(check_models(out@) =~= before.push(out@.last()@));
            assert(part2 + resource_models(*config, p.resources@).take(k + 1) =~= before.push(
                out@.last()@,
            ));
        }
        k = k + 1;
    }
    proof {
        assert(resource_models(*config, p.resources@).take(4) =~= resource_models(
            *config,
            p.resources@,
        ));
    }
    let ghost part3 = check_models(out@);
    out.push(
        match &p.baseline {
            BaselineProbe::Missing => {
                let path = baseline_path(config);
                item("dependency baseline", false, true, join("未找到 ", path.as_str()))
            },
            BaselineProbe::Invalid => item(
                "dependency baseline",
                false,
                true,
                "基线 JSON 无效".to_owned(),
            ),
            BaselineProbe::Read(b) => baseline_check(config, b, p.files.as_slice()),
        },
    );
    out.push(account_item("YouTube auth", &p.accounts.0));
    out.push(account_item("Bilibili auth", &p.accounts.1));
    proof {
        assert(check_models(out@) =~= part3 + last_models(*config, *p));
    }
    out
}

/// Where the baseline is kept.
pub fn baseline_path(config: &Config) -> (r: String)
    ensures
        r@ == baseline_path_of(*config),
{
    path_below(config.runtime.data_dir.as_str(), "dependency-baseline.json")
}

// ---------------------------------------------------------------------------------------------
// What follows
// ---------------------------------------------------------------------------------------------

/// How a check is shown: passed, failed or failed without harm.
pub fn status_label(c: &CheckItem) -> (r: &'static str)
    ensures
        r@ == if c.ok {
            "OK"@
        } else if c.required {
            "FAIL"@
        } else {
            "WARN"@
        },
{
    if c.ok {
        "OK"
    } else if c.required {
        "FAIL"
    } else {
        "WARN"
    }
}

/// The names of those of the first `n` checks that failed and are required.
pub open spec fn failed_names(checks: Seq<CheckModel>, n: int) -> Seq<Seq<char>>
    decreases n,
{
    if n <= 0 {
        Seq::empty()
    } else {
        let front = failed_names(checks, n - 1);
        if checks[n - 1].required && !checks[n - 1].ok {
            front.push(checks[n - 1].name)
        } else {
            front
        }
    }
}

/// Whether no required check failed; else the message that names those that did.
pub fn finish_check(checks: &[CheckItem]) -> (r: Result<(), String>)
    ensures
        ({
            let failed = failed_names(check_models(checks@), checks@.len() as int);
            if failed.len() == 0 {
                r is Ok
            } else {
                r matches Err(e) && e@ == "必选检查失败: "@ + joined(failed, ", "@)
            }
        }),
{
    let ghost models = check_models(checks@);
    let mut failed: Vec<String> = Vec::new();
    proof {
        assert(views(failed@) =~= failed_names(models, 0));
    }
    let mut n: usize = 0;
    while n < checks.len()
        invariant
            0 <= n <= checks@.len(),
            models == check_models(checks@),
            views(failed@) == failed_names(models, n as int),
        decreases checks@.len() - n,
    {
        let ghost before = views(failed@);
        proof {
            assert(models[n as int] == checks@[n as int]@);
        }
        if checks[n].required && !checks[n].ok {
            failed.push(checks[n].name.clone());
            proof {
                assert(views(failed@) =~= before.push(checks@[n as int].name@));
            }
        }
        n = n + 1;
    }
    proof {
        assert(views(failed@).len() == failed@.len());
    }
    if failed.len() == 0 {
        return Ok(());
    }
    Err(join("必选检查失败: ", join_all(&failed, ", ").as_str()))
}

/// The names and paths of the programs that a baseline holds. The one that only reads files is
/// checked, but not kept.
pub open spec fn baseline_tools_of(c: Config) -> Seq<(Seq<char>, Seq<char>)> {
    seq![
        ("pi"@, c.ai.pi@),
        ("yt-dlp"@, c.youtube.yt_dlp@),
        ("ffmpeg"@, c.render.ffmpeg@),
        ("biliup"@, c.bilibili.biliup@),
    ]
}

/// The programs that a baseline holds.
pub fn baseline_tools(config: &Config) -> (r: Vec<(&'static str, String)>)
    ensures
        name_pairs(r@) == baseline_tools_of(*config),
        r@.len() == 4,
{
    let mut out: Vec<(&'static str, String)> = Vec::new();
    out.push(("pi", config.ai.pi.clone()));
    out.push(("yt-dlp", config.youtube.yt_dlp.clone()));
    out.push(("ffmpeg", config.render.ffmpeg.clone()));
    out.push(("biliup", config.bilibili.biliup.clone()));
    proof {
        assert(name_pairs(out@) =~= baseline_tools_of(*config));
    }
    out
}

/// A program file that was looked at: whether it is there, and the digest of what it holds, where
/// it can be read.
#[derive(Debug)]
pub struct ProgramFile {
    pub exists: bool,
    pub sha256: Option<String>,
}

/// The service's own file.
#[derive(Debug)]
pub struct OwnFile {
    pub path: String,
    pub version: String,
    pub sha256: Option<String>,
}

/// The first check of that name from check `k` on.
pub open spec fn check_named(checks: Seq<CheckModel>, name: Seq<char>, k: int) -> Option<CheckModel>
    decreases checks.len() - k,
{
    if k < 0 || k >= checks.len() {
        None
    } else if checks[k].name == name {
        Some(checks[k])
    } else {
        check_named(checks, name, k + 1)
    }
}

fn find_check<'a>(checks: &'a [CheckItem], name: &str) -> (r: Option<&'a CheckItem>)
    ensures
        match r {
            Some(c) => check_named(check_models(checks@), name@, 0) == Some(c@),
            None => check_named(check_models(checks@), name@, 0) is None,
        },
{
    let ghost models = check_models(checks@);
    let mut k: usize = 0;
    while k < checks.len()
        invariant
            0 <= k <= checks@.len(),
            models == check_models(checks@),
            check_named(models, name@, 0) == check_named(models, name@, k as int),
        decreases checks@.len() - k,
    {
        proof {
            assert(models[k as int] == checks@[k as int]@);
        }
        if same_text(checks[k].name.as_str(), name) {
            return Some(&checks[k]);
        }
        k = k + 1;
    }
    None
}

/// Why a program keeps a baseline from being made, if it does.
pub open spec fn program_fault(
    name: Seq<char>,
    path: Seq<char>,
    file: ProgramFile,
    checks: Seq<CheckModel>,
) -> Option<Seq<char>> {
    if !file.exists {
        Some("生成依赖基线失败，缺少必选工具 "@ + name + ": "@ + path)
    } else {
        match check_named(checks, name, 0) {
            None => Some("生成依赖基线失败，缺少必选工具 "@ + name + " 的检查结果"@),
            Some(c) => if !c.ok {
                Some("生成依赖基线失败，必选工具 "@ + name + " 检查未通过: "@ + c.detail)
            } else if file.sha256 is None {
                Some("读取 "@ + path)
            } else {
                None
            },
        }
    }
}

/// A program as a baseline holds it: with the version that its check found.
pub open spec fn program_model(
    name: Seq<char>,
    path: Seq<char>,
    file: ProgramFile,
    checks: Seq<CheckModel>,
) -> BaselineModel {
    BaselineModel {
        name,
        path,
        version: check_named(checks, name, 0)->Some_0.detail,
        sha256: opt_view(file.sha256),
    }
}

fn program_item(name: &str, path: &str, file: &ProgramFile, checks: &[CheckItem]) -> (r: Result<
    BaselineItem,
    String,
>)
    ensures
        match program_fault(name@, path@, *file, check_models(checks@)) {
            Some(e) => r matches Err(x) && x@ == e,
            None => r matches Ok(b) && b@ == program_model(
                name@,
                path@,
                *file,
                check_models(checks@),
            ),
        },
{
    if !file.exists {
        let mut s = join("生成依赖基线失败，缺少必选工具 ", name);
        s.append(": ");
        s.append(path);
        return Err(s);
    }
    match find_check(checks, name) {
        None => {
            let mut s = join("生成依赖基线失败，缺少必选工具 ", name);
            s.append(" 的检查结果");
            Err(s)
        },
        Some(c) => {
            if !c.ok {
                let mut s = join("生成依赖基线失败，必选工具 ", name);
                s.append(" 检查未通过: ");
                s.append(c.detail.as_str());
                return Err(s);
            }
            match &file.sha256 {
                None => Err(join("读取 ", path)),
                Some(h) => Ok(
                    BaselineItem {
                        name: name.to_owned(),
                        path: path.to_owned(),
                        version: c.detail.clone(),
                        sha256: Some(h.clone()),
                    },
                ),
            }
        },
    }
}

/// Why one of the first `n` programs keeps a baseline from being made: the first that does.
pub open spec fn programs_fault(
    c: Config,
    files: Seq<ProgramFile>,
    checks: Seq<CheckModel>,
    n: int,
) -> Option<Seq<char>>
    decreases n,
{
    if n <= 0 {
        None
    } else if programs_fault(c, files, checks, n - 1) is Some {
        programs_fault(c, files, checks, n - 1)
    } else {
        let tool = baseline_tools_of(c)[n - 1];
        program_fault(tool.0, tool.1, files[n - 1], checks)
    }
}

/// Why one of the first `n` files that the models need keeps a baseline from being made.
pub open spec fn resources_fault(c: Config, hashes: Seq<Option<String>>, n: int) -> Option<Seq<char>>
    decreases n,
{
    if n <= 0 {
        None
    } else if resources_fault(c, hashes, n - 1) is Some {
        resources_fault(c, hashes, n - 1)
    } else if hashes[n - 1] is None {
        Some("读取 "@ + resources_of(c)[n - 1].2)
    } else {
        None
    }
}

/// Why no baseline is made, if none is.
pub open spec fn baseline_refusal(
    c: Config,
    checks: Seq<CheckModel>,
    programs: Seq<ProgramFile>,
    own: Option<OwnFile>,
    resources: Seq<Option<String>>,
) -> Option<Seq<char>> {
    if programs_fault(c, programs, checks, 4) is Some {
        programs_fault(c, programs, checks, 4)
    } else if own matches Some(f) && f.sha256 is None {
        Some("读取 "@ + own->Some_0.path@)
    } else {
        resources_fault(c, resources, 4)
    }
}

/// The programs that a baseline holds.
pub open spec fn program_models(c: Config, files: Seq<ProgramFile>, checks: Seq<CheckModel>) -> Seq<
    BaselineModel,
> {
    Seq::new(
        4,
        |i: int|
            program_model(
                baseline_tools_of(c)[i].0,
                baseline_tools_of(c)[i].1,
                files[i],
                checks,
            ),
    )
}

/// The service itself in a baseline, where its own file is known.
pub open spec fn own_models(own: Option<OwnFile>) -> Seq<BaselineModel> {
    match own {
        None => Seq::empty(),
        Some(f) => seq![
            BaselineModel {
                name: OWN_NAME@,
                path: f.path@,
                version: f.version@,
                sha256: opt_view(f.sha256),
            },
        ],
    }
}

/// The files that the models need in a baseline.
pub open spec fn resource_items(c: Config, hashes: Seq<Option<String>>) -> Seq<BaselineModel> {
    Seq::new(
        4,
        |i: int|
            BaselineModel {
                name: resources_of(c)[i].0,
                path: resources_of(c)[i].2,
                version: Seq::empty(),
                sha256: opt_view(hashes[i]),
            },
    )
}

fn program_items(config: &Config, checks: &[CheckItem], programs: &[ProgramFile]) -> (r: Result<
    Vec<BaselineItem>,
    String,
>)
    requires
        programs@.len() == 4,
    ensures
        match programs_fault(*config, programs@, check_models(checks@), 4) {
            Some(e) => r matches Err(x) && x@ == e,
            None => r matches Ok(v) && baseline_models(v@) == program_models(
                *config,
                programs@,
                check_models(checks@),
            ),
        },
{
    let tools = baseline_tools(config);
    let ghost found = check_models(checks@);
    let ghost all = program_models(*config, programs@, found);
    let mut out: Vec<BaselineItem> = Vec::new();
    proof {
        assert(baseline_models(out@) =~= all.take(0));
    }
    let mut i: usize = 0;
    while i < 4
        invariant
            0 <= i <= 4,
            programs@.len() == 4,
            tools@.len() == 4,
            name_pairs(tools@) == baseline_tools_of(*config),
            found == check_models(checks@),
            all == program_models(*config, programs@, found),
            programs_fault(*config, programs@, found, i as int) is None,
            baseline_models(out@) == all.take(i as int),
        decreases 4 - i,
    {
        proof {
            assert(name_pairs(tools@)[i as int] == (tools@[i as int].0@, tools@[i as int].1@));
        }
        match program_item(tools[i].0, tools[i].1.as_str(), &programs[i], checks) {
            Ok(b) => {
                let ghost before = baseline_models(out@);
                out.push(b);
                proof {
                    assert(baseline_models(out@) =~= before.push(b@));
                    assert(all.take(i + 1) =~= before.push(all[i as int]));
                }
            },
            Err(e) => {
                proof {
                    fault_stays(*config, programs@, found, i + 1, 4);
                }
                return Err(e);
            },
        }
        i = i + 1;
    }
    proof {
        assert(all.take(4) =~= all);
    }
    Ok(out)
}

proof fn fault_stays(c: Config, files: Seq<ProgramFile>, checks: Seq<CheckModel>, k: int, n: int)
    requires
        0 <= k <= n,
        programs_fault(c, files, checks, k) is Some,
    ensures
        programs_fault(c, files, checks, n) == programs_fault(c, files, checks, k),
    decreases n,
{
    if k < n {
        fault_stays(c, files, checks, k, n - 1);
    }
}

proof fn resource_fault_stays(c: Config, hashes: Seq<Option<String>>, k: int, n: int)
    requires
        0 <= k <= n,
        resources_fault(c, hashes, k) is Some,
    ensures
        resources_fault(c, hashes, n) == resources_fault(c, hashes, k),
    decreases n,
{
    if k < n {
        resource_fault_stays(c, hashes, k, n - 1);
    }
}

/// What a baseline holds of programs and files, from the checks that were just made. Nothing is kept
/// where one of them is missing or failed its check.
pub fn baseline_items(
    config: &Config,
    checks: &[CheckItem],
    programs: &[ProgramFile],
    own: &Option<OwnFile>,
    resources: &[Option<String>],
) -> (r: Result<Vec<BaselineItem>, String>)
    requires
        programs@.len() == 4,
        resources@.len() == 4,
    ensures
        match baseline_refusal(*config, check_models(checks@), programs@, *own, resources@) {
            Some(e) => r matches Err(x) && x@ == e,
            None => r matches Ok(v) && baseline_models(v@) == program_models(
                *config,
                programs@,
                check_models(checks@),
            ) + own_models(*own) + resource_items(*config, resources@),
        },
{
    let mut out = match program_items(config, checks, programs) {
        Ok(v) => v,
        Err(e) => {
            return Err(e);
        },
    };
    let ghost part1 = baseline_models(out@);
    match own {
        Some(f) => match &f.sha256 {
            None => {
                return Err(join("读取 ", f.path.as_str()));
            },
            Some(h) => {
                out.push(
                    BaselineItem {
                        name: OWN_NAME.to_owned(),
                        path: f.path.clone(),
                        version: f.version.clone(),
                        sha256: Some(h.clone()),
                    },
                );
            },
        },
        None => {},
    }
    let ghost part2 = part1 + own_models(*own);
    proof {
        assert(baseline_models(out@) =~= part2);
    }
    let list = policy_resources(config);
    let ghost all = resource_items(*config, resources@);
    proof {
        assert(part2 + all.take(0) =~= part2);
    }
    let mut i: usize = 0;
    while i < 4
        invariant
            0 <= i <= 4,
            resources@.len() == 4,
            list@.len() == 4,
            resource_texts(list@) == resources_of(*config),
            all == resource_items(*config, resources@),
            programs_fault(*config, programs@, check_models(checks@), 4) is None,
            !(*own matches Some(f) && f.sha256 is None),
            resources_fault(*config, resources@, i as int) is None,
            baseline_models(out@) == part2 + all.take(i as int),
        decreases 4 - i,
    {
        proof {
            assert(resource_texts(list@)[i as int] == (
                list@[i as int].name@,
                list@[i as int].label@,
                list@[i as int].path@,
            ));
        }
        match &resources[i] {
            None => {
                proof {
                    resource_fault_stays(*config, resources@, i + 1, 4);
                }
                return Err(join("读取 ", list[i].path.as_str()));
            },
            Some(h) => {
                let ghost before = baseline_models(out@);
                let version = String::new();
                assert(version@ =~= Seq::<char>::empty());
                let b = BaselineItem {
                    name: list[i].name.to_owned(),
                    path: list[i].path.clone(),
                    version,
                    sha256: Some(h.clone()),
                };
                out.push(b);
                proof {
                    assert(b@ == all[i as int]);
                    assert(baseline_models(out@) =~= before.push(b@));
                    assert(part2 + all.take(i + 1) =~= before.push(b@));
                }
            },
        }
        i = i + 1;
    }
    proof {
        assert(all.take(4) =~= all);
    }
    Ok(out)
}

proof fn no_drift(
    expected: Seq<(Seq<char>, Seq<char>)>,
    items: Seq<BaselineModel>,
    files: Seq<FileHash>,
    n: int,
)
    requires
        0 <= n <= items.len(),
        forall|k: int| 0 <= k < n ==> (#[trigger] item_drift(expected, items, files, k)) is None,
    ensures
        drift_of(expected, items, files, n).len() == 0,
    decreases n,
{
    if n > 0 {
        no_drift(expected, items, files, n - 1);
        assert(item_drift(expected, items, files, n - 1) is None);
    }
}

proof fn nothing_missing(expected: Seq<(Seq<char>, Seq<char>)>, items: Seq<BaselineModel>, n: int)
    requires
        0 <= n <= expected.len(),
        forall|k: int|
            0 <= k < n ==> named_before(items, items.len() as int, (#[trigger] expected[k]).0),
    ensures
        missing_of(expected, items, n).len() == 0,
    decreases n,
{
    if n > 0 {
        nothing_missing(expected, items, n - 1);
        assert(named_before(items, items.len() as int, expected[n - 1].0));
    }
}

/// The places of the nine names in a baseline that was just made.
pub open spec fn fresh_names() -> Seq<Seq<char>> {
    seq![
        "pi"@,
        "yt-dlp"@,
        "ffmpeg"@,
        "biliup"@,
        "y2b"@,
        "pi-extension"@,
        "pi-policy"@,
        "pi-audit-policy"@,
        "brawl-stars-glossary"@,
    ]
}

proof fn fresh_names_differ()
    ensures
        forall|i: int, j: int|
            0 <= i < j < 9 ==> #[trigger] fresh_names()[i] != #[trigger] fresh_names()[j],
{
    reveal_strlit("pi");
    reveal_strlit("yt-dlp");
    reveal_strlit("ffmpeg");
    reveal_strlit("biliup");
    reveal_strlit("y2b");
    reveal_strlit("pi-extension");
    reveal_strlit("pi-policy");
    reveal_strlit("pi-audit-policy");
    reveal_strlit("brawl-stars-glossary");
    assert("pi"@.len() == 2 && "yt-dlp"@.len() == 6 && "ffmpeg"@.len() == 6 && "biliup"@.len() == 6
        && "y2b"@.len() == 3 && "pi-extension"@.len() == 12 && "pi-policy"@.len() == 9
        && "pi-audit-policy"@.len() == 15 && "brawl-stars-glossary"@.len() == 20);
    assert("yt-dlp"@[0] == 'y' && "ffmpeg"@[0] == 'f' && "biliup"@[0] == 'b');
}

proof fn expected_paths(c: Config)
    ensures
        expected_path(expected_of(c), "pi"@) == Some(c.ai.pi@),
        expected_path(expected_of(c), "yt-dlp"@) == Some(c.youtube.yt_dlp@),
        expected_path(expected_of(c), "ffmpeg"@) == Some(c.render.ffmpeg@),
        expected_path(expected_of(c), "biliup"@) == Some(c.bilibili.biliup@),
        expected_path(expected_of(c), "pi-extension"@) == Some(c.ai.extension@),
        expected_path(expected_of(c), "pi-policy"@) == Some(c.ai.policy@),
        expected_path(expected_of(c), "pi-audit-policy"@) == Some(
            sibling_of(c.ai.policy@, "audit-policy.json"@),
        ),
        expected_path(expected_of(c), "brawl-stars-glossary"@) == Some(
            sibling_of(c.ai.policy@, "brawl-stars-glossary.json"@),
        ),
{
    fresh_names_differ();
    let names = fresh_names();
    assert(names[0] != names[1] && names[0] != names[2] && names[0] != names[3]);
    reveal_with_fuel(expected_path, 9);
    let e = expected_of(c);
    assert(e.skip(1)[0] == e[1]);
    assert(e.skip(1).skip(1)[0] == e[2]);
    assert(e.skip(1).skip(1).skip(1)[0] == e[3]);
    assert(e.skip(1).skip(1).skip(1).skip(1)[0] == e[4]);
    assert(e.skip(1).skip(1).skip(1).skip(1).skip(1)[0] == e[5]);
    assert(e.skip(1).skip(1).skip(1).skip(1).skip(1).skip(1)[0] == e[6]);
    assert(e.skip(1).skip(1).skip(1).skip(1).skip(1).skip(1).skip(1)[0] == e[7]);
}

/// A baseline that was just made passes its check as long as the files stay what they are.
pub proof fn fresh_baseline_passes(
    c: Config,
    checks: Seq<CheckModel>,
    programs: Seq<ProgramFile>,
    own: OwnFile,
    resources: Seq<Option<String>>,
    b: Baseline,
    files: Seq<FileHash>,
)
    requires
        programs.len() == 4,
        resources.len() == 4,
        baseline_refusal(c, checks, programs, Some(own), resources) is None,
        baseline_models(b.items@) == program_models(c, programs, checks) + own_models(Some(own))
            + resource_items(c, resources),
        forall|i: int|
            0 <= i < 4 ==> hash_at(files, (#[trigger] baseline_tools_of(c)[i]).1) == opt_view(
                programs[i].sha256,
            ),
        hash_at(files, own.path@) == opt_view(own.sha256),
        forall|i: int|
            0 <= i < 4 ==> hash_at(files, (#[trigger] resources_of(c)[i]).2) == opt_view(resources[i]),
    ensures
        baseline_model(c, b, files).ok,
{
    let items = baseline_models(b.items@);
    let expected = expected_of(c);
    let names = fresh_names();
    reveal_with_fuel(programs_fault, 5);
    reveal_with_fuel(resources_fault, 5);
    assert(items.len() == 9);
    assert forall|i: int| 0 <= i < 4 implies (#[trigger] items[i]).name == names[i] && items[i].path
        == baseline_tools_of(c)[i].1 && items[i].sha256 == opt_view(programs[i].sha256) by {}
    assert(items[4].name == names[4] && items[4].path == own.path@ && items[4].sha256 == opt_view(
        own.sha256,
    ));
    assert forall|i: int| 5 <= i < 9 implies (#[trigger] items[i]).name == names[i] && items[i].path
        == resources_of(c)[i - 5].2 && items[i].sha256 == opt_view(resources[i - 5]) by {}
    assert forall|i: int| 0 <= i < 9 implies (#[trigger] items[i]).name == names[i] by {}
    fresh_names_differ();
    expected_paths(c);
    assert forall|n: int, k: int| 0 <= n <= k < 9 implies !(#[trigger] named_before(
        items,
        n,
        names[k],
    )) by {
        if named_before(items, n, names[k]) {
            let j = choose|j: int| 0 <= j < n && (#[trigger] items[j]).name == names[k];
            assert(items[j].name == names[j]);
            assert(names[j] != names[k]);
        }
    }
    assert forall|k: int| 0 <= k < 9 implies (#[trigger] item_drift(expected, items, files, k)) is None by {
        assert(!named_before(items, k, names[k]));
        assert(items[k].name == names[k]);
        if k < 4 {
            assert(baseline_tools_of(c)[k].0 == names[k]);
            assert(programs[k].sha256 is Some);
        } else if k > 4 {
            assert(resources_of(c)[k - 5].0 == names[k]);
            assert(resources[k - 5] is Some);
            assert(names[4] != names[k]);
        }
    }
    no_drift(expected, items, files, 9);
    assert(named_before(items, 9, names[0])) by {
        assert(items[0].name == names[0]);
    }
    assert forall|k: int| 0 <= k < 9 implies named_before(items, 9, #[trigger] names[k]) by {
        assert(items[k].name == names[k]);
    }
    assert(expected[0].0 == names[3] && expected[1].0 == names[8] && expected[2].0 == names[2]
        && expected[3].0 == names[0] && expected[4].0 == names[7] && expected[5].0 == names[5]
        && expected[6].0 == names[6] && expected[7].0 == names[1]);
    nothing_missing(expected, items, 8);
    assert(own_drift(items, files, 9) == false) by {
        reveal_with_fuel(own_drift, 10);
        assert(items[4].name == names[4]);
        assert(!named_before(items, 4, names[4]));
        assert(names[0] != names[4] && names[1] != names[4] && names[2] != names[4] && names[3]
            != names[4] && names[4] != names[5] && names[4] != names[6] && names[4] != names[7]
            && names[4] != names[8]);
    }
    assert(named_before(items, 9, names[4]));
}

// ---------------------------------------------------------------------------------------------
// What the checks say
// ---------------------------------------------------------------------------------------------

/// The names of what failed are those of the required checks that are not well, in their order.
pub proof fn failures_are_the_required_ones(checks: Seq<CheckModel>, c: CheckModel)
    ensures
        failed_names(checks, 0).len() == 0,
        ({
            let before = failed_names(checks, checks.len() as int);
            let after = failed_names(checks.push(c), checks.len() as int + 1);
            &&& c.required && !c.ok ==> after == before.push(c.name)
            &&& c.ok || !c.required ==> after == before
        }),
{
    names_of_the_front(checks, c, checks.len() as int);
}

proof fn names_of_the_front(checks: Seq<CheckModel>, c: CheckModel, n: int)
    requires
        0 <= n <= checks.len(),
    ensures
        failed_names(checks.push(c), n) == failed_names(checks, n),
    decreases n,
{
    if n > 0 {
        names_of_the_front(checks, c, n - 1);
    }
}

/// A program is well where it ran; the disk where there is as much room as is needed; the tables
/// where their version is the one of this program; an account where it was last found good.
pub proof fn checks_are_well_when_their_thing_is(
    name: Seq<char>,
    path: Seq<char>,
    probe: ToolProbe,
    free: Result<u64, String>,
    stop_free_gib: u64,
    version: i64,
    noted: Result<Option<String>, String>,
    there: bool,
)
    ensures
        tool_model(name, path, probe).ok <==> probe is Ran,
        tool_model(name, path, probe).required,
        disk_model(free, stop_free_gib).ok <==> free is Ok && free->Ok_0 / 1_073_741_824
            >= stop_free_gib,
        disk_model(free, stop_free_gib).required,
        version_model(version).ok <==> version == 22,
        version_model(version).required,
        account_model(name, noted).ok ==> noted is Ok && noted->Ok_0 is Some
            && noted->Ok_0->Some_0@.len() >= 3 && noted->Ok_0->Some_0@.take(3) == "ok "@,
        noted is Err || noted->Ok_0 is None ==> !account_model(name, noted).ok,
        account_model(name, noted).required,
        file_model(name, path, there).ok == there && file_model(name, path, there).required,
        !swap_model(None).ok && !swap_model(None).required,
{
    reveal_strlit("ok ");
    if account_model(name, noted).ok {
        let t = noted->Ok_0->Some_0@;
        assert(t.subrange(0, 3) =~= t.take(3));
    }
}

/// A file is unchanged where its digest is known and is the one that was noted.
pub proof fn digests_tell_changes(b: BaselineModel, path: Seq<char>, files: Seq<FileHash>)
    requires
        files.len() > 0,
        files[0].path@ == path,
    ensures
        unchanged(b, path, files) <==> b.sha256 is Some && files[0].sha256 is Some
            && files[0].sha256->Some_0@ == b.sha256->Some_0,
{
}

/// An item of the baseline drifts where it is unknown, is named twice, stands elsewhere or has
/// changed; the program's own does not count here.
pub proof fn items_drift_when_they_differ(
    expected: Seq<(Seq<char>, Seq<char>)>,
    items: Seq<BaselineModel>,
    files: Seq<FileHash>,
    n: int,
)
    requires
        0 <= n < items.len(),
        items[n].name != "y2b"@,
    ensures
        ({
            let b = items[n];
            let path = expected_path(expected, b.name);
            let twice = exists|j: int| 0 <= j < n && (#[trigger] items[j]).name == b.name;
            item_drift(expected, items, files, n) is None <==> path is Some && !twice && same_parts(
                b.path,
                path->Some_0,
            ) && unchanged(b, path->Some_0, files)
        }),
{
}

/// The checks stand in one order: the five programs first, then the state of the machine and the
/// tables, the files of the models, the baseline and the accounts.
pub proof fn checks_stand_in_order(c: Config, p: Probes)
    ensures
        ({
            let all = checks_of(c, p);
            &&& all.len() == 18
            &&& all[0].name == "pi"@ && all[1].name == "yt-dlp"@ && all[2].name == "ffmpeg"@
            &&& all[3].name == "ffprobe"@ && all[4].name == "biliup"@
            &&& all[5].name == "swap"@ && all[6].name == "disk"@ && all[7].name == "database"@
            &&& all[8].name == "database schema"@
            &&& all[9].name == "YouTube cookies"@ && all[9].ok == p.cookies.0
            &&& all[10].name == "Bilibili cookies"@ && all[10].ok == p.cookies.1
            &&& all[7].ok <==> p.integrity@ == "ok"@
            &&& all[15].name == "dependency baseline"@
            &&& all[16].name == "YouTube auth"@ && all[17].name == "Bilibili auth"@
            &&& p.schema is Err ==> !all[8].ok
            &&& p.schema is Ok ==> (all[8].ok <==> p.schema->Ok_0 == 22)
            &&& !(p.baseline is Read) ==> !all[15].ok && all[15].required
        }),
{
}

/// A program goes into a baseline where it is there, was found well and its digest is known.
pub proof fn baselines_need_good_programs(
    name: Seq<char>,
    path: Seq<char>,
    file: ProgramFile,
    checks: Seq<CheckModel>,
)
    ensures
        program_fault(name, path, file, checks) is None <==> file.exists && check_named(
            checks,
            name,
            0,
        ) is Some && check_named(checks, name, 0)->Some_0.ok && file.sha256 is Some,
{
}

} // verus!
