//! Replacing the program by a newer release of itself.
use vstd::prelude::*;
use vstd::slice::slice_subrange;

use crate::json::{after, extract_json_str, rest_after, tight_string_field};
use crate::number::{parse_number, parse_up_to};
use crate::split::{pieces, split, strip_start, stripped_start};
use crate::text::{
    chars_of, find, find_any, index_of, index_of_any, is_blank, lemma_find_any_from,
    lemma_find_any_is, lemma_find_from, lemma_find_is, matches_at, occurs, opt, opt_str, same,
    string_of, strings, texts,
};

verus! {

/// The version of this program.
pub const VERSION: &'static str = "6.2.1";

/// The environment variable that names the repository of releases.
pub const UPDATE_REPO_ENV: &'static str = "UPDATE_REPO";

/// The repository of releases where the environment names none.
pub const UPDATE_REPO_DEFAULT: &'static str = "holo-host/node-manager";

/// How long after its start the program first looks for a release.
pub const UPDATE_DELAY_SECS: u64 = 90;

/// How long it waits between looking for releases.
pub const UPDATE_INTERVAL_SECS: u64 = 3600;

/// Where a release is downloaded to.
pub const UPDATE_FILE: &'static str = "/usr/local/bin/node-manager-update";

/// The repository of releases.
pub fn update_repo(env: Option<&str>) -> (r: String)
    ensures
        r@ == (match opt_str(env) {
            Some(repo) => repo,
            None => UPDATE_REPO_DEFAULT@,
        }),
{
    match env {
        Some(repo) => repo.to_owned(),
        None => UPDATE_REPO_DEFAULT.to_owned(),
    }
}

// ---------------------------------------------------------------------------
// Versions
// ---------------------------------------------------------------------------

/// The numbers of a version's parts; `None` where one of them is no number.
pub open spec fn part_numbers(parts: Seq<Seq<char>>) -> Option<Seq<nat>>
    decreases parts.len(),
{
    if parts.len() == 0 {
        Some(seq![])
    } else {
        match (
            part_numbers(parts.drop_last()),
            parse_up_to(parts.last(), u64::MAX as nat),
        ) {
            (Some(before), Some(n)) => Some(before.push(n)),
            _ => None,
        }
    }
}

/// The numbers of a version that are written with dots between them.
pub open spec fn version_numbers(version: Seq<char>) -> Option<Seq<nat>> {
    part_numbers(split(version, "."@))
}

/// The numbers `a` come before the numbers `b`: the first that differ decide, and
/// a version with further numbers comes behind.
pub open spec fn comes_before(a: Seq<nat>, b: Seq<nat>) -> bool
    decreases a.len(),
{
    if b.len() == 0 {
        false
    } else if a.len() == 0 {
        true
    } else if a[0] == b[0] {
        comes_before(a.drop_first(), b.drop_first())
    } else {
        a[0] < b[0]
    }
}

/// A version is newer than the current one. Where one of them is not made of
/// numbers, every other version counts as newer.
pub open spec fn is_newer(version: Seq<char>, current: Seq<char>) -> bool {
    version != current && (match (version_numbers(version), version_numbers(current)) {
        (Some(v), Some(c)) => comes_before(c, v),
        _ => true,
    })
}

/// The numbers of a version that are written with dots between them.
fn numbers_of(version: &str) -> (r: Option<Vec<u64>>)
    ensures
        (match r {
            Some(v) => version_numbers(version@) == Some(v@.map_values(|n: u64| n as nat)),
            None => version_numbers(version@) is None,
        }),
{
    let c = chars_of(version);
    let parts = pieces(c.as_slice(), ".");
    let ghost all = texts(parts@);
    let ghost f = |n: u64| n as nat;
    let mut v: Vec<u64> = Vec::new();
    let mut i: usize = 0;
    assert(all.take(0) =~= Seq::<Seq<char>>::empty());
    assert(v@.map_values(f) =~= Seq::<nat>::empty());
    while i < parts.len()
        invariant
            i <= parts@.len(),
            all == texts(parts@),
            all == split(version@, "."@),
            f == (|n: u64| n as nat),
            part_numbers(all.take(i as int)) == Some(v@.map_values(f)),
        decreases parts@.len() - i,
    {
        assert(all.take(i + 1).drop_last() =~= all.take(i as int));
        assert(all.take(i + 1).last() == parts@[i as int]@);
        match parse_number(parts[i], u64::MAX) {
            Some(n) => {
                let ghost before = v@;
                v.push(n);
                assert(v@.map_values(f) =~= before.map_values(f).push(n as nat));
            },
            None => {
                proof {
                    lemma_unread_part(all, i as int + 1);
                }
                return None;
            },
        }
        i += 1;
    }
    assert(all.take(all.len() as int) =~= all);
    Some(v)
}

proof fn lemma_unread_part(parts: Seq<Seq<char>>, n: int)
    requires
        0 <= n <= parts.len(),
        part_numbers(parts.take(n)) is None,
    ensures
        part_numbers(parts) is None,
    decreases parts.len(),
{
    if n == parts.len() {
        assert(parts.take(n) =~= parts);
    } else {
        assert(parts.drop_last().take(n) =~= parts.take(n));
        lemma_unread_part(parts.drop_last(), n);
    }
}

/// Whether the numbers `a` come before the numbers `b`.
fn is_earlier(a: &Vec<u64>, b: &Vec<u64>) -> (r: bool)
    ensures
        r == comes_before(a@.map_values(|n: u64| n as nat), b@.map_values(|n: u64| n as nat)),
{
    let ghost x = a@.map_values(|n: u64| n as nat);
    let ghost y = b@.map_values(|n: u64| n as nat);
    let mut i: usize = 0;
    assert(x.skip(0) =~= x);
    assert(y.skip(0) =~= y);
    while i < a.len() && i < b.len() && a[i] == b[i]
        invariant
            i <= a@.len(),
            i <= b@.len(),
            x == a@.map_values(|n: u64| n as nat),
            y == b@.map_values(|n: u64| n as nat),
            comes_before(x, y) == comes_before(x.skip(i as int), y.skip(i as int)),
        decreases a@.len() - i,
    {
        assert(x.skip(i as int).drop_first() =~= x.skip(i + 1));
        assert(y.skip(i as int).drop_first() =~= y.skip(i + 1));
        i += 1;
    }
    if i == b.len() {
        false
    } else if i == a.len() {
        true
    } else {
        a[i] < b[i]
    }
}

/// Whether a version is newer than the current one.
pub fn is_newer_version(version: &str, current: &str) -> (r: bool)
    ensures
        r == is_newer(version@, current@),
{
    if same(version, current) {
        return false;
    }
    match (numbers_of(version), numbers_of(current)) {
        (Some(v), Some(c)) => is_earlier(&c, &v),
        _ => true,
    }
}

proof fn lemma_not_both_before(a: Seq<nat>, b: Seq<nat>)
    ensures
        !(comes_before(a, b) && comes_before(b, a)),
    decreases a.len(),
{
    if a.len() > 0 && b.len() > 0 {
        lemma_not_both_before(a.drop_first(), b.drop_first());
    }
}

/// No version is newer than itself, and of two versions made of numbers at most
/// one is newer than the other: updates never go back and forth.
pub proof fn law_updates_go_forward(a: Seq<char>, b: Seq<char>)
    ensures
        !is_newer(a, a),
        version_numbers(a) is Some && version_numbers(b) is Some ==> !(is_newer(a, b) && is_newer(
            b,
            a,
        )),
{
    if let (Some(x), Some(y)) = (version_numbers(a), version_numbers(b)) {
        lemma_not_both_before(x, y);
    }
}

// ---------------------------------------------------------------------------
// Releases
// ---------------------------------------------------------------------------

/// What stands before the first quote, or nothing where there is none.
pub open spec fn up_to_quote(s: Seq<char>) -> Seq<char> {
    match find_any(s, "\""@) {
        Some(q) => s.take(q),
        None => seq![],
    }
}

/// The address of an asset of a release: the first one that follows the asset's
/// name.
pub open spec fn asset_url(release: Seq<char>, asset: Seq<char>) -> Seq<char> {
    match find(release, "\"name\":\""@ + asset + "\""@) {
        None => seq![],
        Some(p) => match after(release.skip(p), "\"browser_download_url\":\""@) {
            None => seq![],
            Some(rest) => up_to_quote(rest),
        },
    }
}

/// The address of an asset of a release, or the empty string.
pub fn find_asset_download_url(release_json: &str, asset_name: &str) -> (r: String)
    ensures
        r@ == asset_url(release_json@, asset_name@),
{
    let c = chars_of(release_json);
    let mut needle = "\"name\":\"".to_owned();
    needle.append(asset_name);
    needle.append("\"");
    let n = chars_of(needle.as_str());
    let p: usize = match index_of(c.as_slice(), n.as_slice()) {
        None => {
            return String::new();
        },
        Some(p) => p,
    };
    proof {
        lemma_find_from(c@, n@, 0);
    }
    let all = c.as_slice();
    let end: usize = all.len();
    let window = slice_subrange(all, p, end);
    assert(window@ =~= release_json@.skip(p as int));
    let key = chars_of("\"browser_download_url\":\"");
    match rest_after(window, key.as_slice()) {
        None => String::new(),
        Some(rest) => match index_of_any(rest, "\"") {
            None => String::new(),
            Some(q) => {
                let url = slice_subrange(rest, 0, q);
                assert(url@ =~= rest@.take(q as int));
                string_of(url)
            },
        },
    }
}

/// A text that first stands behind `before` is found there.
pub proof fn lemma_first_behind(before: Seq<char>, pat: Seq<char>, rest: Seq<char>)
    requires
        pat.len() > 0,
        !occurs(before + pat.drop_last(), pat),
    ensures
        find(before + pat + rest, pat) == Some(before.len() as int),
{
    let s = before + pat + rest;
    let short = before + pat.drop_last();
    let n = before.len() as int;
    lemma_find_from(short, pat, 0);
    assert(s.subrange(n, n + pat.len()) =~= pat);
    assert forall|j: int| 0 <= j < n implies !matches_at(s, pat, j) by {
        if matches_at(s, pat, j) {
            assert(short.subrange(j, j + pat.len()) =~= s.subrange(j, j + pat.len()));
            assert(matches_at(short, pat, j));
        }
    }
    lemma_find_is(s, pat, 0, n);
}

/// The address of an asset is what its download field holds, however much stands
/// between that field and the name of the asset: where the name first stands behind
/// `before` and the key of the field first stands behind `between`, the address is
/// what follows, up to the quote.
pub proof fn law_asset_url_found(
    before: Seq<char>,
    asset: Seq<char>,
    between: Seq<char>,
    url: Seq<char>,
    rest: Seq<char>,
)
    requires
        !url.contains('"'),
        ({
            let name = "\"name\":\""@ + asset + "\""@;
            let key = "\"browser_download_url\":\""@;
            &&& !occurs(before + name.drop_last(), name)
            &&& !occurs(name + between + key.drop_last(), key)
        }),
    ensures
        asset_url(
            before + ("\"name\":\""@ + asset + "\""@) + between + "\"browser_download_url\":\""@ + url
                + "\""@ + rest,
            asset,
        ) == url,
{
    let name = "\"name\":\""@ + asset + "\""@;
    let key = "\"browser_download_url\":\""@;
    reveal_strlit("\"name\":\"");
    reveal_strlit("\"browser_download_url\":\"");
    reveal_strlit("\"");
    let tail = url + "\""@ + rest;
    let release = before + name + between + key + url + "\""@ + rest;
    lemma_first_behind(before, name, between + key + tail);
    assert(release =~= before + name + (between + key + tail));
    let window = release.skip(before.len() as int);
    lemma_first_behind(name + between, key, tail);
    assert(window =~= name + between + key + tail);
    assert(window.skip((name + between).len() as int + key.len()) =~= tail);
    assert("\""@ =~= seq!['"']);
    assert("\""@[0] == '"');
    assert forall|j: int| 0 <= j < url.len() implies !"\""@.contains(tail[j]) by {
        assert(tail[j] == url[j]);
    }
    lemma_find_any_is(tail, "\""@, 0, url.len() as int);
    assert(tail.take(url.len() as int) =~= url);
}

/// A release that does not name an asset, or has no download field behind the name,
/// gives no address; an address that is found has no quote in it and follows the
/// first download field behind the first place where the asset is named.
pub proof fn law_asset_url_missing(release: Seq<char>, asset: Seq<char>)
    ensures
        !occurs(release, "\"name\":\""@ + asset + "\""@) ==> asset_url(release, asset).len() == 0,
        !occurs(release, "\"browser_download_url\":\""@) ==> asset_url(release, asset).len() == 0,
        !asset_url(release, asset).contains('"'),
        asset_url(release, asset).len() > 0 ==> occurs(
            release,
            "\"browser_download_url\":\""@ + asset_url(release, asset) + "\""@,
        ),
{
    let name = "\"name\":\""@ + asset + "\""@;
    let key = "\"browser_download_url\":\""@;
    reveal_strlit("\"");
    assert("\""@ =~= seq!['"']);
    assert("\""@[0] == '"');
    lemma_find_from(release, name, 0);
    lemma_find_from(release, key, 0);
    match find(release, name) {
        None => {},
        Some(p) => {
            let window = release.skip(p);
            lemma_find_from(window, key, 0);
            match find(window, key) {
                None => {},
                Some(k) => {
                    assert(window.subrange(k, k + key.len()) =~= release.subrange(
                        p + k,
                        p + k + key.len(),
                    ));
                    assert(matches_at(release, key, p + k));
                    let rest = window.skip(k + key.len());
                    lemma_find_any_from(rest, "\""@, 0);
                    match find_any(rest, "\""@) {
                        None => {},
                        Some(q) => {
                            let url = rest.take(q);
                            let field = key + url + "\""@;
                            let part = release.subrange(p + k, p + k + field.len());
                            assert(part =~= field) by {
                                assert forall|j: int| 0 <= j < field.len() implies part[j]
                                    == field[j] by {
                                    if j < key.len() {
                                        assert(window.subrange(k, k + key.len())[j] == key[j]);
                                    } else if j < key.len() + q {
                                        assert(rest[j - key.len()] == release[p + k + j]);
                                    }
                                }
                            }
                            assert(matches_at(release, field, p + k));
                            lemma_find_from(release, field, 0);
                        },
                    }
                },
            }
        },
    }
}

/// The version that the tag of a release names.
pub open spec fn release_version(release: Seq<char>) -> Seq<char> {
    strip_start(tight_string_field(release, "tag_name"@), "v"@)
}

// ---------------------------------------------------------------------------
// The steps of an update
// ---------------------------------------------------------------------------

/// What has become known on the way to an update.
#[derive(Debug, PartialEq, Eq)]
pub enum UpdateEvent {
    /// Nothing yet but the repository.
    Begin(String),
    /// The latest release, where it could be had.
    Release(Option<String>),
    /// The latest release and the name of the hardware.
    Arch(String, String),
    /// Whether the download went well.
    Downloaded(bool),
    /// Whether the program was replaced.
    Replaced(bool),
}

/// An event with its texts as sequences of characters.
pub enum UpdateEventView {
    Begin(Seq<char>),
    Release(Option<Seq<char>>),
    Arch(Seq<char>, Seq<char>),
    Downloaded(bool),
    Replaced(bool),
}

impl View for UpdateEvent {
    type V = UpdateEventView;

    open spec fn view(&self) -> UpdateEventView {
        match *self {
            UpdateEvent::Begin(repo) => UpdateEventView::Begin(repo@),
            UpdateEvent::Release(json) => UpdateEventView::Release(opt(json)),
            UpdateEvent::Arch(json, arch) => UpdateEventView::Arch(json@, arch@),
            UpdateEvent::Downloaded(ok) => UpdateEventView::Downloaded(ok),
            UpdateEvent::Replaced(ok) => UpdateEventView::Replaced(ok),
        }
    }
}

/// What to do next on the way to an update.
#[derive(Debug, PartialEq, Eq)]
pub enum UpdateStep {
    /// There is nothing more to do.
    Stop,
    /// Run a program, given with its arguments, that prints the latest release.
    Query(Vec<String>),
    /// Ask for the name of the hardware.
    AskArch,
    /// Run a program, given with its arguments, that downloads the release.
    Download(Vec<String>),
    /// Run a program, given with its arguments, that makes the downloaded file
    /// executable, and put that file in the place of this program.
    Replace(Vec<String>),
    /// Run a program, given with its arguments, that starts this one anew.
    Restart(Vec<String>),
}

/// A step with its texts as sequences of characters.
pub enum UpdateStepView {
    Stop,
    Query(Seq<Seq<char>>),
    AskArch,
    Download(Seq<Seq<char>>),
    Replace(Seq<Seq<char>>),
    Restart(Seq<Seq<char>>),
}

impl View for UpdateStep {
    type V = UpdateStepView;

    open spec fn view(&self) -> UpdateStepView {
        match *self {
            UpdateStep::Stop => UpdateStepView::Stop,
            UpdateStep::Query(args) => UpdateStepView::Query(strings(args@)),
            UpdateStep::AskArch => UpdateStepView::AskArch,
            UpdateStep::Download(args) => UpdateStepView::Download(strings(args@)),
            UpdateStep::Replace(args) => UpdateStepView::Replace(strings(args@)),
            UpdateStep::Restart(args) => UpdateStepView::Restart(strings(args@)),
        }
    }
}

/// What an event leads to on the way to an update.
pub open spec fn update_step(event: UpdateEventView) -> UpdateStepView {
    match event {
        UpdateEventView::Begin(repo) => UpdateStepView::Query(
            seq![
                "curl"@,
                "-sf"@,
                "-H"@,
                "Accept: application/vnd.github+json"@,
                "-H"@,
                "User-Agent: holo-node-manager"@,
                "https://api.github.com/repos/"@ + repo + "/releases/latest"@,
            ],
        ),
        UpdateEventView::Release(None) => UpdateStepView::Stop,
        UpdateEventView::Release(Some(release)) => if tight_string_field(
            release,
            "tag_name"@,
        ).len() == 0 || !is_newer(release_version(release), VERSION@) {
            UpdateStepView::Stop
        } else {
            UpdateStepView::AskArch
        },
        UpdateEventView::Arch(release, arch) => {
            let url = asset_url(release, "node-manager-"@ + arch);
            if url.len() == 0 {
                UpdateStepView::Stop
            } else {
                UpdateStepView::Download(seq!["curl"@, "-sfL"@, "-o"@, UPDATE_FILE@, url])
            }
        },
        UpdateEventView::Downloaded(ok) => if ok {
            UpdateStepView::Replace(seq!["chmod"@, "+x"@, UPDATE_FILE@])
        } else {
            UpdateStepView::Stop
        },
        UpdateEventView::Replaced(ok) => if ok {
            UpdateStepView::Restart(seq!["systemctl"@, "restart"@, "node-manager.service"@])
        } else {
            UpdateStepView::Stop
        },
    }
}

/// The next step on the way to an update.
pub fn check_and_apply_update(event: &UpdateEvent) -> (r: UpdateStep)
    ensures
        r@ == update_step(event@),
{
    match event {
        UpdateEvent::Begin(repo) => {
            let mut url = "https://api.github.com/repos/".to_owned();
            url.append(repo.as_str());
            url.append("/releases/latest");
            let args = vec![
                "curl".to_owned(),
                "-sf".to_owned(),
                "-H".to_owned(),
                "Accept: application/vnd.github+json".to_owned(),
                "-H".to_owned(),
                "User-Agent: holo-node-manager".to_owned(),
                url,
            ];
            assert(UpdateStepView::Query(strings(args@)) == update_step(event@)) by {
                assert(strings(args@) =~= seq![
                    "curl"@,
                    "-sf"@,
                    "-H"@,
                    "Accept: application/vnd.github+json"@,
                    "-H"@,
                    "User-Agent: holo-node-manager"@,
                    "https://api.github.com/repos/"@ + repo@ + "/releases/latest"@,
                ]);
            }
            UpdateStep::Query(args)
        },
        UpdateEvent::Release(release) => match release {
            None => UpdateStep::Stop,
            Some(json) => {
                let tag = extract_json_str(json.as_str(), "tag_name");
                if is_blank(tag.as_str()) {
                    return UpdateStep::Stop;
                }
                let t = chars_of(tag.as_str());
                let version = string_of(stripped_start(t.as_slice(), "v"));
                if is_newer_version(version.as_str(), VERSION) {
                    UpdateStep::AskArch
                } else {
                    UpdateStep::Stop
                }
            },
        },
        UpdateEvent::Arch(json, arch) => {
            let mut asset = "node-manager-".to_owned();
            asset.append(arch.as_str());
            let url = find_asset_download_url(json.as_str(), asset.as_str());
            if is_blank(url.as_str()) {
                return UpdateStep::Stop;
            }
            let ghost u = url@;
            let args = vec![
                "curl".to_owned(),
                "-sfL".to_owned(),
                "-o".to_owned(),
                UPDATE_FILE.to_owned(),
                url,
            ];
            assert(strings(args@) =~= seq!["curl"@, "-sfL"@, "-o"@, UPDATE_FILE@, u]);
            UpdateStep::Download(args)
        },
        UpdateEvent::Downloaded(ok) => if *ok {
            let args = vec!["chmod".to_owned(), "+x".to_owned(), UPDATE_FILE.to_owned()];
            assert(strings(args@) =~= seq!["chmod"@, "+x"@, UPDATE_FILE@]);
            UpdateStep::Replace(args)
        } else {
            UpdateStep::Stop
        },
        UpdateEvent::Replaced(ok) => if *ok {
            let args = vec![
                "systemctl".to_owned(),
                "restart".to_owned(),
                "node-manager.service".to_owned(),
            ];
            assert(strings(args@) =~= seq!["systemctl"@, "restart"@, "node-manager.service"@]);
            UpdateStep::Restart(args)
        } else {
            UpdateStep::Stop
        },
    }
}

/// An update goes on after the release is known only where the release is newer
/// than this program.
pub proof fn law_only_newer_releases(release: Seq<char>)
    ensures
        update_step(UpdateEventView::Release(Some(release))) is Stop || is_newer(
            release_version(release),
            VERSION@,
        ),
{
}

} // verus!
