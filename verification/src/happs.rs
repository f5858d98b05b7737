//! Applications in the ordinary container: the commands that manage them and what
//! their output says.
use vstd::prelude::*;
use vstd::utf8::*;

use crate::calendar::{iso_of, utc_now_iso};
use crate::config::{alnum, is_alnum};
use crate::deployment_laws::{law_deployments_round_trip, recordable};
use crate::deployments::{
    deployments, deployments_json, deployments_kept, deployments_of, find_deployment, lemma_position_of, position_of,
    read_deployments, write_deployments, Deployment, DeploymentView,
};
use crate::effects::{
    add_all, effects, make_dir, no_effects, push_effect, write_file, Effect, EffectView, FileWrite,
    FileWriteView,
};
use crate::escape::{shell_single_quote, single_quoted};
use crate::json::{json_block, json_nested_str, json_str, nested_field, object_field, string_field};
use crate::number::{dec, push_dec};
use crate::split::{
    count_of, cut, lines, lines_of, pieces, split, split_once, strip, stripped, trim, trimmed,
    twice, words, words_of,
};
use crate::state::{AppState, StateView, WIND_TUNNEL};
use crate::text::{
    byte_count, byte_len, bytes_after, bytes_before, chars_of, contains_text, in_set, is_blank,
    law_bytes_come_apart, lowercase, occurs, opt, opt_str, same, split_at_byte, starts_with,
    string_of, texts, to_lowercase,
};

verus! {

/// Where the output of installations is kept.
pub const HAPP_LOGS_DIR: &'static str = "/etc/node-manager/happ-logs";

/// Where manifests are handed to the container.
pub const HAPP_MANIFESTS_DIR: &'static str = "/var/lib/edgenode/manifests";

// ---------------------------------------------------------------------------
// Manifests
// ---------------------------------------------------------------------------

/// The name of the application that a manifest describes.
pub fn manifest_app_name(manifest: &str) -> (r: String)
    ensures
        r@ == nested_field(manifest@, "app"@, "name"@),
{
    json_nested_str(manifest, "app", "name")
}

/// The version of the application that a manifest describes.
pub fn manifest_app_version(manifest: &str) -> (r: String)
    ensures
        r@ == nested_field(manifest@, "app"@, "version"@),
{
    json_nested_str(manifest, "app", "version")
}

/// The manifest names an agreement on payment.
pub open spec fn has_agreement(manifest: Seq<char>) -> bool {
    let economics = object_field(manifest, "economics"@);
    economics.len() > 0 && string_field(economics, "agreementHash"@).len() > 0
}

/// Whether a manifest names an agreement on payment.
pub fn manifest_has_economics_agreement(manifest: &str) -> (r: bool)
    ensures
        r == has_agreement(manifest@),
{
    let economics = json_block(manifest, "economics");
    !is_blank(economics.as_str()) && !is_blank(json_str(economics.as_str(), "agreementHash").as_str())
}

/// The ASCII letters and digits of a text and those of its characters that are
/// in `more`.
pub open spec fn only(s: Seq<char>, more: Seq<char>) -> Seq<char>
    decreases s.len(),
{
    if s.len() == 0 {
        seq![]
    } else if is_alnum(s.last()) || more.contains(s.last()) {
        only(s.drop_last(), more).push(s.last())
    } else {
        only(s.drop_last(), more)
    }
}

/// The ASCII letters and digits of a text and those of its characters that are
/// in `more`.
fn keep_only(s: &str, more: &str) -> (r: String)
    ensures
        r@ == only(s@, more@),
{
    let c = chars_of(s);
    let mut out = String::new();
    let mut i: usize = 0;
    assert(c@.take(0) =~= Seq::<char>::empty());
    assert(out@ =~= only(c@.take(0), more@));
    while i < c.len()
        invariant
            i <= c@.len(),
            out@ == only(c@.take(i as int), more@),
        decreases c@.len() - i,
    {
        assert(c@.take(i + 1).drop_last() =~= c@.take(i as int));
        if alnum(c[i]) || in_set(more, c[i]) {
            out.push(c[i]);
        }
        i += 1;
    }
    assert(c@.take(c@.len() as int) =~= c@);
    out
}

/// The file name of a manifest; `None` where the name or the version has no
/// character that may stand in it.
pub open spec fn manifest_file(name: Seq<char>, version: Seq<char>) -> Option<Seq<char>> {
    let n = only(name, "_-"@);
    let v = only(version, ".-"@);
    if n.len() == 0 || v.len() == 0 {
        None
    } else {
        Some(n + "-"@ + v + ".json"@)
    }
}

/// The file to write for a manifest, and its path in the container.
pub open spec fn manifest_written(
    name: Seq<char>,
    version: Seq<char>,
    manifest: Seq<char>,
) -> Option<(FileWriteView, Seq<char>)> {
    match manifest_file(name, version) {
        None => None,
        Some(file) => Some(
            (
                FileWriteView {
                    dir: HAPP_MANIFESTS_DIR@,
                    path: HAPP_MANIFESTS_DIR@ + "/"@ + file,
                    content: manifest,
                },
                "/data/manifests/"@ + file,
            ),
        ),
    }
}

/// The file to write for a manifest and its path in the container, or what is
/// wrong with the name or the version.
pub fn write_happ_manifest(name: &str, version: &str, manifest: &str) -> (r: Result<
    (FileWrite, String),
    String,
>)
    ensures
        (match r {
            Ok((file, path)) => manifest_written(name@, version@, manifest@) == Some(
                (file@, path@),
            ),
            Err(msg) => manifest_written(name@, version@, manifest@) is None && msg@
                == "Invalid app name or version for manifest file"@,
        }),
{
    let safe_name = keep_only(name, "_-");
    let safe_ver = keep_only(version, ".-");
    if is_blank(safe_name.as_str()) || is_blank(safe_ver.as_str()) {
        return Err("Invalid app name or version for manifest file".to_owned());
    }
    let mut file = safe_name;
    file.append("-");
    file.append(safe_ver.as_str());
    file.append(".json");
    let mut path = HAPP_MANIFESTS_DIR.to_owned();
    path.append("/");
    path.append(file.as_str());
    let mut inside = "/data/manifests/".to_owned();
    inside.append(file.as_str());
    Ok(
        (
            FileWrite { dir: HAPP_MANIFESTS_DIR.to_owned(), path, content: manifest.to_owned() },
            inside,
        ),
    )
}

proof fn lemma_only(s: Seq<char>, more: Seq<char>, c: char)
    requires
        !is_alnum(c),
        !more.contains(c),
    ensures
        !only(s, more).contains(c),
    decreases s.len(),
{
    if s.len() > 0 {
        lemma_only(s.drop_last(), more, c);
        let kept = only(s, more);
        assert forall|i: int| 0 <= i < kept.len() implies kept[i] != c by {
            if i < only(s.drop_last(), more).len() {
                assert(kept[i] == only(s.drop_last(), more)[i]);
            }
        }
    }
}

/// Whatever an application is called, its manifest stands directly in the
/// directory of manifests: the file name has no slash in it.
pub proof fn law_manifest_stays_in_its_directory(name: Seq<char>, version: Seq<char>)
    ensures
        manifest_file(name, version) matches Some(file) ==> !file.contains('/'),
{
    reveal_strlit("_-");
    reveal_strlit(".-");
    reveal_strlit("-");
    reveal_strlit(".json");
    lemma_only(name, "_-"@, '/');
    lemma_only(version, ".-"@, '/');
    if let Some(file) = manifest_file(name, version) {
        let n = only(name, "_-"@);
        let v = only(version, ".-"@);
        assert forall|i: int| 0 <= i < file.len() implies file[i] != '/' by {
            if i < n.len() {
                assert(file[i] == n[i]);
            } else if i >= n.len() + 1 && i < n.len() + 1 + v.len() {
                assert(file[i] == v[i - n.len() - 1]);
            }
        }
    }
}

// ---------------------------------------------------------------------------
// Commands in the container
// ---------------------------------------------------------------------------

/// What a command left behind.
#[derive(Debug, PartialEq, Eq)]
pub struct CommandOutput {
    pub code: i32,
    pub stdout: String,
    pub stderr: String,
}

/// The line of the shell that runs a command in the container.
pub open spec fn container_script(cmd: Seq<char>) -> Seq<char> {
    "podman exec edgenode su - nonroot -c "@ + single_quoted(cmd)
}

/// The line of the shell that runs a command in the container.
pub fn podman_exec_nonroot(cmd: &str) -> (r: String)
    ensures
        r@ == container_script(cmd@),
{
    let mut out = "podman exec edgenode su - nonroot -c ".to_owned();
    out.append(shell_single_quote(cmd).as_str());
    out
}

/// The line that runs a command with one argument.
fn with_argument(verb: &str, argument: &str) -> (r: String)
    ensures
        r@ == container_script(verb@ + argument@),
{
    let mut cmd = verb.to_owned();
    cmd.append(argument);
    podman_exec_nonroot(cmd.as_str())
}

/// The line that lists the installed applications.
pub fn list_happs_script() -> (r: String)
    ensures
        r@ == container_script("list_happs"@),
{
    podman_exec_nonroot("list_happs")
}

/// The line that checks a manifest.
pub fn validate_happ_manifest(container_path: &str) -> (r: String)
    ensures
        r@ == container_script("happ_config_file validate --input "@ + container_path@),
{
    with_argument("happ_config_file validate --input ", container_path)
}

/// Whether a check passed, and what it printed.
pub fn manifest_verdict(out: &CommandOutput) -> (r: (bool, String))
    ensures
        r.0 == (out.code == 0),
        r.1@ == out.stdout@ + out.stderr@,
{
    let mut text = out.stdout.as_str().to_owned();
    text.append(out.stderr.as_str());
    (out.code == 0, text)
}

/// The command that installs an application; the node's name goes with it where
/// there is one.
pub open spec fn install_command(container_path: Seq<char>, node_name: Seq<char>) -> Seq<char> {
    if node_name.len() == 0 {
        "install_happ "@ + container_path
    } else {
        "install_happ "@ + container_path + " "@ + node_name
    }
}

/// The line that installs an application.
pub fn run_install_happ(container_path: &str, node_name: &str) -> (r: String)
    ensures
        r@ == container_script(install_command(container_path@, node_name@)),
{
    let mut cmd = "install_happ ".to_owned();
    cmd.append(container_path);
    if !is_blank(node_name) {
        cmd.append(" ");
        cmd.append(node_name);
    }
    podman_exec_nonroot(cmd.as_str())
}

/// The line that lets an application run.
pub fn enable_happ(app_id: &str) -> (r: String)
    ensures
        r@ == container_script("enable_happ "@ + app_id@),
{
    with_argument("enable_happ ", app_id)
}

/// The line that pauses an application.
pub fn disable_happ(app_id: &str) -> (r: String)
    ensures
        r@ == container_script("disable_happ "@ + app_id@),
{
    with_argument("disable_happ ", app_id)
}

/// The line that removes an application.
pub fn uninstall_happ(app_id: &str) -> (r: String)
    ensures
        r@ == container_script("uninstall_happ "@ + app_id@),
{
    with_argument("uninstall_happ ", app_id)
}

/// All that a command printed, errors last.
pub open spec fn printed(out: CommandOutput) -> Seq<char> {
    out.stdout@ + "\n"@ + out.stderr@
}

/// All that a command printed, errors last.
pub fn all_printed(out: &CommandOutput) -> (r: String)
    ensures
        r@ == printed(*out),
{
    let mut text = out.stdout.as_str().to_owned();
    text.append("\n");
    text.append(out.stderr.as_str());
    text
}

/// What a command printed, as a success or a failure by its exit code.
pub fn happ_outcome(out: &CommandOutput) -> (r: Result<String, String>)
    ensures
        (match r {
            Ok(text) => out.code == 0 && text@ == printed(*out),
            Err(text) => out.code != 0 && text@ == printed(*out),
        }),
{
    let text = all_printed(out);
    if out.code != 0 {
        Err(text)
    } else {
        Ok(text)
    }
}

/// The line that shows the end of a log in the container.
pub fn tail_container_log(container_path: &str, lines: u64) -> (r: String)
    ensures
        r@ == container_script("tail -n "@ + dec(lines as nat) + " "@ + container_path@),
{
    let mut cmd = "tail -n ".to_owned();
    push_dec(&mut cmd, lines as u128);
    cmd.append(" ");
    cmd.append(container_path);
    podman_exec_nonroot(cmd.as_str())
}

/// The end of a log, or that there is none.
pub open spec fn tail_shown(out: CommandOutput) -> Seq<char> {
    let text = out.stdout@ + out.stderr@;
    if trim(text).len() == 0 {
        "(log empty or unavailable)"@
    } else {
        text
    }
}

/// The end of a log, or that there is none.
pub fn tail_text(out: &CommandOutput) -> (r: String)
    ensures
        r@ == tail_shown(*out),
{
    let mut text = out.stdout.as_str().to_owned();
    text.append(out.stderr.as_str());
    let c = chars_of(text.as_str());
    if trimmed(c.as_slice()).len() == 0 {
        "(log empty or unavailable)".to_owned()
    } else {
        text
    }
}

/// Where the output of an installation is kept.
pub open spec fn log_path(id: Seq<char>) -> Seq<char> {
    HAPP_LOGS_DIR@ + "/"@ + id + ".log"@
}

/// Where the output of an installation is kept.
pub fn install_log_path(id: &str) -> (r: String)
    ensures
        r@ == log_path(id@),
{
    let mut path = HAPP_LOGS_DIR.to_owned();
    path.append("/");
    path.append(id);
    path.append(".log");
    path
}

/// The output of an installation, given the content of its file, if it can be
/// read.
pub fn read_happ_install_log(content: Option<&str>) -> (r: String)
    ensures
        r@ == (match opt_str(content) {
            Some(text) => text,
            None => "(no install log available)"@,
        }),
{
    match content {
        Some(text) => text.to_owned(),
        None => "(no install log available)".to_owned(),
    }
}

// ---------------------------------------------------------------------------
// The id of an installed application
// ---------------------------------------------------------------------------

/// The id in the first round brackets of a line.
pub open spec fn bracketed_id(line: Seq<char>) -> Option<Seq<char>> {
    match split_once(line, "("@) {
        None => None,
        Some((_, rest)) => match split_once(rest, ")"@) {
            None => None,
            Some((inside, _)) => if occurs(inside, "::"@) {
                Some(inside)
            } else {
                None
            },
        },
    }
}

/// The first id in round brackets from line `i` on.
pub open spec fn id_in_lines(ls: Seq<Seq<char>>, i: int) -> Option<Seq<char>>
    decreases ls.len() - i,
{
    if i < 0 || i >= ls.len() {
        None
    } else {
        match bracketed_id(ls[i]) {
            Some(id) => Some(id),
            None => id_in_lines(ls, i + 1),
        }
    }
}

/// The first word from word `i` on that looks like an id, without brackets and
/// exclamation marks round it; the empty text where there is none.
pub open spec fn id_in_words(ws: Seq<Seq<char>>, i: int) -> Seq<char>
    decreases ws.len() - i,
{
    if i < 0 || i >= ws.len() {
        seq![]
    } else if count_of(ws[i], "::"@) >= 2 && byte_len(ws[i]) > 10 {
        strip(ws[i], ")(!"@)
    } else {
        id_in_words(ws, i + 1)
    }
}

/// The id of the application that an installation printed.
pub open spec fn installed_id(output: Seq<char>) -> Seq<char> {
    match id_in_lines(lines(output), 0) {
        Some(id) => id,
        None => id_in_words(words(output), 0),
    }
}

/// The id of the application that an installation printed, or the empty string.
pub fn extract_app_id_from_install_output(output: &str) -> (r: String)
    ensures
        r@ == installed_id(output@),
{
    let c = chars_of(output);
    let sep = chars_of("::");
    proof {
        reveal_strlit("::");
    }
    let ls = lines_of(c.as_slice());
    let mut i: usize = 0;
    while i < ls.len()
        invariant
            i <= ls@.len(),
            sep@ == "::"@,
            sep@.len() == 2,
            texts(ls@) == lines(output@),
            id_in_lines(lines(output@), 0) == id_in_lines(lines(output@), i as int),
        decreases ls@.len() - i,
    {
        assert(ls@[i as int]@ == texts(ls@)[i as int]);
        match cut(ls[i], "(") {
            None => {},
            Some((_, rest)) => match cut(rest, ")") {
                None => {},
                Some((inside, _)) => {
                    if contains_text(inside, sep.as_slice()) {
                        return string_of(inside);
                    }
                },
            },
        }
        i += 1;
    }
    let ws = words_of(c.as_slice());
    let mut k: usize = 0;
    while k < ws.len()
        invariant
            k <= ws@.len(),
            sep@ == "::"@,
            sep@.len() == 2,
            texts(ws@) == words(output@),
            id_in_lines(lines(output@), 0) is None,
            id_in_words(words(output@), 0) == id_in_words(words(output@), k as int),
        decreases ws@.len() - k,
    {
        let word = ws[k];
        assert(word@ == texts(ws@)[k as int]);
        if twice(word, sep.as_slice()) && byte_count(string_of(word).as_str()) > 10 {
            return string_of(stripped(word, ")(!"));
        }
        k += 1;
    }
    String::new()
}

// ---------------------------------------------------------------------------
// The installed applications
// ---------------------------------------------------------------------------

/// An application that the container knows.
#[derive(Debug, PartialEq, Eq)]
pub struct LiveHapp {
    pub app_id: String,
    pub enabled: bool,
}

/// Applications as pairs of an id and whether it runs.
pub open spec fn live(v: Seq<LiveHapp>) -> Seq<(Seq<char>, bool)> {
    Seq::new(v.len(), |i: int| (v[i].app_id@, v[i].enabled))
}

/// The applications that the words of a line name: each word with two double
/// colons in it, without punctuation round it.
pub open spec fn happs_in_words(ws: Seq<Seq<char>>, enabled: bool) -> Seq<(Seq<char>, bool)>
    decreases ws.len(),
{
    if ws.len() == 0 {
        seq![]
    } else {
        let before = happs_in_words(ws.drop_last(), enabled);
        let id = strip(ws.last(), ",)(\"'"@);
        if count_of(ws.last(), "::"@) >= 2 && occurs(id, "::"@) {
            before.push((id, enabled))
        } else {
            before
        }
    }
}

/// The applications that a line names; they run unless the line, in lowercase,
/// says that they are disabled.
pub open spec fn happs_in_line(line: Seq<char>, lower: Seq<char>) -> Seq<(Seq<char>, bool)> {
    happs_in_words(words(line), !occurs(lower, "disabled"@))
}

/// The applications that lines name.
pub open spec fn happs_in_lines(ls: Seq<Seq<char>>) -> Seq<(Seq<char>, bool)>
    decreases ls.len(),
{
    if ls.len() == 0 {
        seq![]
    } else {
        happs_in_lines(ls.drop_last()) + happs_in_line(ls.last(), lowercase(ls.last()))
    }
}

/// The output, in lowercase, speaks of the state of applications.
pub open spec fn tells_state(lower: Seq<char>) -> bool {
    occurs(lower, "installed"@) || occurs(lower, "enabled"@)
}

/// The applications that a bare list names; all of them run.
pub open spec fn happs_in_list(parts: Seq<Seq<char>>) -> Seq<(Seq<char>, bool)>
    decreases parts.len(),
{
    if parts.len() == 0 {
        seq![]
    } else {
        let before = happs_in_list(parts.drop_last());
        if count_of(parts.last(), "::"@) >= 2 && byte_len(parts.last()) > 5 {
            before.push((parts.last(), true))
        } else {
            before
        }
    }
}

/// What stands between the items of a bare list.
pub const LIST_SEPARATORS: &'static str = "\", \n[]";

/// The applications named line by line, where the output speaks of their state,
/// or else as a bare list.
pub open spec fn happs_named(
    output: Seq<char>,
    by_line: Seq<(Seq<char>, bool)>,
    lower: Seq<char>,
) -> Seq<(Seq<char>, bool)> {
    if tells_state(lower) && by_line.len() > 0 {
        by_line
    } else {
        happs_in_list(split(output, LIST_SEPARATORS@))
    }
}

/// The applications that a listing names.
pub open spec fn happs_listed(output: Seq<char>) -> Seq<(Seq<char>, bool)> {
    happs_named(output, happs_in_lines(lines(output)), lowercase(output))
}

/// Whether an output, in lowercase, speaks of the state of applications.
pub fn speaks_of_state(lower: &str) -> (r: bool)
    ensures
        r == tells_state(lower@),
{
    let l = chars_of(lower);
    let installed = chars_of("installed");
    let enabled = chars_of("enabled");
    contains_text(l.as_slice(), installed.as_slice()) || contains_text(
        l.as_slice(),
        enabled.as_slice(),
    )
}

/// The applications that a line names, given the line in lowercase.
pub fn live_happs_in_line(line: &str, lower: &str) -> (v: Vec<LiveHapp>)
    ensures
        live(v@) == happs_in_line(line@, lower@),
{
    let c = chars_of(line);
    let l = chars_of(lower);
    let disabled = chars_of("disabled");
    let sep = chars_of("::");
    proof {
        reveal_strlit("::");
    }
    let enabled = !contains_text(l.as_slice(), disabled.as_slice());
    let ws = words_of(c.as_slice());
    let mut v: Vec<LiveHapp> = Vec::new();
    let mut i: usize = 0;
    assert(texts(ws@).take(0) =~= Seq::<Seq<char>>::empty());
    assert(live(v@) =~= happs_in_words(texts(ws@).take(0), enabled));
    while i < ws.len()
        invariant
            i <= ws@.len(),
            sep@ == "::"@,
            sep@.len() == 2,
            live(v@) == happs_in_words(texts(ws@).take(i as int), enabled),
        decreases ws@.len() - i,
    {
        assert(texts(ws@).take(i + 1).drop_last() =~= texts(ws@).take(i as int));
        let word = ws[i];
        assert(texts(ws@).take(i + 1).last() == word@);
        if twice(word, sep.as_slice()) {
            let id = stripped(word, ",)(\"'");
            if contains_text(id, sep.as_slice()) {
                let ghost before = v@;
                v.push(LiveHapp { app_id: string_of(id), enabled });
                assert(live(v@) =~= live(before).push((id@, enabled)));
            }
        }
        i += 1;
    }
    assert(texts(ws@).take(ws@.len() as int) =~= texts(ws@));
    v
}

/// The applications that a bare list names.
pub fn live_happs_in_list(output: &str) -> (v: Vec<LiveHapp>)
    ensures
        live(v@) == happs_in_list(split(output@, LIST_SEPARATORS@)),
{
    let c = chars_of(output);
    let sep = chars_of("::");
    proof {
        reveal_strlit("::");
    }
    let parts = pieces(c.as_slice(), LIST_SEPARATORS);
    let mut v: Vec<LiveHapp> = Vec::new();
    let mut i: usize = 0;
    assert(texts(parts@).take(0) =~= Seq::<Seq<char>>::empty());
    assert(live(v@) =~= happs_in_list(texts(parts@).take(0)));
    while i < parts.len()
        invariant
            i <= parts@.len(),
            sep@ == "::"@,
            sep@.len() == 2,
            live(v@) == happs_in_list(texts(parts@).take(i as int)),
        decreases parts@.len() - i,
    {
        assert(texts(parts@).take(i + 1).drop_last() =~= texts(parts@).take(i as int));
        let part = parts[i];
        assert(texts(parts@).take(i + 1).last() == part@);
        if twice(part, sep.as_slice()) && byte_count(string_of(part).as_str()) > 5 {
            let ghost before = v@;
            v.push(LiveHapp { app_id: string_of(part), enabled: true });
            assert(live(v@) =~= live(before).push((part@, true)));
        }
        i += 1;
    }
    assert(texts(parts@).take(parts@.len() as int) =~= texts(parts@));
    v
}

/// The applications of an output, given those named line by line and the output
/// in lowercase.
pub fn choose_happs(output: &str, by_line: Vec<LiveHapp>, lower: &str) -> (v: Vec<LiveHapp>)
    ensures
        live(v@) == happs_named(output@, live(by_line@), lower@),
{
    if speaks_of_state(lower) && by_line.len() > 0 {
        by_line
    } else {
        live_happs_in_list(output)
    }
}

/// The applications that a listing names.
pub fn parse_list_happs_output(output: &str) -> (v: Vec<LiveHapp>)
    ensures
        live(v@) == happs_listed(output@),
{
    let c = chars_of(output);
    let ls = lines_of(c.as_slice());
    let mut v: Vec<LiveHapp> = Vec::new();
    let mut i: usize = 0;
    assert(texts(ls@).take(0) =~= Seq::<Seq<char>>::empty());
    assert(live(v@) =~= happs_in_lines(texts(ls@).take(0)));
    while i < ls.len()
        invariant
            i <= ls@.len(),
            live(v@) == happs_in_lines(texts(ls@).take(i as int)),
        decreases ls@.len() - i,
    {
        assert(texts(ls@).take(i + 1).drop_last() =~= texts(ls@).take(i as int));
        let line = string_of(ls[i]);
        assert(texts(ls@).take(i + 1).last() == line@);
        let lower = to_lowercase(line.as_str());
        let mut more = live_happs_in_line(line.as_str(), lower.as_str());
        let ghost before = v@;
        let ghost found = more@;
        v.append(&mut more);
        assert(live(v@) =~= live(before) + live(found));
        i += 1;
    }
    assert(texts(ls@).take(ls@.len() as int) =~= texts(ls@));
    let lower = to_lowercase(output);
    choose_happs(output, v, lower.as_str())
}

/// A number with its sign.
pub open spec fn signed(n: int) -> Seq<char> {
    if n < 0 {
        "-"@ + dec((-n) as nat)
    } else {
        dec(n as nat)
    }
}

/// Why a listing gives no applications; `None` where it does. The output is
/// missing where the container is not running.
pub open spec fn listing_error(out: Option<CommandOutput>) -> Option<Seq<char>> {
    match out {
        None => Some("EdgeNode is not running"@),
        Some(o) => if o.code != 0 && o.stdout@.len() == 0 {
            if o.stderr@.len() == 0 {
                Some("list_happs failed (exit "@ + signed(o.code as int) + ")"@)
            } else {
                Some(o.stderr@)
            }
        } else {
            None
        },
    }
}

/// The installed applications, given what the listing left behind, or nothing
/// where the container is not running.
pub fn list_installed_happs(out: Option<&CommandOutput>) -> (r: Result<Vec<LiveHapp>, String>)
    ensures
        (match r {
            Ok(v) => out is Some && listing_error(Some(*out->0)) is None && live(v@)
                == happs_listed(printed(*out->0)),
            Err(msg) => listing_error(
                match out {
                    Some(o) => Some(*o),
                    None => None,
                },
            ) == Some(msg@),
        }),
{
    match out {
        None => Err("EdgeNode is not running".to_owned()),
        Some(o) => {
            if o.code != 0 && is_blank(o.stdout.as_str()) {
                if is_blank(o.stderr.as_str()) {
                    let mut msg = "list_happs failed (exit ".to_owned();
                    if o.code < 0 {
                        msg.append("-");
                        push_dec(&mut msg, (-(o.code as i128)) as u128);
                    } else {
                        push_dec(&mut msg, o.code as u128);
                    }
                    msg.append(")");
                    assert(msg@ =~= "list_happs failed (exit "@ + signed(o.code as int) + ")"@);
                    return Err(msg);
                }
                return Err(o.stderr.as_str().to_owned());
            }
            Ok(parse_list_happs_output(all_printed(o).as_str()))
        },
    }
}

// ---------------------------------------------------------------------------
// The status of a deployment
// ---------------------------------------------------------------------------

/// Whether an application runs, where the container knows it.
pub open spec fn enabled_in(l: Seq<(Seq<char>, bool)>, id: Seq<char>) -> Option<bool>
    decreases l.len(),
{
    if l.len() == 0 {
        None
    } else if l[0].0 == id {
        Some(l[0].1)
    } else {
        enabled_in(l.drop_first(), id)
    }
}

/// The status of a deployment in the light of what the container knows.
pub open spec fn status_shown(d: DeploymentView, l: Seq<(Seq<char>, bool)>) -> Seq<char> {
    if d.status == "installing"@ || d.app_id.len() == 0 {
        d.status
    } else {
        match enabled_in(l, d.app_id) {
            Some(true) => "running"@,
            Some(false) => "paused"@,
            None => "error"@,
        }
    }
}

/// The status of a deployment in the light of what the container knows: one that
/// is being installed, or has no id yet, stays as it is; one that the container
/// does not know is an error.
pub fn reconcile_deployment_status(d: &Deployment, list: &Vec<LiveHapp>) -> (r: String)
    ensures
        r@ == status_shown(d@, live(list@)),
{
    if same(d.status.as_str(), "installing") || is_blank(d.app_id.as_str()) {
        return d.status.as_str().to_owned();
    }
    let ghost l = live(list@);
    let mut i: usize = 0;
    assert(l.skip(0) =~= l);
    while i < list.len()
        invariant
            i <= list@.len(),
            l == live(list@),
            d@.status != "installing"@,
            d@.app_id.len() > 0,
            enabled_in(l, d@.app_id) == enabled_in(l.skip(i as int), d@.app_id),
        decreases list@.len() - i,
    {
        assert(l.skip(i as int).drop_first() =~= l.skip(i + 1));
        assert(l.skip(i as int)[0] == (list@[i as int].app_id@, list@[i as int].enabled));
        if same(list[i].app_id.as_str(), d.app_id.as_str()) {
            return if list[i].enabled {
                "running".to_owned()
            } else {
                "paused".to_owned()
            };
        }
        i += 1;
    }
    "error".to_owned()
}

/// Why applications cannot be managed now.
pub open spec fn prereq_error(state: StateView, running: bool) -> Option<Seq<char>> {
    if state.hw_mode == WIND_TUNNEL@ {
        Some("Switch to Standard EdgeNode mode in Mode before managing hApps."@)
    } else if !running {
        Some("EdgeNode is not running. Start Standard EdgeNode mode first."@)
    } else {
        None
    }
}

/// Why applications cannot be managed now, given whether the container runs.
pub fn happs_prereq_error(state: &AppState, running: bool) -> (r: Option<String>)
    ensures
        opt(r) == prereq_error(state@, running),
{
    if state.in_wind_tunnel() {
        return Some("Switch to Standard EdgeNode mode in Mode before managing hApps.".to_owned());
    }
    if !running {
        return Some("EdgeNode is not running. Start Standard EdgeNode mode first.".to_owned());
    }
    None
}

// ---------------------------------------------------------------------------
// Installing
// ---------------------------------------------------------------------------

/// How many bytes of an installation's output are remembered as its error.
pub const ERROR_LIMIT: usize = 2000;

/// What is remembered of an output as an error: all of it, or its beginning.
pub open spec fn error_kept(output: Seq<char>) -> Seq<char> {
    if byte_len(output) > ERROR_LIMIT {
        bytes_before(output, ERROR_LIMIT as int)
    } else {
        output
    }
}

/// The limit does not cut through a character of a long output.
pub open spec fn error_cuttable(output: Seq<char>) -> bool {
    byte_len(output) > ERROR_LIMIT ==> is_char_boundary(encode_utf8(output), ERROR_LIMIT as int)
}

/// An installation with the given exit code and output went well.
pub open spec fn went_well(code: i32, output: Seq<char>) -> bool {
    code == 0 && installed_id(output).len() > 0
}

/// A deployment after its installation.
pub open spec fn after_install(
    d: DeploymentView,
    code: i32,
    output: Seq<char>,
    now: nat,
) -> DeploymentView {
    if went_well(code, output) {
        DeploymentView {
            status: "running"@,
            app_id: installed_id(output),
            deployed_at: iso_of(now),
            last_error: Seq::empty(),
            ..d
        }
    } else {
        DeploymentView { status: "error"@, last_error: error_kept(output), ..d }
    }
}

/// The effects of the end of an installation: the deployment, where there still is
/// one, is remembered with the result.
pub open spec fn install_finished(
    id: Seq<char>,
    code: i32,
    output: Seq<char>,
    content: Seq<char>,
    now: nat,
) -> Seq<EffectView> {
    let ds = deployments_of(content);
    match position_of(ds, id) {
        Some(p) => deployments_kept(ds.update(p, after_install(ds[p], code, output, now))),
        None => Seq::empty(),
    }
}

/// The result of an installation can be remembered: there is no deployment left, it
/// went well, or its output can be cut off.
pub open spec fn result_keepable(
    id: Seq<char>,
    code: i32,
    output: Seq<char>,
    content: Seq<char>,
) -> bool {
    position_of(deployments_of(content), id) is None || went_well(code, output) || error_cuttable(
        output,
    )
}

/// Whether the result of an installation can be remembered.
pub fn result_is_keepable(id: &str, code: i32, output: &str, content: &str) -> (r: bool)
    ensures
        r == result_keepable(id@, code, output@, content@),
{
    let cuttable = byte_count(output) <= ERROR_LIMIT || split_at_byte(
        output,
        ERROR_LIMIT,
    ).is_some();
    let app_id = extract_app_id_from_install_output(output);
    let list = read_deployments(content);
    cuttable || (code == 0 && !is_blank(app_id.as_str())) || find_deployment(&list, id).is_none()
}

/// What is remembered of an output as an error.
fn kept_error(output: &str) -> (r: String)
    requires
        error_cuttable(output@),
    ensures
        r@ == error_kept(output@),
{
    if byte_count(output) > ERROR_LIMIT {
        match split_at_byte(output, ERROR_LIMIT) {
            Some((start, _)) => start,
            None => String::new(),
        }
    } else {
        output.to_owned()
    }
}

/// What is done before an installation.
pub fn prepare_install() -> (v: Vec<Effect>)
    ensures
        effects(v@) == seq![EffectView::MakeDir(HAPP_LOGS_DIR@)],
{
    let mut v = no_effects();
    push_effect(&mut v, make_dir(HAPP_LOGS_DIR));
    assert(effects(v@) =~= seq![EffectView::MakeDir(HAPP_LOGS_DIR@)]);
    v
}

/// Keeps the output of an installation.
pub fn keep_install_log(id: &str, output: &str) -> (v: Vec<Effect>)
    ensures
        effects(v@) == seq![EffectView::Write(log_path(id@), output@)],
{
    let mut v = no_effects();
    push_effect(&mut v, write_file(install_log_path(id).as_str(), output));
    assert(effects(v@) =~= seq![EffectView::Write(log_path(id@), output@)]);
    v
}

/// What is done at the end of an installation, once its output was kept, given the
/// content of the file that remembers the deployments, and the time in seconds.
pub fn finish_install(id: &str, code: i32, output: &str, content: &str, now: u64) -> (v: Vec<
    Effect,
>)
    requires
        result_keepable(id@, code, output@, content@),
    ensures
        effects(v@) == install_finished(id@, code, output@, content@, now as nat),
{
    let mut v = no_effects();
    let mut list = read_deployments(content);
    let app_id = extract_app_id_from_install_output(output);
    let ghost before = deployments(list@);
    proof {
        lemma_position_of(before, id@);
    }
    match find_deployment(&list, id) {
        Some(p) => {
            let old = list.remove(p);
            assert(old@ == before[p as int]);
            let new = if code == 0 && !is_blank(app_id.as_str()) {
                Deployment {
                    id: old.id,
                    app_name: old.app_name,
                    app_version: old.app_version,
                    app_id,
                    status: "running".to_owned(),
                    deployed_at: utc_now_iso(now),
                    last_error: String::new(),
                    manifest: old.manifest,
                }
            } else {
                Deployment {
                    id: old.id,
                    app_name: old.app_name,
                    app_version: old.app_version,
                    app_id: old.app_id,
                    status: "error".to_owned(),
                    deployed_at: old.deployed_at,
                    last_error: kept_error(output),
                    manifest: old.manifest,
                }
            };
            let ghost changed = new@;
            assert(changed == after_install(before[p as int], code, output@, now as nat));
            list.insert(p, new);
            assert(deployments(list@) =~= before.update(p as int, changed));
            add_all(&mut v, write_deployments(&list));
        },
        None => {},
    }
    assert(effects(v@) =~= install_finished(id@, code, output@, content@, now as nat));
    v
}

/// An installation ends in one of two ways: the application runs under an id and
/// has no error, or the deployment says that it failed. The deployment keeps its
/// own id, name, version and manifest either way.
pub proof fn law_install_ends(d: DeploymentView, code: i32, output: Seq<char>, now: nat)
    ensures
        ({
            let e = after_install(d, code, output, now);
            &&& e.id == d.id && e.app_name == d.app_name && e.app_version == d.app_version
                && e.manifest == d.manifest
            &&& e.status == "running"@ <==> went_well(code, output)
            &&& e.status == "error"@ <==> !went_well(code, output)
            &&& e.status == "running"@ ==> e.app_id.len() > 0 && e.last_error.len() == 0
        }),
{
    reveal_strlit("running");
    reveal_strlit("error");
    assert("running"@.len() == 7);
    assert("error"@.len() == 5);
}

/// How the list of deployments changes when the installation of the one at position
/// `p` ends: every other deployment stays as it was, at its place; that one keeps its
/// id, name, version and manifest, and says that it runs, under the id that was
/// printed and since the given time, or that it failed, with the output as its error.
pub open spec fn install_recorded(
    ds: Seq<DeploymentView>,
    p: int,
    code: i32,
    output: Seq<char>,
    now: nat,
    es: Seq<DeploymentView>,
) -> bool {
    &&& es.len() == ds.len()
    &&& forall|j: int| 0 <= j < ds.len() && j != p ==> #[trigger] es[j] == ds[j]
    &&& es[p].id == ds[p].id
    &&& es[p].app_name == ds[p].app_name
    &&& es[p].app_version == ds[p].app_version
    &&& es[p].manifest == ds[p].manifest
    &&& if code == 0 && installed_id(output).len() > 0 {
        &&& es[p].status == "running"@
        &&& es[p].app_id == installed_id(output)
        &&& es[p].deployed_at == iso_of(now)
        &&& es[p].last_error.len() == 0
    } else {
        &&& es[p].status == "error"@
        &&& es[p].app_id == ds[p].app_id
        &&& es[p].deployed_at == ds[p].deployed_at
        &&& byte_len(output) <= 2000 ==> es[p].last_error == output
        &&& byte_len(output) > 2000 && error_cuttable(output) ==> byte_len(es[p].last_error) == 2000
            && starts_with(output, es[p].last_error)
    }
}

/// The end of an installation changes the one deployment in the file: the list that
/// is written is as long as the one that was read, and has every other deployment in
/// its place; where the file can hold the list, it is read back.
pub proof fn law_install_changes_one_deployment(
    id: Seq<char>,
    code: i32,
    output: Seq<char>,
    content: Seq<char>,
    now: nat,
    p: int,
)
    requires
        0 <= p < deployments_of(content).len(),
        deployments_of(content)[p].id == id,
        forall|j: int| 0 <= j < p ==> (#[trigger] deployments_of(content)[j]).id != id,
    ensures
        exists|es: Seq<DeploymentView>|
            {
                &&& #[trigger] install_recorded(
                    deployments_of(content),
                    p,
                    code,
                    output,
                    now,
                    es,
                )
                &&& install_finished(id, code, output, content, now) == list_written(es)
                &&& (forall|i: int| 0 <= i < es.len() ==> recordable(#[trigger] es[i]))
                    ==> deployments_of(deployments_json(es)) == es
            },
{
    let ds = deployments_of(content);
    lemma_position_of(ds, id);
    assert(position_of(ds, id) == Some(p));
    let es = ds.update(p, after_install(ds[p], code, output, now));
    lemma_error_kept(output);
    assert(install_recorded(ds, p, code, output, now, es));
    assert(install_finished(id, code, output, content, now) =~= list_written(es));
    if forall|i: int| 0 <= i < es.len() ==> recordable(#[trigger] es[i]) {
        law_deployments_round_trip(es);
    }
}

/// The effects of writing a list of deployments to their file, which only root may
/// read.
pub open spec fn list_written(ds: Seq<DeploymentView>) -> Seq<EffectView> {
    seq![
        EffectView::MakeDir("/etc/node-manager"@),
        EffectView::Write("/etc/node-manager/deployments.json"@, deployments_json(ds)),
        EffectView::Run(seq!["chmod"@, "600"@, "/etc/node-manager/deployments.json"@]),
    ]
}

/// The end of an installation whose deployment was removed meanwhile writes nothing.
pub proof fn law_install_of_removed_deployment(
    id: Seq<char>,
    code: i32,
    output: Seq<char>,
    content: Seq<char>,
    now: nat,
)
    requires
        forall|j: int|
            0 <= j < deployments_of(content).len() ==> (#[trigger] deployments_of(content)[j]).id
                != id,
    ensures
        install_finished(id, code, output, content, now).len() == 0,
{
    lemma_position_of(deployments_of(content), id);
}

/// A long output that can be cut is remembered by its first bytes.
proof fn lemma_error_kept(output: Seq<char>)
    ensures
        byte_len(output) <= 2000 ==> error_kept(output) == output,
        byte_len(output) > 2000 && error_cuttable(output) ==> byte_len(error_kept(output)) == 2000
            && starts_with(output, error_kept(output)),
{
    if byte_len(output) > 2000 && error_cuttable(output) {
        law_bytes_come_apart(output, 2000);
        let start = bytes_before(output, 2000);
        let all = start + bytes_after(output, 2000);
        assert(all.subrange(0, 0 + start.len() as int) =~= start);
    }
}

/// While a deployment is being installed its status is shown as such, whatever
/// the container knows; once it has an id, the container decides.
pub proof fn law_status_follows_container(d: DeploymentView, l: Seq<(Seq<char>, bool)>)
    ensures
        d.status == "installing"@ ==> status_shown(d, l) == "installing"@,
        d.status != "installing"@ && d.app_id.len() > 0 ==> (status_shown(d, l) == "running"@
            <==> enabled_in(l, d.app_id) == Some(true)) && (status_shown(d, l) == "paused"@
            <==> enabled_in(l, d.app_id) == Some(false)) && (status_shown(d, l) == "error"@
            <==> enabled_in(l, d.app_id) is None),
{
    reveal_strlit("running");
    reveal_strlit("error");
    reveal_strlit("paused");
    assert("running"@.len() == 7);
    assert("error"@.len() == 5);
    assert("paused"@.len() == 6);
}

} // verus!
