//! What holds of applications: how they are named in files and commands, what the
//! output of commands says of them, and what requests about them lead to.
use vstd::prelude::*;
use vstd::utf8::is_ascii_chars;

use crate::deployment_laws::{is_object, lemma_block_end};
use crate::deployments::{
    deployment_of, deployments_of, lemma_position_of, position_of, upserted, without_id,
    DeploymentView,
};
use crate::escape::{
    escaped, law_shell_reads_back, lemma_json_plain, shell_word, single_quoted, Escape,
};
use crate::happ_handlers::{
    app_answer, app_plan, check_refusal, deploy_begun, deploy_plan, id_in_query, install_log_shown,
    items_json, known, list_json, logs_json, manifest_refusal, new_deployment, uninstall_end,
    uninstall_plan, uninstall_target, validate_plan,
};
use crate::happs::{
    bracketed_id, container_script, enabled_in, happs_in_line, happs_in_lines, happs_in_list,
    happs_in_words, happs_listed, happs_named, has_agreement, id_in_lines, id_in_words,
    install_command, installed_id, list_written, listing_error, log_path, manifest_written, only,
    prereq_error, printed, status_shown, tail_shown, CommandOutput,
};
use crate::http::{PlanView, ReplyView};
use crate::json::{
    after, block_end, flag_field, keyed, lemma_quoted_value, nested_field, object_field, quoted,
    raw_field, string_field,
};
use crate::number::{dec, hex, is_lower_hex, lemma_hex};
use crate::request_laws::{
    encoded_fields, joined_by, law_query_param_found_among_others, stands_for_itself,
};
use crate::split::{
    count_of, is_space, lemma_split_once, lines, split, strip, strip_end, strip_start, trim,
    trim_start, words,
};
use crate::state::StateView;
use crate::text::{
    byte_len, find, find_any, lemma_find_any_from, lemma_find_from, lowercase, matches_at, occurs,
};
use crate::update::lemma_first_behind;

verus! {

// ---------------------------------------------------------------------------
// Fields of requests and manifests
// ---------------------------------------------------------------------------

/// The string under a key that first stands behind `before` is the one in quotes
/// behind its colon, whatever white space stands between.
pub proof fn law_string_field_read(
    before: Seq<char>,
    key: Seq<char>,
    gap: Seq<char>,
    value: Seq<char>,
    rest: Seq<char>,
)
    requires
        !value.contains('"'),
        forall|i: int| 0 <= i < gap.len() ==> is_space(#[trigger] gap[i]),
        !occurs(before + quoted(key).drop_last(), quoted(key)),
    ensures
        string_field(before + quoted(key) + seq![':'] + gap + quoted(value) + rest, key) == value,
{
    let none = Seq::<char>::empty();
    let tail = gap + (quoted(value) + rest);
    let text = before + quoted(key) + seq![':'] + gap + quoted(value) + rest;
    lemma_first_behind(before, quoted(key), seq![':'] + tail);
    assert(text =~= before + quoted(key) + (seq![':'] + tail));
    assert(text.skip(before.len() as int + quoted(key).len()) =~= none + seq![':'] + tail);
    reveal_strlit(":");
    assert(":"@ =~= seq![':']);
    lemma_split_once(none, ':', tail, ":"@);
    lemma_trim_gap(gap, quoted(value) + rest);
    lemma_quoted_value(value, rest);
}

proof fn lemma_trim_gap(gap: Seq<char>, s: Seq<char>)
    requires
        forall|i: int| 0 <= i < gap.len() ==> is_space(#[trigger] gap[i]),
    ensures
        trim_start(gap + s) == trim_start(s),
    decreases gap.len(),
{
    if gap.len() == 0 {
        assert(gap + s =~= s);
    } else {
        assert(is_space(gap[0]));
        assert((gap + s).drop_first() =~= gap.drop_first() + s);
        assert forall|i: int| 0 <= i < gap.drop_first().len() implies is_space(
            #[trigger] gap.drop_first()[i],
        ) by {
            assert(gap.drop_first()[i] == gap[i + 1]);
        }
        lemma_trim_gap(gap.drop_first(), s);
    }
}

/// A key that a text does not name has no string, no object and no value, and the
/// truth under it is the one that counts then.
pub proof fn law_missing_field(json: Seq<char>, key: Seq<char>, default: bool)
    requires
        !occurs(json, quoted(key)),
    ensures
        string_field(json, key).len() == 0,
        flag_field(json, key, default) == default,
        object_field(json, key).len() == 0,
        raw_field(json, key).len() == 0,
{
    lemma_find_from(json, quoted(key), 0);
    lemma_find_from(json, keyed(key), 0);
    match find(json, keyed(key)) {
        Some(p) => {
            assert(json.subrange(p, p + quoted(key).len()) =~= json.subrange(
                p,
                p + keyed(key).len(),
            ).take(quoted(key).len() as int));
            assert(keyed(key).take(quoted(key).len() as int) =~= quoted(key));
            assert(matches_at(json, quoted(key), p));
        },
        None => {},
    }
}

/// The truth under a key is false exactly where the string there is `false` or `0`.
pub proof fn law_flag_read(
    before: Seq<char>,
    key: Seq<char>,
    value: Seq<char>,
    rest: Seq<char>,
    default: bool,
)
    requires
        !value.contains('"'),
        !occurs(before + quoted(key).drop_last(), quoted(key)),
    ensures
        flag_field(before + quoted(key) + seq![':'] + quoted(value) + rest, key, default) == !(value
            == "false"@ || value == "0"@),
{
    let none = Seq::<char>::empty();
    let text = before + quoted(key) + seq![':'] + quoted(value) + rest;
    law_string_field_read(before, key, none, value, rest);
    assert(before + quoted(key) + seq![':'] + none + quoted(value) + rest =~= text);
    lemma_first_behind(before, quoted(key), seq![':'] + quoted(value) + rest);
    assert(text =~= before + quoted(key) + (seq![':'] + quoted(value) + rest));
}

/// What stands behind a key that first stands behind `before`.
proof fn lemma_behind_key(before: Seq<char>, key: Seq<char>, rest: Seq<char>)
    requires
        !occurs(before + keyed(key).drop_last(), keyed(key)),
    ensures
        after(before + keyed(key) + rest, keyed(key)) == Some(rest),
{
    lemma_first_behind(before, keyed(key), rest);
    let text = before + keyed(key) + rest;
    assert(text.skip(before.len() as int + keyed(key).len()) =~= rest);
}

/// The object under a key is the one that follows, up to the brace that closes it, and
/// the strings in it are found there.
pub proof fn law_object_field_read(
    before: Seq<char>,
    key: Seq<char>,
    gap: Seq<char>,
    obj: Seq<char>,
    rest: Seq<char>,
    inner: Seq<char>,
)
    requires
        is_object(obj),
        forall|i: int| 0 <= i < gap.len() ==> is_space(#[trigger] gap[i]),
        !occurs(before + keyed(key).drop_last(), keyed(key)),
    ensures
        object_field(before + keyed(key) + gap + obj + rest, key) == obj,
        raw_field(before + keyed(key) + gap + obj + rest, key) == obj,
        nested_field(before + keyed(key) + gap + obj + rest, key, inner) == string_field(
            obj,
            inner,
        ),
{
    let tail = gap + (obj + rest);
    let text = before + keyed(key) + gap + obj + rest;
    assert(text =~= before + keyed(key) + tail);
    lemma_behind_key(before, key, tail);
    lemma_trim_gap(gap, obj + rest);
    assert((obj + rest)[0] == '{');
    assert(trim_start(obj + rest) == obj + rest);
    lemma_block_end(obj, rest, 0);
    assert(obj.take(0) =~= Seq::<char>::empty());
    assert((obj + rest).take(obj.len() as int) =~= obj);
}

proof fn lemma_array_end(s: Seq<char>, n: int, i: int)
    requires
        1 <= i <= n < s.len(),
        forall|j: int| 1 <= j < n ==> #[trigger] s[j] != '[' && s[j] != ']',
        s[n] == ']',
    ensures
        block_end(s, '[', ']', i, 1) == Some(n),
    decreases n - i,
{
    if i < n {
        assert(s[i] != '[' && s[i] != ']');
        lemma_array_end(s, n, i + 1);
    }
}

/// The value under a key may be a string, which is given without its quotes, or an
/// array, which is given with its brackets.
pub proof fn law_raw_field_read(
    before: Seq<char>,
    key: Seq<char>,
    value: Seq<char>,
    items: Seq<char>,
    rest: Seq<char>,
)
    requires
        !value.contains('"'),
        !items.contains('['),
        !items.contains(']'),
        !occurs(before + keyed(key).drop_last(), keyed(key)),
    ensures
        raw_field(before + keyed(key) + quoted(value) + rest, key) == value,
        raw_field(before + keyed(key) + (seq!['['] + items + seq![']']) + rest, key) == seq!['[']
            + items + seq![']'],
{
    let text = before + keyed(key) + quoted(value) + rest;
    assert(text =~= before + keyed(key) + (quoted(value) + rest));
    lemma_behind_key(before, key, quoted(value) + rest);
    lemma_quoted_value(value, rest);
    assert((quoted(value) + rest)[0] == '"');
    let array = seq!['['] + items + seq![']'];
    let tail = array + rest;
    assert(before + keyed(key) + array + rest =~= before + keyed(key) + tail);
    lemma_behind_key(before, key, tail);
    assert(tail[0] == '[');
    assert(trim_start(tail) == tail);
    let n = items.len() as int + 1;
    assert forall|j: int| 1 <= j < n implies #[trigger] tail[j] != '[' && tail[j] != ']' by {
        assert(tail[j] == items[j - 1]);
        assert(items.contains(items[j - 1]));
    }
    assert(tail[n] == ']');
    lemma_array_end(tail, n, 1);
    assert(block_end(tail, '[', ']', 0, 0) == block_end(tail, '[', ']', 1, 1));
    assert(tail.take(n + 1) =~= array);
}

/// A manifest names an agreement on payment exactly where its object `economics` has
/// a string under `agreementHash`.
pub proof fn law_agreement_in_manifest(
    before: Seq<char>,
    economics: Seq<char>,
    rest: Seq<char>,
    other: Seq<char>,
)
    requires
        is_object(economics),
        !occurs(before + keyed("economics"@).drop_last(), keyed("economics"@)),
        !occurs(other, quoted("economics"@)),
    ensures
        has_agreement(before + keyed("economics"@) + economics + rest) <==> string_field(
            economics,
            "agreementHash"@,
        ).len() > 0,
        !has_agreement(other),
{
    let none = Seq::<char>::empty();
    law_object_field_read(before, "economics"@, none, economics, rest, none);
    assert(before + keyed("economics"@) + none + economics + rest =~= before + keyed("economics"@)
        + economics + rest);
    law_missing_field(other, "economics"@, true);
}

// ---------------------------------------------------------------------------
// Files and commands
// ---------------------------------------------------------------------------

/// The file name of a manifest keeps the letters and digits of a name, and two more
/// characters, in order.
pub proof fn law_file_name_characters(s: Seq<char>, x: char, y: char)
    ensures
        only(s, seq![x, y]) == s.filter(
            |c: char|
                'a' <= c <= 'z' || 'A' <= c <= 'Z' || '0' <= c <= '9' || c == x || c == y,
        ),
    decreases s.len(),
{
    reveal(Seq::filter);
    if s.len() > 0 {
        law_file_name_characters(s.drop_last(), x, y);
        let more = seq![x, y];
        assert(more[0] == x && more[1] == y);
        assert(more.contains(s.last()) <==> s.last() == x || s.last() == y);
    }
}

/// A manifest is written, as it is, to the file of its name and version in the
/// directory that the container sees; a name or a version without a single character
/// that a file name may have is refused.
pub proof fn law_manifest_file(name: Seq<char>, version: Seq<char>, manifest: Seq<char>)
    ensures
        ({
            let n = name.filter(
                |c: char|
                    'a' <= c <= 'z' || 'A' <= c <= 'Z' || '0' <= c <= '9' || c == '_' || c == '-',
            );
            let v = version.filter(
                |c: char|
                    'a' <= c <= 'z' || 'A' <= c <= 'Z' || '0' <= c <= '9' || c == '.' || c == '-',
            );
            let r = manifest_written(name, version, manifest);
            &&& r is None <==> n.len() == 0 || v.len() == 0
            &&& r matches Some((file, path)) ==> file.content == manifest && file.dir
                == "/var/lib/edgenode/manifests"@ && file.path == "/var/lib/edgenode/manifests/"@
                + n + "-"@ + v + ".json"@ && path == "/data/manifests/"@ + n + "-"@ + v + ".json"@
        }),
{
    let n = name.filter(
        |c: char| 'a' <= c <= 'z' || 'A' <= c <= 'Z' || '0' <= c <= '9' || c == '_' || c == '-',
    );
    let v = version.filter(
        |c: char| 'a' <= c <= 'z' || 'A' <= c <= 'Z' || '0' <= c <= '9' || c == '.' || c == '-',
    );
    reveal_strlit("_-");
    reveal_strlit(".-");
    assert("_-"@ =~= seq!['_', '-']);
    assert(".-"@ =~= seq!['.', '-']);
    law_file_name_characters(name, '_', '-');
    law_file_name_characters(version, '.', '-');
    reveal_strlit("/var/lib/edgenode/manifests");
    reveal_strlit("/var/lib/edgenode/manifests/");
    reveal_strlit("/");
    assert("/var/lib/edgenode/manifests"@ + "/"@ =~= "/var/lib/edgenode/manifests/"@);
    if n.len() > 0 && v.len() > 0 {
        let file = n + "-"@ + v + ".json"@;
        assert("/var/lib/edgenode/manifests"@ + "/"@ + file =~= "/var/lib/edgenode/manifests/"@ + n
            + "-"@ + v + ".json"@);
        assert("/data/manifests/"@ + file =~= "/data/manifests/"@ + n + "-"@ + v + ".json"@);
    }
}

/// A line of the shell runs a command in the container as its user: what follows the
/// fixed words is read by the shell as one word, the command.
pub open spec fn runs_in_container(line: Seq<char>, command: Seq<char>) -> bool {
    let head = "podman exec edgenode su - nonroot -c "@;
    &&& line.len() >= head.len()
    &&& line.take(head.len() as int) == head
    &&& shell_word(line.skip(head.len() as int), false) == Some(command)
}

/// Every command for the container is handed to it whole, whatever characters are in
/// it.
pub proof fn law_command_reaches_container(command: Seq<char>)
    ensures
        runs_in_container(container_script(command), command),
{
    let head = "podman exec edgenode su - nonroot -c "@;
    let line = container_script(command);
    law_shell_reads_back(command);
    assert(line.take(head.len() as int) =~= head);
    assert(line.skip(head.len() as int) =~= single_quoted(command));
}

/// Installing names the manifest and then the node, where it has a name.
pub proof fn law_install_command(path: Seq<char>, node_name: Seq<char>)
    ensures
        node_name.len() == 0 ==> runs_in_container(
            container_script(install_command(path, node_name)),
            "install_happ "@ + path,
        ),
        node_name.len() > 0 ==> runs_in_container(
            container_script(install_command(path, node_name)),
            "install_happ "@ + path + " "@ + node_name,
        ),
{
    law_command_reaches_container(install_command(path, node_name));
}

/// The output of an installation is kept under the id of the deployment, and shown
/// from there; without an id or a file, that is said.
pub proof fn law_install_log(id: Seq<char>, text: Seq<char>)
    ensures
        log_path(id) == "/etc/node-manager/happ-logs/"@ + id + ".log"@,
        install_log_shown(true, Some(text)) == text,
        install_log_shown(true, None) == "(no install log available)"@,
        install_log_shown(false, Some(text)) == "(no deployment id specified)"@,
        install_log_shown(false, None) == "(no deployment id specified)"@,
{
    reveal_strlit("/etc/node-manager/happ-logs");
    reveal_strlit("/etc/node-manager/happ-logs/");
    reveal_strlit("/");
    assert("/etc/node-manager/happ-logs"@ + "/"@ =~= "/etc/node-manager/happ-logs/"@);
}

/// The end of a log is shown as it was printed, errors last, unless there is nothing
/// but white space in it.
pub proof fn law_tail_shown(out: CommandOutput)
    ensures
        trim(out.stdout@ + out.stderr@).len() > 0 ==> tail_shown(out) == out.stdout@ + out.stderr@,
        trim(out.stdout@ + out.stderr@).len() == 0 ==> tail_shown(out)
            == "(log empty or unavailable)"@,
{
}

// ---------------------------------------------------------------------------
// What the container prints
// ---------------------------------------------------------------------------

/// A text with a double colon at two places, one behind the other.
proof fn lemma_two_colons(a: Seq<char>, b: Seq<char>, c: Seq<char>)
    ensures
        count_of(a + "::"@ + b + "::"@ + c, "::"@) >= 2,
{
    let pat = "::"@;
    let s = a + pat + b + pat + c;
    reveal_strlit("::");
    assert(pat.len() == 2);
    let n = a.len() as int;
    let m = n + 2 + b.len();
    assert(s.subrange(n, n + 2) =~= pat);
    assert(s.subrange(m, m + 2) =~= pat);
    assert(matches_at(s, pat, n));
    lemma_find_from(s, pat, 0);
    let p = find(s, pat)->0;
    assert(p <= n);
    let rest = s.skip(p + 2);
    assert(rest.subrange(m - p - 2, m - p) =~= s.subrange(m, m + 2));
    assert(matches_at(rest, pat, m - p - 2));
    lemma_find_from(rest, pat, 0);
    assert(find(rest, pat) is Some);
    assert(count_of(rest, pat) >= 1);
}

/// A text with a double colon at one place alone.
proof fn lemma_one_colon(a: Seq<char>, b: Seq<char>)
    requires
        !occurs(a + ":"@, "::"@),
        !occurs(b, "::"@),
    ensures
        count_of(a + "::"@ + b, "::"@) == 1,
{
    let pat = "::"@;
    let s = a + pat + b;
    reveal_strlit("::");
    reveal_strlit(":");
    assert(pat.drop_last() =~= ":"@);
    lemma_first_behind(a, pat, b);
    assert(s.skip(a.len() as int + pat.len()) =~= b);
    assert(count_of(b, pat) == 0);
}

/// A word with a single double colon is no id: it names no application, neither in a
/// line nor in a bare list.
pub proof fn law_one_colon_is_no_id(a: Seq<char>, b: Seq<char>, enabled: bool)
    requires
        !occurs(a + ":"@, "::"@),
        !occurs(b, "::"@),
    ensures
        happs_in_words(seq![a + "::"@ + b], enabled).len() == 0,
        happs_in_list(seq![a + "::"@ + b]).len() == 0,
        id_in_words(seq![a + "::"@ + b], 0).len() == 0,
{
    let word = a + "::"@ + b;
    let none = Seq::<Seq<char>>::empty();
    lemma_one_colon(a, b);
    assert(seq![word].drop_last() =~= none);
    assert(happs_in_words(none, enabled).len() == 0);
    assert(happs_in_list(none).len() == 0);
    assert(id_in_words(seq![word], 1).len() == 0);
}

/// The id of an installed application is what stands in the first round brackets of
/// the first line that has an id there: a text with a double colon in it.
pub proof fn law_id_in_brackets(
    output: Seq<char>,
    k: int,
    before: Seq<char>,
    id: Seq<char>,
    rest: Seq<char>,
)
    requires
        0 <= k < lines(output).len(),
        lines(output)[k] == before + seq!['('] + id + seq![')'] + rest,
        !before.contains('('),
        !id.contains(')'),
        occurs(id, "::"@),
        forall|j: int|
            0 <= j < k ==> !(#[trigger] lines(output)[j]).contains('(') || !lines(
                output,
            )[j].contains(')') || !occurs(lines(output)[j], "::"@),
    ensures
        installed_id(output) == id,
{
    reveal_strlit("(");
    reveal_strlit(")");
    assert("("@ =~= seq!['(']);
    assert(")"@ =~= seq![')']);
    let ls = lines(output);
    let tail = id + seq![')'] + rest;
    assert(ls[k] =~= before + seq!['('] + tail);
    lemma_split_once(before, '(', tail, "("@);
    lemma_split_once(id, ')', rest, ")"@);
    assert(bracketed_id(ls[k]) == Some(id));
    assert forall|j: int| 0 <= j < k implies bracketed_id(#[trigger] ls[j]) is None by {
        lemma_no_bracketed_id(ls[j]);
    }
    lemma_id_in_lines(ls, k, 0);
}

proof fn lemma_no_bracketed_id(line: Seq<char>)
    requires
        !line.contains('(') || !line.contains(')') || !occurs(line, "::"@),
    ensures
        bracketed_id(line) is None,
{
    reveal_strlit("(");
    reveal_strlit(")");
    assert("("@ =~= seq!['(']);
    assert(")"@ =~= seq![')']);
    lemma_find_any_from(line, "("@, 0);
    match find_any(line, "("@) {
        None => {},
        Some(p) => {
            assert(line.contains(line[p]));
            let rest = line.skip(p + 1);
            lemma_find_any_from(rest, ")"@, 0);
            match find_any(rest, ")"@) {
                None => {},
                Some(q) => {
                    assert(line[p + 1 + q] == rest[q]);
                    assert(line.contains(line[p + 1 + q]));
                    let inside = rest.take(q);
                    lemma_find_from(inside, "::"@, 0);
                    lemma_find_from(line, "::"@, 0);
                    match find(inside, "::"@) {
                        Some(i) => {
                            assert(inside.subrange(i, i + "::"@.len()) =~= line.subrange(
                                p + 1 + i,
                                p + 1 + i + "::"@.len(),
                            ));
                            assert(matches_at(line, "::"@, p + 1 + i));
                        },
                        None => {},
                    }
                },
            }
        },
    }
}

proof fn lemma_id_in_lines(ls: Seq<Seq<char>>, k: int, i: int)
    requires
        0 <= i <= k < ls.len(),
        bracketed_id(ls[k]) is Some,
        forall|j: int| 0 <= j < k ==> bracketed_id(#[trigger] ls[j]) is None,
    ensures
        id_in_lines(ls, i) == bracketed_id(ls[k]),
    decreases k - i,
{
    if i < k {
        assert(bracketed_id(ls[i]) is None);
        lemma_id_in_lines(ls, k, i + 1);
    }
}

proof fn lemma_no_id_in_lines(ls: Seq<Seq<char>>, i: int)
    requires
        0 <= i <= ls.len(),
        forall|j: int| 0 <= j < ls.len() ==> bracketed_id(#[trigger] ls[j]) is None,
    ensures
        id_in_lines(ls, i) is None,
    decreases ls.len() - i,
{
    if i < ls.len() {
        assert(bracketed_id(ls[i]) is None);
        lemma_no_id_in_lines(ls, i + 1);
    }
}

/// Where no line has an id in round brackets, the id is the first word with two double
/// colons and more than ten bytes, without brackets and exclamation marks round it;
/// where there is no such word, there is no id.
pub proof fn law_id_among_words(
    output: Seq<char>,
    k: int,
    a: Seq<char>,
    b: Seq<char>,
    c: Seq<char>,
)
    requires
        forall|j: int|
            0 <= j < lines(output).len() ==> !(#[trigger] lines(output)[j]).contains('(')
                || !lines(output)[j].contains(')') || !occurs(lines(output)[j], "::"@),
        -1 <= k < words(output).len(),
        k >= 0 ==> words(output)[k] == a + "::"@ + b + "::"@ + c && byte_len(words(output)[k]) > 10,
        forall|j: int|
            0 <= j < words(output).len() && (k < 0 || j < k) ==> !occurs(
                #[trigger] words(output)[j],
                "::"@,
            ) || byte_len(words(output)[j]) <= 10,
    ensures
        k >= 0 ==> installed_id(output) == strip(words(output)[k], ")(!"@),
        k < 0 ==> installed_id(output).len() == 0,
{
    let ls = lines(output);
    let ws = words(output);
    assert forall|j: int| 0 <= j < ls.len() implies bracketed_id(#[trigger] ls[j]) is None by {
        lemma_no_bracketed_id(ls[j]);
    }
    lemma_no_id_in_lines(ls, 0);
    if k >= 0 {
        lemma_two_colons(a, b, c);
    }
    lemma_id_in_words(ws, k, 0);
}

proof fn lemma_id_in_words(ws: Seq<Seq<char>>, k: int, i: int)
    requires
        -1 <= k < ws.len(),
        0 <= i <= ws.len(),
        k >= 0 ==> i <= k && count_of(ws[k], "::"@) >= 2 && byte_len(ws[k]) > 10,
        forall|j: int|
            0 <= j < ws.len() && (k < 0 || j < k) ==> !occurs(#[trigger] ws[j], "::"@) || byte_len(
                ws[j],
            ) <= 10,
    ensures
        k >= 0 ==> id_in_words(ws, i) == strip(ws[k], ")(!"@),
        k < 0 ==> id_in_words(ws, i).len() == 0,
    decreases ws.len() - i,
{
    if i < ws.len() && i != k {
        assert(!occurs(ws[i], "::"@) || byte_len(ws[i]) <= 10);
        if !occurs(ws[i], "::"@) {
            assert(count_of(ws[i], "::"@) == 0);
        }
        lemma_id_in_words(ws, k, i + 1);
    }
}

/// What stands between characters of a set at both ends of a text is what is left
/// without them.
pub proof fn law_strip(front: Seq<char>, s: Seq<char>, back: Seq<char>, set: Seq<char>)
    requires
        s.len() > 0,
        !set.contains(s[0]),
        !set.contains(s.last()),
        forall|i: int| 0 <= i < front.len() ==> set.contains(#[trigger] front[i]),
        forall|i: int| 0 <= i < back.len() ==> set.contains(#[trigger] back[i]),
    ensures
        strip(front + s + back, set) == s,
{
    let t = s + back;
    assert(front + s + back =~= front + t);
    lemma_strip_front(front, t, set);
    assert(t[0] == s[0]);
    lemma_strip_back(s, back, set);
}

proof fn lemma_strip_front(front: Seq<char>, s: Seq<char>, set: Seq<char>)
    requires
        s.len() > 0,
        !set.contains(s[0]),
        forall|i: int| 0 <= i < front.len() ==> set.contains(#[trigger] front[i]),
    ensures
        strip_start(front + s, set) == s,
    decreases front.len(),
{
    if front.len() == 0 {
        assert(front + s =~= s);
    } else {
        assert(set.contains(front[0]));
        assert((front + s).drop_first() =~= front.drop_first() + s);
        assert forall|i: int| 0 <= i < front.drop_first().len() implies set.contains(
            #[trigger] front.drop_first()[i],
        ) by {
            assert(front.drop_first()[i] == front[i + 1]);
        }
        lemma_strip_front(front.drop_first(), s, set);
    }
}

proof fn lemma_strip_back(s: Seq<char>, back: Seq<char>, set: Seq<char>)
    requires
        s.len() > 0,
        !set.contains(s.last()),
        forall|i: int| 0 <= i < back.len() ==> set.contains(#[trigger] back[i]),
    ensures
        strip_end(s + back, set) == s,
    decreases back.len(),
{
    if back.len() == 0 {
        assert(s + back =~= s);
    } else {
        assert(set.contains(back[back.len() - 1]));
        assert((s + back).last() == back.last());
        assert((s + back).drop_last() =~= s + back.drop_last());
        assert forall|i: int| 0 <= i < back.drop_last().len() implies set.contains(
            #[trigger] back.drop_last()[i],
        ) by {
            assert(back.drop_last()[i] == back[i]);
        }
        lemma_strip_back(s, back.drop_last(), set);
    }
}

/// A listing is read word by word: the words of two halves name the applications of
/// the first and then those of the second. A word names an application where it has
/// two double colons and still has one without the punctuation round it; it runs as
/// its line says. A word without a double colon names none.
pub proof fn law_listing_words(
    ws: Seq<Seq<char>>,
    more: Seq<Seq<char>>,
    enabled: bool,
    a: Seq<char>,
    b: Seq<char>,
    c: Seq<char>,
    other: Seq<char>,
)
    ensures
        happs_in_words(ws + more, enabled) == happs_in_words(ws, enabled) + happs_in_words(
            more,
            enabled,
        ),
        ({
            let word = a + "::"@ + b + "::"@ + c;
            let id = strip(word, ",)(\"'"@);
            occurs(id, "::"@) ==> happs_in_words(seq![word], enabled) == seq![(id, enabled)]
        }),
        !occurs(other, "::"@) ==> happs_in_words(seq![other], enabled).len() == 0,
    decreases more.len(),
{
    let none = Seq::<Seq<char>>::empty();
    let word = a + "::"@ + b + "::"@ + c;
    lemma_two_colons(a, b, c);
    assert(seq![word].drop_last() =~= none);
    assert(seq![other].drop_last() =~= none);
    assert(happs_in_words(none, enabled).len() == 0);
    let id = strip(word, ",)(\"'"@);
    if occurs(id, "::"@) {
        assert(happs_in_words(seq![word], enabled) =~= seq![(id, enabled)]);
    }
    if more.len() == 0 {
        assert(ws + more =~= ws);
        assert(happs_in_words(ws, enabled) + happs_in_words(more, enabled) =~= happs_in_words(
            ws,
            enabled,
        ));
    } else {
        assert((ws + more).drop_last() =~= ws + more.drop_last());
        law_listing_words(ws, more.drop_last(), enabled, a, b, c, other);
        assert(happs_in_words(ws + more, enabled) =~= happs_in_words(ws, enabled) + happs_in_words(
            more,
            enabled,
        ));
    }
}

/// A listing is read line by line, in order, and the applications of a line run
/// unless the line, in lowercase, says that they are disabled.
pub proof fn law_listing_lines(
    ls: Seq<Seq<char>>,
    more: Seq<Seq<char>>,
    line: Seq<char>,
    lower: Seq<char>,
)
    ensures
        happs_in_lines(ls + more) == happs_in_lines(ls) + happs_in_lines(more),
        happs_in_lines(seq![line]) == happs_in_line(line, lowercase(line)),
        occurs(lower, "disabled"@) ==> happs_in_line(line, lower) == happs_in_words(
            words(line),
            false,
        ),
        !occurs(lower, "disabled"@) ==> happs_in_line(line, lower) == happs_in_words(
            words(line),
            true,
        ),
    decreases more.len(),
{
    let none = Seq::<Seq<char>>::empty();
    assert(seq![line].drop_last() =~= none);
    assert(happs_in_lines(none).len() == 0);
    assert(happs_in_lines(seq![line]) =~= happs_in_line(line, lowercase(line)));
    if more.len() == 0 {
        assert(ls + more =~= ls);
        assert(happs_in_lines(ls) + happs_in_lines(more) =~= happs_in_lines(ls));
    } else {
        assert((ls + more).drop_last() =~= ls + more.drop_last());
        law_listing_lines(ls, more.drop_last(), line, lower);
        assert(happs_in_lines(ls + more) =~= happs_in_lines(ls) + happs_in_lines(more));
    }
}

/// A bare list is read item by item, in order: an item with two double colons and more
/// than five bytes is an application that runs, and one without a double colon is none.
pub proof fn law_bare_list(
    parts: Seq<Seq<char>>,
    more: Seq<Seq<char>>,
    a: Seq<char>,
    b: Seq<char>,
    c: Seq<char>,
    other: Seq<char>,
)
    ensures
        happs_in_list(parts + more) == happs_in_list(parts) + happs_in_list(more),
        ({
            let id = a + "::"@ + b + "::"@ + c;
            &&& byte_len(id) > 5 ==> happs_in_list(seq![id]) == seq![(id, true)]
            &&& byte_len(id) <= 5 ==> happs_in_list(seq![id]).len() == 0
        }),
        !occurs(other, "::"@) ==> happs_in_list(seq![other]).len() == 0,
    decreases more.len(),
{
    let none = Seq::<Seq<char>>::empty();
    let id = a + "::"@ + b + "::"@ + c;
    lemma_two_colons(a, b, c);
    assert(seq![id].drop_last() =~= none);
    assert(seq![other].drop_last() =~= none);
    assert(happs_in_list(none).len() == 0);
    if byte_len(id) > 5 {
        assert(happs_in_list(seq![id]) =~= seq![(id, true)]);
    }
    if more.len() == 0 {
        assert(parts + more =~= parts);
        assert(happs_in_list(parts) + happs_in_list(more) =~= happs_in_list(parts));
    } else {
        assert((parts + more).drop_last() =~= parts + more.drop_last());
        law_bare_list(parts, more.drop_last(), a, b, c, other);
        assert(happs_in_list(parts + more) =~= happs_in_list(parts) + happs_in_list(more));
    }
}

/// The applications named line by line count where the output speaks of installed or
/// enabled ones and names any; otherwise it is read as a bare list, which quotes,
/// commas, spaces, line feeds and square brackets take apart.
pub proof fn law_listing_form(
    output: Seq<char>,
    by_line: Seq<(Seq<char>, bool)>,
    lower: Seq<char>,
)
    ensures
        (occurs(lower, "installed"@) || occurs(lower, "enabled"@)) && by_line.len() > 0
            ==> happs_named(output, by_line, lower) == by_line,
        (!occurs(lower, "installed"@) && !occurs(lower, "enabled"@)) || by_line.len() == 0
            ==> happs_named(output, by_line, lower) == happs_in_list(
            split(output, seq!['"', ',', ' ', '\n', '[', ']']),
        ),
{
    reveal_strlit("\", \n[]");
    assert("\", \n[]"@ =~= seq!['"', ',', ' ', '\n', '[', ']']);
}

/// A listing that failed without printing anything gives the reason: that the
/// container is not running, what was printed as an error, or the exit code.
pub proof fn law_listing_error(out: CommandOutput)
    ensures
        listing_error(None) == Some("EdgeNode is not running"@),
        listing_error(Some(out)) is None <==> out.code == 0 || out.stdout@.len() > 0,
        out.code != 0 && out.stdout@.len() == 0 && out.stderr@.len() > 0 ==> listing_error(
            Some(out),
        ) == Some(out.stderr@),
        out.code > 0 && out.stdout@.len() == 0 && out.stderr@.len() == 0 ==> listing_error(
            Some(out),
        ) == Some("list_happs failed (exit "@ + dec(out.code as nat) + ")"@),
        out.code < 0 && out.stdout@.len() == 0 && out.stderr@.len() == 0 ==> listing_error(
            Some(out),
        ) == Some("list_happs failed (exit "@ + ("-"@ + dec((-out.code) as nat)) + ")"@),
{
}

// ---------------------------------------------------------------------------
// The status of deployments
// ---------------------------------------------------------------------------

/// The status that is shown is the one that is remembered while the deployment is
/// being installed or has no id; otherwise the first application of its id that the
/// container lists decides, and it is an error where there is none.
pub proof fn law_status_by_listing(d: DeploymentView, l: Seq<(Seq<char>, bool)>, k: int)
    requires
        -1 <= k < l.len(),
        k >= 0 ==> l[k].0 == d.app_id,
        forall|j: int| 0 <= j < l.len() && (k < 0 || j < k) ==> (#[trigger] l[j]).0 != d.app_id,
    ensures
        d.status == "installing"@ || d.app_id.len() == 0 ==> status_shown(d, l) == d.status,
        d.status != "installing"@ && d.app_id.len() > 0 ==> status_shown(d, l) == (if k < 0 {
            "error"@
        } else if l[k].1 {
            "running"@
        } else {
            "paused"@
        }),
{
    lemma_enabled_in(l, d.app_id, k);
}

proof fn lemma_enabled_in(l: Seq<(Seq<char>, bool)>, id: Seq<char>, k: int)
    requires
        -1 <= k < l.len(),
        k >= 0 ==> l[k].0 == id,
        forall|j: int| 0 <= j < l.len() && (k < 0 || j < k) ==> (#[trigger] l[j]).0 != id,
    ensures
        enabled_in(l, id) == (if k < 0 {
            None
        } else {
            Some(l[k].1)
        }),
    decreases l.len(),
{
    if l.len() > 0 && k != 0 {
        let more = l.drop_first();
        assert(l[0].0 != id);
        assert forall|j: int| 0 <= j < more.len() && (k < 0 || j < k - 1) implies (
        #[trigger] more[j]).0 != id by {
            assert(more[j] == l[j + 1]);
        }
        lemma_enabled_in(
            more,
            id,
            if k < 0 {
                -1
            } else {
                k - 1
            },
        );
    }
}

/// Applications can be managed exactly where the node is not in the Wind Tunnel and
/// the container runs.
pub proof fn law_when_happs_can_be_managed(state: StateView, running: bool)
    ensures
        prereq_error(state, running) is None <==> state.hw_mode != "WIND_TUNNEL"@ && running,
{
}

// ---------------------------------------------------------------------------
// Changes to the list
// ---------------------------------------------------------------------------

/// Putting a deployment in the list replaces the first with its id, in its place, or
/// adds it at the end; every other one stays where it was.
pub proof fn law_upsert_in_place(ds: Seq<DeploymentView>, d: DeploymentView)
    ensures
        ({
            let new = upserted(ds, d);
            &&& (forall|j: int| 0 <= j < ds.len() ==> (#[trigger] ds[j]).id != d.id) ==> new
                == ds.push(d)
            &&& forall|p: int|
                0 <= p < ds.len() && (#[trigger] ds[p]).id == d.id && (forall|j: int|
                    0 <= j < p ==> (#[trigger] ds[j]).id != d.id) ==> new.len() == ds.len()
                    && new[p] == d && forall|j: int|
                    0 <= j < ds.len() && j != p ==> #[trigger] new[j] == ds[j]
        }),
{
    lemma_position_of(ds, d.id);
    let new = upserted(ds, d);
    assert forall|p: int|
        0 <= p < ds.len() && (#[trigger] ds[p]).id == d.id && (forall|j: int|
            0 <= j < p ==> (#[trigger] ds[j]).id != d.id) implies new.len() == ds.len() && new[p]
        == d && forall|j: int| 0 <= j < ds.len() && j != p ==> #[trigger] new[j] == ds[j] by {
        assert(position_of(ds, d.id) == Some(p));
    }
}

/// An object without a manifest has an empty one, and one without a string an empty
/// string.
pub proof fn law_missing_parts_of_deployment(obj: Seq<char>)
    ensures
        !occurs(obj, quoted("manifest"@)) ==> deployment_of(obj).manifest == "{}"@,
        !occurs(obj, quoted("id"@)) ==> deployment_of(obj).id.len() == 0,
        !occurs(obj, quoted("app_name"@)) ==> deployment_of(obj).app_name.len() == 0,
        !occurs(obj, quoted("app_version"@)) ==> deployment_of(obj).app_version.len() == 0,
        !occurs(obj, quoted("app_id"@)) ==> deployment_of(obj).app_id.len() == 0,
        !occurs(obj, quoted("status"@)) ==> deployment_of(obj).status.len() == 0,
        !occurs(obj, quoted("deployed_at"@)) ==> deployment_of(obj).deployed_at.len() == 0,
        !occurs(obj, quoted("last_error"@)) ==> deployment_of(obj).last_error.len() == 0,
{
    if !occurs(obj, quoted("manifest"@)) {
        law_missing_field(obj, "manifest"@, true);
    }
}

/// Removing an id leaves the other deployments, all of them and in their order.
pub proof fn law_remove_keeps_order(ds: Seq<DeploymentView>, id: Seq<char>)
    ensures
        without_id(ds, id) == ds.filter(|d: DeploymentView| d.id != id),
    decreases ds.len(),
{
    reveal(Seq::filter);
    if ds.len() > 0 {
        law_remove_keeps_order(ds.drop_last(), id);
    } else {
        assert(without_id(ds, id) =~= ds.filter(|d: DeploymentView| d.id != id));
    }
}

/// A deployment begins with a fresh id, the name and the version in its manifest, no
/// application and no time yet, as one that is being installed.
pub proof fn law_new_deployment(body: Seq<char>, bytes: Seq<u8>)
    ensures
        ({
            let d = new_deployment(body, bytes);
            &&& d.id == hex(bytes)
            &&& d.manifest == raw_field(body, "manifest"@)
            &&& d.app_name == nested_field(d.manifest, "app"@, "name"@)
            &&& d.app_version == nested_field(d.manifest, "app"@, "version"@)
            &&& d.status == "installing"@
            &&& d.app_id.len() == 0
            &&& d.deployed_at.len() == 0
            &&& d.last_error.len() == 0
        }),
{
}

/// A manifest is accepted exactly where it is there and names an application and its
/// version.
pub proof fn law_manifest_refused(body: Seq<char>)
    ensures
        ({
            let m = raw_field(body, "manifest"@);
            let named = nested_field(m, "app"@, "name"@).len() > 0 && nested_field(
                m,
                "app"@,
                "version"@,
            ).len() > 0;
            &&& m.len() == 0 ==> manifest_refusal(body) == Some("manifest is required"@)
            &&& m.len() > 0 && !named ==> manifest_refusal(body) == Some(
                "manifest must include app.name and app.version"@,
            )
            &&& m.len() > 0 && named ==> manifest_refusal(body) is None
        }),
{
}

// ---------------------------------------------------------------------------
// Requests about one application
// ---------------------------------------------------------------------------

/// A request to pause or resume an application runs the command with the id that it
/// names, and one that names none is refused.
pub proof fn law_application_is_named(
    state: StateView,
    body: Seq<char>,
    command: Seq<char>,
)
    requires
        state.hw_mode != "WIND_TUNNEL"@,
    ensures
        string_field(body, "appId"@).len() == 0 ==> app_plan(state, true, body, command)
            == PlanView::Answer(ReplyView::Error(400, "appId is required"@)),
        string_field(body, "appId"@).len() > 0 ==> (app_plan(
            state,
            true,
            body,
            command,
        ) matches PlanView::Run(line) && runs_in_container(
            line,
            command + string_field(body, "appId"@),
        )),
{
    law_command_reaches_container(command + string_field(body, "appId"@));
}

/// A request to remove a deployment removes the application that it names, or else the
/// one that is remembered with the deployment; without either it only forgets the
/// deployment, and one that names no deployment is refused.
pub proof fn law_application_to_remove(
    state: StateView,
    body: Seq<char>,
    ds: Seq<DeploymentView>,
    p: int,
)
    requires
        state.hw_mode != "WIND_TUNNEL"@,
        string_field(body, "deploymentId"@).len() > 0,
        -1 <= p < ds.len(),
        p >= 0 ==> ds[p].id == string_field(body, "deploymentId"@),
        forall|j: int|
            0 <= j < ds.len() && (p < 0 || j < p) ==> (#[trigger] ds[j]).id != string_field(
                body,
                "deploymentId"@,
            ),
    ensures
        ({
            let given = string_field(body, "appId"@);
            let target = if given.len() > 0 {
                given
            } else if p >= 0 {
                ds[p].app_id
            } else {
                Seq::empty()
            };
            let plan = uninstall_plan(state, true, body, ds);
            &&& target.len() > 0 ==> (plan matches PlanView::Run(line) && runs_in_container(
                line,
                "uninstall_happ "@ + target,
            ))
            &&& target.len() == 0 ==> plan == PlanView::Go
        }),
{
    lemma_position_of(ds, string_field(body, "deploymentId"@));
    law_command_reaches_container("uninstall_happ "@ + uninstall_target(body, ds));
}

/// A request to remove a deployment that does not say which is refused.
pub proof fn law_deployment_to_remove_is_named(
    state: StateView,
    body: Seq<char>,
    ds: Seq<DeploymentView>,
)
    requires
        state.hw_mode != "WIND_TUNNEL"@,
        string_field(body, "deploymentId"@).len() == 0,
    ensures
        uninstall_plan(state, true, body, ds) == PlanView::Answer(
            ReplyView::Error(400, "deploymentId is required"@),
        ),
{
}

// ---------------------------------------------------------------------------
// Checking and deploying
// ---------------------------------------------------------------------------

/// A manifest in a request is written to its file, and then the container is asked to
/// check the file where it sees it.
pub open spec fn writes_and_checks(
    plan: PlanView,
    name: Seq<char>,
    version: Seq<char>,
    manifest: Seq<char>,
) -> bool {
    match manifest_written(name, version, manifest) {
        Some((file, path)) => plan matches PlanView::WriteThenRun(written, line) && written == file
            && runs_in_container(line, "happ_config_file validate --input "@ + path),
        None => plan == PlanView::Answer(
            ReplyView::Error(500, "Invalid app name or version for manifest file"@),
        ),
    }
}

/// Where applications can be managed, a request to check a manifest writes and checks
/// it unless it is refused, and so does a request to deploy one unless it names an
/// agreement on payment that the node is not set up for.
pub proof fn law_check_and_deploy(state: StateView, body: Seq<char>)
    requires
        state.hw_mode != "WIND_TUNNEL"@,
    ensures
        ({
            let m = raw_field(body, "manifest"@);
            let name = nested_field(m, "app"@, "name"@);
            let version = nested_field(m, "app"@, "version"@);
            let check = validate_plan(state, true, body);
            let deploy = deploy_plan(state, true, body);
            let unpaid = state.unyt_agent_id.len() == 0 || state.log_sender_endpoint.len() == 0;
            &&& manifest_refusal(body) matches Some(msg) ==> check == PlanView::Answer(
                ReplyView::Error(400, msg),
            ) && deploy == check
            &&& manifest_refusal(body) is None ==> writes_and_checks(check, name, version, m)
            &&& manifest_refusal(body) is None && !(has_agreement(m) && unpaid)
                ==> writes_and_checks(deploy, name, version, m)
            &&& manifest_refusal(body) is None && has_agreement(m) && unpaid ==> deploy
                == PlanView::Answer(
                ReplyView::Error(
                    400,
                    "Manifest includes economics.agreementHash but Unyt Agent ID and Log Collector URL must be configured in HoloFuel first."@,
                ),
            )
        }),
{
    let m = raw_field(body, "manifest"@);
    match manifest_written(
        nested_field(m, "app"@, "name"@),
        nested_field(m, "app"@, "version"@),
        m,
    ) {
        Some((file, path)) => {
            law_command_reaches_container("happ_config_file validate --input "@ + path);
        },
        None => {},
    }
}

/// A deployment goes on exactly where the check passed; otherwise what was printed is
/// the reason.
pub proof fn law_check_failed(out: CommandOutput)
    ensures
        check_refusal(out) is None <==> out.code == 0,
        out.code != 0 ==> check_refusal(out) == Some(
            ReplyView::Error(
                400,
                "Manifest validation failed: "@ + trim(out.stdout@ + out.stderr@),
            ),
        ),
{
}

/// A deployment begins exactly where its manifest is accepted and can be written. It is
/// then put in the list under a fresh id, every other deployment stays where it was,
/// and the answer names the id.
pub proof fn law_deployment_begins(body: Seq<char>, bytes: Seq<u8>, content: Seq<char>)
    ensures
        ({
            let r = deploy_begun(body, bytes, content);
            let d = new_deployment(body, bytes);
            let ds = deployments_of(content);
            let written = manifest_written(d.app_name, d.app_version, d.manifest);
            &&& r is Some <==> manifest_refusal(body) is None && written is Some
            &&& r matches Some(b) ==> {
                &&& b.id == hex(bytes)
                &&& written matches Some((_, path)) && b.container_path == path
                &&& b.reply matches ReplyView::Json(text) && text == "{\"status\":\"installing\","@
                    + (keyed("deployment_id"@) + quoted(hex(bytes))) + "}"@
                &&& (forall|j: int| 0 <= j < ds.len() ==> (#[trigger] ds[j]).id != hex(bytes))
                    ==> b.done == list_written(ds.push(d))
            }
        }),
{
    let d = new_deployment(body, bytes);
    law_upsert_in_place(deployments_of(content), d);
    lemma_hex(bytes);
    let h = hex(bytes);
    assert forall|i: int| 0 <= i < h.len() implies #[trigger] h[i] != '"' && h[i] != '\\' by {
        assert(is_lower_hex(h[i]));
    }
    lemma_json_plain(h);
}

/// Pausing and resuming answer with what was printed where the command went well, and
/// with what was printed as an error where it did not.
pub proof fn law_application_answer(out: CommandOutput)
    ensures
        out.code == 0 ==> app_answer(out) == ReplyView::Json(
            "{\"status\":\"ok\","@ + (keyed("output"@) + quoted(
                escaped(trim(out.stdout@ + "\n"@ + out.stderr@), Escape::Json),
            )) + "}"@,
        ),
        out.code != 0 ==> app_answer(out) == ReplyView::Error(
            500,
            out.stdout@ + "\n"@ + out.stderr@,
        ),
{
}

/// A deployment that is removed is taken from the list, and the others stay in their
/// order; where removing its application failed, nothing changes and what was printed
/// is the error.
pub proof fn law_deployment_removed(
    body: Seq<char>,
    content: Seq<char>,
    out: Option<CommandOutput>,
)
    ensures
        ({
            let id = string_field(body, "deploymentId"@);
            let (done, reply) = uninstall_end(body, content, out);
            &&& out matches Some(o) ==> (o.code != 0 ==> done.len() == 0 && reply
                == ReplyView::Error(500, o.stdout@ + "\n"@ + o.stderr@))
            &&& out is None || out->0.code == 0 ==> done == list_written(
                deployments_of(content).filter(|d: DeploymentView| d.id != id),
            ) && reply == ReplyView::Json("{\"status\":\"ok\"}"@)
        }),
{
    law_remove_keeps_order(deployments_of(content), string_field(body, "deploymentId"@));
}

/// The answer with the logs gives each of them under its name.
pub proof fn law_logs_in_answer(
    named: bool,
    log: Option<Seq<char>>,
    holochain: CommandOutput,
    sender: CommandOutput,
)
    ensures
        logs_json(named, log, holochain, sender) == "{\"install_log\":\""@ + escaped(
            install_log_shown(named, log),
            Escape::Json,
        ) + "\",\"holochain_log\":\""@ + escaped(tail_shown(holochain), Escape::Json)
            + "\",\"log_sender_log\":\""@ + escaped(tail_shown(sender), Escape::Json) + "\"}"@,
{
    reveal_strlit("{\"install_log\":\"");
    reveal_strlit("\",\"holochain_log\":\"");
    reveal_strlit("\",\"log_sender_log\":\"");
    reveal_strlit("\"}");
    reveal_strlit("install_log");
    reveal_strlit("holochain_log");
    reveal_strlit("log_sender_log");
    reveal_strlit("{");
    reveal_strlit("}");
    reveal_strlit(",");
    let q = seq!['"'];
    let a = escaped(install_log_shown(named, log), Escape::Json);
    let b = escaped(tail_shown(holochain), Escape::Json);
    let c = escaped(tail_shown(sender), Escape::Json);
    assert("{"@ + keyed("install_log"@) + q =~= "{\"install_log\":\""@);
    assert(q + ","@ + keyed("holochain_log"@) + q =~= "\",\"holochain_log\":\""@);
    assert(q + ","@ + keyed("log_sender_log"@) + q =~= "\",\"log_sender_log\":\""@);
    assert(q + "}"@ =~= "\"}"@);
    lemma_three_members(
        "{"@,
        keyed("install_log"@),
        a,
        ","@,
        keyed("holochain_log"@),
        b,
        keyed("log_sender_log"@),
        c,
        "}"@,
    );
}

proof fn lemma_three_members(
    open: Seq<char>,
    k1: Seq<char>,
    a: Seq<char>,
    comma: Seq<char>,
    k2: Seq<char>,
    b: Seq<char>,
    k3: Seq<char>,
    c: Seq<char>,
    close: Seq<char>,
)
    ensures
        open + (k1 + quoted(a)) + comma + (k2 + quoted(b)) + comma + (k3 + quoted(c)) + close == (
        open + k1 + seq!['"']) + a + (seq!['"'] + comma + k2 + seq!['"']) + b + (seq!['"'] + comma
            + k3 + seq!['"']) + c + (seq!['"'] + close),
{
    assert(open + (k1 + quoted(a)) + comma + (k2 + quoted(b)) + comma + (k3 + quoted(c)) + close
        =~= (open + k1 + seq!['"']) + a + (seq!['"'] + comma + k2 + seq!['"']) + b + (seq!['"']
        + comma + k3 + seq!['"']) + c + (seq!['"'] + close));
}

/// What the container knows is what its listing names, all that was printed with the
/// errors last; where the listing failed or was not made, it is nothing.
pub proof fn law_what_the_container_knows(out: CommandOutput)
    ensures
        printed(out) == out.stdout@ + "\n"@ + out.stderr@,
        known(None).len() == 0,
        out.code != 0 && out.stdout@.len() == 0 ==> known(Some(out)).len() == 0,
        out.code == 0 || out.stdout@.len() > 0 ==> known(Some(out)) == happs_listed(
            out.stdout@ + "\n"@ + out.stderr@,
        ),
{
}

/// The deployment that a request for logs names is the value of its parameter `id`,
/// wherever that stands in the query.
pub proof fn law_id_in_query(fs: Seq<(Seq<char>, Seq<char>)>, k: int)
    requires
        0 <= k < fs.len(),
        fs[k].0 == "id"@,
        forall|j: int| 0 <= j < fs.len() ==> stands_for_itself((#[trigger] fs[j]).0),
        is_ascii_chars(fs[k].1),
        forall|j: int| 0 <= j < k ==> (#[trigger] fs[j]).0 != "id"@,
    ensures
        id_in_query(joined_by(encoded_fields(fs), '&')) == fs[k].1,
{
    law_query_param_found_among_others(fs, k);
}

// ---------------------------------------------------------------------------
// What the list says beside the deployments
// ---------------------------------------------------------------------------

/// A truth as JSON writes it.
pub open spec fn json_truth(b: bool) -> Seq<char> {
    if b {
        "true"@
    } else {
        "false"@
    }
}

/// Behind the deployments the list says in which mode the node is, whether the
/// container runs, and whether the Agent ID, the log collector and so both are set.
pub proof fn law_list_says_what_is_set(
    state: StateView,
    ds: Seq<DeploymentView>,
    l: Seq<(Seq<char>, bool)>,
    running: bool,
    now: nat,
)
    requires
        !state.hw_mode.contains('"'),
        !state.hw_mode.contains('\\'),
    ensures
        ({
            let agent = state.unyt_agent_id.len() > 0;
            let endpoint = state.log_sender_endpoint.len() > 0;
            let end = seq![','] + (keyed("hw_mode"@) + quoted(state.hw_mode))
                + ",\"edgenode_running\":"@ + json_truth(running) + ",\"accounting_ready\":"@
                + json_truth(agent && endpoint) + ",\"unyt_configured\":"@ + json_truth(agent)
                + ",\"log_sender_configured\":"@ + json_truth(endpoint) + "}"@;
            let text = list_json(state, ds, l, running, now);
            text.len() >= end.len() && text.skip(text.len() - end.len()) == end
        }),
{
    let agent = state.unyt_agent_id.len() > 0;
    let endpoint = state.log_sender_endpoint.len() > 0;
    lemma_json_plain(state.hw_mode);
    let mode = keyed("hw_mode"@) + quoted(state.hw_mode);
    let text = list_json(state, ds, l, running, now);
    let front = "{\"happs\":["@ + items_json(ds, l, now);
    let head = front + seq![']'];
    let r0 = seq![','] + mode;
    assert(front + "],"@ + mode =~= head + r0) by {
        reveal_strlit("],");
        assert("],"@ =~= seq![']', ',']);
    }
    let r1 = r0 + ",\"edgenode_running\":"@;
    let r2 = r1 + json_truth(running);
    let r3 = r2 + ",\"accounting_ready\":"@;
    let r4 = r3 + json_truth(agent && endpoint);
    let r5 = r4 + ",\"unyt_configured\":"@;
    let r6 = r5 + json_truth(agent);
    let r7 = r6 + ",\"log_sender_configured\":"@;
    let r8 = r7 + json_truth(endpoint);
    let end = r8 + "}"@;
    lemma_regroup(head, r0, ",\"edgenode_running\":"@);
    lemma_regroup(head, r1, json_truth(running));
    lemma_regroup(head, r2, ",\"accounting_ready\":"@);
    lemma_regroup(head, r3, json_truth(agent && endpoint));
    lemma_regroup(head, r4, ",\"unyt_configured\":"@);
    lemma_regroup(head, r5, json_truth(agent));
    lemma_regroup(head, r6, ",\"log_sender_configured\":"@);
    lemma_regroup(head, r7, json_truth(endpoint));
    lemma_regroup(head, r8, "}"@);
    assert(text == head + end);
    lemma_end(head, end);
}

proof fn lemma_regroup(a: Seq<char>, b: Seq<char>, c: Seq<char>)
    ensures
        a + b + c == a + (b + c),
{
    assert(a + b + c =~= a + (b + c));
}

proof fn lemma_end(a: Seq<char>, b: Seq<char>)
    ensures
        (a + b).skip((a + b).len() - b.len()) == b,
{
    assert((a + b).skip((a + b).len() - b.len()) =~= b);
}

} // verus!
