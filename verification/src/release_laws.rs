//! What holds of releases and images: which version is newer, which image is chosen,
//! and what is run to find out.
use vstd::prelude::*;

use crate::images::{
    chosen_tag, greatest, image_step, is_candidate, law_greatest_tag, precedes, quoted_texts,
    repo_path, without_prefix, ImageEventView, ImageStepView,
};
use crate::json::{keyed, lemma_quoted_value, quoted, tight_string_field};
use crate::number::{dec, is_digit, lemma_dec_value, parse_up_to};
use crate::number_laws::law_decimal;
use crate::request_laws::{joined_by, law_split_joined};
use crate::split::{split, strip_start};
use crate::text::{
    lemma_find_any_from, lemma_find_any_is, lemma_rfind_any, occurs, rfind_any, smaller_from,
    sorts_before, starts_with,
};
use crate::update::{
    asset_url, comes_before, is_newer, lemma_first_behind, part_numbers, update_step,
    version_numbers, UpdateEventView, UpdateStepView,
};

verus! {

// ---------------------------------------------------------------------------
// Versions
// ---------------------------------------------------------------------------

/// Numbers come before others: up to some place they agree, and there the first end
/// or have the smaller number.
pub open spec fn earlier(a: Seq<nat>, b: Seq<nat>) -> bool {
    exists|i: int| #[trigger] earlier_at(a, b, i)
}

/// Numbers agree up to place `i`, and there the first end or have the smaller number.
pub open spec fn earlier_at(a: Seq<nat>, b: Seq<nat>, i: int) -> bool {
    &&& 0 <= i <= a.len()
    &&& i < b.len()
    &&& forall|j: int| 0 <= j < i ==> #[trigger] a[j] == b[j]
    &&& i == a.len() || a[i] < b[i]
}

/// A version written with a dot between each two of its numbers.
pub open spec fn version_text(ns: Seq<nat>) -> Seq<char> {
    joined_by(Seq::new(ns.len(), |i: int| dec(ns[i])), '.')
}

proof fn lemma_comes_before(a: Seq<nat>, b: Seq<nat>)
    ensures
        comes_before(a, b) <==> earlier(a, b),
    decreases a.len(),
{
    if b.len() == 0 {
    } else if a.len() == 0 {
        assert(earlier_at(a, b, 0));
    } else if a[0] == b[0] {
        let a1 = a.drop_first();
        let b1 = b.drop_first();
        lemma_comes_before(a1, b1);
        if earlier(a1, b1) {
            let i = choose|i: int| #[trigger] earlier_at(a1, b1, i);
            assert forall|j: int| 0 <= j < i + 1 implies #[trigger] a[j] == b[j] by {
                if j > 0 {
                    assert(a1[j - 1] == b1[j - 1]);
                }
            }
            assert(earlier_at(a, b, i + 1));
        }
        if earlier(a, b) {
            let i = choose|i: int| #[trigger] earlier_at(a, b, i);
            assert(i > 0);
            assert forall|j: int| 0 <= j < i - 1 implies #[trigger] a1[j] == b1[j] by {
                assert(a[j + 1] == b[j + 1]);
            }
            assert(earlier_at(a1, b1, i - 1));
        }
    } else {
        if a[0] < b[0] {
            assert(earlier_at(a, b, 0));
        }
        if earlier(a, b) {
            let i = choose|i: int| #[trigger] earlier_at(a, b, i);
            if i > 0 {
                assert(a[0] == b[0]);
            }
        }
    }
}

proof fn lemma_part_numbers(ns: Seq<nat>)
    requires
        forall|i: int| 0 <= i < ns.len() ==> #[trigger] ns[i] <= u64::MAX,
    ensures
        part_numbers(Seq::new(ns.len(), |i: int| dec(ns[i]))) == Some(ns),
    decreases ns.len(),
{
    let parts = Seq::new(ns.len(), |i: int| dec(ns[i]));
    if ns.len() == 0 {
        assert(ns =~= Seq::empty());
    } else {
        let before = ns.drop_last();
        assert forall|i: int| 0 <= i < before.len() implies #[trigger] before[i] <= u64::MAX by {
            assert(before[i] == ns[i]);
        }
        lemma_part_numbers(before);
        assert(parts.drop_last() =~= Seq::new(before.len(), |i: int| dec(before[i])));
        assert(ns[ns.len() - 1] <= u64::MAX);
        law_decimal(ns.last(), u64::MAX as nat);
        assert(before.push(ns.last()) =~= ns);
    }
}

/// A version is read as its numbers.
pub proof fn law_version_is_read(ns: Seq<nat>)
    requires
        ns.len() > 0,
        forall|i: int| 0 <= i < ns.len() ==> #[trigger] ns[i] <= u64::MAX,
    ensures
        version_numbers(version_text(ns)) == Some(ns),
{
    reveal_strlit(".");
    assert("."@ =~= seq!['.']);
    let parts = Seq::new(ns.len(), |i: int| dec(ns[i]));
    assert forall|i: int| 0 <= i < parts.len() implies !(#[trigger] parts[i]).contains('.') by {
        lemma_dec_value(ns[i]);
        if parts[i].contains('.') {
            let j = choose|j: int| 0 <= j < parts[i].len() && parts[i][j] == '.';
            assert(is_digit(dec(ns[i])[j]));
        }
    }
    law_split_joined(parts, '.');
    lemma_part_numbers(ns);
}

/// Of two versions made of numbers, one is newer exactly where the other comes before
/// it: the first numbers that differ decide by their value, and further numbers make
/// a version newer.
pub proof fn law_newer_version(v: Seq<nat>, c: Seq<nat>)
    requires
        v.len() > 0,
        c.len() > 0,
        forall|i: int| 0 <= i < v.len() ==> #[trigger] v[i] <= u64::MAX,
        forall|i: int| 0 <= i < c.len() ==> #[trigger] c[i] <= u64::MAX,
    ensures
        is_newer(version_text(v), version_text(c)) <==> earlier(c, v),
{
    law_version_is_read(v);
    law_version_is_read(c);
    lemma_comes_before(c, v);
    if version_text(v) == version_text(c) {
        assert(v == c);
        if earlier(c, v) {
            let i = choose|i: int| #[trigger] earlier_at(c, v, i);
            assert(c[i] < v[i]);
        }
    }
}

/// A version in which some part is no number counts as newer than every other one.
pub proof fn law_odd_version_is_newer(v: Seq<char>, c: Seq<char>, i: int)
    requires
        v != c,
        0 <= i < split(v, "."@).len(),
        parse_up_to(split(v, "."@)[i], u64::MAX as nat) is None,
    ensures
        is_newer(v, c),
        is_newer(c, v),
{
    lemma_odd_part(split(v, "."@), i);
}

proof fn lemma_odd_part(parts: Seq<Seq<char>>, i: int)
    requires
        0 <= i < parts.len(),
        parse_up_to(parts[i], u64::MAX as nat) is None,
    ensures
        part_numbers(parts) is None,
    decreases parts.len(),
{
    if i < parts.len() - 1 {
        assert(parts.drop_last()[i] == parts[i]);
        lemma_odd_part(parts.drop_last(), i);
    }
}

proof fn lemma_this_version()
    ensures
        "6.2.1"@ == version_text(seq![6, 2, 1]),
{
    reveal_strlit("6.2.1");
    let parts = Seq::new(3, |i: int| dec(seq![6nat, 2nat, 1nat][i]));
    assert(parts[0] =~= seq!['6']);
    assert(parts[1] =~= seq!['2']);
    assert(parts[2] =~= seq!['1']);
    reveal_with_fuel(joined_by, 4);
    assert("6.2.1"@ =~= joined_by(parts, '.'));
    assert(parts =~= Seq::new(seq![6nat, 2nat, 1nat].len(), |i: int| dec(seq![6nat, 2, 1][i])));
}

/// The string under a key that first stands behind `before` is the one that follows
/// the colon.
pub proof fn law_tight_field_read(
    before: Seq<char>,
    key: Seq<char>,
    value: Seq<char>,
    rest: Seq<char>,
)
    requires
        !value.contains('"'),
        !occurs(before + keyed(key).drop_last(), keyed(key)),
    ensures
        tight_string_field(before + keyed(key) + quoted(value) + rest, key) == value,
{
    lemma_first_behind(before, keyed(key), quoted(value) + rest);
    let s = before + keyed(key) + quoted(value) + rest;
    assert(s =~= before + keyed(key) + (quoted(value) + rest));
    assert(s.skip(before.len() as int + keyed(key).len()) =~= quoted(value) + rest);
    lemma_quoted_value(value, rest);
}

/// The latest release is taken up exactly where its tag, which may begin with a `v`,
/// names a version that is newer than the one that runs.
pub proof fn law_newer_release_is_taken_up(
    before: Seq<char>,
    v: Seq<nat>,
    rest: Seq<char>,
    prefixed: bool,
)
    requires
        v.len() > 0,
        forall|i: int| 0 <= i < v.len() ==> #[trigger] v[i] <= u64::MAX,
        !occurs(before + keyed("tag_name"@).drop_last(), keyed("tag_name"@)),
    ensures
        ({
            let tag = (if prefixed {
                seq!['v']
            } else {
                Seq::<char>::empty()
            }) + version_text(v);
            let release = before + keyed("tag_name"@) + quoted(tag) + rest;
            update_step(UpdateEventView::Release(Some(release))) == (if earlier(
                seq![6, 2, 1],
                v,
            ) {
                UpdateStepView::AskArch
            } else {
                UpdateStepView::Stop
            })
        }),
{
    let text = version_text(v);
    let tag = (if prefixed {
        seq!['v']
    } else {
        Seq::<char>::empty()
    }) + text;
    lemma_version_characters(v);
    reveal_strlit("v");
    assert("v"@ =~= seq!['v']);
    assert forall|i: int| 0 <= i < tag.len() implies #[trigger] tag[i] != '"' by {
        if !prefixed || i > 0 {
            assert(tag[i] == text[if prefixed {
                i - 1
            } else {
                i
            }]);
        }
    }
    law_tight_field_read(before, "tag_name"@, tag, rest);
    assert(strip_start(text, "v"@) == text) by {
        assert(text[0] != 'v');
        assert(!"v"@.contains(text[0]));
    }
    if prefixed {
        assert(tag.drop_first() =~= text);
        assert("v"@[0] == 'v');
        assert("v"@.contains(tag[0]));
    } else {
        assert(tag =~= text);
    }
    lemma_this_version();
    law_newer_version(v, seq![6, 2, 1]);
}

proof fn lemma_version_characters(v: Seq<nat>)
    requires
        v.len() > 0,
    ensures
        version_text(v).len() > 0,
        forall|i: int|
            0 <= i < version_text(v).len() ==> is_digit(#[trigger] version_text(v)[i])
                || version_text(v)[i] == '.',
    decreases v.len(),
{
    let parts = Seq::new(v.len(), |i: int| dec(v[i]));
    let text = version_text(v);
    lemma_dec_value(v[0]);
    if v.len() > 1 {
        let more = v.drop_first();
        lemma_version_characters(more);
        assert(parts.drop_first() =~= Seq::new(more.len(), |i: int| dec(more[i])));
        assert forall|i: int| 0 <= i < text.len() implies is_digit(#[trigger] text[i]) || text[i]
            == '.' by {
            let n = dec(v[0]).len();
            if i < n {
                assert(text[i] == dec(v[0])[i]);
            } else if i > n {
                assert(text[i] == version_text(more)[i - n - 1]);
            }
        }
    }
}

/// The steps of an update: the latest release of the repository is asked for, the
/// asset for the hardware is downloaded, made executable, and the service restarted.
/// Where a step gives nothing or fails, the update stops.
pub proof fn law_update_steps(repo: Seq<char>, release: Seq<char>, arch: Seq<char>)
    ensures
        update_step(UpdateEventView::Begin(repo)) matches UpdateStepView::Query(args) && args.len()
            > 0 && args[0] == "curl"@ && args.last() == "https://api.github.com/repos/"@ + repo
            + "/releases/latest"@,
        update_step(UpdateEventView::Release(None)) == UpdateStepView::Stop,
        asset_url(release, "node-manager-"@ + arch).len() > 0 ==> update_step(
            UpdateEventView::Arch(release, arch),
        ) == UpdateStepView::Download(
            seq![
                "curl"@,
                "-sfL"@,
                "-o"@,
                "/usr/local/bin/node-manager-update"@,
                asset_url(release, "node-manager-"@ + arch),
            ],
        ),
        asset_url(release, "node-manager-"@ + arch).len() == 0 ==> update_step(
            UpdateEventView::Arch(release, arch),
        ) == UpdateStepView::Stop,
        update_step(UpdateEventView::Downloaded(true)) == UpdateStepView::Replace(
            seq!["chmod"@, "+x"@, "/usr/local/bin/node-manager-update"@],
        ),
        update_step(UpdateEventView::Downloaded(false)) == UpdateStepView::Stop,
        update_step(UpdateEventView::Replaced(true)) == UpdateStepView::Restart(
            seq!["systemctl"@, "restart"@, "node-manager.service"@],
        ),
        update_step(UpdateEventView::Replaced(false)) == UpdateStepView::Stop,
{
}

// ---------------------------------------------------------------------------
// Tags
// ---------------------------------------------------------------------------

/// One text precedes another exactly where it sorts before it.
pub proof fn law_precedes_is_order(a: Seq<char>, b: Seq<char>)
    ensures
        precedes(a, b) <==> sorts_before(a, b),
    decreases a.len(),
{
    if b.len() == 0 {
    } else if a.len() == 0 {
        assert(a.take(0) =~= b.take(0));
        assert(smaller_from(a, b, 0));
    } else if a[0] == b[0] {
        let a1 = a.drop_first();
        let b1 = b.drop_first();
        law_precedes_is_order(a1, b1);
        if sorts_before(a1, b1) {
            let i = choose|i: int| smaller_from(a1, b1, i);
            assert(a.take(i + 1) =~= seq![a[0]] + a1.take(i));
            assert(b.take(i + 1) =~= seq![b[0]] + b1.take(i));
            assert(smaller_from(a, b, i + 1));
        }
        if sorts_before(a, b) {
            let i = choose|i: int| smaller_from(a, b, i);
            assert(i > 0);
            assert(a1.take(i - 1) =~= a.take(i).drop_first());
            assert(b1.take(i - 1) =~= b.take(i).drop_first());
            assert(smaller_from(a1, b1, i - 1));
        }
    } else {
        if a[0] < b[0] {
            assert(a.take(0) =~= b.take(0));
            assert(smaller_from(a, b, 0));
        }
        if sorts_before(a, b) {
            let i = choose|i: int| smaller_from(a, b, i);
            if i > 0 {
                assert(a.take(i)[0] == b.take(i)[0]);
            }
        }
    }
}

/// Tags in quotes with commas between them.
pub open spec fn tag_list(tags: Seq<Seq<char>>) -> Seq<char>
    decreases tags.len(),
{
    if tags.len() == 0 {
        seq![]
    } else if tags.len() == 1 {
        seq!['"'] + tags[0] + seq!['"']
    } else {
        seq!['"'] + tags[0] + seq!['"'] + seq![','] + tag_list(tags.drop_first())
    }
}

/// Text before the first quote is the first piece.
proof fn lemma_split_quote(a: Seq<char>, rest: Seq<char>)
    requires
        !a.contains('"'),
    ensures
        split(a + seq!['"'] + rest, seq!['"']) == seq![a] + split(rest, seq!['"']),
{
    let set = seq!['"'];
    let s = a + set + rest;
    assert(set[0] == '"');
    assert forall|j: int| 0 <= j < a.len() implies !set.contains(#[trigger] s[j]) by {
        assert(s[j] == a[j]);
        assert(a.contains(a[j]));
    }
    assert(s[a.len() as int] == '"');
    lemma_find_any_is(s, set, 0, a.len() as int);
    assert(s.take(a.len() as int) =~= a);
    assert(s.skip(a.len() as int + 1) =~= rest);
}

proof fn lemma_tag_list(tags: Seq<Seq<char>>)
    requires
        forall|i: int| 0 <= i < tags.len() ==> !(#[trigger] tags[i]).contains('"'),
    ensures
        ({
            let parts = split(tag_list(tags), seq!['"']);
            &&& parts.len() == 2 * tags.len() + 1
            &&& forall|k: int| 0 <= k < tags.len() ==> parts[2 * k + 1] == #[trigger] tags[k]
        }),
    decreases tags.len(),
{
    let q = seq!['"'];
    let none = Seq::<char>::empty();
    let text = tag_list(tags);
    let parts = split(text, q);
    if tags.len() == 0 {
        lemma_find_any_from(text, q, 0);
        assert(parts =~= seq![text]);
    } else {
        let t = tags[0];
        let more = tags.drop_first();
        assert forall|i: int| 0 <= i < more.len() implies !(#[trigger] more[i]).contains('"') by {
            assert(more[i] == tags[i + 1]);
        }
        lemma_tag_list(more);
        let rest = if tags.len() == 1 {
            none
        } else {
            seq![','] + tag_list(more)
        };
        assert(text =~= none + q + (t + q + rest));
        lemma_split_quote(none, t + q + rest);
        assert(!t.contains('"'));
        lemma_split_quote(t, rest);
        if tags.len() == 1 {
            lemma_find_any_from(none, q, 0);
            assert(split(none, q) =~= seq![none]);
            assert(parts =~= seq![none, t, none]);
        } else {
            let s = tag_list(more);
            let inner = s.drop_first();
            assert(s =~= none + q + inner);
            lemma_split_quote(none, inner);
            assert(rest =~= seq![','] + q + inner);
            assert(!seq![','].contains('"')) by {
                assert(seq![','][0] == ',');
            }
            lemma_split_quote(seq![','], inner);
            let later = split(s, q);
            assert(parts =~= seq![none, t, seq![',']] + split(inner, q));
            assert(later =~= seq![none] + split(inner, q));
            assert forall|k: int| 0 <= k < tags.len() implies parts[2 * k + 1]
                == #[trigger] tags[k] by {
                if k > 0 {
                    assert(later[2 * (k - 1) + 1] == more[k - 1]);
                    assert(parts[2 * k + 1] == later[2 * k - 1]);
                }
            }
        }
    }
}

/// The tag chosen from the registry's list is the one that sorts last among those
/// that begin with the prefix, but for `latest` itself; without such a tag there is
/// none.
pub proof fn law_tag_chosen_from_list(
    before: Seq<char>,
    tags: Seq<Seq<char>>,
    behind: Seq<char>,
    prefix: Seq<char>,
)
    requires
        !before.contains('['),
        !behind.contains(']'),
        forall|i: int| 0 <= i < tags.len() ==> !(#[trigger] tags[i]).contains('"'),
    ensures
        ({
            let chosen = chosen_tag(
                before + seq!['['] + tag_list(tags) + seq![']'] + behind,
                prefix,
            );
            &&& chosen is None <==> forall|i: int|
                0 <= i < tags.len() ==> !starts_with(#[trigger] tags[i], prefix) || tags[i]
                    == "latest"@
            &&& chosen matches Some(g) ==> tags.contains(g) && starts_with(g, prefix) && g
                != "latest"@ && forall|i: int|
                0 <= i < tags.len() && starts_with(#[trigger] tags[i], prefix) && tags[i]
                    != "latest"@ ==> !sorts_before(g, tags[i])
        }),
{
    let list = tag_list(tags);
    let text = before + seq!['['] + list + seq![']'] + behind;
    let a = before.len() as int;
    let b = a + 1 + list.len();
    reveal_strlit("[");
    reveal_strlit("]");
    reveal_strlit("\"");
    assert("["@ =~= seq!['[']);
    assert("]"@ =~= seq![']']);
    assert("\""@ =~= seq!['"']);
    assert("["@[0] == '[');
    assert("]"@[0] == ']');
    assert forall|j: int| 0 <= j < a implies !"["@.contains(#[trigger] text[j]) by {
        assert(text[j] == before[j]);
        assert(before.contains(before[j]));
    }
    assert(text[a] == '[');
    lemma_find_any_is(text, "["@, 0, a);
    assert(text[b] == ']');
    lemma_rfind_any(text, "]"@);
    match rfind_any(text, "]"@) {
        Some(p) => {
            if p > b {
                assert(text[p] == behind[p - b - 1]);
                assert(behind.contains(behind[p - b - 1]));
            }
            if p < b {
                assert("]"@.contains(text[b]));
            }
        },
        None => {
            assert("]"@.contains(text[b]));
        },
    }
    assert(text.subrange(a + 1, b) =~= list);
    lemma_tag_list(tags);
    assert(quoted_texts(list) =~= tags);
    law_greatest_tag(tags, prefix);
    if let Some(g) = greatest(tags, prefix) {
        assert forall|i: int|
            0 <= i < tags.len() && starts_with(#[trigger] tags[i], prefix) && tags[i]
                != "latest"@ implies !sorts_before(g, tags[i]) by {
            assert(is_candidate(tags[i], prefix));
            law_precedes_is_order(g, tags[i]);
        }
        let k = choose|k: int| 0 <= k < tags.len() && tags[k] == g;
        assert(starts_with(tags[k], prefix));
    } else {
        assert forall|i: int| 0 <= i < tags.len() implies !starts_with(#[trigger] tags[i], prefix)
            || tags[i] == "latest"@ by {
            assert(!is_candidate(tags[i], prefix));
        }
    }
}

// ---------------------------------------------------------------------------
// Steps to an image
// ---------------------------------------------------------------------------

/// On ordinary hardware the latest image is chosen at once; on the other its manifest
/// is looked at, and where that names the hardware, it is chosen too.
pub proof fn law_latest_image(image: Seq<char>, prefix: Seq<char>, arch: Seq<char>, text: Seq<char>)
    ensures
        arch != "aarch64"@ ==> image_step(image, prefix, ImageEventView::Arch(arch))
            == ImageStepView::Chosen(image + ":latest"@),
        arch == "aarch64"@ ==> image_step(image, prefix, ImageEventView::Arch(arch))
            == ImageStepView::Inspect(
            seq!["skopeo"@, "inspect"@, "--raw"@, "docker://"@ + (image + ":latest"@)],
        ),
        occurs(text, "arm64"@) || occurs(text, "aarch64"@) <==> image_step(
            image,
            prefix,
            ImageEventView::Manifest(text),
        ) == ImageStepView::Chosen(image + ":latest"@),
{
}

/// Otherwise the registry is asked for a token, by the path of the image in it, and
/// with the token for the tags; without a token the latest image is chosen.
pub proof fn law_registry_is_asked(
    path: Seq<char>,
    prefix: Seq<char>,
    manifest: Seq<char>,
    before: Seq<char>,
    token: Seq<char>,
    rest: Seq<char>,
)
    requires
        !starts_with(path, "ghcr.io/"@),
        !token.contains('"'),
        !occurs(before + keyed("token"@).drop_last(), keyed("token"@)),
    ensures
        ({
            let image = "ghcr.io/"@ + path;
            let reply = before + keyed("token"@) + quoted(token) + rest;
            &&& !occurs(manifest, "arm64"@) && !occurs(manifest, "aarch64"@) ==> image_step(
                image,
                prefix,
                ImageEventView::Manifest(manifest),
            ) == ImageStepView::FetchToken(
                seq![
                    "curl"@,
                    "-sf"@,
                    "https://ghcr.io/token?scope=repository:"@ + path + ":pull&service=ghcr.io"@,
                ],
            )
            &&& image_step(image, prefix, ImageEventView::Token(reply)) == (if token.len() == 0 {
                ImageStepView::Chosen(image + ":latest"@)
            } else {
                ImageStepView::FetchTags(
                    seq![
                        "curl"@,
                        "-sf"@,
                        "-H"@,
                        "Authorization: Bearer "@ + token,
                        "https://ghcr.io/v2/"@ + path + "/tags/list"@,
                    ],
                )
            })
        }),
{
    let pat = "ghcr.io/"@;
    let image = pat + path;
    reveal_strlit("ghcr.io/");
    law_tight_field_read(before, "token"@, token, rest);
    assert(image.subrange(0, 0 + pat.len() as int) =~= pat);
    assert(image.skip(pat.len() as int) =~= path);
    assert(without_prefix(path, pat) == path);
    assert(repo_path(image) == path);
}

/// The tag that was chosen stands behind the image and a colon; without one, the
/// latest image is chosen.
pub proof fn law_image_with_tag(image: Seq<char>, prefix: Seq<char>, reply: Seq<char>)
    ensures
        image_step(image, prefix, ImageEventView::Tags(reply)) == ImageStepView::Chosen(
            image + ":"@ + (match chosen_tag(reply, prefix) {
                Some(tag) => tag,
                None => "latest"@,
            }),
        ),
{
    reveal_strlit(":latest");
    reveal_strlit(":");
    reveal_strlit("latest");
    assert(image + ":latest"@ =~= image + ":"@ + "latest"@);
}

} // verus!
