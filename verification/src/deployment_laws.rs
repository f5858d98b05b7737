//! What holds of the list of deployments: what is remembered is what is read, and
//! what changes in the list.
use vstd::prelude::*;

use crate::deployments::{
    deployment_json, deployment_of, deployments_json, deployments_of, depth, joined, last_opening,
    lemma_position_of, manifest_field, objects, position_of, upserted, without_id, DeploymentView,
};
use crate::escape::{escaped, escaped_char, lemma_json_plain, Escape};
use crate::json::{
    after, block, block_end, keyed, lemma_after_quote, lemma_quoted_start, lemma_quoted_value,
    member, quoted, quoted_value, string_field,
};
use crate::split::{lemma_split_once, lemma_trim_id, split_once, trim_start};
use crate::text::starts_with;

verus! {

// ---------------------------------------------------------------------------
// Objects in a list
// ---------------------------------------------------------------------------

/// A text in braces, the first of which is closed by its last character.
pub open spec fn is_object(s: Seq<char>) -> bool {
    &&& s.len() >= 2
    &&& s[0] == '{'
    &&& depth(s) == 0
    &&& forall|i: int| 0 < i < s.len() ==> depth(#[trigger] s.take(i)) > 0
}

pub proof fn lemma_depth_concat(a: Seq<char>, b: Seq<char>)
    ensures
        depth(a + b) == depth(a) + depth(b),
    decreases b.len(),
{
    if b.len() == 0 {
        assert(a + b =~= a);
    } else {
        assert((a + b).drop_last() =~= a + b.drop_last());
        lemma_depth_concat(a, b.drop_last());
    }
}

proof fn lemma_inside_object(a: Seq<char>, obj: Seq<char>, i: int)
    requires
        depth(a) == 0,
        is_object(obj),
        0 < i < obj.len(),
    ensures
        objects(a + obj.take(i)) == objects(a),
        last_opening(a + obj.take(i)) == a.len(),
    decreases i,
{
    let s = a + obj.take(i);
    assert(obj.take(i).drop_last() =~= obj.take(i - 1));
    assert(s.drop_last() =~= a + obj.take(i - 1));
    lemma_depth_concat(a, obj.take(i - 1));
    lemma_depth_concat(a, obj.take(i));
    assert(s.last() == obj[i - 1]);
    if i == 1 {
        assert(obj.take(0) =~= Seq::<char>::empty());
        assert(s.drop_last() =~= a);
    } else {
        lemma_inside_object(a, obj, i - 1);
        assert(depth(obj.take(i - 1)) > 0);
    }
    assert(depth(obj.take(i)) > 0);
}

/// An object behind a text with no open braces is one more object.
proof fn lemma_one_more_object(a: Seq<char>, obj: Seq<char>)
    requires
        depth(a) == 0,
        is_object(obj),
    ensures
        objects(a + obj) == objects(a).push(obj),
        depth(a + obj) == 0,
{
    let n = obj.len() as int;
    let s = a + obj;
    lemma_depth_concat(a, obj);
    lemma_inside_object(a, obj, n - 1);
    assert(s.drop_last() =~= a + obj.take(n - 1));
    assert(obj.drop_last() =~= obj.take(n - 1));
    assert(depth(obj.take(n - 1)) > 0);
    assert(s.last() == obj.last());
    lemma_depth_concat(a, obj.take(n - 1));
    assert(last_opening(s) == a.len());
    assert(s.skip(a.len() as int) =~= obj);
}

proof fn lemma_objects_joined(ds: Seq<DeploymentView>)
    requires
        forall|i: int| 0 <= i < ds.len() ==> is_object(deployment_json(#[trigger] ds[i])),
    ensures
        objects(joined(ds)) == ds.map_values(|d: DeploymentView| deployment_json(d)),
        depth(joined(ds)) == 0,
    decreases ds.len(),
{
    let f = |d: DeploymentView| deployment_json(d);
    if ds.len() == 0 {
        assert(objects(joined(ds)) =~= ds.map_values(f));
    } else {
        let before = ds.drop_last();
        assert forall|i: int| 0 <= i < before.len() implies is_object(
            deployment_json(#[trigger] before[i]),
        ) by {
            assert(before[i] == ds[i]);
        }
        lemma_objects_joined(before);
        assert(is_object(deployment_json(ds[ds.len() - 1])));
        assert(ds.map_values(f) =~= before.map_values(f).push(deployment_json(ds.last())));
        if ds.len() == 1 {
            let none = Seq::<char>::empty();
            lemma_one_more_object(none, deployment_json(ds[0]));
            assert(none + deployment_json(ds[0]) =~= deployment_json(ds[0]));
            assert(objects(none) =~= before.map_values(f));
        } else {
            let a = joined(before) + seq![','];
            assert(a.drop_last() =~= joined(before));
            assert(a.last() == ',');
            lemma_one_more_object(a, deployment_json(ds.last()));
        }
    }
}

// ---------------------------------------------------------------------------
// Fields in an object
// ---------------------------------------------------------------------------

/// Names with strings under them, each followed by a comma, and then the rest of
/// an object.
pub open spec fn fields_json(fs: Seq<(Seq<char>, Seq<char>)>, tail: Seq<char>) -> Seq<char>
    decreases fs.len(),
{
    if fs.len() == 0 {
        tail
    } else {
        keyed(fs[0].0) + quoted(fs[0].1) + seq![','] + fields_json(fs.drop_first(), tail)
    }
}

/// A name that stands for nothing but itself in an object.
pub open spec fn is_name(k: Seq<char>) -> bool {
    &&& !k.contains('"')
    &&& !k.contains(':')
    &&& !k.contains(',')
    &&& k.len() > 0
}

/// A field in front of the text is passed over in the search for a name.
pub proof fn lemma_pass_field(k: Seq<char>, v: Seq<char>, rest: Seq<char>, name: Seq<char>)
    requires
        is_name(k),
        is_name(name),
        k != name,
        !v.contains('"'),
        v != name,
        rest.len() > 0,
        rest[0] == '"',
    ensures
        after(keyed(k) + quoted(v) + seq![','] + rest, quoted(name)) == after(rest, quoted(name)),
{
    let q = seq!['"'];
    let none = Seq::<char>::empty();
    let w = name + q + none;
    assert(quoted(name) =~= q + w);
    let z = rest.drop_first();
    assert(rest =~= none + q + z);
    let y = seq![','] + rest;
    assert(y =~= seq![','] + q + z);
    let vy = v + q + y;
    let colon = seq![':'] + q + vy;
    let all = keyed(k) + quoted(v) + seq![','] + rest;
    assert(all =~= none + q + (k + q + colon));
    lemma_after_quote(none, k + q + colon, w);
    lemma_quoted_start(k, colon, name, none);
    lemma_after_quote(k, colon, w);
    assert(!seq![':'].contains('"'));
    assert(seq![':'] != name) by {
        assert(seq![':'].contains(seq![':'][0]));
    }
    lemma_quoted_start(seq![':'], vy, name, none);
    lemma_after_quote(seq![':'], vy, w);
    lemma_quoted_start(v, y, name, none);
    lemma_after_quote(v, y, w);
    assert(!seq![','].contains('"'));
    assert(seq![','] != name) by {
        assert(seq![','].contains(seq![','][0]));
    }
    lemma_quoted_start(seq![','], z, name, none);
    lemma_after_quote(seq![','], z, w);
    lemma_after_quote(none, z, w);
}

/// A backslash stands before each quote.
spec fn quotes_escaped(v: Seq<char>) -> bool {
    forall|i: int| 0 <= i < v.len() && #[trigger] v[i] == '"' ==> i > 0 && v[i - 1] == '\\'
}

/// A backslash stands before each quote in an escaped text.
proof fn lemma_quotes_escaped(s: Seq<char>)
    ensures
        quotes_escaped(escaped(s, Escape::Json)),
    decreases s.len(),
{
    if s.len() > 0 {
        let before = escaped(s.drop_last(), Escape::Json);
        let last = escaped_char(s.last(), Escape::Json);
        let all = escaped(s, Escape::Json);
        lemma_quotes_escaped(s.drop_last());
        reveal_strlit("\\\\");
        reveal_strlit("\\\"");
        assert("\\\\"@[0] == '\\' && "\\\\"@[1] == '\\');
        assert("\\\""@[0] == '\\' && "\\\""@[1] == '"');
        assert forall|i: int| 0 <= i < all.len() && #[trigger] all[i] == '"' implies i > 0 && all[i
            - 1] == '\\' by {
            if i < before.len() {
                assert(all[i] == before[i]);
                assert(all[i - 1] == before[i - 1]);
            } else {
                assert(all[i] == last[i - before.len()]);
                assert(i == before.len() + 1);
                assert(all[i - 1] == last[0]);
            }
        }
    }
}

/// An escaped string that a comma follows does not begin like a name with its
/// colon.
proof fn lemma_no_name_in_value(v: Seq<char>, y: Seq<char>, name: Seq<char>)
    requires
        quotes_escaped(v),
        is_name(name),
        !name.contains('\\'),
        y.len() > 0,
        y[0] == ',',
    ensures
        !starts_with(v + seq!['"'] + y, name + seq!['"'] + seq![':']),
{
    let q = seq!['"'];
    let s = v + q + y;
    if v.contains('"') {
        let k = first_quote(v);
        lemma_first_quote(v);
        let u = v.take(k);
        let rest = v.skip(k + 1) + q + y;
        assert(s =~= u + q + rest);
        assert(v[k] == '"');
        assert(u.last() == '\\');
        lemma_quoted_start(u, rest, name, seq![':']);
        if u == name {
            assert(name[name.len() - 1] == '\\');
        }
    } else {
        lemma_quoted_start(v, y, name, seq![':']);
        if starts_with(y, seq![':']) {
            assert(y.subrange(0, 0 + seq![':'].len() as int)[0] == ':');
        }
    }
}

/// The position of the first quote.
spec fn first_quote(v: Seq<char>) -> int
    decreases v.len(),
{
    if v.len() == 0 || v[0] == '"' {
        0
    } else {
        1 + first_quote(v.drop_first())
    }
}

proof fn lemma_first_quote(v: Seq<char>)
    requires
        v.contains('"'),
    ensures
        0 <= first_quote(v) < v.len(),
        v[first_quote(v)] == '"',
        !v.take(first_quote(v)).contains('"'),
    decreases v.len(),
{
    let i = choose|i: int| 0 <= i < v.len() && v[i] == '"';
    if v[0] != '"' {
        let rest = v.drop_first();
        assert(rest[i - 1] == '"');
        lemma_first_quote(rest);
        let k = first_quote(rest);
        assert(v[k + 1] == rest[k]);
        let head = v.take(k + 1);
        assert forall|j: int| 0 <= j < k + 1 implies #[trigger] head[j] != '"' by {
            if j > 0 {
                assert(head[j] == rest.take(k)[j - 1]);
            }
        }
    }
}

/// An escaped string that a comma follows is passed over in the search for a name.
proof fn lemma_pass_value(v: Seq<char>, y: Seq<char>, name: Seq<char>)
    requires
        quotes_escaped(v),
        is_name(name),
        !name.contains('\\'),
        y.len() > 0,
        y[0] == ',',
    ensures
        after(v + seq!['"'] + y, seq!['"'] + (name + seq!['"'] + seq![':'])) == after(
            y,
            seq!['"'] + (name + seq!['"'] + seq![':']),
        ),
    decreases v.len(),
{
    let q = seq!['"'];
    let w = name + q + seq![':'];
    if v.contains('"') {
        let k = first_quote(v);
        lemma_first_quote(v);
        let u = v.take(k);
        let v1 = v.skip(k + 1);
        let rest = v1 + q + y;
        assert(v + q + y =~= u + q + rest);
        lemma_after_quote(u, rest, w);
        assert forall|i: int| 0 <= i < v1.len() && #[trigger] v1[i] == '"' implies i > 0 && v1[i
            - 1] == '\\' by {
            assert(v[i + k + 1] == '"');
            assert(v[i + k] == '\\');
        }
        lemma_no_name_in_value(v1, y, name);
        lemma_pass_value(v1, y, name);
    } else {
        lemma_after_quote(v, y, w);
        if starts_with(y, w) {
            assert(y.subrange(0, 0 + w.len() as int)[0] == w[0]);
            assert(name[0] == ',');
        }
    }
}

/// A field with an escaped string in front of the text is passed over in the search
/// for a name.
proof fn lemma_pass_escaped_field(k: Seq<char>, v: Seq<char>, rest: Seq<char>, name: Seq<char>)
    requires
        is_name(k),
        is_name(name),
        !name.contains('\\'),
        k != name,
        quotes_escaped(v),
        rest.len() > 0,
        rest[0] == '"',
    ensures
        after(keyed(k) + quoted(v) + seq![','] + rest, keyed(name)) == after(rest, keyed(name)),
{
    let q = seq!['"'];
    let w = name + q + seq![':'];
    assert(keyed(name) =~= q + w);
    let none = Seq::<char>::empty();
    let z = rest.drop_first();
    assert(rest =~= none + q + z);
    let y = seq![','] + rest;
    assert(y =~= seq![','] + q + z);
    let vy = v + q + y;
    let colon = seq![':'] + q + vy;
    assert(keyed(k) + quoted(v) + seq![','] + rest =~= none + q + (k + q + colon));
    lemma_after_quote(none, k + q + colon, w);
    lemma_quoted_start(k, colon, name, seq![':']);
    lemma_after_quote(k, colon, w);
    assert(!seq![':'].contains('"'));
    assert(seq![':'] != name) by {
        assert(seq![':'].contains(seq![':'][0]));
    }
    lemma_quoted_start(seq![':'], vy, name, seq![':']);
    lemma_after_quote(seq![':'], vy, w);
    lemma_no_name_in_value(v, y, name);
    lemma_pass_value(v, y, name);
    assert(!seq![','].contains('"'));
    lemma_after_quote(seq![','], z, w);
    lemma_after_quote(none, z, w);
}

pub proof fn lemma_fields_start(fs: Seq<(Seq<char>, Seq<char>)>, tail: Seq<char>)
    requires
        tail.len() > 0,
        tail[0] == '"',
    ensures
        fields_json(fs, tail).len() > 0,
        fields_json(fs, tail)[0] == '"',
{
}

/// What is read behind a name.
pub open spec fn value_behind(rest: Option<Seq<char>>) -> Seq<char> {
    match rest {
        None => seq![],
        Some(r) => match split_once(r, ":"@) {
            None => seq![],
            Some((_, value)) => quoted_value(trim_start(value)),
        },
    }
}

pub proof fn lemma_value_at_hand(before: Seq<char>, value: Seq<char>, rest: Seq<char>)
    requires
        !before.contains(':'),
        !value.contains('"'),
    ensures
        value_behind(Some(before + seq![':'] + (quoted(value) + rest))) == value,
{
    reveal_strlit(":");
    assert(":"@ =~= seq![':']);
    lemma_split_once(before, ':', quoted(value) + rest, ":"@);
    lemma_quoted_value(value, rest);
}

/// The string under the name of a field is the value of that field.
pub proof fn lemma_field_read(fs: Seq<(Seq<char>, Seq<char>)>, tail: Seq<char>, j: int)
    requires
        0 <= j < fs.len(),
        tail.len() > 0,
        tail[0] == '"',
        forall|i: int| 0 <= i < fs.len() ==> is_name((#[trigger] fs[i]).0) && !fs[i].1.contains('"'),
        forall|i: int| 0 <= i < j ==> (#[trigger] fs[i]).0 != fs[j].0,
        forall|i: int| 0 <= i < j - 1 ==> (#[trigger] fs[i]).1 != fs[j].0,
    ensures
        string_field(fields_json(fs, tail), fs[j].0) == fs[j].1,
    decreases fs.len(),
{
    let q = seq!['"'];
    let none = Seq::<char>::empty();
    let name = fs[j].0;
    let w = name + q + none;
    assert(quoted(name) =~= q + w);
    let k = fs[0].0;
    let v = fs[0].1;
    let more = fs.drop_first();
    let rest = fields_json(more, tail);
    let all = fields_json(fs, tail);
    lemma_fields_start(more, tail);
    assert(string_field(all, name) == value_behind(after(all, quoted(name))));
    if j == 0 {
        let behind = seq![':'] + (quoted(v) + (seq![','] + rest));
        assert(all =~= none + q + (k + q + behind));
        lemma_after_quote(none, k + q + behind, w);
        lemma_quoted_start(k, behind, name, none);
        assert(behind.subrange(0, 0) =~= none);
        assert((k + q + behind).skip(w.len() as int) =~= none + seq![':'] + (quoted(v) + (seq![',']
            + rest)));
        lemma_value_at_hand(none, v, seq![','] + rest);
    } else if v == name {
        assert(j == 1);
        let k1 = more[0].0;
        let v1 = more[0].1;
        assert(more[0] == fs[1]);
        let rest1 = fields_json(more.drop_first(), tail);
        let y = seq![','] + rest;
        let vy = v + q + y;
        let colon = seq![':'] + q + vy;
        assert(all =~= none + q + (k + q + colon));
        lemma_after_quote(none, k + q + colon, w);
        lemma_quoted_start(k, colon, name, none);
        lemma_after_quote(k, colon, w);
        assert(!seq![':'].contains('"'));
        assert(seq![':'] != name) by {
            assert(seq![':'].contains(seq![':'][0]));
        }
        lemma_quoted_start(seq![':'], vy, name, none);
        lemma_after_quote(seq![':'], vy, w);
        lemma_quoted_start(v, y, name, none);
        assert(y.subrange(0, 0) =~= none);
        assert(vy.skip(w.len() as int) =~= y);
        let before = seq![',', '"'] + k1 + q;
        assert(y =~= before + seq![':'] + (quoted(v1) + (seq![','] + rest1)));
        assert(!before.contains(':')) by {
            if before.contains(':') {
                let i = choose|i: int| 0 <= i < before.len() && before[i] == ':';
                assert(k1[i - 2] == ':');
            }
        }
        lemma_value_at_hand(before, v1, seq![','] + rest1);
    } else {
        lemma_pass_field(k, v, rest, name);
        assert forall|i: int| 0 <= i < more.len() implies is_name((#[trigger] more[i]).0)
            && !more[i].1.contains('"') by {
            assert(more[i] == fs[i + 1]);
        }
        assert forall|i: int| 0 <= i < j - 1 implies (#[trigger] more[i]).0 != name by {
            assert(more[i] == fs[i + 1]);
        }
        assert forall|i: int| 0 <= i < j - 2 implies (#[trigger] more[i]).1 != name by {
            assert(more[i] == fs[i + 1]);
        }
        assert(more[j - 1] == fs[j]);
        lemma_field_read(more, tail, j - 1);
    }
}

// ---------------------------------------------------------------------------
// What is remembered is what is read
// ---------------------------------------------------------------------------

/// The names of the strings of a deployment, in order.
pub open spec fn field_names() -> Seq<Seq<char>> {
    seq![
        "id"@,
        "app_name"@,
        "app_version"@,
        "app_id"@,
        "status"@,
        "deployed_at"@,
        "last_error"@,
    ]
}

/// The strings of a deployment, in order.
pub open spec fn field_values(d: DeploymentView) -> Seq<Seq<char>> {
    seq![d.id, d.app_name, d.app_version, d.app_id, d.status, d.deployed_at, d.last_error]
}

/// The strings of a deployment need no escapes.
pub open spec fn has_plain_strings(d: DeploymentView) -> bool {
    forall|i: int|
        0 <= i < 7 ==> !(#[trigger] field_values(d)[i]).contains('"') && !field_values(
            d,
        )[i].contains('\\')
}

/// No string of a deployment is the name of a string further on than the next.
pub open spec fn has_no_names(d: DeploymentView) -> bool {
    forall|i: int, j: int|
        0 <= i && i + 1 < j < 7 ==> #[trigger] field_values(d)[i] != #[trigger] field_names()[j]
}

/// A deployment that the file can give back: its strings need no escapes, none of
/// them is the name of a string further on than the next, its manifest is an
/// object, and its braces close where its object ends.
pub open spec fn recordable(d: DeploymentView) -> bool {
    &&& has_plain_strings(d)
    &&& has_no_names(d)
    &&& is_object(d.manifest)
    &&& is_object(deployment_json(d))
}

/// The fields of a deployment, with their strings escaped.
spec fn fields(d: DeploymentView) -> Seq<(Seq<char>, Seq<char>)> {
    Seq::new(7, |i: int| (field_names()[i], escaped(field_values(d)[i], Escape::Json)))
}

/// The end of a deployment's object.
spec fn fields_tail(d: DeploymentView) -> Seq<char> {
    keyed("manifest"@) + (d.manifest + seq!['}'])
}

proof fn lemma_names()
    ensures
        forall|i: int| 0 <= i < 7 ==> is_name(#[trigger] field_names()[i]),
        forall|i: int, j: int|
            0 <= i < j < 7 ==> #[trigger] field_names()[i] != #[trigger] field_names()[j],
        is_name("manifest"@),
        forall|i: int| 0 <= i < 7 ==> #[trigger] field_names()[i] != "manifest"@,
{
    reveal_strlit("id");
    reveal_strlit("app_name");
    reveal_strlit("app_version");
    reveal_strlit("app_id");
    reveal_strlit("status");
    reveal_strlit("deployed_at");
    reveal_strlit("last_error");
    reveal_strlit("manifest");
    assert("id"@.len() == 2);
    assert("app_name"@.len() == 8 && "app_name"@[0] == 'a');
    assert("app_version"@.len() == 11 && "app_version"@[0] == 'a');
    assert("app_id"@.len() == 6 && "app_id"@[0] == 'a');
    assert("status"@.len() == 6 && "status"@[0] == 's');
    assert("deployed_at"@.len() == 11 && "deployed_at"@[0] == 'd');
    assert("last_error"@.len() == 10);
    assert("manifest"@.len() == 8 && "manifest"@[0] == 'm');
}

proof fn lemma_regroup(l: Seq<char>, m: Seq<char>, c: Seq<char>, r: Seq<char>)
    ensures
        l + m + c + r == l + (m + c + r),
{
    assert(l + m + c + r =~= l + (m + c + r));
}

/// One more field in front of the others.
proof fn lemma_next_field(d: DeploymentView, i: int, name: Seq<char>, value: Seq<char>)
    requires
        0 <= i < 7,
        name == field_names()[i],
        value == field_values(d)[i],
    ensures
        fields_json(fields(d).skip(i), fields_tail(d)) == member(name, value) + seq![',']
            + fields_json(fields(d).skip(i + 1), fields_tail(d)),
{
    assert(fields(d).skip(i).drop_first() =~= fields(d).skip(i + 1));
    assert(fields(d).skip(i)[0] == fields(d)[i]);
}

proof fn lemma_object_is_fields(d: DeploymentView)
    ensures
        deployment_json(d) == seq!['{'] + fields_json(fields(d), fields_tail(d)),
{
    lemma_next_field(d, 0, "id"@, d.id);
    lemma_next_field(d, 1, "app_name"@, d.app_name);
    lemma_next_field(d, 2, "app_version"@, d.app_version);
    lemma_next_field(d, 3, "app_id"@, d.app_id);
    lemma_next_field(d, 4, "status"@, d.status);
    lemma_next_field(d, 5, "deployed_at"@, d.deployed_at);
    lemma_next_field(d, 6, "last_error"@, d.last_error);
    let t = fields_tail(d);
    let f = fields(d);
    assert(f.skip(0) =~= f);
    assert(fields_json(f.skip(7), t) == t);
    let c = seq![','];
    let l0 = seq!['{'];
    let l1 = l0 + member("id"@, d.id) + c;
    let l2 = l1 + member("app_name"@, d.app_name) + c;
    let l3 = l2 + member("app_version"@, d.app_version) + c;
    let l4 = l3 + member("app_id"@, d.app_id) + c;
    let l5 = l4 + member("status"@, d.status) + c;
    let l6 = l5 + member("deployed_at"@, d.deployed_at) + c;
    let l7 = l6 + member("last_error"@, d.last_error) + c;
    lemma_regroup(l0, member("id"@, d.id), c, fields_json(f.skip(1), t));
    lemma_regroup(l1, member("app_name"@, d.app_name), c, fields_json(f.skip(2), t));
    lemma_regroup(l2, member("app_version"@, d.app_version), c, fields_json(f.skip(3), t));
    lemma_regroup(l3, member("app_id"@, d.app_id), c, fields_json(f.skip(4), t));
    lemma_regroup(l4, member("status"@, d.status), c, fields_json(f.skip(5), t));
    lemma_regroup(l5, member("deployed_at"@, d.deployed_at), c, fields_json(f.skip(6), t));
    lemma_regroup(l6, member("last_error"@, d.last_error), c, fields_json(f.skip(7), t));
    lemma_regroup(l7, keyed("manifest"@), d.manifest, seq!['}']);
    assert(keyed("manifest"@) + d.manifest + seq!['}'] =~= t);
    assert(deployment_json(d) == l7 + keyed("manifest"@) + d.manifest + seq!['}']);
}

/// A character in front of a text that begins with a quote does not matter to the
/// search for a name.
pub proof fn lemma_pass_char(c: char, text: Seq<char>, w: Seq<char>)
    requires
        c != '"',
        text.len() > 0,
        text[0] == '"',
    ensures
        after(seq![c] + text, seq!['"'] + w) == after(text, seq!['"'] + w),
{
    let z = text.drop_first();
    let none = Seq::<char>::empty();
    assert(text =~= none + seq!['"'] + z);
    assert(seq![c] + text =~= seq![c] + seq!['"'] + z);
    assert(!seq![c].contains('"')) by {
        assert(seq![c][0] == c);
    }
    lemma_after_quote(seq![c], z, w);
    lemma_after_quote(none, z, w);
}

proof fn lemma_pass_fields(fs: Seq<(Seq<char>, Seq<char>)>, tail: Seq<char>, name: Seq<char>)
    requires
        tail.len() > 0,
        tail[0] == '"',
        is_name(name),
        !name.contains('\\'),
        forall|i: int|
            0 <= i < fs.len() ==> is_name((#[trigger] fs[i]).0) && fs[i].0 != name
                && quotes_escaped(fs[i].1),
    ensures
        after(fields_json(fs, tail), keyed(name)) == after(tail, keyed(name)),
    decreases fs.len(),
{
    if fs.len() > 0 {
        let more = fs.drop_first();
        lemma_fields_start(more, tail);
        assert(is_name(fs[0].0));
        lemma_pass_escaped_field(fs[0].0, fs[0].1, fields_json(more, tail), name);
        assert forall|i: int| 0 <= i < more.len() implies is_name((#[trigger] more[i]).0)
            && more[i].0 != name && quotes_escaped(more[i].1) by {
            assert(more[i] == fs[i + 1]);
        }
        lemma_pass_fields(more, tail, name);
    }
}

/// The brackets of an object are closed at its end, whatever follows.
pub proof fn lemma_block_end(obj: Seq<char>, rest: Seq<char>, i: int)
    requires
        is_object(obj),
        0 <= i < obj.len(),
    ensures
        block_end(obj + rest, '{', '}', i, depth(obj.take(i))) == Some(obj.len() - 1),
    decreases obj.len() - i,
{
    let s = obj + rest;
    assert(s[i] == obj[i]);
    assert(obj.take(i + 1).drop_last() =~= obj.take(i));
    assert(obj.take(i + 1).last() == obj[i]);
    assert(obj.take(obj.len() as int) =~= obj);
    if i == 0 {
        assert(obj.take(0) =~= Seq::<char>::empty());
    } else {
        assert(depth(obj.take(i)) > 0);
    }
    if i + 1 < obj.len() {
        assert(depth(obj.take(i + 1)) > 0);
        lemma_block_end(obj, rest, i + 1);
    }
}

proof fn lemma_fields_readable(d: DeploymentView)
    requires
        recordable(d),
    ensures
        forall|i: int|
            0 <= i < 7 ==> is_name((#[trigger] fields(d)[i]).0) && !fields(d)[i].1.contains('"')
                && fields(d)[i].1 == field_values(d)[i],
        fields_tail(d).len() > 0,
        fields_tail(d)[0] == '"',
{
    lemma_names();
    assert forall|i: int| 0 <= i < 7 implies is_name((#[trigger] fields(d)[i]).0) && !fields(
        d,
    )[i].1.contains('"') && fields(d)[i].1 == field_values(d)[i] by {
        assert(!field_values(d)[i].contains('"'));
        assert(is_name(field_names()[i]));
        lemma_json_plain(field_values(d)[i]);
    }
    assert(fields_tail(d)[0] == keyed("manifest"@)[0]);
}

proof fn lemma_string_read(d: DeploymentView, j: int, name: Seq<char>, value: Seq<char>)
    requires
        recordable(d),
        0 <= j < 7,
        name == field_names()[j],
        value == field_values(d)[j],
    ensures
        string_field(deployment_json(d), name) == value,
{
    let fs = fields(d);
    let tail = fields_tail(d);
    lemma_names();
    lemma_object_is_fields(d);
    lemma_fields_readable(d);
    lemma_fields_start(fs, tail);
    assert forall|i: int| 0 <= i < j implies (#[trigger] fs[i]).0 != fs[j].0 by {
        assert(field_names()[i] != field_names()[j]);
    }
    assert forall|i: int| 0 <= i < j - 1 implies (#[trigger] fs[i]).1 != fs[j].0 by {
        assert(field_values(d)[i] != field_names()[j]);
    }
    lemma_field_read(fs, tail, j);
    assert(quoted(name) =~= seq!['"'] + (name + seq!['"']));
    lemma_pass_char('{', fields_json(fs, tail), name + seq!['"']);
}

/// The manifest of a deployment is read back from its object, whatever its strings
/// hold.
pub proof fn law_manifest_round_trip(d: DeploymentView)
    requires
        is_object(d.manifest),
    ensures
        manifest_field(deployment_json(d)) == d.manifest,
{
    let fs = fields(d);
    let tail = fields_tail(d);
    let q = seq!['"'];
    let none = Seq::<char>::empty();
    lemma_names();
    lemma_object_is_fields(d);
    assert forall|i: int| 0 <= i < fs.len() implies is_name((#[trigger] fs[i]).0) && fs[i].0
        != "manifest"@ && quotes_escaped(fs[i].1) by {
        assert(is_name(field_names()[i]));
        lemma_quotes_escaped(field_values(d)[i]);
    }
    assert(tail[0] == keyed("manifest"@)[0]);
    lemma_fields_start(fs, tail);
    let name = "manifest"@;
    assert(!name.contains('\\')) by {
        reveal_strlit("manifest");
    }
    let w = name + q + seq![':'];
    assert(keyed(name) =~= q + w);
    lemma_pass_char('{', fields_json(fs, tail), w);
    lemma_pass_fields(fs, tail, name);
    let behind = d.manifest + seq!['}'];
    assert(tail =~= none + q + (name + q + (seq![':'] + behind)));
    lemma_after_quote(none, name + q + (seq![':'] + behind), w);
    lemma_quoted_start(name, seq![':'] + behind, name, seq![':']);
    assert((seq![':'] + behind).subrange(0, 0 + seq![':'].len() as int) =~= seq![':']);
    assert((name + q + (seq![':'] + behind)).skip(w.len() as int) =~= behind);
    assert(behind[0] == '{');
    assert(trim_start(behind) == behind);
    lemma_block_end(d.manifest, seq!['}'], 0);
    assert(d.manifest.take(0) =~= none);
    assert(behind.take(d.manifest.len() as int) =~= d.manifest);
    assert(block(behind, '{', '}') == d.manifest);
}

/// A text in which every field of a deployment is read describes it.
proof fn lemma_all_read(obj: Seq<char>, d: DeploymentView)
    requires
        string_field(obj, "id"@) == d.id,
        string_field(obj, "app_name"@) == d.app_name,
        string_field(obj, "app_version"@) == d.app_version,
        string_field(obj, "app_id"@) == d.app_id,
        string_field(obj, "status"@) == d.status,
        string_field(obj, "deployed_at"@) == d.deployed_at,
        string_field(obj, "last_error"@) == d.last_error,
        manifest_field(obj) == d.manifest,
    ensures
        deployment_of(obj) == d,
{
}

/// The object of a deployment gives the deployment back.
#[verifier::spinoff_prover]
pub proof fn law_deployment_round_trip(d: DeploymentView)
    requires
        recordable(d),
    ensures
        deployment_of(deployment_json(d)) == d,
{
    lemma_string_read(d, 0, "id"@, d.id);
    lemma_string_read(d, 1, "app_name"@, d.app_name);
    lemma_string_read(d, 2, "app_version"@, d.app_version);
    lemma_string_read(d, 3, "app_id"@, d.app_id);
    lemma_string_read(d, 4, "status"@, d.status);
    lemma_string_read(d, 5, "deployed_at"@, d.deployed_at);
    lemma_string_read(d, 6, "last_error"@, d.last_error);
    law_manifest_round_trip(d);
    lemma_all_read(deployment_json(d), d);
}

/// Reading the file of recordable deployments gives back those deployments.
pub proof fn law_deployments_round_trip(ds: Seq<DeploymentView>)
    requires
        forall|i: int| 0 <= i < ds.len() ==> recordable(#[trigger] ds[i]),
    ensures
        deployments_of(deployments_json(ds)) == ds,
{
    let text = deployments_json(ds);
    lemma_trim_id(text);
    assert(text.subrange(1, text.len() - 1) =~= joined(ds));
    assert forall|i: int| 0 <= i < ds.len() implies is_object(
        deployment_json(#[trigger] ds[i]),
    ) by {
        assert(recordable(ds[i]));
    }
    lemma_objects_joined(ds);
    let back = deployments_of(text);
    assert forall|i: int| 0 <= i < ds.len() implies back[i] == ds[i] by {
        assert(recordable(ds[i]));
        law_deployment_round_trip(ds[i]);
    }
    assert(back =~= ds);
}

/// Reading the file of deployments gives back their manifests, in order, whatever
/// their strings hold, as long as the braces of each object close at its end.
pub proof fn law_manifests_round_trip(ds: Seq<DeploymentView>)
    requires
        forall|i: int|
            0 <= i < ds.len() ==> is_object((#[trigger] ds[i]).manifest) && is_object(
                deployment_json(ds[i]),
            ),
    ensures
        deployments_of(deployments_json(ds)).len() == ds.len(),
        forall|i: int|
            0 <= i < ds.len() ==> (#[trigger] deployments_of(deployments_json(ds))[i]).manifest
                == ds[i].manifest,
{
    let text = deployments_json(ds);
    lemma_trim_id(text);
    assert(text.subrange(1, text.len() - 1) =~= joined(ds));
    lemma_objects_joined(ds);
    let back = deployments_of(text);
    assert forall|i: int| 0 <= i < ds.len() implies (#[trigger] back[i]).manifest
        == ds[i].manifest by {
        assert(is_object(ds[i].manifest));
        law_manifest_round_trip(ds[i]);
    }
}

/// A new list has the deployment under its id and every other id as before, and
/// where no id occurred twice, none does.
pub proof fn law_upsert(ds: Seq<DeploymentView>, d: DeploymentView)
    ensures
        position_of(upserted(ds, d), d.id) matches Some(p) && upserted(ds, d)[p] == d,
        forall|e: DeploymentView|
            e.id != d.id ==> (upserted(ds, d).contains(e) <==> #[trigger] ds.contains(e)),
        ids_distinct(ds) ==> ids_distinct(upserted(ds, d)),
{
    let new = upserted(ds, d);
    lemma_position_of(ds, d.id);
    lemma_position_of(new, d.id);
    match position_of(ds, d.id) {
        Some(p) => {
            assert(new[p] == d);
            assert forall|j: int| 0 <= j < new.len() && j != p implies new[j] == ds[j] by {}
            match position_of(new, d.id) {
                Some(r) => {
                    if r < p {
                        assert(new[r] == ds[r]);
                    }
                },
                None => {},
            }
            assert forall|e: DeploymentView| e.id != d.id implies (new.contains(e)
                <==> #[trigger] ds.contains(e)) by {
                if new.contains(e) {
                    let j = choose|j: int| 0 <= j < new.len() && new[j] == e;
                    assert(ds[j] == e);
                }
                if ds.contains(e) {
                    let j = choose|j: int| 0 <= j < ds.len() && ds[j] == e;
                    assert(new[j] == e);
                }
            }
        },
        None => {
            assert(new[ds.len() as int] == d);
            assert forall|j: int| 0 <= j < ds.len() implies new[j] == ds[j] by {}
            assert forall|e: DeploymentView| e.id != d.id implies (new.contains(e)
                <==> #[trigger] ds.contains(e)) by {
                if new.contains(e) {
                    let j = choose|j: int| 0 <= j < new.len() && new[j] == e;
                    assert(ds[j] == e);
                }
                if ds.contains(e) {
                    let j = choose|j: int| 0 <= j < ds.len() && ds[j] == e;
                    assert(new[j] == e);
                }
            }
        },
    }
}

/// No two deployments have the same id.
pub open spec fn ids_distinct(ds: Seq<DeploymentView>) -> bool {
    forall|i: int, j: int| 0 <= i < j < ds.len() ==> (#[trigger] ds[i]).id != (#[trigger] ds[j]).id
}

/// After an id was removed, no deployment has it, and every other deployment is
/// there as before.
pub proof fn law_remove(ds: Seq<DeploymentView>, id: Seq<char>)
    ensures
        position_of(without_id(ds, id), id) is None,
        forall|e: DeploymentView| #[trigger]
            without_id(ds, id).contains(e) <==> ds.contains(e) && e.id != id,
    decreases ds.len(),
{
    lemma_position_of(without_id(ds, id), id);
    if ds.len() == 0 {
        assert forall|e: DeploymentView| #[trigger]
            without_id(ds, id).contains(e) <==> ds.contains(e) && e.id != id by {}
    } else {
        let before = ds.drop_last();
        let kept = without_id(before, id);
        law_remove(before, id);
        assert forall|e: DeploymentView| #[trigger]
            without_id(ds, id).contains(e) <==> ds.contains(e) && e.id != id by {
            if ds.contains(e) && e.id != id {
                let j = choose|j: int| 0 <= j < ds.len() && ds[j] == e;
                if j < before.len() {
                    assert(before[j] == e);
                    assert(before.contains(e));
                    assert(kept.contains(e));
                    let i = choose|i: int| 0 <= i < kept.len() && kept[i] == e;
                    assert(without_id(ds, id)[i] == e);
                } else {
                    assert(without_id(ds, id).last() == e);
                }
            }
            if without_id(ds, id).contains(e) {
                let i = choose|i: int|
                    0 <= i < without_id(ds, id).len() && without_id(ds, id)[i] == e;
                if i < kept.len() {
                    assert(kept[i] == e);
                    assert(kept.contains(e));
                    let j = choose|j: int| 0 <= j < before.len() && before[j] == e;
                    assert(ds[j] == e);
                } else {
                    assert(ds[ds.len() - 1] == e);
                }
            }
        }
        match position_of(without_id(ds, id), id) {
            Some(p) => {
                assert(without_id(ds, id).contains(without_id(ds, id)[p]));
            },
            None => {},
        }
    }
}

/// What was changed in the list is read back: a deployment that was put in, among
/// the others.
pub proof fn law_upsert_survives(ds: Seq<DeploymentView>, d: DeploymentView)
    requires
        recordable(d),
        forall|i: int| 0 <= i < ds.len() ==> recordable(#[trigger] ds[i]),
    ensures
        deployments_of(deployments_json(upserted(ds, d))) == upserted(ds, d),
{
    let new = upserted(ds, d);
    lemma_position_of(ds, d.id);
    assert forall|i: int| 0 <= i < new.len() implies recordable(#[trigger] new[i]) by {
        if i < ds.len() && new[i] != d {
            assert(new[i] == ds[i]);
        }
    }
    law_deployments_round_trip(new);
}

/// What was changed in the list is read back: the others, after a deployment was
/// taken out.
pub proof fn law_remove_survives(ds: Seq<DeploymentView>, id: Seq<char>)
    requires
        forall|i: int| 0 <= i < ds.len() ==> recordable(#[trigger] ds[i]),
    ensures
        deployments_of(deployments_json(without_id(ds, id))) == without_id(ds, id),
{
    let left = without_id(ds, id);
    law_remove(ds, id);
    assert forall|i: int| 0 <= i < left.len() implies recordable(#[trigger] left[i]) by {
        assert(left.contains(left[i]));
        let j = choose|j: int| 0 <= j < ds.len() && ds[j] == left[i];
        assert(recordable(ds[j]));
    }
    law_deployments_round_trip(left);
}

/// The brackets that an object is taken from text by are balanced: what is taken
/// is an object.
pub proof fn law_taken_object(s: Seq<char>)
    ensures
        block(s, '{', '}').len() > 0 ==> is_object(block(s, '{', '}')),
{
    if s.len() > 0 && s[0] == '{' {
        assert(s.take(0) =~= Seq::<char>::empty());
        lemma_taken_object(s, 0);
    }
}

proof fn lemma_taken_object(s: Seq<char>, i: int)
    requires
        s.len() > 0,
        s[0] == '{',
        0 <= i <= s.len(),
        forall|j: int| 0 < j <= i ==> depth(#[trigger] s.take(j)) > 0,
    ensures
        block_end(s, '{', '}', i, depth(s.take(i))) matches Some(e) ==> i <= e < s.len()
            && is_object(s.take(e + 1)),
    decreases s.len() - i,
{
    if i < s.len() {
        let next = s.take(i + 1);
        assert(next.drop_last() =~= s.take(i));
        assert(next.last() == s[i]);
        if i == 0 {
            assert(s.take(0) =~= Seq::<char>::empty());
            assert(depth(s.take(1)) == 1);
        } else {
            assert(depth(s.take(i)) > 0);
        }
        if s[i] == '}' && depth(s.take(i)) == 1 {
            assert forall|j: int| 0 < j < next.len() implies depth(#[trigger] next.take(j)) > 0 by {
                assert(next.take(j) =~= s.take(j));
            }
            assert(is_object(next));
        } else {
            assert(depth(next) > 0);
            lemma_taken_object(s, i + 1);
        }
    }
}

// ---------------------------------------------------------------------------
// Deployments without braces in their strings
// ---------------------------------------------------------------------------

/// A text without braces.
pub open spec fn no_braces(s: Seq<char>) -> bool {
    !s.contains('{') && !s.contains('}')
}

pub proof fn lemma_no_braces_depth(s: Seq<char>)
    requires
        no_braces(s),
    ensures
        depth(s) == 0,
    decreases s.len(),
{
    if s.len() > 0 {
        assert(s[s.len() - 1] == s.last());
        lemma_no_braces_part(s, s.len() - 1);
        assert(s.drop_last() =~= s.take(s.len() - 1));
        lemma_no_braces_depth(s.drop_last());
    }
}

pub proof fn lemma_no_braces_part(s: Seq<char>, n: int)
    requires
        no_braces(s),
        0 <= n <= s.len(),
    ensures
        no_braces(s.take(n)),
{
    assert forall|i: int| 0 <= i < n implies s.take(n)[i] != '{' && s.take(n)[i] != '}' by {
        assert(s.take(n)[i] == s[i]);
    }
}

pub proof fn lemma_no_braces_concat(a: Seq<char>, b: Seq<char>)
    requires
        no_braces(a),
        no_braces(b),
    ensures
        no_braces(a + b),
{
    let s = a + b;
    assert forall|i: int| 0 <= i < s.len() implies s[i] != '{' && s[i] != '}' by {
        if i < a.len() {
            assert(s[i] == a[i]);
        } else {
            assert(s[i] == b[i - a.len()]);
        }
    }
}

/// A text without braces in front of an object, both in braces, is an object.
proof fn lemma_wrapped_object(b: Seq<char>, m: Seq<char>)
    requires
        no_braces(b),
        is_object(m),
    ensures
        is_object(seq!['{'] + b + m + seq!['}']),
{
    let open = seq!['{'];
    let close = seq!['}'];
    let head = open + b;
    let s = head + m + close;
    assert(open.drop_last() =~= Seq::<char>::empty());
    assert(close.drop_last() =~= Seq::<char>::empty());
    assert(depth(Seq::<char>::empty()) == 0);
    assert(depth(open) == 1);
    assert(depth(close) == -1);
    lemma_no_braces_depth(b);
    lemma_depth_concat(open, b);
    lemma_depth_concat(head, m);
    lemma_depth_concat(head + m, close);
    assert forall|i: int| 0 < i < s.len() implies depth(#[trigger] s.take(i)) > 0 by {
        if i <= head.len() {
            lemma_no_braces_part(b, i - 1);
            lemma_no_braces_depth(b.take(i - 1));
            lemma_depth_concat(open, b.take(i - 1));
            assert(s.take(i) =~= open + b.take(i - 1));
        } else {
            let k = i - head.len();
            lemma_depth_concat(head, m.take(k));
            assert(s.take(i) =~= head + m.take(k));
            if k == m.len() {
                assert(m.take(k) =~= m);
            } else {
                assert(depth(m.take(k)) > 0);
            }
        }
    }
}

/// Fields without braces, in front of some text.
pub proof fn lemma_fields_without_braces(fs: Seq<(Seq<char>, Seq<char>)>, tail: Seq<char>)
    requires
        forall|i: int| 0 <= i < fs.len() ==> no_braces((#[trigger] fs[i]).0) && no_braces(fs[i].1),
    ensures
        no_braces(fields_json(fs, Seq::empty())),
        fields_json(fs, tail) == fields_json(fs, Seq::empty()) + tail,
    decreases fs.len(),
{
    let none = Seq::<char>::empty();
    if fs.len() == 0 {
        assert(none + tail =~= tail);
    } else {
        let more = fs.drop_first();
        assert forall|i: int| 0 <= i < more.len() implies no_braces((#[trigger] more[i]).0)
            && no_braces(more[i].1) by {
            assert(more[i] == fs[i + 1]);
        }
        lemma_fields_without_braces(more, tail);
        let k = fs[0].0;
        let v = fs[0].1;
        assert(no_braces(k) && no_braces(v));
        let q = seq!['"'];
        assert(no_braces(q));
        assert(no_braces(seq!['"', ':']));
        assert(no_braces(seq![',']));
        lemma_no_braces_concat(q, k);
        lemma_no_braces_concat(q + k, seq!['"', ':']);
        lemma_no_braces_concat(q, v);
        lemma_no_braces_concat(q + v, q);
        lemma_no_braces_concat(keyed(k), quoted(v));
        lemma_no_braces_concat(keyed(k) + quoted(v), seq![',']);
        let head = keyed(k) + quoted(v) + seq![','];
        lemma_no_braces_concat(head, fields_json(more, none));
        assert(head + (fields_json(more, none) + tail) =~= head + fields_json(more, none) + tail);
    }
}

proof fn lemma_names_without_braces()
    ensures
        forall|i: int| 0 <= i < 7 ==> no_braces(#[trigger] field_names()[i]),
        no_braces(keyed("manifest"@)),
{
    reveal_strlit("id");
    reveal_strlit("app_name");
    reveal_strlit("app_version");
    reveal_strlit("app_id");
    reveal_strlit("status");
    reveal_strlit("deployed_at");
    reveal_strlit("last_error");
    reveal_strlit("manifest");
    let q = seq!['"'];
    assert(no_braces("manifest"@));
    lemma_no_braces_concat(q, "manifest"@);
    lemma_no_braces_concat(q + "manifest"@, seq!['"', ':']);
}

/// The file can give back every deployment whose strings have no quotes, no
/// backslashes and no braces in them and are no names of fields further on, and
/// whose manifest is an object.
pub proof fn law_plain_deployments_are_recordable(d: DeploymentView)
    requires
        has_plain_strings(d),
        has_no_names(d),
        is_object(d.manifest),
        forall|i: int| 0 <= i < 7 ==> no_braces(#[trigger] field_values(d)[i]),
    ensures
        recordable(d),
{
    let fs = fields(d);
    let tail = fields_tail(d);
    let none = Seq::<char>::empty();
    lemma_object_is_fields(d);
    lemma_names_without_braces();
    assert forall|i: int| 0 <= i < fs.len() implies no_braces((#[trigger] fs[i]).0) && no_braces(
        fs[i].1,
    ) by {
        assert(no_braces(field_names()[i]));
        assert(no_braces(field_values(d)[i]));
        assert(!field_values(d)[i].contains('"'));
        lemma_json_plain(field_values(d)[i]);
    }
    lemma_fields_without_braces(fs, tail);
    let b = fields_json(fs, none) + keyed("manifest"@);
    lemma_no_braces_concat(fields_json(fs, none), keyed("manifest"@));
    lemma_wrapped_object(b, d.manifest);
    lemma_regroup_tail(fields_json(fs, none), keyed("manifest"@), d.manifest);
}

proof fn lemma_regroup_tail(a: Seq<char>, k: Seq<char>, m: Seq<char>)
    ensures
        seq!['{'] + (a + (k + (m + seq!['}']))) == seq!['{'] + (a + k) + m + seq!['}'],
{
    assert(seq!['{'] + (a + (k + (m + seq!['}']))) =~= seq!['{'] + (a + k) + m + seq!['}']);
}

} // verus!
