//! What holds of the lists in answers and files: a reader that cuts them at their
//! commas gets one part for each item, in order, and finds in it what was put there.
use vstd::prelude::*;

use crate::calendar::duration_text;
use crate::deployment_laws::{
    fields_json, is_name, is_object, lemma_depth_concat, lemma_field_read, lemma_fields_start,
    lemma_fields_without_braces, lemma_no_braces_concat, lemma_no_braces_depth,
    lemma_no_braces_part, lemma_pass_char, lemma_pass_field, lemma_value_at_hand, no_braces,
    value_behind,
};
use crate::deployments::{depth, DeploymentView};
use crate::escape::lemma_json_plain;
use crate::happ_handlers::{item_json, items_json, list_json};
use crate::happs::status_shown;
use crate::json::{
    after, keyed, lemma_after_quote, lemma_quoted_start, member, quoted, string_field,
};
use crate::state::StateView;

verus! {

// ---------------------------------------------------------------------------
// Cutting at commas
// ---------------------------------------------------------------------------

/// The parts of a text between those of its commas that stand in no braces.
pub open spec fn top_level(s: Seq<char>) -> Seq<Seq<char>>
    decreases s.len(),
{
    if s.len() == 0 {
        seq![Seq::empty()]
    } else {
        let before = top_level(s.drop_last());
        if s.last() == ',' && depth(s.drop_last()) == 0 {
            before.push(Seq::empty())
        } else {
            before.drop_last().push(before.last().push(s.last()))
        }
    }
}

proof fn lemma_top_level_some(s: Seq<char>)
    ensures
        top_level(s).len() > 0,
    decreases s.len(),
{
    if s.len() > 0 {
        lemma_top_level_some(s.drop_last());
    }
}

/// An object, or a beginning of it, behind a text whose braces are closed belongs to
/// the last part of that text.
proof fn lemma_object_is_one_part(a: Seq<char>, obj: Seq<char>, i: int)
    requires
        depth(a) == 0,
        is_object(obj),
        0 <= i <= obj.len(),
    ensures
        top_level(a + obj.take(i)) == top_level(a).drop_last().push(
            top_level(a).last() + obj.take(i),
        ),
    decreases i,
{
    lemma_top_level_some(a);
    let s = a + obj.take(i);
    if i == 0 {
        assert(s =~= a);
        assert(top_level(a).last() + obj.take(0) =~= top_level(a).last());
        assert(top_level(a).drop_last().push(top_level(a).last()) =~= top_level(a));
    } else {
        lemma_object_is_one_part(a, obj, i - 1);
        assert(s.drop_last() =~= a + obj.take(i - 1));
        assert(s.last() == obj[i - 1]);
        lemma_depth_concat(a, obj.take(i - 1));
        if i == 1 {
            assert(obj[0] == '{');
        } else {
            assert(depth(obj.take(i - 1)) > 0);
        }
        let before = top_level(s.drop_last());
        assert(before.drop_last() =~= top_level(a).drop_last());
        assert(before.last().push(s.last()) =~= top_level(a).last() + obj.take(i));
    }
}

/// One more object behind a comma is one more part.
proof fn lemma_one_more_part(a: Seq<char>, obj: Seq<char>)
    requires
        depth(a) == 0,
        is_object(obj),
    ensures
        top_level(a + seq![','] + obj) == top_level(a).push(obj),
        depth(a + seq![','] + obj) == 0,
{
    let b = a + seq![','];
    assert(b.drop_last() =~= a);
    assert(top_level(b) == top_level(a).push(Seq::empty()));
    assert(depth(b) == 0);
    lemma_object_is_one_part(b, obj, obj.len() as int);
    lemma_depth_concat(b, obj);
    assert(obj.take(obj.len() as int) =~= obj);
    assert(top_level(b).drop_last() =~= top_level(a));
    assert(Seq::<char>::empty() + obj =~= obj);
}

/// An object alone is one part.
proof fn lemma_one_part(obj: Seq<char>)
    requires
        is_object(obj),
    ensures
        top_level(obj) == seq![obj],
        depth(obj) == 0,
{
    let none = Seq::<char>::empty();
    lemma_object_is_one_part(none, obj, obj.len() as int);
    assert(none + obj.take(obj.len() as int) =~= obj);
    assert(none + obj =~= obj);
    assert(top_level(none).drop_last().push(obj) =~= seq![obj]);
}

// ---------------------------------------------------------------------------
// Objects of strings
// ---------------------------------------------------------------------------

/// A text in braces that has no braces in it is an object.
pub proof fn lemma_plain_object(b: Seq<char>)
    requires
        no_braces(b),
    ensures
        is_object(seq!['{'] + b + seq!['}']),
{
    let open = seq!['{'];
    let close = seq!['}'];
    let s = open + b + close;
    assert(open.drop_last() =~= Seq::<char>::empty());
    assert(close.drop_last() =~= Seq::<char>::empty());
    assert(depth(Seq::<char>::empty()) == 0);
    assert(depth(open) == 1);
    assert(depth(close) == -1);
    lemma_no_braces_depth(b);
    lemma_depth_concat(open, b);
    lemma_depth_concat(open + b, close);
    assert forall|i: int| 0 < i < s.len() implies depth(#[trigger] s.take(i)) > 0 by {
        lemma_no_braces_part(b, i - 1);
        lemma_no_braces_depth(b.take(i - 1));
        lemma_depth_concat(open, b.take(i - 1));
        assert(s.take(i) =~= open + b.take(i - 1));
    }
}

/// Fields in front of a text are passed over in the search for a name that neither
/// they nor their strings are.
proof fn lemma_pass_plain_fields(
    fs: Seq<(Seq<char>, Seq<char>)>,
    tail: Seq<char>,
    name: Seq<char>,
)
    requires
        tail.len() > 0,
        tail[0] == '"',
        is_name(name),
        forall|i: int|
            0 <= i < fs.len() ==> is_name((#[trigger] fs[i]).0) && fs[i].0 != name
                && !fs[i].1.contains('"') && fs[i].1 != name,
    ensures
        after(fields_json(fs, tail), quoted(name)) == after(tail, quoted(name)),
    decreases fs.len(),
{
    if fs.len() > 0 {
        let more = fs.drop_first();
        lemma_fields_start(more, tail);
        assert(is_name(fs[0].0));
        lemma_pass_field(fs[0].0, fs[0].1, fields_json(more, tail), name);
        assert forall|i: int| 0 <= i < more.len() implies is_name((#[trigger] more[i]).0)
            && more[i].0 != name && !more[i].1.contains('"') && more[i].1 != name by {
            assert(more[i] == fs[i + 1]);
        }
        lemma_pass_plain_fields(more, tail, name);
    }
}

/// The string under the name of the field that stands behind others.
pub proof fn lemma_last_read(
    fs: Seq<(Seq<char>, Seq<char>)>,
    name: Seq<char>,
    value: Seq<char>,
    rest: Seq<char>,
)
    requires
        is_name(name),
        !value.contains('"'),
        forall|i: int|
            0 <= i < fs.len() ==> is_name((#[trigger] fs[i]).0) && fs[i].0 != name
                && !fs[i].1.contains('"') && fs[i].1 != name,
    ensures
        string_field(fields_json(fs, keyed(name) + quoted(value) + rest), name) == value,
{
    let q = seq!['"'];
    let none = Seq::<char>::empty();
    let tail = keyed(name) + quoted(value) + rest;
    let w = name + q + none;
    assert(quoted(name) =~= q + w);
    lemma_pass_plain_fields(fs, tail, name);
    let behind = seq![':'] + (quoted(value) + rest);
    assert(tail =~= none + q + (name + q + behind));
    lemma_after_quote(none, name + q + behind, w);
    lemma_quoted_start(name, behind, name, none);
    assert(behind.subrange(0, 0) =~= none);
    assert((name + q + behind).skip(w.len() as int) =~= none + seq![':'] + (quoted(value) + rest));
    lemma_value_at_hand(none, value, rest);
    let all = fields_json(fs, tail);
    assert(string_field(all, name) == value_behind(after(all, quoted(name))));
}

/// A brace in front of the fields does not matter to what is read.
pub proof fn lemma_read_behind_brace(text: Seq<char>, name: Seq<char>)
    requires
        text.len() > 0,
        text[0] == '"',
    ensures
        string_field(seq!['{'] + text, name) == string_field(text, name),
{
    assert(quoted(name) =~= seq!['"'] + (name + seq!['"']));
    lemma_pass_char('{', text, name + seq!['"']);
}

/// One more field, taken from those that follow.
proof fn lemma_take_field(
    l: Seq<char>,
    fs: Seq<(Seq<char>, Seq<char>)>,
    tail: Seq<char>,
    i: int,
    comma: Seq<char>,
)
    requires
        0 <= i < fs.len(),
        comma == seq![','],
    ensures
        l + fields_json(fs.skip(i), tail) == l + (keyed(fs[i].0) + quoted(fs[i].1)) + comma
            + fields_json(fs.skip(i + 1), tail),
{
    assert(fs.skip(i).drop_first() =~= fs.skip(i + 1));
    assert(fs.skip(i)[0] == fs[i]);
    let m = keyed(fs[i].0) + quoted(fs[i].1);
    let r = fields_json(fs.skip(i + 1), tail);
    assert(l + (m + comma + r) =~= l + m + comma + r);
}

// ---------------------------------------------------------------------------
// The list of deployments in an answer
// ---------------------------------------------------------------------------

/// The names in the object of a listed deployment.
pub open spec fn shown_names() -> Seq<Seq<char>> {
    seq![
        "id"@,
        "app_name"@,
        "app_version"@,
        "app_id"@,
        "status"@,
        "deployed_at"@,
        "deployed_duration"@,
        "last_error"@,
    ]
}

/// The strings that a listed deployment is shown with.
pub open spec fn shown_values(
    d: DeploymentView,
    l: Seq<(Seq<char>, bool)>,
    now: nat,
) -> Seq<Seq<char>> {
    seq![
        d.id,
        d.app_name,
        d.app_version,
        d.app_id,
        status_shown(d, l),
        d.deployed_at,
        duration_text(d.deployed_at, now),
        d.last_error,
    ]
}

/// The strings that a deployment is shown with need no escapes, have no braces in
/// them, and none is the name of one that follows.
pub open spec fn showable(d: DeploymentView, l: Seq<(Seq<char>, bool)>, now: nat) -> bool {
    &&& forall|i: int|
        0 <= i < 8 ==> !(#[trigger] shown_values(d, l, now)[i]).contains('"') && !shown_values(
            d,
            l,
            now,
        )[i].contains('\\') && no_braces(shown_values(d, l, now)[i])
    &&& forall|i: int, j: int|
        0 <= i < j < 8 ==> #[trigger] shown_values(d, l, now)[i] != #[trigger] shown_names()[j]
}

/// The object says of a deployment what there is to say: its strings under their
/// names.
pub open spec fn shows(
    obj: Seq<char>,
    d: DeploymentView,
    l: Seq<(Seq<char>, bool)>,
    now: nat,
) -> bool {
    &&& is_object(obj)
    &&& string_field(obj, "id"@) == d.id
    &&& string_field(obj, "app_name"@) == d.app_name
    &&& string_field(obj, "app_version"@) == d.app_version
    &&& string_field(obj, "app_id"@) == d.app_id
    &&& string_field(obj, "status"@) == status_shown(d, l)
    &&& string_field(obj, "deployed_at"@) == d.deployed_at
    &&& string_field(obj, "deployed_duration"@) == duration_text(d.deployed_at, now)
    &&& string_field(obj, "last_error"@) == d.last_error
}

proof fn lemma_shown_names()
    ensures
        forall|i: int|
            0 <= i < 8 ==> is_name(#[trigger] shown_names()[i]) && no_braces(shown_names()[i]),
        forall|i: int, j: int|
            0 <= i < j < 8 ==> #[trigger] shown_names()[i] != #[trigger] shown_names()[j],
{
    reveal_strlit("id");
    reveal_strlit("app_name");
    reveal_strlit("app_version");
    reveal_strlit("app_id");
    reveal_strlit("status");
    reveal_strlit("deployed_at");
    reveal_strlit("deployed_duration");
    reveal_strlit("last_error");
    assert("id"@.len() == 2);
    assert("app_name"@.len() == 8);
    assert("app_version"@.len() == 11 && "app_version"@[0] == 'a');
    assert("app_id"@.len() == 6 && "app_id"@[0] == 'a');
    assert("status"@.len() == 6 && "status"@[0] == 's');
    assert("deployed_at"@.len() == 11 && "deployed_at"@[0] == 'd');
    assert("deployed_duration"@.len() == 17);
    assert("last_error"@.len() == 10);
}

/// The fields of a listed deployment but for the last.
spec fn shown_fields(d: DeploymentView, l: Seq<(Seq<char>, bool)>, now: nat) -> Seq<
    (Seq<char>, Seq<char>),
> {
    Seq::new(7, |i: int| (shown_names()[i], shown_values(d, l, now)[i]))
}

/// The last field of a listed deployment and the end of its object.
spec fn shown_tail(d: DeploymentView) -> Seq<char> {
    keyed("last_error"@) + quoted(d.last_error) + seq!['}']
}

pub proof fn lemma_member_plain(name: Seq<char>, value: Seq<char>)
    requires
        !value.contains('"'),
        !value.contains('\\'),
    ensures
        member(name, value) == keyed(name) + quoted(value),
{
    lemma_json_plain(value);
}

#[verifier::spinoff_prover]
proof fn lemma_item_is_fields(d: DeploymentView, l: Seq<(Seq<char>, bool)>, now: nat)
    requires
        showable(d, l, now),
    ensures
        item_json(d, l, now) == seq!['{'] + fields_json(shown_fields(d, l, now), shown_tail(d)),
{
    let fs = shown_fields(d, l, now);
    let t = shown_tail(d);
    let v = shown_values(d, l, now);
    let c = ","@;
    reveal_strlit("{");
    reveal_strlit("}");
    reveal_strlit(",");
    assert("{"@ =~= seq!['{']);
    assert("}"@ =~= seq!['}']);
    assert(c =~= seq![',']);
    assert forall|i: int| 0 <= i < 8 implies member(#[trigger] shown_names()[i], v[i]) == keyed(
        shown_names()[i],
    ) + quoted(v[i]) by {
        assert(!v[i].contains('"'));
        lemma_member_plain(shown_names()[i], v[i]);
    }
    let m0 = member(shown_names()[0], v[0]);
    let m1 = member(shown_names()[1], v[1]);
    let m2 = member(shown_names()[2], v[2]);
    let m3 = member(shown_names()[3], v[3]);
    let m4 = member(shown_names()[4], v[4]);
    let m5 = member(shown_names()[5], v[5]);
    let m6 = member(shown_names()[6], v[6]);
    let m7 = member(shown_names()[7], v[7]);
    let l0 = "{"@;
    let l1 = l0 + m0 + c;
    let l2 = l1 + m1 + c;
    let l3 = l2 + m2 + c;
    let l4 = l3 + m3 + c;
    let l5 = l4 + m4 + c;
    let l6 = l5 + m5 + c;
    let l7 = l6 + m6 + c;
    assert(fs.skip(0) =~= fs);
    lemma_take_field(l0, fs, t, 0, c);
    lemma_take_field(l1, fs, t, 1, c);
    lemma_take_field(l2, fs, t, 2, c);
    lemma_take_field(l3, fs, t, 3, c);
    lemma_take_field(l4, fs, t, 4, c);
    lemma_take_field(l5, fs, t, 5, c);
    lemma_take_field(l6, fs, t, 6, c);
    assert(fields_json(fs.skip(7), t) == t);
    assert(item_json(d, l, now) == l7 + m7 + "}"@);
    assert(l7 + m7 + "}"@ =~= l7 + t);
}

proof fn lemma_item_object(d: DeploymentView, l: Seq<(Seq<char>, bool)>, now: nat)
    requires
        showable(d, l, now),
    ensures
        is_object(item_json(d, l, now)),
{
    let fs = shown_fields(d, l, now);
    let v = shown_values(d, l, now);
    let none = Seq::<char>::empty();
    let t = keyed("last_error"@) + quoted(d.last_error);
    lemma_item_is_fields(d, l, now);
    lemma_shown_names();
    assert forall|i: int| 0 <= i < fs.len() implies no_braces((#[trigger] fs[i]).0) && no_braces(
        fs[i].1,
    ) by {
        assert(no_braces(shown_names()[i]));
        assert(no_braces(v[i]));
    }
    lemma_fields_without_braces(fs, shown_tail(d));
    let q = seq!['"'];
    assert(shown_names()[7] == "last_error"@ && v[7] == d.last_error);
    assert(no_braces("last_error"@) && no_braces(d.last_error));
    assert(no_braces(q) && no_braces(seq!['"', ':']));
    lemma_no_braces_concat(q, "last_error"@);
    lemma_no_braces_concat(q + "last_error"@, seq!['"', ':']);
    lemma_no_braces_concat(q, d.last_error);
    lemma_no_braces_concat(q + d.last_error, q);
    lemma_no_braces_concat(keyed("last_error"@), quoted(d.last_error));
    lemma_no_braces_concat(fields_json(fs, none), t);
    lemma_plain_object(fields_json(fs, none) + t);
    let f = fields_json(fs, none);
    assert(seq!['{'] + (f + (t + seq!['}'])) =~= seq!['{'] + (f + t) + seq!['}']);
}

proof fn lemma_item_read(
    d: DeploymentView,
    l: Seq<(Seq<char>, bool)>,
    now: nat,
    j: int,
    name: Seq<char>,
    value: Seq<char>,
)
    requires
        showable(d, l, now),
        0 <= j < 8,
        name == shown_names()[j],
        value == shown_values(d, l, now)[j],
    ensures
        string_field(item_json(d, l, now), name) == value,
{
    let fs = shown_fields(d, l, now);
    let v = shown_values(d, l, now);
    let tail = shown_tail(d);
    lemma_shown_names();
    lemma_item_is_fields(d, l, now);
    assert(tail[0] == keyed("last_error"@)[0]);
    lemma_fields_start(fs, tail);
    lemma_read_behind_brace(fields_json(fs, tail), name);
    assert forall|i: int| 0 <= i < fs.len() implies is_name((#[trigger] fs[i]).0)
        && !fs[i].1.contains('"') by {
        assert(is_name(shown_names()[i]));
        assert(!v[i].contains('"'));
    }
    assert forall|i: int| 0 <= i < j && i < 7 implies (#[trigger] fs[i]).0 != name && fs[i].1
        != name by {
        assert(shown_names()[i] != shown_names()[j]);
        assert(v[i] != shown_names()[j]);
    }
    if j < 7 {
        assert(fs[j].0 == name);
        lemma_field_read(fs, tail, j);
    } else {
        assert(is_name(shown_names()[7]));
        assert(!v[7].contains('"'));
        lemma_last_read(fs, name, d.last_error, seq!['}']);
    }
}

#[verifier::spinoff_prover]
proof fn lemma_item_shows(d: DeploymentView, l: Seq<(Seq<char>, bool)>, now: nat)
    requires
        showable(d, l, now),
    ensures
        shows(item_json(d, l, now), d, l, now),
{
    lemma_item_object(d, l, now);
    lemma_item_read(d, l, now, 0, "id"@, d.id);
    lemma_item_read(d, l, now, 1, "app_name"@, d.app_name);
    lemma_item_read(d, l, now, 2, "app_version"@, d.app_version);
    lemma_item_read(d, l, now, 3, "app_id"@, d.app_id);
    lemma_item_read(d, l, now, 4, "status"@, status_shown(d, l));
    lemma_item_read(d, l, now, 5, "deployed_at"@, d.deployed_at);
    lemma_item_read(d, l, now, 6, "deployed_duration"@, duration_text(d.deployed_at, now));
    lemma_item_read(d, l, now, 7, "last_error"@, d.last_error);
    lemma_all_shown(item_json(d, l, now), d, l, now);
}

/// A text in which every string of a deployment is read says what there is to say.
proof fn lemma_all_shown(
    obj: Seq<char>,
    d: DeploymentView,
    l: Seq<(Seq<char>, bool)>,
    now: nat,
)
    requires
        is_object(obj),
        string_field(obj, "id"@) == d.id,
        string_field(obj, "app_name"@) == d.app_name,
        string_field(obj, "app_version"@) == d.app_version,
        string_field(obj, "app_id"@) == d.app_id,
        string_field(obj, "status"@) == status_shown(d, l),
        string_field(obj, "deployed_at"@) == d.deployed_at,
        string_field(obj, "deployed_duration"@) == duration_text(d.deployed_at, now),
        string_field(obj, "last_error"@) == d.last_error,
    ensures
        shows(obj, d, l, now),
{
}

/// Cut at its top-level commas, the list is one object for each deployment, in order,
/// and each says what there is to say of its deployment.
pub proof fn law_items_come_apart(
    ds: Seq<DeploymentView>,
    l: Seq<(Seq<char>, bool)>,
    now: nat,
)
    requires
        forall|i: int| 0 <= i < ds.len() ==> showable(#[trigger] ds[i], l, now),
    ensures
        ds.len() == 0 ==> items_json(ds, l, now).len() == 0,
        ds.len() > 0 ==> top_level(items_json(ds, l, now)).len() == ds.len(),
        forall|k: int|
            0 <= k < ds.len() ==> shows(
                #[trigger] top_level(items_json(ds, l, now))[k],
                ds[k],
                l,
                now,
            ),
        depth(items_json(ds, l, now)) == 0,
    decreases ds.len(),
{
    if ds.len() > 0 {
        let before = ds.drop_last();
        let parts = top_level(items_json(ds, l, now));
        let obj = item_json(ds.last(), l, now);
        assert forall|i: int| 0 <= i < before.len() implies showable(
            #[trigger] before[i],
            l,
            now,
        ) by {
            assert(before[i] == ds[i]);
        }
        law_items_come_apart(before, l, now);
        assert(showable(ds[ds.len() - 1], l, now));
        lemma_item_shows(ds.last(), l, now);
        if ds.len() == 1 {
            lemma_one_part(obj);
            assert(parts == seq![obj]);
        } else {
            reveal_strlit(",");
            assert(","@ =~= seq![',']);
            lemma_one_more_part(items_json(before, l, now), obj);
            assert(parts == top_level(items_json(before, l, now)).push(obj));
        }
        assert forall|k: int| 0 <= k < ds.len() implies shows(
            #[trigger] parts[k],
            ds[k],
            l,
            now,
        ) by {
            if k < before.len() {
                assert(parts[k] == top_level(items_json(before, l, now))[k]);
                assert(before[k] == ds[k]);
            }
        }
    }
}

/// A text is made of a list in square brackets under `happs`, and of what follows.
pub open spec fn has_list(text: Seq<char>, list: Seq<char>, rest: Seq<char>) -> bool {
    text == "{\"happs\":["@ + list + "],"@ + rest
}

/// The answer with the list of deployments can be read: cut at its top-level commas,
/// what stands between the brackets is one object for each deployment, in order, and
/// each says what there is to say of its deployment.
pub proof fn law_list_can_be_read(
    state: StateView,
    ds: Seq<DeploymentView>,
    l: Seq<(Seq<char>, bool)>,
    running: bool,
    now: nat,
)
    requires
        forall|i: int| 0 <= i < ds.len() ==> showable(#[trigger] ds[i], l, now),
    ensures
        exists|list: Seq<char>, rest: Seq<char>|
            {
                &&& #[trigger] has_list(list_json(state, ds, l, running, now), list, rest)
                &&& ds.len() == 0 ==> list.len() == 0
                &&& ds.len() > 0 ==> top_level(list).len() == ds.len()
                &&& forall|k: int|
                    0 <= k < ds.len() ==> shows(#[trigger] top_level(list)[k], ds[k], l, now)
            },
{
    law_items_come_apart(ds, l, now);
    let list = items_json(ds, l, now);
    let text = list_json(state, ds, l, running, now);
    let head = "{\"happs\":["@ + list + "],"@;
    let rest = text.skip(head.len() as int);
    assert(text =~= head + rest) by {
        assert(text.take(head.len() as int) =~= head);
    }
    assert(has_list(text, list, rest));
}

} // verus!
