//! The applications that were deployed, and the file that remembers them.
use vstd::prelude::*;
use vstd::slice::slice_subrange;

use crate::auth::random_hex;
use crate::effects::{effects, keep_file, kept_file, Effect, EffectView};
use crate::json::{keyed, member, object_field, object_in, push_member, string_field, string_in};
use crate::number::hex;
use crate::split::{trim, trimmed};
use crate::text::{chars_of, same, string_of};

verus! {

/// Where the deployments are remembered.
pub const DEPLOYMENTS_FILE: &'static str = "/etc/node-manager/deployments.json";

/// How many random bytes the id of a deployment takes.
pub const DEPLOYMENT_ID_BYTES: usize = 16;

/// An application that was deployed.
#[derive(Debug, PartialEq, Eq)]
pub struct Deployment {
    pub id: String,
    pub app_name: String,
    pub app_version: String,
    pub app_id: String,
    pub status: String,
    pub deployed_at: String,
    pub last_error: String,
    pub manifest: String,
}

/// A deployment with its texts as sequences of characters.
#[verifier::ext_equal]
pub struct DeploymentView {
    pub id: Seq<char>,
    pub app_name: Seq<char>,
    pub app_version: Seq<char>,
    pub app_id: Seq<char>,
    pub status: Seq<char>,
    pub deployed_at: Seq<char>,
    pub last_error: Seq<char>,
    pub manifest: Seq<char>,
}

impl View for Deployment {
    type V = DeploymentView;

    open spec fn view(&self) -> DeploymentView {
        DeploymentView {
            id: self.id@,
            app_name: self.app_name@,
            app_version: self.app_version@,
            app_id: self.app_id@,
            status: self.status@,
            deployed_at: self.deployed_at@,
            last_error: self.last_error@,
            manifest: self.manifest@,
        }
    }
}

/// The views of a list of deployments.
pub open spec fn deployments(v: Seq<Deployment>) -> Seq<DeploymentView> {
    Seq::new(v.len(), |i: int| v[i]@)
}

// ---------------------------------------------------------------------------
// Writing
// ---------------------------------------------------------------------------

/// The JSON object of a deployment; the manifest stands in it as it is.
pub open spec fn deployment_json(d: DeploymentView) -> Seq<char> {
    seq!['{'] + member("id"@, d.id) + seq![','] + member("app_name"@, d.app_name) + seq![',']
        + member("app_version"@, d.app_version) + seq![','] + member("app_id"@, d.app_id) + seq![
        ',',
    ] + member("status"@, d.status) + seq![','] + member("deployed_at"@, d.deployed_at) + seq![',']
        + member("last_error"@, d.last_error) + seq![','] + keyed("manifest"@)
        + d.manifest + seq!['}']
}

/// The JSON object of a deployment.
pub fn deployment_to_json(d: &Deployment) -> (r: String)
    ensures
        r@ == deployment_json(d@),
{
    let mut out = String::new();
    out.push('{');
    push_member(&mut out, "id", d.id.as_str());
    out.push(',');
    push_member(&mut out, "app_name", d.app_name.as_str());
    out.push(',');
    push_member(&mut out, "app_version", d.app_version.as_str());
    out.push(',');
    push_member(&mut out, "app_id", d.app_id.as_str());
    out.push(',');
    push_member(&mut out, "status", d.status.as_str());
    out.push(',');
    push_member(&mut out, "deployed_at", d.deployed_at.as_str());
    out.push(',');
    push_member(&mut out, "last_error", d.last_error.as_str());
    out.push(',');
    out.push('"');
    out.append("manifest");
    out.push('"');
    out.push(':');
    out.append(d.manifest.as_str());
    out.push('}');
    assert(out@ =~= deployment_json(d@));
    out
}

/// The objects of deployments, with commas between them.
pub open spec fn joined(ds: Seq<DeploymentView>) -> Seq<char>
    decreases ds.len(),
{
    if ds.len() == 0 {
        seq![]
    } else if ds.len() == 1 {
        deployment_json(ds[0])
    } else {
        joined(ds.drop_last()) + seq![','] + deployment_json(ds.last())
    }
}

/// The JSON array of deployments.
pub open spec fn deployments_json(ds: Seq<DeploymentView>) -> Seq<char> {
    seq!['['] + joined(ds) + seq![']']
}

/// The JSON array of deployments.
pub fn deployments_text(list: &Vec<Deployment>) -> (r: String)
    ensures
        r@ == deployments_json(deployments(list@)),
{
    let mut out = String::new();
    out.push('[');
    assert(out@ =~= seq!['[']);
    let ghost all = deployments(list@);
    let mut i: usize = 0;
    assert(all.take(0) =~= Seq::<DeploymentView>::empty());
    assert(out@ =~= seq!['['] + joined(all.take(0)));
    while i < list.len()
        invariant
            i <= list@.len(),
            all == deployments(list@),
            out@ == seq!['['] + joined(all.take(i as int)),
        decreases list@.len() - i,
    {
        let ghost before = out@;
        if i > 0 {
            out.push(',');
        }
        out.append(deployment_to_json(&list[i]).as_str());
        assert(all.take(i + 1).drop_last() =~= all.take(i as int));
        assert(all.take(i + 1).last() == list@[i as int]@);
        assert(out@ =~= seq!['['] + joined(all.take(i + 1)));
        i += 1;
    }
    assert(all.take(all.len() as int) =~= all);
    out.push(']');
    assert(out@ =~= deployments_json(all));
    out
}

/// The effects of remembering deployments.
pub open spec fn deployments_kept(ds: Seq<DeploymentView>) -> Seq<EffectView> {
    kept_file(DEPLOYMENTS_FILE@, deployments_json(ds))
}

/// Remembers deployments.
pub fn write_deployments(list: &Vec<Deployment>) -> (v: Vec<Effect>)
    ensures
        effects(v@) == deployments_kept(deployments(list@)),
{
    keep_file(DEPLOYMENTS_FILE, deployments_text(list).as_str())
}

// ---------------------------------------------------------------------------
// Reading
// ---------------------------------------------------------------------------

/// How many more braces were opened than closed.
pub open spec fn depth(s: Seq<char>) -> int
    decreases s.len(),
{
    if s.len() == 0 {
        0
    } else if s.last() == '{' {
        depth(s.drop_last()) + 1
    } else if s.last() == '}' {
        depth(s.drop_last()) - 1
    } else {
        depth(s.drop_last())
    }
}

/// Where the last brace was opened that was inside no other, or the beginning.
pub open spec fn last_opening(s: Seq<char>) -> int
    decreases s.len(),
{
    if s.len() == 0 {
        0
    } else if s.last() == '{' && depth(s.drop_last()) == 0 {
        s.len() - 1
    } else {
        last_opening(s.drop_last())
    }
}

/// The texts in braces that are inside no other: each ends where all braces are
/// closed.
pub open spec fn objects(s: Seq<char>) -> Seq<Seq<char>>
    decreases s.len(),
{
    if s.len() == 0 {
        seq![]
    } else if s.last() == '}' && depth(s) == 0 {
        objects(s.drop_last()).push(s.skip(last_opening(s)))
    } else {
        objects(s.drop_last())
    }
}

/// The object that the manifest of a deployment is, or an empty one.
pub open spec fn manifest_field(obj: Seq<char>) -> Seq<char> {
    let found = object_field(obj, "manifest"@);
    if found.len() == 0 {
        "{}"@
    } else {
        found
    }
}

/// The deployment that an object describes.
pub open spec fn deployment_of(obj: Seq<char>) -> DeploymentView {
    DeploymentView {
        id: string_field(obj, "id"@),
        app_name: string_field(obj, "app_name"@),
        app_version: string_field(obj, "app_version"@),
        app_id: string_field(obj, "app_id"@),
        status: string_field(obj, "status"@),
        deployed_at: string_field(obj, "deployed_at"@),
        last_error: string_field(obj, "last_error"@),
        manifest: manifest_field(obj),
    }
}

/// A text without the square brackets round it, where it has both.
pub open spec fn without_brackets(s: Seq<char>) -> Seq<char> {
    if s.len() >= 2 && s[0] == '[' && s.last() == ']' {
        s.subrange(1, s.len() - 1)
    } else {
        s
    }
}

/// The deployments that a file of the given content remembers.
pub open spec fn deployments_of(content: Seq<char>) -> Seq<DeploymentView> {
    objects(without_brackets(trim(content))).map_values(|obj: Seq<char>| deployment_of(obj))
}

/// The manifest of a deployment.
pub fn extract_manifest_field(obj: &str) -> (r: String)
    ensures
        r@ == manifest_field(obj@),
{
    let o = chars_of(obj);
    manifest_in(o.as_slice())
}

fn manifest_in(obj: &[char]) -> (r: String)
    ensures
        r@ == manifest_field(obj@),
{
    let found = object_in(obj, "manifest");
    if found.len() == 0 {
        "{}".to_owned()
    } else {
        string_of(found)
    }
}

/// The deployment that an object describes.
fn deployment_in(obj: &[char]) -> (d: Deployment)
    ensures
        d@ == deployment_of(obj@),
{
    Deployment {
        id: string_of(string_in(obj, "id")),
        app_name: string_of(string_in(obj, "app_name")),
        app_version: string_of(string_in(obj, "app_version")),
        app_id: string_of(string_in(obj, "app_id")),
        status: string_of(string_in(obj, "status")),
        deployed_at: string_of(string_in(obj, "deployed_at")),
        last_error: string_of(string_in(obj, "last_error")),
        manifest: manifest_in(obj),
    }
}

proof fn lemma_last_opening(s: Seq<char>)
    ensures
        0 <= last_opening(s),
        last_opening(s) <= s.len(),
        s.len() > 0 ==> last_opening(s) < s.len(),
    decreases s.len(),
{
    if s.len() > 0 {
        lemma_last_opening(s.drop_last());
    }
}

/// The deployments that a file of the given content remembers.
pub fn read_deployments(content: &str) -> (v: Vec<Deployment>)
    ensures
        deployments(v@) == deployments_of(content@),
{
    let c = chars_of(content);
    let t = trimmed(c.as_slice());
    let end: usize = t.len();
    let inner = if end >= 2 && t[0] == '[' && t[end - 1] == ']' {
        slice_subrange(t, 1, end - 1)
    } else {
        t
    };
    assert(inner@ == without_brackets(trim(content@)));
    let ghost f = |obj: Seq<char>| deployment_of(obj);
    let mut v: Vec<Deployment> = Vec::new();
    let mut d: i128 = 0;
    let mut start: usize = 0;
    let mut i: usize = 0;
    assert(inner@.take(0) =~= Seq::<char>::empty());
    assert(deployments(v@) =~= objects(inner@.take(0)).map_values(f));
    while i < inner.len()
        invariant
            i <= inner@.len(),
            inner@.len() <= usize::MAX,
            f == (|obj: Seq<char>| deployment_of(obj)),
            -i <= d <= i,
            d == depth(inner@.take(i as int)),
            start == last_opening(inner@.take(i as int)),
            deployments(v@) == objects(inner@.take(i as int)).map_values(f),
        decreases inner@.len() - i,
    {
        let ghost now = inner@.take(i + 1);
        assert(now.drop_last() =~= inner@.take(i as int));
        assert(now.last() == inner@[i as int]);
        proof {
            lemma_last_opening(inner@.take(i as int));
        }
        if inner[i] == '{' {
            if d == 0 {
                start = i;
            }
            d += 1;
        } else if inner[i] == '}' {
            d -= 1;
            if d == 0 {
                let ghost before = v@;
                let obj = slice_subrange(inner, start, i + 1);
                assert(obj@ =~= now.skip(last_opening(now)));
                v.push(deployment_in(obj));
                assert(deployments(v@) =~= deployments(before).push(deployment_of(obj@)));
                assert(objects(now).map_values(f) =~= objects(now.drop_last()).map_values(f).push(
                    deployment_of(obj@),
                ));
            }
        }
        i += 1;
    }
    assert(inner@.take(inner@.len() as int) =~= inner@);
    assert(deployments(v@) =~= deployments_of(content@));
    v
}

// ---------------------------------------------------------------------------
// Changing
// ---------------------------------------------------------------------------

/// The position of the first deployment with an id.
pub open spec fn position_of(ds: Seq<DeploymentView>, id: Seq<char>) -> Option<int>
    decreases ds.len(),
{
    if ds.len() == 0 {
        None
    } else if ds[0].id == id {
        Some(0)
    } else {
        match position_of(ds.drop_first(), id) {
            Some(p) => Some(p + 1),
            None => None,
        }
    }
}

/// The first deployment with the id replaced, or the deployment added at the end.
pub open spec fn upserted(ds: Seq<DeploymentView>, d: DeploymentView) -> Seq<DeploymentView> {
    match position_of(ds, d.id) {
        Some(p) => ds.update(p, d),
        None => ds.push(d),
    }
}

/// The deployments without those of an id.
pub open spec fn without_id(ds: Seq<DeploymentView>, id: Seq<char>) -> Seq<DeploymentView>
    decreases ds.len(),
{
    if ds.len() == 0 {
        seq![]
    } else if ds.last().id == id {
        without_id(ds.drop_last(), id)
    } else {
        without_id(ds.drop_last(), id).push(ds.last())
    }
}

/// A found deployment has the id, and none before it has.
pub proof fn lemma_position_of(ds: Seq<DeploymentView>, id: Seq<char>)
    ensures
        position_of(ds, id) matches Some(p) ==> 0 <= p < ds.len() && ds[p].id == id && (forall|
            j: int,
        |
            0 <= j < p ==> (#[trigger] ds[j]).id != id),
        position_of(ds, id) is None ==> forall|j: int|
            0 <= j < ds.len() ==> (#[trigger] ds[j]).id != id,
    decreases ds.len(),
{
    if ds.len() > 0 {
        let rest = ds.drop_first();
        lemma_position_of(rest, id);
        assert forall|j: int| 0 < j < ds.len() implies ds[j] == rest[j - 1] by {}
    }
}

/// The position of the first deployment with an id.
pub fn find_deployment(list: &Vec<Deployment>, id: &str) -> (r: Option<usize>)
    ensures
        (match r {
            Some(p) => position_of(deployments(list@), id@) == Some(p as int),
            None => position_of(deployments(list@), id@) is None,
        }),
{
    let mut i: usize = 0;
    proof {
        lemma_position_of(deployments(list@), id@);
    }
    while i < list.len()
        invariant
            i <= list@.len(),
            forall|j: int| 0 <= j < i ==> (#[trigger] deployments(list@)[j]).id != id@,
            position_of(deployments(list@), id@) matches Some(p) ==> 0 <= p < list@.len()
                && deployments(list@)[p].id == id@ && (forall|j: int|
                0 <= j < p ==> (#[trigger] deployments(list@)[j]).id != id@),
            position_of(deployments(list@), id@) is None ==> forall|j: int|
                0 <= j < list@.len() ==> (#[trigger] deployments(list@)[j]).id != id@,
        decreases list@.len() - i,
    {
        assert(deployments(list@)[i as int].id == list@[i as int].id@);
        if same(list[i].id.as_str(), id) {
            return Some(i);
        }
        i += 1;
    }
    None
}

/// Replaces the first deployment with the id, or adds the deployment, and
/// remembers the list.
pub fn upsert_deployment(list: &mut Vec<Deployment>, d: Deployment) -> (v: Vec<Effect>)
    ensures
        deployments(final(list)@) == upserted(deployments(old(list)@), d@),
        effects(v@) == deployments_kept(upserted(deployments(old(list)@), d@)),
{
    let ghost before = deployments(list@);
    let ghost new = d@;
    proof {
        lemma_position_of(before, d@.id);
    }
    match find_deployment(list, d.id.as_str()) {
        Some(p) => {
            list.set(p, d);
            assert(deployments(list@) =~= before.update(p as int, new));
        },
        None => {
            list.push(d);
            assert(deployments(list@) =~= before.push(new));
        },
    }
    write_deployments(list)
}

/// Forgets the deployments of an id, and remembers the list.
pub fn remove_deployment(list: &mut Vec<Deployment>, id: &str) -> (v: Vec<Effect>)
    ensures
        deployments(final(list)@) == without_id(deployments(old(list)@), id@),
        effects(v@) == deployments_kept(without_id(deployments(old(list)@), id@)),
{
    let ghost all = deployments(list@);
    let ghost mut seen: int = 0;
    let mut i: usize = 0;
    assert(without_id(all.take(0), id@) =~= Seq::<DeploymentView>::empty());
    assert(deployments(list@) =~= without_id(all.take(0), id@) + all.skip(0));
    while i < list.len()
        invariant
            0 <= seen <= all.len(),
            i == without_id(all.take(seen), id@).len(),
            deployments(list@) == without_id(all.take(seen), id@) + all.skip(seen),
        decreases all.len() - seen,
    {
        let ghost before = deployments(list@);
        assert(before.len() == list@.len());
        assert(before[i as int] == all[seen]);
        assert(before[i as int] == list@[i as int]@);
        assert(all.take(seen + 1).drop_last() =~= all.take(seen));
        if same(list[i].id.as_str(), id) {
            let gone = list.remove(i);
            assert(deployments(list@) =~= before.remove(i as int));
            assert(before.remove(i as int) =~= without_id(all.take(seen), id@) + all.skip(
                seen + 1,
            ));
        } else {
            assert(before =~= without_id(all.take(seen), id@).push(all[seen]) + all.skip(seen + 1));
            i += 1;
        }
        proof {
            seen = seen + 1;
        }
    }
    assert(list@.len() == deployments(list@).len());
    assert(all.take(seen) =~= all);
    assert(deployments(list@) =~= without_id(all, id@));
    write_deployments(list)
}

/// The id of a new deployment, from random bytes.
pub fn generate_deployment_id(bytes: &[u8]) -> (r: String)
    ensures
        r@ == hex(bytes@),
{
    random_hex(bytes)
}

} // verus!
