//! What the node is asked to do: files to write and commands to run.
//!
//! The decisions of the server come out as lists of effects, in the order in
//! which they are to be carried out.
use vstd::prelude::*;

use crate::text::strings;

verus! {

/// One thing to do. A failure of any of them is passed over.
#[derive(Debug, PartialEq, Eq)]
pub enum Effect {
    /// Create a directory and those above it.
    MakeDir(String),
    /// Write a file at a path, in place of what it held.
    Write(String, String),
    /// Remove the file at a path.
    Remove(String),
    /// Run a program, given with its arguments.
    Run(Vec<String>),
    /// Restart a service if it is active.
    RestartIfActive(String),
    /// Wait for a number of seconds.
    Pause(u64),
}

/// An effect with its texts as sequences of characters.
pub enum EffectView {
    MakeDir(Seq<char>),
    Write(Seq<char>, Seq<char>),
    Remove(Seq<char>),
    Run(Seq<Seq<char>>),
    RestartIfActive(Seq<char>),
    Pause(u64),
}

impl View for Effect {
    type V = EffectView;

    open spec fn view(&self) -> EffectView {
        match *self {
            Effect::MakeDir(p) => EffectView::MakeDir(p@),
            Effect::Write(p, c) => EffectView::Write(p@, c@),
            Effect::Remove(p) => EffectView::Remove(p@),
            Effect::Run(a) => EffectView::Run(strings(a@)),
            Effect::RestartIfActive(s) => EffectView::RestartIfActive(s@),
            Effect::Pause(n) => EffectView::Pause(n),
        }
    }
}

/// The views of a list of effects.
pub open spec fn effects(v: Seq<Effect>) -> Seq<EffectView> {
    Seq::new(v.len(), |i: int| v[i]@)
}

/// Create a directory and those above it.
pub fn make_dir(path: &str) -> (e: Effect)
    ensures
        e@ == EffectView::MakeDir(path@),
{
    Effect::MakeDir(path.to_owned())
}

/// Write a file.
pub fn write_file(path: &str, content: &str) -> (e: Effect)
    ensures
        e@ == EffectView::Write(path@, content@),
{
    Effect::Write(path.to_owned(), content.to_owned())
}

/// Remove a file.
pub fn remove(path: &str) -> (e: Effect)
    ensures
        e@ == EffectView::Remove(path@),
{
    Effect::Remove(path.to_owned())
}

/// Restart a service if it is active.
pub fn restart_if_active(service: &str) -> (e: Effect)
    ensures
        e@ == EffectView::RestartIfActive(service@),
{
    Effect::RestartIfActive(service.to_owned())
}

/// Run a program with one argument.
pub fn run2(a: &str, b: &str) -> (e: Effect)
    ensures
        e@ == EffectView::Run(seq![a@, b@]),
{
    let args = vec![a.to_owned(), b.to_owned()];
    assert(strings(args@) =~= seq![a@, b@]);
    Effect::Run(args)
}

/// Run a program with two arguments.
pub fn run3(a: &str, b: &str, c: &str) -> (e: Effect)
    ensures
        e@ == EffectView::Run(seq![a@, b@, c@]),
{
    let args = vec![a.to_owned(), b.to_owned(), c.to_owned()];
    assert(strings(args@) =~= seq![a@, b@, c@]);
    Effect::Run(args)
}

/// Run a program with three arguments.
pub fn run4(a: &str, b: &str, c: &str, d: &str) -> (e: Effect)
    ensures
        e@ == EffectView::Run(seq![a@, b@, c@, d@]),
{
    let args = vec![a.to_owned(), b.to_owned(), c.to_owned(), d.to_owned()];
    assert(strings(args@) =~= seq![a@, b@, c@, d@]);
    Effect::Run(args)
}

/// Adds one effect to a list.
pub fn push_effect(list: &mut Vec<Effect>, e: Effect)
    ensures
        effects(final(list)@) == effects(old(list)@).push(e@),
{
    list.push(e);
    assert(effects(list@) =~= effects(old(list)@).push(e@));
}

/// Adds a list of effects to another.
pub fn add_all(list: &mut Vec<Effect>, more: Vec<Effect>)
    ensures
        effects(final(list)@) == effects(old(list)@) + effects(more@),
{
    let ghost m = more@;
    let mut more = more;
    list.append(&mut more);
    assert(effects(list@) =~= effects(old(list)@) + effects(m));
}

/// Keep a file from other users.
pub open spec fn chmod600(path: Seq<char>) -> EffectView {
    EffectView::Run(seq!["chmod"@, "600"@, path])
}

/// Write a file in the node manager's own directory that only root may read.
pub open spec fn kept_file(path: Seq<char>, content: Seq<char>) -> Seq<EffectView> {
    seq![
        EffectView::MakeDir("/etc/node-manager"@),
        EffectView::Write(path, content),
        chmod600(path),
    ]
}

/// Write a file in the node manager's own directory that only root may read.
pub fn keep_file(path: &str, content: &str) -> (v: Vec<Effect>)
    ensures
        effects(v@) == kept_file(path@, content@),
{
    let v = vec![
        make_dir("/etc/node-manager"),
        write_file(path, content),
        run3("chmod", "600", path),
    ];
    assert(effects(v@) =~= kept_file(path@, content@));
    v
}

/// A file whose writing may fail, with the answer depending on it. The directory
/// is created first.
#[derive(Debug, PartialEq, Eq)]
pub struct FileWrite {
    pub dir: String,
    pub path: String,
    pub content: String,
}

/// A file to write with its texts as sequences of characters.
pub struct FileWriteView {
    pub dir: Seq<char>,
    pub path: Seq<char>,
    pub content: Seq<char>,
}

impl View for FileWrite {
    type V = FileWriteView;

    open spec fn view(&self) -> FileWriteView {
        FileWriteView { dir: self.dir@, path: self.path@, content: self.content@ }
    }
}

/// No effects.
pub fn no_effects() -> (v: Vec<Effect>)
    ensures
        effects(v@) == Seq::<EffectView>::empty(),
{
    let v: Vec<Effect> = Vec::new();
    assert(effects(v@) =~= Seq::<EffectView>::empty());
    v
}

/// The effects of restarting a service, given whether it is active.
pub fn restart_if_running(service: &str, active: bool) -> (v: Vec<Effect>)
    ensures
        effects(v@) == (if active {
            seq![EffectView::Run(seq!["systemctl"@, "restart"@, service@])]
        } else {
            Seq::empty()
        }),
{
    let mut v = no_effects();
    if active {
        push_effect(&mut v, run3("systemctl", "restart", service));
        assert(effects(v@) =~= seq![EffectView::Run(seq!["systemctl"@, "restart"@, service@])]);
    }
    v
}

} // verus!
