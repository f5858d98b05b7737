//! Key and value pairs, and the text file that keeps them.
use vstd::prelude::*;

use crate::split::{
    cut, lemma_split_once, lines, lines_of, split_once, trim, trimmed, without_return,
};
use crate::text::{
    chars_of, find_any, lemma_find_any_from, lemma_find_any_is, opt, same, string_of, texts,
};

verus! {

/// Pairs of texts, in the order in which their keys were first given.
pub type PairSeq = Seq<(Seq<char>, Seq<char>)>;

// ---------------------------------------------------------------------------
// Values under keys
// ---------------------------------------------------------------------------

/// The first position from `i` on whose pair has the given key.
pub open spec fn position_from<V>(p: Seq<(Seq<char>, V)>, key: Seq<char>, i: int) -> Option<int>
    decreases p.len() - i,
{
    if i < 0 || i >= p.len() {
        None
    } else if p[i].0 == key {
        Some(i)
    } else {
        position_from(p, key, i + 1)
    }
}

/// The value under a key.
pub open spec fn lookup<V>(p: Seq<(Seq<char>, V)>, key: Seq<char>) -> Option<V> {
    match position_from(p, key, 0) {
        None => None,
        Some(i) => Some(p[i].1),
    }
}

/// The value under a key, or the given one where the key is missing.
pub open spec fn lookup_or(p: PairSeq, key: Seq<char>, default: Seq<char>) -> Seq<char> {
    match lookup(p, key) {
        None => default,
        Some(v) => v,
    }
}

/// The pairs with `value` under `key`: in place of the value that was there, or
/// at the end.
pub open spec fn inserted<V>(p: Seq<(Seq<char>, V)>, key: Seq<char>, value: V) -> Seq<
    (Seq<char>, V),
> {
    match position_from(p, key, 0) {
        None => p.push((key, value)),
        Some(i) => p.update(i, (key, value)),
    }
}

/// No key occurs twice.
pub open spec fn distinct<V>(p: Seq<(Seq<char>, V)>) -> bool {
    forall|i: int, j: int| 0 <= i < j < p.len() ==> p[i].0 != p[j].0
}

/// A found position has the key, and no earlier one does.
pub proof fn lemma_position<V>(p: Seq<(Seq<char>, V)>, key: Seq<char>, i: int)
    requires
        0 <= i,
    ensures
        position_from(p, key, i) matches Some(k) ==> i <= k < p.len() && p[k].0 == key && (forall|
            j: int,
        |
            i <= j < k ==> p[j].0 != key),
        position_from(p, key, i) is None ==> forall|j: int| i <= j < p.len() ==> p[j].0 != key,
    decreases p.len() - i,
{
    if i < p.len() && p[i].0 != key {
        lemma_position(p, key, i + 1);
    }
}

/// Inserting a pair puts the value under its key, leaves every other key as it
/// was, and keeps the keys distinct.
pub proof fn law_insert_lookup<V>(
    p: Seq<(Seq<char>, V)>,
    key: Seq<char>,
    value: V,
    other: Seq<char>,
)
    requires
        distinct(p),
    ensures
        distinct(inserted(p, key, value)),
        lookup(inserted(p, key, value), key) == Some(value),
        other != key ==> lookup(inserted(p, key, value), other) == lookup(p, other),
{
    let q = inserted(p, key, value);
    lemma_position(p, key, 0);
    lemma_position(q, key, 0);
    lemma_position(p, other, 0);
    lemma_position(q, other, 0);
    let place = match position_from(p, key, 0) {
        None => p.len() as int,
        Some(i) => i,
    };
    assert(q[place] == (key, value));
    assert forall|i: int, j: int| 0 <= i < j < q.len() implies q[i].0 != q[j].0 by {}
    if other != key {
        match position_from(p, other, 0) {
            Some(i) => {
                assert(q[i] == p[i]);
                match position_from(q, other, 0) {
                    Some(k) => {
                        if k < i {
                            assert(q[k].0 == other);
                            assert(p[k].0 == other);
                        } else if i < k {
                            assert(q[i].0 != other);
                        }
                    },
                    None => {
                        assert(q[i].0 != other);
                    },
                }
            },
            None => {
                match position_from(q, other, 0) {
                    Some(k) => {
                        assert(p[k].0 == other);
                    },
                    None => {},
                }
            },
        }
    }
}

/// A list of key and value pairs in which no key occurs twice.
#[derive(Debug, PartialEq, Eq)]
pub struct Pairs {
    pub entries: Vec<(String, String)>,
}

impl View for Pairs {
    type V = PairSeq;

    open spec fn view(&self) -> PairSeq {
        Seq::new(self.entries@.len(), |i: int| (self.entries@[i].0@, self.entries@[i].1@))
    }
}

impl Pairs {
    /// No key occurs twice.
    pub open spec fn wf(self) -> bool {
        distinct(self@)
    }

    /// No pairs.
    pub fn new() -> (p: Pairs)
        ensures
            p.wf(),
            p@ == PairSeq::empty(),
    {
        let p = Pairs { entries: Vec::new() };
        assert(p@ =~= PairSeq::empty());
        p
    }

    /// The position of a key.
    fn position(&self, key: &str) -> (r: Option<usize>)
        ensures
            (match r {
                Some(i) => i < self@.len() && position_from(self@, key@, 0) == Some(i as int),
                None => position_from(self@, key@, 0) is None,
            }),
    {
        let mut i: usize = 0;
        while i < self.entries.len()
            invariant
                i <= self.entries@.len(),
                position_from(self@, key@, 0) == position_from(self@, key@, i as int),
            decreases self.entries@.len() - i,
        {
            if same(self.entries[i].0.as_str(), key) {
                return Some(i);
            }
            i += 1;
        }
        None
    }

    /// The value under a key.
    pub fn get(&self, key: &str) -> (r: Option<String>)
        ensures
            opt(r) == lookup(self@, key@),
    {
        match self.position(key) {
            None => None,
            Some(i) => Some(self.entries[i].1.clone()),
        }
    }

    /// The value under a key, or the given one where the key is missing.
    pub fn get_or(&self, key: &str, default: &str) -> (r: String)
        ensures
            r@ == lookup_or(self@, key@, default@),
    {
        match self.get(key) {
            None => default.to_owned(),
            Some(v) => v,
        }
    }

    /// Puts a value under a key.
    pub fn insert(&mut self, key: String, value: String)
        requires
            old(self).wf(),
        ensures
            final(self).wf(),
            final(self)@ == inserted(old(self)@, key@, value@),
    {
        let ghost k = key@;
        let ghost v = value@;
        match self.position(key.as_str()) {
            None => {
                self.entries.push((key, value));
                assert(self@ =~= inserted(old(self)@, k, v));
            },
            Some(i) => {
                self.entries[i] = (key, value);
                assert(self@ =~= inserted(old(self)@, k, v));
            },
        }
        proof {
            law_insert_lookup(old(self)@, k, v, k);
        }
    }
}

// ---------------------------------------------------------------------------
// The state file
// ---------------------------------------------------------------------------

/// The pairs that lines of the form `key=value` hold; white space round the key
/// does not count, lines without an equals sign are passed over, and of two
/// lines with one key the later counts.
pub open spec fn pairs_of_lines(ls: Seq<Seq<char>>) -> PairSeq
    decreases ls.len(),
{
    if ls.len() == 0 {
        seq![]
    } else {
        let before = pairs_of_lines(ls.drop_last());
        match split_once(ls.last(), "="@) {
            None => before,
            Some((k, v)) => inserted(before, trim(k), v),
        }
    }
}

/// The pairs that the text of a state file holds.
pub open spec fn pairs_of_text(content: Seq<char>) -> PairSeq {
    pairs_of_lines(lines(content))
}

/// One line of a state file.
pub open spec fn pair_line(key: Seq<char>, value: Seq<char>) -> Seq<char> {
    key + seq!['='] + value + seq!['\n']
}

/// The text of a state file: one line for each pair.
pub open spec fn text_of_pairs(p: PairSeq) -> Seq<char>
    decreases p.len(),
{
    if p.len() == 0 {
        seq![]
    } else {
        text_of_pairs(p.drop_last()) + pair_line(p.last().0, p.last().1)
    }
}

/// Reads the text of a state file.
pub fn read_state_file(content: &str) -> (p: Pairs)
    ensures
        p.wf(),
        p@ == pairs_of_text(content@),
{
    let c = chars_of(content);
    let ls = lines_of(c.as_slice());
    let mut p = Pairs::new();
    let mut i: usize = 0;
    assert(texts(ls@).take(0) =~= Seq::<Seq<char>>::empty());
    while i < ls.len()
        invariant
            i <= ls@.len(),
            p.wf(),
            p@ == pairs_of_lines(texts(ls@).take(i as int)),
        decreases ls@.len() - i,
    {
        assert(texts(ls@).take(i + 1).drop_last() =~= texts(ls@).take(i as int));
        match cut(ls[i], "=") {
            None => {},
            Some((k, v)) => {
                p.insert(string_of(trimmed(k)), string_of(v));
            },
        }
        i += 1;
    }
    assert(texts(ls@).take(ls@.len() as int) =~= texts(ls@));
    p
}

/// The text of a state file.
pub fn state_file_text(p: &Pairs) -> (s: String)
    ensures
        s@ == text_of_pairs(p@),
{
    let mut s = String::new();
    let mut i: usize = 0;
    while i < p.entries.len()
        invariant
            i <= p.entries@.len(),
            s@ == text_of_pairs(p@.take(i as int)),
        decreases p.entries@.len() - i,
    {
        let ghost before = s@;
        s.append(p.entries[i].0.as_str());
        s.push('=');
        s.append(p.entries[i].1.as_str());
        s.push('\n');
        assert(p@.take(i + 1).drop_last() =~= p@.take(i as int));
        assert(s@ =~= before + pair_line(p@[i as int].0, p@[i as int].1));
        i += 1;
    }
    assert(p@.take(p@.len() as int) =~= p@);
    s
}

/// A pair that a line of a state file can hold: the key has no line feed, no
/// equals sign and no white space at its ends, and the value has no line feed
/// and does not end with a carriage return.
pub open spec fn storable(key: Seq<char>, value: Seq<char>) -> bool {
    &&& !key.contains('\n')
    &&& !key.contains('=')
    &&& trim(key) == key
    &&& !value.contains('\n')
    &&& value.len() > 0 ==> value.last() != '\r'
}

/// The lines of two texts, the first of which ends a line, are the lines of both.
pub proof fn lemma_lines_concat(x: Seq<char>, y: Seq<char>)
    requires
        x.len() > 0 ==> x.last() == '\n',
    ensures
        lines(x + y) == lines(x) + lines(y),
    decreases x.len(),
{
    reveal_strlit("\n");
    let nl = "\n"@;
    assert(nl =~= seq!['\n']);
    if x.len() == 0 {
        assert(x + y =~= y);
        assert(lines(x) + lines(y) =~= lines(y));
    } else {
        lemma_find_any_from(x, nl, 0);
        assert(nl[0] == '\n');
        assert(nl.contains(x.last()));
        assert(find_any(x, nl) is Some);
        let p = find_any(x, nl)->0;
        assert((x + y)[p] == x[p]);
        assert forall|j: int| 0 <= j < p implies !nl.contains((x + y)[j]) by {
            assert((x + y)[j] == x[j]);
        }
        lemma_find_any_is(x + y, nl, 0, p);
        assert((x + y).take(p) =~= x.take(p));
        assert((x + y).skip(p + 1) =~= x.skip(p + 1) + y);
        lemma_lines_concat(x.skip(p + 1), y);
        assert(lines(x + y) =~= lines(x) + lines(y));
    }
}

/// A line feed after text without one makes one line.
pub proof fn lemma_one_line(x: Seq<char>)
    requires
        !x.contains('\n'),
    ensures
        lines(x + seq!['\n']) == seq![without_return(x)],
{
    reveal_strlit("\n");
    let nl = "\n"@;
    assert(nl =~= seq!['\n']);
    let s = x + seq!['\n'];
    assert(nl[0] == '\n');
    assert forall|j: int| 0 <= j < x.len() implies !nl.contains(s[j]) by {
        assert(s[j] == x[j]);
        if nl.contains(s[j]) {
            assert(x.contains('\n'));
        }
    }
    lemma_find_any_is(s, nl, 0, x.len() as int);
    assert(s.take(x.len() as int) =~= x);
    assert(s.skip(x.len() as int + 1) =~= Seq::<char>::empty());
    assert(lines(Seq::<char>::empty()) =~= Seq::<Seq<char>>::empty());
    assert(lines(s) =~= seq![without_return(x)]);
}

/// A line `key=value` comes apart at its first equals sign.
pub proof fn lemma_pair_splits(key: Seq<char>, value: Seq<char>)
    requires
        !key.contains('='),
    ensures
        split_once(key + seq!['='] + value, "="@) == Some((key, value)),
{
    reveal_strlit("=");
    assert("="@ =~= seq!['=']);
    lemma_split_once(key, '=', value, "="@);
}

proof fn lemma_text_ends_line(p: PairSeq)
    ensures
        text_of_pairs(p).len() > 0 ==> text_of_pairs(p).last() == '\n',
    decreases p.len(),
{
}

/// Reading a state file gives back the pairs that were written to it.
pub proof fn law_state_file_round_trip(p: PairSeq)
    requires
        distinct(p),
        forall|i: int| 0 <= i < p.len() ==> storable(#[trigger] p[i].0, p[i].1),
    ensures
        pairs_of_text(text_of_pairs(p)) == p,
    decreases p.len(),
{
    if p.len() == 0 {
        assert(pairs_of_text(text_of_pairs(p)) =~= p);
    } else {
        let q = p.drop_last();
        let key = p.last().0;
        let value = p.last().1;
        assert forall|i: int| 0 <= i < q.len() implies storable(#[trigger] q[i].0, q[i].1) by {
            assert(q[i] == p[i]);
        }
        law_state_file_round_trip(q);
        assert(storable(p[p.len() - 1].0, p[p.len() - 1].1));
        let line = key + seq!['='] + value;
        lemma_text_ends_line(q);
        assert(text_of_pairs(p) =~= text_of_pairs(q) + (line + seq!['\n']));
        lemma_lines_concat(text_of_pairs(q), line + seq!['\n']);
        assert(!line.contains('\n')) by {
            if line.contains('\n') {
                let i = choose|i: int| 0 <= i < line.len() && line[i] == '\n';
                if i < key.len() {
                    assert(key[i] == '\n');
                } else if i > key.len() {
                    assert(value[i - key.len() - 1] == '\n');
                }
            }
        }
        lemma_one_line(line);
        assert(without_return(line) == line) by {
            if value.len() > 0 {
                assert(line.last() == value.last());
            } else {
                assert(line.last() == '=');
            }
        }
        let ls = lines(text_of_pairs(p));
        assert(ls.drop_last() =~= lines(text_of_pairs(q)));
        assert(ls.last() == line);
        lemma_pair_splits(key, value);
        lemma_position(q, key, 0);
        assert(forall|j: int| 0 <= j < q.len() ==> q[j].0 == p[j].0);
        assert(position_from(q, key, 0) is None);
        assert(q.push((key, value)) =~= p);
    }
}

} // verus!
