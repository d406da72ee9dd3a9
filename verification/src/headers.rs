//! A header mapping from names to values, insertion order kept, names
//! unique, later writes to a name overwriting the earlier value in place.
use vstd::prelude::*;

use crate::bytes::bytes_eq;

verus! {

/// The entry sequence after writing `(n, v)`: the first entry named `n` is
/// overwritten in place; absent that, the entry is appended.
pub open spec fn spec_insert(
    entries: Seq<(Seq<u8>, Seq<u8>)>,
    n: Seq<u8>,
    v: Seq<u8>,
) -> Seq<(Seq<u8>, Seq<u8>)>
    decreases entries.len(),
{
    if entries.len() == 0 {
        seq![(n, v)]
    } else if entries[0].0 == n {
        seq![(n, v)] + entries.drop_first()
    } else {
        seq![entries[0]] + spec_insert(entries.drop_first(), n, v)
    }
}

/// The value the latest write to `n` left, if any.
pub open spec fn spec_lookup(entries: Seq<(Seq<u8>, Seq<u8>)>, n: Seq<u8>) -> Option<Seq<u8>>
    decreases entries.len(),
{
    if entries.len() == 0 {
        None
    } else if entries.last().0 == n {
        Some(entries.last().1)
    } else {
        spec_lookup(entries.drop_last(), n)
    }
}

/// No two entries share a name.
pub open spec fn unique_names(entries: Seq<(Seq<u8>, Seq<u8>)>) -> bool {
    forall|i: int, j: int| 0 <= i < j < entries.len() ==> entries[i].0 != entries[j].0
}

/// A header mapping; its view is the entry sequence of name/value pairs.
#[derive(Debug)]
pub struct HeaderMap {
    entries: Vec<(Vec<u8>, Vec<u8>)>,
}

impl View for HeaderMap {
    type V = Seq<(Seq<u8>, Seq<u8>)>;

    closed spec fn view(&self) -> Seq<(Seq<u8>, Seq<u8>)> {
        self.entries@.map_values(|e: (Vec<u8>, Vec<u8>)| (e.0@, e.1@))
    }
}

impl HeaderMap {
    /// The empty mapping.
    pub fn new() -> (r: HeaderMap)
        ensures
            r@ == Seq::<(Seq<u8>, Seq<u8>)>::empty(),
    {
        let m = HeaderMap { entries: Vec::new() };
        assert(m@ =~= Seq::<(Seq<u8>, Seq<u8>)>::empty());
        m
    }

    /// How many names are mapped.
    pub fn len(&self) -> (r: usize)
        ensures
            r == self@.len(),
    {
        self.entries.len()
    }

    /// Writes `value` under `name`, overwriting in place what an earlier
    /// write to the same name left.
    pub fn insert(&mut self, name: Vec<u8>, value: Vec<u8>)
        ensures
            final(self)@ == spec_insert(old(self)@, name@, value@),
    {
        let n = self.entries.len();
        let mut i: usize = 0;
        while i < n
            invariant
                0 <= i <= n,
                n == self.entries.len(),
                *self == *old(self),
                forall|k: int| 0 <= k < i ==> self@[k].0 != name@,
            decreases n - i,
        {
            if bytes_eq(self.entries[i].0.as_slice(), name.as_slice()) {
                assert(self@[i as int].0 == name@);
                proof {
                    lemma_insert_found(self@, name@, value@, i as int);
                }
                self.entries[i] = (name, value);
                assert(final(self)@ =~= old(self)@.update(i as int, (name@, value@)));
                return ;
            }
            i += 1;
        }
        proof {
            lemma_insert_missing(self@, name@, value@);
        }
        self.entries.push((name, value));
        assert(final(self)@ =~= old(self)@.push((name@, value@)));
    }

    /// The name and value at position `i` of the mapping's entry order.
    pub fn entry_at(&self, i: usize) -> (r: (&Vec<u8>, &Vec<u8>))
        requires
            i < self@.len(),
        ensures
            r.0@ == self@[i as int].0,
            r.1@ == self@[i as int].1,
    {
        (&self.entries[i].0, &self.entries[i].1)
    }

    /// The value under `name`, if the mapping holds one.
    pub fn get(&self, name: &[u8]) -> (r: Option<&Vec<u8>>)
        ensures
            match r {
                Some(v) => spec_lookup(self@, name@) == Some(v@),
                None => spec_lookup(self@, name@) is None,
            },
    {
        let mut i = self.entries.len();
        assert(self@.subrange(0, i as int) =~= self@);
        while i > 0
            invariant
                0 <= i <= self.entries.len(),
                spec_lookup(self@, name@) == spec_lookup(self@.subrange(0, i as int), name@),
            decreases i,
        {
            i -= 1;
            let ghost pre = self@.subrange(0, i as int + 1);
            assert(pre.last() == self@[i as int]);
            if bytes_eq(self.entries[i].0.as_slice(), name) {
                assert(spec_lookup(pre, name@) == Some(self@[i as int].1));
                return Some(&self.entries[i].1);
            }
            assert(pre.drop_last() =~= self@.subrange(0, i as int));
        }
        assert(self@.subrange(0, 0) =~= Seq::<(Seq<u8>, Seq<u8>)>::empty());
        None
    }
}

/// The latest entry under a name decides the lookup.
pub proof fn lemma_lookup_last(entries: Seq<(Seq<u8>, Seq<u8>)>, n: Seq<u8>)
    requires
        entries.len() > 0,
        entries.last().0 == n,
    ensures
        spec_lookup(entries, n) == Some(entries.last().1),
{
}

/// A last entry under another name plays no part in the lookup.
pub proof fn lemma_lookup_skip(entries: Seq<(Seq<u8>, Seq<u8>)>, n: Seq<u8>)
    requires
        entries.len() > 0,
        entries.last().0 != n,
    ensures
        spec_lookup(entries, n) == spec_lookup(entries.drop_last(), n),
{
}

/// Writing a present name overwrites its entry in place.
proof fn lemma_insert_found(entries: Seq<(Seq<u8>, Seq<u8>)>, n: Seq<u8>, v: Seq<u8>, i: int)
    requires
        0 <= i < entries.len(),
        entries[i].0 == n,
        forall|k: int| 0 <= k < i ==> entries[k].0 != n,
    ensures
        spec_insert(entries, n, v) == entries.update(i, (n, v)),
    decreases i,
{
    if i == 0 {
        assert(spec_insert(entries, n, v) =~= entries.update(0, (n, v)));
    } else {
        assert(entries.drop_first()[i - 1].0 == n);
        lemma_insert_found(entries.drop_first(), n, v, i - 1);
        assert(spec_insert(entries, n, v) =~= entries.update(i, (n, v)));
    }
}

/// Writing an absent name appends its entry.
pub proof fn lemma_insert_missing(entries: Seq<(Seq<u8>, Seq<u8>)>, n: Seq<u8>, v: Seq<u8>)
    requires
        forall|k: int| 0 <= k < entries.len() ==> entries[k].0 != n,
    ensures
        spec_insert(entries, n, v) == entries.push((n, v)),
    decreases entries.len(),
{
    if entries.len() == 0 {
        assert(spec_insert(entries, n, v) =~= entries.push((n, v)));
    } else {
        lemma_insert_missing(entries.drop_first(), n, v);
        assert(spec_insert(entries, n, v) =~= entries.push((n, v)));
    }
}

/// Writes keep names unique: a mapping grown by writes alone has no
/// duplicate names.
pub proof fn lemma_insert_unique(entries: Seq<(Seq<u8>, Seq<u8>)>, n: Seq<u8>, v: Seq<u8>)
    requires
        unique_names(entries),
    ensures
        unique_names(spec_insert(entries, n, v)),
    decreases entries.len(),
{
    if entries.len() == 0 {
    } else if entries[0].0 == n {
        let r = seq![(n, v)] + entries.drop_first();
        assert forall|i: int, j: int| 0 <= i < j < r.len() implies r[i].0 != r[j].0 by {
            if i == 0 {
                assert(r[j] == entries[j]);
                assert(entries[0].0 != entries[j].0);
            } else {
                assert(r[i] == entries[i] && r[j] == entries[j]);
            }
        }
    } else {
        assert(unique_names(entries.drop_first())) by {
            assert forall|i: int, j: int|
                0 <= i < j < entries.drop_first().len() implies entries.drop_first()[i].0
                != entries.drop_first()[j].0 by {
                assert(entries.drop_first()[i] == entries[i + 1]);
                assert(entries.drop_first()[j] == entries[j + 1]);
            }
        }
        lemma_insert_unique(entries.drop_first(), n, v);
        let rest = spec_insert(entries.drop_first(), n, v);
        let r = seq![entries[0]] + rest;
        assert forall|i: int, j: int| 0 <= i < j < r.len() implies r[i].0 != r[j].0 by {
            if i == 0 {
                assert(r[j] == rest[j - 1]);
                lemma_insert_members(entries.drop_first(), n, v, j - 1);
            }
        }
    }
}

/// Every name in a written mapping is the written name or one already there.
proof fn lemma_insert_members(entries: Seq<(Seq<u8>, Seq<u8>)>, n: Seq<u8>, v: Seq<u8>, j: int)
    requires
        0 <= j < spec_insert(entries, n, v).len(),
    ensures
        spec_insert(entries, n, v)[j].0 == n || exists|k: int|
            0 <= k < entries.len() && entries[k].0 == spec_insert(entries, n, v)[j].0,
    decreases entries.len(),
{
    if entries.len() == 0 {
    } else if entries[0].0 == n {
        if j > 0 {
            assert(spec_insert(entries, n, v)[j] == entries[j]);
        }
    } else {
        if j == 0 {
            assert(spec_insert(entries, n, v)[0] == entries[0]);
        } else {
            lemma_insert_members(entries.drop_first(), n, v, j - 1);
            assert(spec_insert(entries, n, v)[j] == spec_insert(entries.drop_first(), n, v)[j - 1]);
            if spec_insert(entries.drop_first(), n, v)[j - 1].0 != n {
                let k = choose|k: int|
                    0 <= k < entries.drop_first().len() && entries.drop_first()[k].0 == spec_insert(
                        entries.drop_first(),
                        n,
                        v,
                    )[j - 1].0;
                assert(entries[k + 1].0 == spec_insert(entries, n, v)[j].0);
            }
        }
    }
}

} // verus!
