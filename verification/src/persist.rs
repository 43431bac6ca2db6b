//! Which documents are written back to storage: those with more operations
//! than when they were last written.
use vstd::prelude::*;

verus! {

/// The revision saved for `key` in a list of (key, revision) pairs: that of
/// the first pair with the key, zero where there is none.
pub open spec fn saved_in(entries: Seq<(String, usize)>, key: Seq<char>) -> usize
    decreases entries.len(),
{
    if entries.len() == 0 {
        0
    } else if entries[0].0@ == key {
        entries[0].1
    } else {
        saved_in(entries.drop_first(), key)
    }
}

/// A document whose current revision is ahead of the saved one.
pub open spec fn is_pending(entries: Seq<(String, usize)>, doc: (String, usize)) -> bool {
    saved_in(entries, doc.0@) < doc.1
}

/// The revisions of documents as they were last written to storage, as
/// (key, revision) pairs. This is a list rather than vstd's `HashMap`:
/// vstd specifies `HashMap` lookups only for key types whose hashing and
/// equality it models (`obeys_key_model`, given for integers and `bool`),
/// which does not include `String`, so a map keyed by document path would
/// prove nothing about what it holds. `record` keeps at most one pair per key
/// (`keys_distinct`).
#[derive(Debug, Clone)]
pub struct SavedRevisions {
    pub entries: Vec<(String, usize)>,
}

/// Replacing a pair whose key no earlier pair has changes the saved
/// revision of that key only.
proof fn lemma_saved_update(entries: Seq<(String, usize)>, i: int, e: (String, usize), k: Seq<char>)
    requires
        0 <= i < entries.len(),
        entries[i].0@ == e.0@,
        forall|j: int| 0 <= j < i ==> entries[j].0@ != e.0@,
    ensures
        saved_in(entries.update(i, e), k) == if k == e.0@ {
            e.1
        } else {
            saved_in(entries, k)
        },
    decreases i,
{
    if i > 0 {
        assert(entries.update(i, e).drop_first() =~= entries.drop_first().update(i - 1, e));
        assert(entries.update(i, e)[0] == entries[0]);
        assert(entries[0].0@ != e.0@);
        lemma_saved_update(entries.drop_first(), i - 1, e, k);
    } else {
        assert(entries.update(0, e).drop_first() =~= entries.drop_first());
        assert(entries.update(0, e)[0] == e);
    }
}

/// Appending a pair whose key no pair has sets the saved revision of that
/// key only.
proof fn lemma_saved_push(entries: Seq<(String, usize)>, e: (String, usize), k: Seq<char>)
    requires
        forall|j: int| 0 <= j < entries.len() ==> entries[j].0@ != e.0@,
    ensures
        saved_in(entries.push(e), k) == if k == e.0@ {
            e.1
        } else {
            saved_in(entries, k)
        },
    decreases entries.len(),
{
    if entries.len() > 0 {
        assert(entries.push(e).drop_first() =~= entries.drop_first().push(e));
        assert(entries.push(e)[0] == entries[0]);
        assert(entries[0].0@ != e.0@);
        lemma_saved_push(entries.drop_first(), e, k);
    } else {
        assert(entries.push(e).drop_first() =~= Seq::<(String, usize)>::empty());
        assert(entries.push(e)[0] == e);
        assert(saved_in(Seq::<(String, usize)>::empty(), k) == 0);
    }
}

impl SavedRevisions {
    /// The revision saved for a document.
    pub open spec fn saved(&self, key: Seq<char>) -> usize {
        saved_in(self.entries@, key)
    }

    /// No two pairs have the same key.
    pub open spec fn keys_distinct(&self) -> bool {
        forall|i: int, j: int|
            0 <= i < j < self.entries@.len() ==> #[trigger] self.entries@[i].0@
                != #[trigger] self.entries@[j].0@
    }

    /// Nothing saved yet: every revision counts as zero.
    pub fn new() -> (r: Self)
        ensures
            forall|k: Seq<char>| r.saved(k) == 0,
            r.keys_distinct(),
    {
        SavedRevisions { entries: Vec::new() }
    }

    /// The revision saved for a document, zero where none is.
    pub fn saved_revision(&self, key: &String) -> (r: usize)
        ensures
            r == self.saved(key@),
    {
        let mut i: usize = 0;
        assert(self.entries@.skip(0) =~= self.entries@);
        while i < self.entries.len()
            invariant
                i <= self.entries@.len(),
                saved_in(self.entries@, key@) == saved_in(self.entries@.skip(i as int), key@),
            decreases self.entries@.len() - i,
        {
            let ghost rest = self.entries@.skip(i as int);
            assert(rest.drop_first() =~= self.entries@.skip(i + 1));
            if self.entries[i].0 == *key {
                return self.entries[i].1;
            }
            i += 1;
        }
        assert(self.entries@.skip(i as int) =~= Seq::<(String, usize)>::empty());
        0
    }

    /// Records that a document was written at a revision; other documents
    /// keep theirs.
    pub fn record(&mut self, key: String, revision: usize)
        ensures
            forall|k: Seq<char>| #[trigger]
                final(self).saved(k) == if k == key@ {
                    revision
                } else {
                    old(self).saved(k)
                },
            old(self).keys_distinct() ==> final(self).keys_distinct(),
            final(self).entries@.len() == old(self).entries@.len() + if exists|j: int|
                0 <= j < old(self).entries@.len() && #[trigger] old(self).entries@[j].0@ == key@ {
                0int
            } else {
                1int
            },
    {
        let mut i: usize = 0;
        while i < self.entries.len()
            invariant
                i <= self.entries@.len(),
                self == old(self),
                forall|j: int| 0 <= j < i ==> self.entries@[j].0@ != key@,
            decreases self.entries@.len() - i,
        {
            if self.entries[i].0 == key {
                let ghost before = self.entries@;
                let ghost e = (key, revision);
                self.entries.set(i, (key, revision));
                proof {
                    assert(self.entries@ == before.update(i as int, e));
                    assert forall|k: Seq<char>| #[trigger]
                        self.saved(k) == if k == e.0@ {
                            revision
                        } else {
                            saved_in(before, k)
                        } by {
                        lemma_saved_update(before, i as int, e, k);
                    }
                }
                return;
            }
            i += 1;
        }
        let ghost before = self.entries@;
        let ghost e = (key, revision);
        self.entries.push((key, revision));
        proof {
            assert forall|k: Seq<char>| #[trigger]
                self.saved(k) == if k == e.0@ {
                    revision
                } else {
                    saved_in(before, k)
                } by {
                lemma_saved_push(before, e, k);
            }
        }
    }

    /// The documents, among the current (key, revision) pairs, whose
    /// revision is ahead of the saved one, in the order given.
    pub fn pending(&self, current: &Vec<(String, usize)>) -> (r: Vec<(String, usize)>)
        ensures
            r@ == current@.filter(|d: (String, usize)| is_pending(self.entries@, d)),
            forall|j: int|
                0 <= j < current@.len() && self.saved(current@[j].0@) < current@[j].1
                    ==> r@.contains(#[trigger] current@[j]),
            forall|j: int|
                0 <= j < r@.len() ==> self.saved(#[trigger] r@[j].0@) < r@[j].1 && current@.contains(
                    r@[j],
                ),
    {
        let ghost pred = |d: (String, usize)| is_pending(self.entries@, d);
        let mut r: Vec<(String, usize)> = Vec::new();
        let mut i: usize = 0;
        while i < current.len()
            invariant
                i <= current@.len(),
                r@ == current@.take(i as int).filter(pred),
                pred == (|d: (String, usize)| is_pending(self.entries@, d)),
            decreases current@.len() - i,
        {
            proof {
                assert(current@.take(i + 1) =~= current@.take(i as int).push(current@[i as int]));
                current@.take(i as int).lemma_filter_push(current@[i as int], pred);
            }
            let saved = self.saved_revision(&current[i].0);
            if saved < current[i].1 {
                r.push((current[i].0.clone(), current[i].1));
            }
            i += 1;
        }
        assert(current@.take(current@.len() as int) =~= current@);
        proof {
            assert(r@ == pending_of(self.entries@, current@));
            law_pending_exactly_behind(self.entries@, current@);
        }
        r
    }
}

/// Where every current document has a saved revision at least as recent
/// (as after recording each pending one at its revision), nothing is pending.
pub proof fn law_nothing_pending_when_saved(saved: SavedRevisions, current: Seq<(String, usize)>)
    requires
        forall|j: int| 0 <= j < current.len() ==> saved.saved(current[j].0@) >= current[j].1,
    ensures
        current.filter(|d: (String, usize)| is_pending(saved.entries@, d)).len() == 0,
    decreases current.len(),
{
    let pred = |d: (String, usize)| is_pending(saved.entries@, d);
    reveal_with_fuel(Seq::<_>::filter, 1);
    if current.len() > 0 {
        assert(current =~= current.drop_last().push(current.last()));
        current.drop_last().lemma_filter_push(current.last(), pred);
        let rest = current.drop_last();
        assert forall|j: int| 0 <= j < rest.len() implies saved.saved(rest[j].0@) >= rest[j].1 by {
            assert(rest[j] == current[j]);
        }
        law_nothing_pending_when_saved(saved, rest);
        assert(!pred(current.last()));
    }
}

/// The pairs of `current` that are pending against `entries`, in order.
pub open spec fn pending_of(entries: Seq<(String, usize)>, current: Seq<(String, usize)>) -> Seq<
    (String, usize),
> {
    current.filter(|d: (String, usize)| is_pending(entries, d))
}

/// Which documents are pending depends on each document alone: every
/// current (key, revision) pair whose saved revision (zero where none is
/// saved) is below its revision is pending, whatever other documents have
/// saved; and every pending pair is a current one that is behind.
pub proof fn law_pending_exactly_behind(entries: Seq<(String, usize)>, current: Seq<(String, usize)>)
    ensures
        forall|j: int|
            0 <= j < current.len() && saved_in(entries, current[j].0@) < current[j].1
                ==> pending_of(entries, current).contains(#[trigger] current[j]),
        forall|j: int|
            0 <= j < pending_of(entries, current).len() ==> saved_in(
                entries,
                (#[trigger] pending_of(entries, current)[j]).0@,
            ) < pending_of(entries, current)[j].1 && current.contains(pending_of(entries, current)[j]),
{
    let pred = |d: (String, usize)| is_pending(entries, d);
    let f = current.filter(pred);
    assert(f == pending_of(entries, current));
    current.filter_lemma(pred);
    assert forall|j: int|
        0 <= j < current.len() && saved_in(entries, current[j].0@) < current[j].1 implies f.contains(
        #[trigger] current[j],
    ) by {
        assert(pred(current[j]));
    }
    assert forall|j: int| 0 <= j < f.len() implies saved_in(entries, (#[trigger] f[j]).0@) < f[j].1
        && current.contains(f[j]) by {
        assert(pred(f[j]));
        lemma_filter_from(current, pred, j);
    }
}

/// What filtering keeps comes from the filtered list.
proof fn lemma_filter_from(s: Seq<(String, usize)>, pred: spec_fn((String, usize)) -> bool, i: int)
    requires
        0 <= i < s.filter(pred).len(),
    ensures
        s.contains(s.filter(pred)[i]),
    decreases s.len(),
{
    reveal_with_fuel(Seq::<_>::filter, 1);
    let rest = s.drop_last();
    if s.len() > 0 {
        if pred(s.last()) && i == rest.filter(pred).len() {
            assert(s.filter(pred)[i] == s[s.len() - 1]);
        } else {
            assert(s.filter(pred)[i] == rest.filter(pred)[i]);
            lemma_filter_from(rest, pred, i);
            let k = choose|k: int| 0 <= k < rest.len() && rest[k] == rest.filter(pred)[i];
            assert(s[k] == rest[k]);
        }
    }
}

} // verus!
