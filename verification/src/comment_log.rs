//! The append-only comment log.
//!
//! An ordered sequence of immutable short strings. The only mutation is
//! `append`; an index, once valid, refers to the same string for the rest
//! of the log's lifetime. The unverified shell wraps a value of this type
//! in a shared-exclusive lock to share it between the UI thread and the
//! plugin's callback threads; the contracts here describe the value under
//! the lock.

use vstd::prelude::*;

verus! {

/// Ordered, append-only sequence of comments. Viewed as the sequence of
/// the comments' character sequences.
pub struct CommentLog {
    entries: Vec<String>,
}

impl View for CommentLog {
    type V = Seq<Seq<char>>;

    closed spec fn view(&self) -> Seq<Seq<char>> {
        self.entries.deep_view()
    }
}

impl CommentLog {
    /// An empty log.
    pub fn new() -> (log: Self)
        ensures
            log@ == Seq::<Seq<char>>::empty(),
    {
        let log = CommentLog { entries: Vec::new() };
        proof {
            assert(log@ =~= Seq::<Seq<char>>::empty());
        }
        log
    }

    /// Current number of comments.
    pub fn len(&self) -> (n: usize)
        ensures
            n == self@.len(),
    {
        self.entries.len()
    }

    /// Places `comment` at the index equal to the current length; every
    /// existing index keeps its contents.
    pub fn append(&mut self, comment: String)
        ensures
            final(self)@ == old(self)@.push(comment@),
    {
        self.entries.push(comment);
        proof {
            assert(self@ =~= old(self)@.push(comment@));
        }
    }

    /// The comment at index `i`.
    pub fn get(&self, i: usize) -> (comment: &String)
        requires
            i < self@.len(),
        ensures
            comment@ == self@[i as int],
    {
        &self.entries[i]
    }

    /// Copies of the comments in `[lo, hi)`, the sub-range one frame
    /// renders.
    pub fn read_range(&self, lo: usize, hi: usize) -> (rows: Vec<String>)
        requires
            lo <= hi <= self@.len(),
        ensures
            rows.deep_view() == self@.subrange(lo as int, hi as int),
    {
        let mut rows: Vec<String> = Vec::new();
        let mut i: usize = lo;
        while i < hi
            invariant
                lo <= i <= hi <= self@.len(),
                rows@.len() == i - lo,
                forall|k: int| 0 <= k < rows@.len() ==> (#[trigger] rows@[k])@ == self@[lo + k],
            decreases hi - i,
        {
            let ghost pre_vec = rows@;
            let entry = self.entries[i].clone();
            rows.push(entry);
            i = i + 1;
            proof {
                assert(entry@ == self@[i - 1]);
                assert forall|k: int|
                    0 <= k < rows@.len() implies (#[trigger] rows@[k])@ == self@[lo + k] by {
                    if k < pre_vec.len() {
                        assert(rows@[k] == pre_vec[k]);
                    } else {
                        assert(rows@[k] == entry);
                    }
                }
            }
        }
        proof {
            assert forall|k: int|
                0 <= k < rows.deep_view().len() implies rows.deep_view()[k] == self@.subrange(
                lo as int,
                hi as int,
            )[k] by {
                assert(rows.deep_view()[k] == rows@[k]@);
                assert(rows@[k]@ == self@[lo + k]);
            }
            assert(rows.deep_view() =~= self@.subrange(lo as int, hi as int));
        }
        rows
    }
}

/// Once an index is observed it is stable: the log's only mutation,
/// appending, leaves every existing entry in place and never shrinks the
/// log.
pub proof fn lemma_observed_index_is_stable(pre: Seq<Seq<char>>, appended: Seq<char>, i: int)
    requires
        0 <= i < pre.len(),
    ensures
        pre.push(appended)[i] == pre[i],
        pre.push(appended).len() == pre.len() + 1,
{
}

} // verus!
