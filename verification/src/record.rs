//! The count record and how records add up.

use vstd::prelude::*;
use vstd::seq_lib::{to_multiset_contains, to_multiset_len, to_multiset_remove};

verus! {

/// The four counts of a text as mathematical naturals.
pub struct Counts {
    pub lines: nat,
    pub words: nat,
    pub bytes: nat,
    pub chars: nat,
}

impl Counts {
    /// The record of empty input.
    pub open spec fn zero() -> Counts {
        Counts { lines: 0, words: 0, bytes: 0, chars: 0 }
    }

    /// Field-wise sum of two records.
    pub open spec fn plus(self, rhs: Counts) -> Counts {
        Counts {
            lines: self.lines + rhs.lines,
            words: self.words + rhs.words,
            bytes: self.bytes + rhs.bytes,
            chars: self.chars + rhs.chars,
        }
    }

    /// Every field of `self` is at most the same field of `rhs`.
    pub open spec fn le(self, rhs: Counts) -> bool {
        &&& self.lines <= rhs.lines
        &&& self.words <= rhs.words
        &&& self.bytes <= rhs.bytes
        &&& self.chars <= rhs.chars
    }

    /// Every field fits in a `usize`.
    pub open spec fn fits(self) -> bool {
        &&& self.lines <= usize::MAX
        &&& self.words <= usize::MAX
        &&& self.bytes <= usize::MAX
        &&& self.chars <= usize::MAX
    }
}

/// The field-wise sum of all the records, taken in order.
pub open spec fn total(records: Seq<Counts>) -> Counts
    decreases records.len(),
{
    if records.len() == 0 {
        Counts::zero()
    } else {
        total(records.drop_last()).plus(records.last())
    }
}

/// Adding two records gives the same whichever comes first.
pub proof fn lemma_plus_commutative(a: Counts, b: Counts)
    ensures
        a.plus(b) == b.plus(a),
{
}

/// Adding three records gives the same however they are grouped.
pub proof fn lemma_plus_associative(a: Counts, b: Counts, c: Counts)
    ensures
        a.plus(b).plus(c) == a.plus(b.plus(c)),
{
}

/// The total is the total without one record, plus that record.
pub proof fn lemma_total_remove(records: Seq<Counts>, i: int)
    requires
        0 <= i < records.len(),
    ensures
        total(records) == total(records.remove(i)).plus(records[i]),
    decreases records.len(),
{
    if i == records.len() - 1 {
        assert(records.remove(i) =~= records.drop_last());
    } else {
        lemma_total_remove(records.drop_last(), i);
        let rest = records.remove(i);
        assert(rest.drop_last() =~= records.drop_last().remove(i));
        assert(rest.last() == records.last());
    }
}

/// The total of the same records is the same in whatever order they come.
pub proof fn lemma_total_any_order(a: Seq<Counts>, b: Seq<Counts>)
    requires
        a.to_multiset() == b.to_multiset(),
    ensures
        total(a) == total(b),
    decreases a.len(),
{
    to_multiset_len(a);
    to_multiset_len(b);
    if a.len() > 0 {
        let last = a.last();
        let n = a.len() - 1;
        to_multiset_contains(a, last);
        to_multiset_contains(b, last);
        assert(a.contains(last));
        let j = choose|j: int| 0 <= j < b.len() && b[j] == last;
        to_multiset_remove(a, n);
        to_multiset_remove(b, j);
        assert(a.remove(n) =~= a.drop_last());
        lemma_total_any_order(a.drop_last(), b.remove(j));
        lemma_total_remove(b, j);
    }
}

/// The counts of one source, or the running total over several.
#[derive(Debug, Clone, Copy, PartialEq, Eq, Structural)]
pub struct FileInfo {
    pub num_lines: usize,
    pub num_words: usize,
    pub num_bytes: usize,
    pub num_chars: usize,
}

impl View for FileInfo {
    type V = Counts;

    open spec fn view(&self) -> Counts {
        Counts {
            lines: self.num_lines as nat,
            words: self.num_words as nat,
            bytes: self.num_bytes as nat,
            chars: self.num_chars as nat,
        }
    }
}

impl FileInfo {
    /// The record of empty input: all four counts are zero.
    pub fn new() -> (info: FileInfo)
        ensures
            info@ == Counts::zero(),
    {
        FileInfo { num_lines: 0, num_words: 0, num_bytes: 0, num_chars: 0 }
    }

    /// Adds `rhs` to `self`, field by field.
    pub fn add_assign(&mut self, rhs: FileInfo)
        requires
            old(self)@.plus(rhs@).fits(),
        ensures
            final(self)@ == old(self)@.plus(rhs@),
    {
        self.num_bytes = self.num_bytes + rhs.num_bytes;
        self.num_words = self.num_words + rhs.num_words;
        self.num_lines = self.num_lines + rhs.num_lines;
        self.num_chars = self.num_chars + rhs.num_chars;
    }

    /// Adds `rhs` to `self` when every sum fits; otherwise leaves `self` as it was and
    /// returns `false`.
    pub fn try_add_assign(&mut self, rhs: FileInfo) -> (done: bool)
        ensures
            done == old(self)@.plus(rhs@).fits(),
            done ==> final(self)@ == old(self)@.plus(rhs@),
            !done ==> *final(self) == *old(self),
    {
        if rhs.num_bytes <= usize::MAX - self.num_bytes
            && rhs.num_words <= usize::MAX - self.num_words
            && rhs.num_lines <= usize::MAX - self.num_lines
            && rhs.num_chars <= usize::MAX - self.num_chars {
            self.add_assign(rhs);
            true
        } else {
            false
        }
    }
}

} // verus!
