//! The batch: an ordered group of lines, and its weight.

use vstd::prelude::*;
use vstd::string::StrSliceExecFns;
use crate::weight::{line_weight, spec_line_weight, lemma_line_weight_positive};

verus! {

/// The weight of a group of lines: the sum of the weights of its lines.
pub open spec fn lines_weight(lines: Seq<Seq<char>>, max_line_length: nat) -> nat
    decreases lines.len(),
{
    if lines.len() == 0 {
        0
    } else {
        lines_weight(lines.drop_last(), max_line_length) + spec_line_weight(
            lines.last().len(),
            max_line_length,
        )
    }
}

/// What a list of strings holds, as sequences of characters.
pub open spec fn text_of(lines: Seq<String>) -> Seq<Seq<char>> {
    lines.map_values(|s: String| s@)
}

/// Appending a line adds its weight.
pub proof fn lemma_weight_push(lines: Seq<Seq<char>>, line: Seq<char>, max_line_length: nat)
    ensures
        lines_weight(lines.push(line), max_line_length) == lines_weight(lines, max_line_length)
            + spec_line_weight(line.len(), max_line_length),
{
    assert(lines.push(line).drop_last() =~= lines);
}

/// The weight of a prefix never exceeds the weight of the whole.
pub proof fn lemma_weight_prefix(lines: Seq<Seq<char>>, n: int, max_line_length: nat)
    requires
        0 <= n <= lines.len(),
    ensures
        lines_weight(lines.take(n), max_line_length) <= lines_weight(lines, max_line_length),
    decreases lines.len(),
{
    if n == lines.len() {
        assert(lines.take(n) =~= lines);
    } else {
        lemma_weight_prefix(lines.drop_last(), n, max_line_length);
        assert(lines.drop_last().take(n) =~= lines.take(n));
    }
}

/// A group weighs at least as much as any one of its lines, and at least one
/// row for each line.
pub proof fn lemma_weight_covers_member(lines: Seq<Seq<char>>, j: int, max_line_length: nat)
    requires
        0 <= j < lines.len(),
        max_line_length > 0,
    ensures
        spec_line_weight(lines[j].len(), max_line_length) <= lines_weight(lines, max_line_length),
        lines.len() >= 2 ==> spec_line_weight(lines[j].len(), max_line_length) < lines_weight(
            lines,
            max_line_length,
        ),
    decreases lines.len(),
{
    lemma_line_weight_positive(lines.last().len(), max_line_length);
    if j < lines.len() - 1 {
        lemma_weight_covers_member(lines.drop_last(), j, max_line_length);
    } else if lines.len() >= 2 {
        lemma_weight_covers_member(lines.drop_last(), 0, max_line_length);
        lemma_line_weight_positive(lines[0].len(), max_line_length);
    }
}

/// An ordered group of lines that grows by appending.
#[derive(Debug)]
pub struct Batch {
    inner: Vec<String>,
}

impl View for Batch {
    type V = Seq<Seq<char>>;

    closed spec fn view(&self) -> Seq<Seq<char>> {
        text_of(self.inner@)
    }
}

impl Batch {
    /// A batch with no lines.
    pub fn new() -> (batch: Self)
        ensures
            batch@ == Seq::<Seq<char>>::empty(),
    {
        let batch = Batch { inner: Vec::new() };
        assert(batch@ =~= Seq::<Seq<char>>::empty());
        batch
    }

    /// Appends a line; every line is accepted.
    pub fn push(&mut self, value: String)
        ensures
            final(self)@ == old(self)@.push(value@),
    {
        self.inner.push(value);
        assert(self@ =~= old(self)@.push(value@));
    }

    /// Whether no line has been appended.
    pub fn is_empty(&self) -> (empty: bool)
        ensures
            empty == (self@.len() == 0),
    {
        self.inner.is_empty()
    }

    /// The weight of the batch if it is at most `limit`, and `None` if it is
    /// more. Stops at the first line that takes the sum over the limit.
    fn weight_within(&self, max_line_length: usize, limit: usize) -> (within: Option<usize>)
        requires
            max_line_length > 0,
        ensures
            match within {
                Some(weight) => weight == lines_weight(self@, max_line_length as nat) && weight
                    <= limit,
                None => lines_weight(self@, max_line_length as nat) > limit,
            },
    {
        let mut total: usize = 0;
        let mut i: usize = 0;
        while i < self.inner.len()
            invariant
                max_line_length > 0,
                i <= self.inner.len(),
                total == lines_weight(self@.take(i as int), max_line_length as nat),
                total <= limit,
            decreases self.inner.len() - i,
        {
            let length: usize = self.inner[i].as_str().unicode_len();
            let weight: usize = line_weight(length, max_line_length);
            proof {
                assert(self@.take(i + 1) =~= self@.take(i as int).push(self@[i as int]));
                lemma_weight_push(self@.take(i as int), self@[i as int], max_line_length as nat);
                lemma_weight_prefix(self@, i + 1, max_line_length as nat);
            }
            if weight > limit - total {
                return None;
            }
            total = total + weight;
            i = i + 1;
        }
        assert(self@.take(i as int) =~= self@);
        Some(total)
    }

    /// The sum of the weights of the lines, counted anew at each call.
    pub fn weight(&self, max_line_length: usize) -> (weight: usize)
        requires
            max_line_length > 0,
            lines_weight(self@, max_line_length as nat) <= usize::MAX,
        ensures
            weight == lines_weight(self@, max_line_length as nat),
    {
        self.weight_within(max_line_length, usize::MAX).unwrap()
    }

    /// Whether a further line of weight `line_weight` keeps the batch within
    /// `allowable_weight`: the weight of the batch plus that of the line is
    /// at most the allowance. A line that fills the allowance exactly fits.
    pub fn can_accommodate(
        &self,
        line_weight: usize,
        max_line_length: usize,
        allowable_weight: usize,
    ) -> (fits: bool)
        requires
            max_line_length > 0,
        ensures
            fits == (lines_weight(self@, max_line_length as nat) + line_weight
                <= allowable_weight),
    {
        if line_weight > allowable_weight {
            return false;
        }
        self.weight_within(max_line_length, allowable_weight - line_weight).is_some()
    }

    /// The lines of the batch, in the order in which they were appended.
    pub fn lines(&self) -> (lines: &[String])
        ensures
            text_of(lines@) == self@,
    {
        self.inner.as_slice()
    }
}

} // verus!
