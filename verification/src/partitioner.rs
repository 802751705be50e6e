//! The partitioner: takes lines one at a time and hands out each batch as it
//! is sealed, holding no more than the batch that is growing.

use vstd::prelude::*;
use vstd::string::StrSliceExecFns;
use vstd::string::StringExecFns;
use crate::batch::{Batch, text_of};
use crate::model::{admits, batches_of, progress_after};
use crate::weight::line_weight;

verus! {

/// The failure of a partitioner made with no budget at all.
#[derive(Debug, PartialEq, Eq, Clone, Copy)]
pub struct NotEnoughWeightsError;

impl NotEnoughWeightsError {
    /// The failure in words.
    pub fn message(&self) -> (text: String)
        ensures
            text@ == "Number of weights must be at least 1"@,
    {
        String::from_str("Number of weights must be at least 1")
    }
}

/// What a partitioner holds, as plain values.
pub struct PartitionerView {
    /// The lines of the batch that is growing.
    pub growing: Seq<Seq<char>>,
    /// The row length by which lines are weighed.
    pub max_line_length: nat,
    /// The budgets, in the order of the batches.
    pub weights: Seq<usize>,
    /// How many budgets have been drawn; the last one drawn is in force.
    pub drawn: nat,
}

/// A partitioner in the middle of its work.
pub struct BatchesIterator {
    current: Batch,
    batch_weights: Vec<usize>,
    drawn: usize,
    max_line_length: usize,
    allowable_weight: usize,
}

impl View for BatchesIterator {
    type V = PartitionerView;

    closed spec fn view(&self) -> PartitionerView {
        PartitionerView {
            growing: self.current@,
            max_line_length: self.max_line_length as nat,
            weights: self.batch_weights@,
            drawn: self.drawn as nat,
        }
    }
}

/// What a list of batches holds.
pub open spec fn batches_text(batches: Seq<Batch>) -> Seq<Seq<Seq<char>>> {
    batches.map_values(|b: Batch| b@)
}

impl BatchesIterator {
    /// The partitioner's invariant: a positive row length, at least one
    /// budget drawn and no more than there are, and the last drawn in force.
    pub open spec fn wf(&self) -> bool {
        &&& self@.max_line_length > 0
        &&& 1 <= self@.drawn <= self@.weights.len()
        &&& self.active_is_last_drawn()
    }

    /// The budget held as active is the last one drawn.
    pub closed spec fn active_is_last_drawn(&self) -> bool {
        self.drawn >= 1 && self.drawn <= self.batch_weights@.len()
            && self.allowable_weight == self.batch_weights@[self.drawn - 1]
    }

    /// The budget of the growing batch.
    pub open spec fn active_budget(&self) -> nat
        recommends
            self.wf(),
    {
        self@.weights[self@.drawn - 1] as nat
    }

    /// How many budgets are drawn once `sealed` batches are sealed: one for
    /// each sealed batch and one for the growing batch, as far as they last.
    pub open spec fn drawn_after(sealed: nat, weights: Seq<usize>) -> nat {
        if sealed + 1 <= weights.len() {
            sealed + 1
        } else {
            weights.len()
        }
    }

    /// Starts a partition with an empty growing batch under the first budget.
    /// Fails exactly when there is no budget.
    pub fn new(max_line_length: usize, batch_weights: Vec<usize>) -> (made: Result<
        Self,
        NotEnoughWeightsError,
    >)
        requires
            max_line_length > 0,
        ensures
            match made {
                Ok(partitioner) => {
                    &&& batch_weights@.len() > 0
                    &&& partitioner.wf()
                    &&& partitioner@ == (PartitionerView {
                        growing: Seq::empty(),
                        max_line_length: max_line_length as nat,
                        weights: batch_weights@,
                        drawn: 1,
                    })
                },
                Err(_) => batch_weights@.len() == 0,
            },
    {
        if batch_weights.len() == 0 {
            return Err(NotEnoughWeightsError);
        }
        let allowable_weight: usize = batch_weights[0];
        Ok(
            BatchesIterator {
                current: Batch::new(),
                batch_weights,
                drawn: 1,
                max_line_length,
                allowable_weight,
            },
        )
    }

    /// Takes the next line. If the growing batch admits it, the line joins
    /// the batch and nothing is handed out. Else the batch is sealed and
    /// handed out, the next budget is drawn (the last one stays in force
    /// when none is left), and the line starts the next batch.
    pub fn feed(&mut self, line: String) -> (sealed: Option<Batch>)
        requires
            old(self).wf(),
        ensures
            final(self).wf(),
            final(self)@.max_line_length == old(self)@.max_line_length,
            final(self)@.weights == old(self)@.weights,
            admits(
                old(self)@.growing,
                line@,
                old(self)@.max_line_length,
                old(self).active_budget(),
            ) ==> {
                &&& sealed is None
                &&& final(self)@.growing == old(self)@.growing.push(line@)
                &&& final(self)@.drawn == old(self)@.drawn
            },
            !admits(
                old(self)@.growing,
                line@,
                old(self)@.max_line_length,
                old(self).active_budget(),
            ) ==> {
                &&& sealed matches Some(batch)
                &&& batch@ == old(self)@.growing
                &&& final(self)@.growing == seq![line@]
                &&& final(self)@.drawn == if old(self)@.drawn < old(self)@.weights.len() {
                    old(self)@.drawn + 1
                } else {
                    old(self)@.drawn
                }
            },
    {
        let weight: usize = line_weight(line.as_str().unicode_len(), self.max_line_length);
        if self.current.is_empty() || self.current.can_accommodate(
            weight,
            self.max_line_length,
            self.allowable_weight,
        ) {
            self.current.push(line);
            return None;
        }
        let mut batch = Batch::new();
        batch.push(line);
        core::mem::swap(&mut self.current, &mut batch);
        if self.drawn < self.batch_weights.len() {
            self.allowable_weight = self.batch_weights[self.drawn];
            self.drawn = self.drawn + 1;
        }
        assert(self@.growing =~= seq![line@]);
        Some(batch)
    }

    /// Ends the partition: hands out the growing batch, unless it is empty.
    pub fn finish(self) -> (last: Option<Batch>)
        ensures
            self@.growing.len() == 0 ==> last is None,
            self@.growing.len() > 0 ==> {
                &&& last matches Some(batch)
                &&& batch@ == self@.growing
            },
    {
        if self.current.is_empty() {
            None
        } else {
            Some(self.current)
        }
    }
}

/// Partitions `lines` under the budgets `batch_weights`, with rows of
/// `max_line_length` characters. Fails exactly when there is no budget.
pub fn partition(lines: &[String], max_line_length: usize, batch_weights: Vec<usize>) -> (made:
    Result<Vec<Batch>, NotEnoughWeightsError>)
    requires
        max_line_length > 0,
    ensures
        match made {
            Ok(batches) => batch_weights@.len() > 0 && batches_text(batches@) == batches_of(
                text_of(lines@),
                max_line_length as nat,
                batch_weights@,
            ),
            Err(_) => batch_weights@.len() == 0,
        },
{
    let ghost weights = batch_weights@;
    let ghost text = text_of(lines@);
    let mut partitioner = match BatchesIterator::new(max_line_length, batch_weights) {
        Ok(partitioner) => partitioner,
        Err(error) => {
            return Err(error);
        },
    };
    let mut batches: Vec<Batch> = Vec::new();
    let mut i: usize = 0;
    assert(batches_text(batches@) =~= Seq::<Seq<Seq<char>>>::empty());
    assert(text.take(0) =~= Seq::<Seq<char>>::empty());
    while i < lines.len()
        invariant
            i <= lines.len(),
            text == text_of(lines@),
            weights.len() > 0,
            partitioner.wf(),
            partitioner@.max_line_length == max_line_length as nat,
            partitioner@.weights == weights,
            batches_text(batches@) == progress_after(
                text.take(i as int),
                max_line_length as nat,
                weights,
            ).sealed,
            partitioner@.growing == progress_after(
                text.take(i as int),
                max_line_length as nat,
                weights,
            ).growing,
            partitioner@.drawn == BatchesIterator::drawn_after(
                batches@.len() as nat,
                weights,
            ),
        decreases lines.len() - i,
    {
        let line: String = lines[i].clone();
        proof {
            assert(text.take(i + 1).drop_last() =~= text.take(i as int));
            assert(text.take(i + 1).last() == line@);
        }
        let ghost before = batches_text(batches@);
        match partitioner.feed(line) {
            Some(batch) => {
                batches.push(batch);
                assert(batches_text(batches@) =~= before.push(batch@));
            },
            None => {},
        }
        i = i + 1;
    }
    assert(text.take(i as int) =~= text);
    let ghost before = batches_text(batches@);
    match partitioner.finish() {
        Some(batch) => {
            batches.push(batch);
            assert(batches_text(batches@) =~= before.push(batch@));
        },
        None => {},
    }
    Ok(batches)
}

} // verus!
