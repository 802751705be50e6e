//! The partition as mathematics: which batches a sequence of lines falls
//! into under a sequence of budgets.

use vstd::prelude::*;
use crate::batch::lines_weight;
use crate::weight::spec_line_weight;

verus! {

/// The budget of the batch at position `index`: the budget listed at that
/// position, or the last one listed when the list is shorter.
pub open spec fn budget_at(weights: Seq<usize>, index: nat) -> nat
    recommends
        weights.len() > 0,
{
    if index < weights.len() {
        weights[index as int] as nat
    } else {
        weights.last() as nat
    }
}

/// Whether `line` joins `batch` under `budget`: an empty batch takes any
/// line, and any other batch takes it if the sum stays within the budget.
pub open spec fn admits(
    batch: Seq<Seq<char>>,
    line: Seq<char>,
    max_line_length: nat,
    budget: nat,
) -> bool {
    batch.len() == 0 || lines_weight(batch, max_line_length) + spec_line_weight(
        line.len(),
        max_line_length,
    ) <= budget
}

/// How far a partition has come: the batches that are sealed, and the lines
/// of the batch that is still growing.
pub struct Progress {
    pub sealed: Seq<Seq<Seq<char>>>,
    pub growing: Seq<Seq<char>>,
}

/// The progress after one more line: the line joins the growing batch if
/// that batch admits it; else the batch is sealed and the line starts the
/// next one.
pub open spec fn advance(
    progress: Progress,
    line: Seq<char>,
    max_line_length: nat,
    weights: Seq<usize>,
) -> Progress {
    if admits(
        progress.growing,
        line,
        max_line_length,
        budget_at(weights, progress.sealed.len()),
    ) {
        Progress { sealed: progress.sealed, growing: progress.growing.push(line) }
    } else {
        Progress { sealed: progress.sealed.push(progress.growing), growing: seq![line] }
    }
}

/// The progress after all of `lines`, taken in order from nothing.
pub open spec fn progress_after(
    lines: Seq<Seq<char>>,
    max_line_length: nat,
    weights: Seq<usize>,
) -> Progress
    decreases lines.len(),
{
    if lines.len() == 0 {
        Progress { sealed: Seq::empty(), growing: Seq::empty() }
    } else {
        advance(
            progress_after(lines.drop_last(), max_line_length, weights),
            lines.last(),
            max_line_length,
            weights,
        )
    }
}

/// The batches that `lines` fall into: those sealed on the way, and the
/// growing one at the end unless it is empty.
pub open spec fn batches_of(
    lines: Seq<Seq<char>>,
    max_line_length: nat,
    weights: Seq<usize>,
) -> Seq<Seq<Seq<char>>> {
    let progress = progress_after(lines, max_line_length, weights);
    if progress.growing.len() == 0 {
        progress.sealed
    } else {
        progress.sealed.push(progress.growing)
    }
}

/// Whether a batch respects `budget`: its weight is within the budget, or it
/// is one line that alone weighs more than the budget.
pub open spec fn keeps_budget(batch: Seq<Seq<char>>, max_line_length: nat, budget: nat) -> bool {
    lines_weight(batch, max_line_length) <= budget || (batch.len() == 1 && spec_line_weight(
        batch[0].len(),
        max_line_length,
    ) > budget)
}

/// The lines of a sequence of batches, one batch after the other.
pub open spec fn joined(batches: Seq<Seq<Seq<char>>>) -> Seq<Seq<char>>
    decreases batches.len(),
{
    if batches.len() == 0 {
        Seq::empty()
    } else {
        joined(batches.drop_last()) + batches.last()
    }
}

} // verus!
