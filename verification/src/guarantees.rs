//! What holds of every partition.

use vstd::prelude::*;
use crate::batch::{lemma_weight_covers_member, lemma_weight_push, lines_weight};
use crate::model::{admits, advance, batches_of, budget_at, joined, keeps_budget, progress_after, Progress};
use crate::weight::spec_line_weight;

verus! {

/// The batch that follows the sealed batch at position `k`.
pub open spec fn following(progress: Progress, k: int) -> Seq<Seq<char>> {
    if k + 1 < progress.sealed.len() {
        progress.sealed[k + 1]
    } else {
        progress.growing
    }
}

/// What holds of the progress after any lines: no line is lost or moved, no
/// sealed batch is empty, each batch respects its budget, and no sealed
/// batch would have admitted the line that follows it.
pub proof fn lemma_progress(lines: Seq<Seq<char>>, max_line_length: nat, weights: Seq<usize>)
    requires
        max_line_length > 0,
        weights.len() > 0,
    ensures
        ({
            let p = progress_after(lines, max_line_length, weights);
            &&& joined(p.sealed) + p.growing == lines
            &&& (p.growing.len() == 0 <==> lines.len() == 0)
            &&& (lines.len() == 0 ==> p.sealed.len() == 0)
            &&& forall|k: int|
                0 <= k < p.sealed.len() ==> (#[trigger] p.sealed[k]).len() > 0 && keeps_budget(
                    p.sealed[k],
                    max_line_length,
                    budget_at(weights, k as nat),
                ) && !admits(
                    p.sealed[k],
                    following(p, k)[0],
                    max_line_length,
                    budget_at(weights, k as nat),
                )
            &&& (p.growing.len() > 0 ==> keeps_budget(
                p.growing,
                max_line_length,
                budget_at(weights, p.sealed.len()),
            ))
        }),
    decreases lines.len(),
{
    let p = progress_after(lines, max_line_length, weights);
    if lines.len() == 0 {
        assert(joined(p.sealed) + p.growing =~= lines);
    } else {
        let line = lines.last();
        lemma_progress(lines.drop_last(), max_line_length, weights);
        let q = progress_after(lines.drop_last(), max_line_length, weights);
        let budget = budget_at(weights, q.sealed.len());
        assert(p == advance(q, line, max_line_length, weights));
        assert(lines =~= lines.drop_last().push(line));
        lemma_weight_push(Seq::empty(), line, max_line_length);
        assert(Seq::<Seq<char>>::empty().push(line) =~= seq![line]);
        if admits(q.growing, line, max_line_length, budget) {
            assert(joined(p.sealed) + p.growing =~= (joined(q.sealed) + q.growing).push(line));
            lemma_weight_push(q.growing, line, max_line_length);
            assert forall|k: int| 0 <= k < p.sealed.len() implies !admits(
                #[trigger] p.sealed[k],
                following(p, k)[0],
                max_line_length,
                budget_at(weights, k as nat),
            ) by {
                assert(following(p, k)[0] == following(q, k)[0]);
            }
        } else {
            assert(p.sealed.drop_last() =~= q.sealed);
            assert(joined(p.sealed) + p.growing =~= (joined(q.sealed) + q.growing).push(line));
            assert forall|k: int| 0 <= k < p.sealed.len() implies (#[trigger] p.sealed[k]).len()
                > 0 && keeps_budget(p.sealed[k], max_line_length, budget_at(weights, k as nat))
                && !admits(
                p.sealed[k],
                following(p, k)[0],
                max_line_length,
                budget_at(weights, k as nat),
            ) by {
                if k < q.sealed.len() {
                    assert(p.sealed[k] == q.sealed[k]);
                    assert(following(p, k) == following(q, k));
                } else {
                    assert(p.sealed[k] == q.growing);
                    assert(following(p, k)[0] == line);
                }
            }
        }
    }
}

/// No lines, no batches.
pub proof fn empty_input_gives_no_batch(max_line_length: nat, weights: Seq<usize>)
    ensures
        batches_of(Seq::empty(), max_line_length, weights) == Seq::<Seq<Seq<char>>>::empty(),
{
}

/// Lines that together weigh no more than the first budget form one batch,
/// which holds them all in their order.
pub proof fn light_input_is_one_batch(
    lines: Seq<Seq<char>>,
    max_line_length: nat,
    weights: Seq<usize>,
)
    requires
        lines.len() > 0,
        weights.len() > 0,
        lines_weight(lines, max_line_length) <= weights[0],
    ensures
        batches_of(lines, max_line_length, weights) == seq![lines],
{
    lemma_light_input_stays_open(lines, max_line_length, weights);
    let p = progress_after(lines, max_line_length, weights);
    assert(p.sealed.push(p.growing) =~= seq![lines]);
}

/// While the lines weigh no more than the first budget, none is sealed.
proof fn lemma_light_input_stays_open(
    lines: Seq<Seq<char>>,
    max_line_length: nat,
    weights: Seq<usize>,
)
    requires
        weights.len() > 0,
        lines_weight(lines, max_line_length) <= weights[0],
    ensures
        progress_after(lines, max_line_length, weights) == (Progress {
            sealed: Seq::empty(),
            growing: lines,
        }),
    decreases lines.len(),
{
    if lines.len() == 0 {
        assert(lines =~= Seq::<Seq<char>>::empty());
    } else {
        lemma_light_input_stays_open(lines.drop_last(), max_line_length, weights);
        assert(lines.drop_last().push(lines.last()) =~= lines);
    }
}

/// The batches, one after the other, are the input: no line is lost, none
/// comes twice, none changes its place.
pub proof fn batches_join_to_input(
    lines: Seq<Seq<char>>,
    max_line_length: nat,
    weights: Seq<usize>,
)
    requires
        max_line_length > 0,
        weights.len() > 0,
    ensures
        joined(batches_of(lines, max_line_length, weights)) == lines,
{
    lemma_progress(lines, max_line_length, weights);
    let p = progress_after(lines, max_line_length, weights);
    if p.growing.len() == 0 {
        assert(joined(p.sealed) + p.growing =~= joined(p.sealed));
    } else {
        assert(p.sealed.push(p.growing).drop_last() =~= p.sealed);
    }
}

/// No batch is empty, and each respects the budget of its position: it
/// weighs no more than the budget, unless it is one line that alone weighs
/// more.
pub proof fn batches_keep_budget(
    lines: Seq<Seq<char>>,
    max_line_length: nat,
    weights: Seq<usize>,
    k: int,
)
    requires
        max_line_length > 0,
        weights.len() > 0,
        0 <= k < batches_of(lines, max_line_length, weights).len(),
    ensures
        batches_of(lines, max_line_length, weights)[k].len() > 0,
        keeps_budget(
            batches_of(lines, max_line_length, weights)[k],
            max_line_length,
            budget_at(weights, k as nat),
        ),
{
    lemma_progress(lines, max_line_length, weights);
    let p = progress_after(lines, max_line_length, weights);
    if k < p.sealed.len() {
        assert(batches_of(lines, max_line_length, weights)[k] == p.sealed[k]);
    }
}

/// A line that weighs more than every budget is the only line of its batch.
pub proof fn oversized_line_is_alone(
    lines: Seq<Seq<char>>,
    max_line_length: nat,
    weights: Seq<usize>,
    k: int,
    j: int,
)
    requires
        max_line_length > 0,
        weights.len() > 0,
        0 <= k < batches_of(lines, max_line_length, weights).len(),
        0 <= j < batches_of(lines, max_line_length, weights)[k].len(),
        forall|i: int|
            0 <= i < weights.len() ==> spec_line_weight(
                batches_of(lines, max_line_length, weights)[k][j].len(),
                max_line_length,
            ) > #[trigger] weights[i],
    ensures
        batches_of(lines, max_line_length, weights)[k] == seq![
            batches_of(lines, max_line_length, weights)[k][j],
        ],
{
    let batch = batches_of(lines, max_line_length, weights)[k];
    batches_keep_budget(lines, max_line_length, weights, k);
    lemma_weight_covers_member(batch, j, max_line_length);
    let budget = budget_at(weights, k as nat);
    assert(budget == weights[k] || budget == weights[weights.len() - 1]);
    assert(batch =~= seq![batch[j]]);
}

/// Each line of the joined batches stands in one of the batches.
pub proof fn lemma_joined_line_has_a_batch(batches: Seq<Seq<Seq<char>>>, i: int) -> (at: (int, int))
    requires
        0 <= i < joined(batches).len(),
    ensures
        0 <= at.0 < batches.len(),
        0 <= at.1 < batches[at.0].len(),
        batches[at.0][at.1] == joined(batches)[i],
    decreases batches.len(),
{
    let front = joined(batches.drop_last());
    if i < front.len() {
        lemma_joined_line_has_a_batch(batches.drop_last(), i)
    } else {
        (batches.len() - 1, i - front.len())
    }
}

/// A line of the input that weighs more than every budget is emitted as a
/// batch of its own: it is neither dropped nor split nor joined to others.
pub proof fn oversized_line_is_emitted_alone(
    lines: Seq<Seq<char>>,
    max_line_length: nat,
    weights: Seq<usize>,
    i: int,
)
    requires
        max_line_length > 0,
        weights.len() > 0,
        0 <= i < lines.len(),
        forall|b: int|
            0 <= b < weights.len() ==> spec_line_weight(lines[i].len(), max_line_length)
                > #[trigger] weights[b],
    ensures
        exists|k: int|
            0 <= k < batches_of(lines, max_line_length, weights).len() && #[trigger] batches_of(
                lines,
                max_line_length,
                weights,
            )[k] == seq![lines[i]],
{
    let batches = batches_of(lines, max_line_length, weights);
    batches_join_to_input(lines, max_line_length, weights);
    let at = lemma_joined_line_has_a_batch(batches, i);
    oversized_line_is_alone(lines, max_line_length, weights, at.0, at.1);
    assert(batches[at.0] == seq![lines[i]]);
}

/// From the last budget on, every batch has the last budget.
pub proof fn last_budget_sticks(weights: Seq<usize>, index: nat)
    requires
        weights.len() > 0,
        index >= weights.len() - 1,
    ensures
        budget_at(weights, index) == weights.last(),
{
}

/// Each batch but the last is full: it would not have admitted the first
/// line of the batch after it.
pub proof fn batches_are_full(
    lines: Seq<Seq<char>>,
    max_line_length: nat,
    weights: Seq<usize>,
    k: int,
)
    requires
        max_line_length > 0,
        weights.len() > 0,
        0 <= k,
        k + 1 < batches_of(lines, max_line_length, weights).len(),
    ensures
        !admits(
            batches_of(lines, max_line_length, weights)[k],
            batches_of(lines, max_line_length, weights)[k + 1][0],
            max_line_length,
            budget_at(weights, k as nat),
        ),
{
    lemma_progress(lines, max_line_length, weights);
    let p = progress_after(lines, max_line_length, weights);
    assert(batches_of(lines, max_line_length, weights)[k] == p.sealed[k]);
    assert(batches_of(lines, max_line_length, weights)[k + 1] == following(p, k));
}

} // verus!
