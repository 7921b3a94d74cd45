use vstd::prelude::*;

use crate::disk::{after_copy, after_move, after_remove, move_effect, Disk, RenameOutcome};
use crate::history::MovedFile;
use crate::organizer::{
    candidate_name, first_free, free_among, lemma_first_free_exists, undoes, UndoStep,
};
use crate::rules::RuleEngine;

verus! {

proof fn lemma_free_among_is_free(name: Seq<char>, taken: Seq<Seq<char>>, n: nat, left: nat)
    ensures
        free_among(name, taken, n, left) matches Some(c) ==> !taken.contains(c),
    decreases left,
{
    if left > 0 && taken.contains(candidate_name(name, n)) {
        lemma_free_among_is_free(name, taken, n + 1, (left - 1) as nat);
    }
}

/// Resolving a conflict always gives a name that is not taken; and once that
/// name is taken too, resolving the same name again gives a different one.
pub proof fn lemma_resolved_names_are_fresh(name: Seq<char>, taken: Seq<Seq<char>>)
    ensures
        first_free(name, taken) is Some,
        !taken.contains(first_free(name, taken)->Some_0),
        first_free(name, taken.push(first_free(name, taken)->Some_0)) is Some,
        first_free(name, taken.push(first_free(name, taken)->Some_0))->Some_0 != first_free(
            name,
            taken,
        )->Some_0,
{
    lemma_first_free_exists(name, taken);
    lemma_free_among_is_free(name, taken, 1, taken.len() + 1);
    let c = first_free(name, taken)->Some_0;
    lemma_first_free_exists(name, taken.push(c));
    lemma_free_among_is_free(name, taken.push(c), 1, taken.push(c).len() + 1);
    assert(taken.push(c)[taken.len() as int] == c);
}

/// A rule engine gives the same folder each time it is asked about the same
/// path.
pub proof fn lemma_classify_deterministic<R: RuleEngine>(
    rules: &R,
    file: Seq<char>,
    first: Seq<char>,
    second: Seq<char>,
)
    requires
        first == rules.spec_classify(file),
        second == rules.spec_classify(file),
    ensures
        first == second,
{
}

/// A move that fell back to copying and removing leaves the disk as a
/// rename would: the destination holds the contents the source had, and the source
/// is gone.
pub proof fn lemma_cross_device_move_is_rename(d: Disk, from: Seq<char>, to: Seq<char>)
    requires
        d.contains_key(from),
        from != to,
    ensures
        move_effect(d, from, to, RenameOutcome::CrossesDevices) == move_effect(
            d,
            from,
            to,
            RenameOutcome::Renamed,
        ),
        after_remove(after_copy(d, from, to), from)[to] == d[from],
        !after_remove(after_copy(d, from, to), from).contains_key(from),
{
    assert(after_remove(after_copy(d, from, to), from) =~= after_move(d, from, to));
}

/// Taking back the last move right after it was recorded: the history
/// returns to what it was, and the file returns to its origin with its
/// contents, leaving its destination empty.
pub proof fn lemma_undo_last_after_move(history: Seq<MovedFile>, moved: MovedFile, step: UndoStep, d: Disk)
    requires
        d.contains_key(moved.from@),
        moved.from@ != moved.to@,
        step.from == moved.to,
        step.to == moved.from,
    ensures
        history.push(moved).len() == history.len() + 1,
        history.push(moved).last() == moved,
        history.push(moved).drop_last() == history,
        after_move(after_move(d, moved.from@, moved.to@), step.from@, step.to@)[moved.from@]
            == d[moved.from@],
        !after_move(after_move(d, moved.from@, moved.to@), step.from@, step.to@).contains_key(
            moved.to@,
        ),
        !d.contains_key(moved.to@) ==> after_move(
            after_move(d, moved.from@, moved.to@),
            step.from@,
            step.to@,
        ) == d,
{
    assert(history.push(moved).drop_last() =~= history);
    if !d.contains_key(moved.to@) {
        assert(after_move(after_move(d, moved.from@, moved.to@), step.from@, step.to@) =~= d);
    }
}

/// The disk after `moves`, oldest first.
pub open spec fn after_moves(d: Disk, moves: Seq<MovedFile>) -> Disk
    decreases moves.len(),
{
    if moves.len() == 0 {
        d
    } else {
        let before = after_moves(d, moves.drop_last());
        after_move(before, moves.last().from@, moves.last().to@)
    }
}

/// Each of `moves`, in turn, took a file that was there to a place that was
/// free.
pub open spec fn moves_succeed(d: Disk, moves: Seq<MovedFile>) -> bool
    decreases moves.len(),
{
    if moves.len() == 0 {
        true
    } else {
        let before = after_moves(d, moves.drop_last());
        moves_succeed(d, moves.drop_last()) && before.contains_key(moves.last().from@)
            && !before.contains_key(moves.last().to@)
    }
}

/// The disk after `steps`, first step first.
pub open spec fn after_steps(d: Disk, steps: Seq<UndoStep>) -> Disk
    decreases steps.len(),
{
    if steps.len() == 0 {
        d
    } else {
        after_steps(after_move(d, steps[0].from@, steps[0].to@), steps.drop_first())
    }
}

/// Taking back every move, newest first, puts every file back where it came
/// from: the disk is as it was before the moves.
pub proof fn lemma_undo_all_restores(d: Disk, moves: Seq<MovedFile>, steps: Seq<UndoStep>)
    requires
        moves_succeed(d, moves),
        undoes(steps, moves),
    ensures
        after_steps(after_moves(d, moves), steps) == d,
    decreases moves.len(),
{
    if moves.len() > 0 {
        let rest = moves.drop_last();
        let m = moves.last();
        let before = after_moves(d, rest);
        assert(steps[0].from == moves[moves.len() - 1 - 0].to);
        assert(steps[0].from == m.to && steps[0].to == m.from);
        assert(after_move(after_move(before, m.from@, m.to@), m.to@, m.from@) =~= before);
        assert(undoes(steps.drop_first(), rest)) by {
            assert forall|i: int| 0 <= i < steps.drop_first().len() implies #[trigger] steps.drop_first()[i].from
                == rest[rest.len() - 1 - i].to && steps.drop_first()[i].to == rest[rest.len() - 1 - i].from by {
                assert(steps.drop_first()[i] == steps[i + 1]);
                assert(rest[rest.len() - 1 - i] == moves[moves.len() - 1 - (i + 1)]);
                assert(steps[i + 1].from == moves[moves.len() - 1 - (i + 1)].to);
            }
        }
        lemma_undo_all_restores(d, rest, steps.drop_first());
    }
}

} // verus!
