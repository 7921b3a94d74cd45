use vstd::prelude::*;

use crate::errors::OrganizerError;
use crate::history::MovedFile;
use crate::paths::{extension_of, file_name, file_name_of, join, joined, split_extension, stem_of};
use crate::rules::RuleEngine;
use crate::text::{decimal, decimal_string, lemma_decimal_injective};

verus! {

/// The settings of one organize run.
#[derive(Debug, Clone)]
pub struct OrganizerConfig {
    pub src_dir: String,
    pub dst_dir: String,
    /// Decide and report every move, but change nothing on disk.
    pub dry_run: bool,
    /// Replace a file that stands at the destination instead of picking a
    /// new name.
    pub overwrite: bool,
}

/// The views of a list of names.
pub open spec fn names_of(v: Seq<String>) -> Seq<Seq<char>> {
    v.map_values(|s: String| s@)
}

/// The `n`-th alternative to the file name `name`: `stem_(n).ext`, or
/// `stem_(n)` when the name has no extension or an empty one.
pub open spec fn candidate_name(name: Seq<char>, n: nat) -> Seq<char> {
    let base = stem_of(name) + "_("@ + decimal(n);
    match extension_of(name) {
        Some(e) => if e.len() > 0 {
            base + ")."@ + e
        } else {
            base + ")"@
        },
        None => base + ")"@,
    }
}

/// The first of the `left` alternatives to `name` numbered from `n` on
/// that is not among the names `taken`.
pub open spec fn free_among(name: Seq<char>, taken: Seq<Seq<char>>, n: nat, left: nat) -> Option<
    Seq<char>,
>
    decreases left,
{
    if left == 0 {
        None
    } else if !taken.contains(candidate_name(name, n)) {
        Some(candidate_name(name, n))
    } else {
        free_among(name, taken, n + 1, (left - 1) as nat)
    }
}

/// The first alternative to `name`, counting from 1, that is not among the
/// names `taken`; one more alternative than there are names is tried.
pub open spec fn first_free(name: Seq<char>, taken: Seq<Seq<char>>) -> Option<Seq<char>> {
    free_among(name, taken, 1, taken.len() + 1)
}

/// The name under which a file called `name` lands in a folder that already
/// holds `taken`: its own name, unless that is taken and overwriting is off.
pub open spec fn landing_name(name: Seq<char>, taken: Seq<Seq<char>>, overwrite: bool) -> Option<
    Seq<char>,
> {
    if taken.contains(name) && !overwrite {
        first_free(name, taken)
    } else {
        Some(name)
    }
}

/// Different numbers give different alternatives to the same name.
pub proof fn lemma_candidate_injective(name: Seq<char>, n: nat, m: nat)
    requires
        candidate_name(name, n) == candidate_name(name, m),
    ensures
        n == m,
{
    let p = stem_of(name) + "_("@;
    let c = candidate_name(name, n);
    let d = candidate_name(name, m);
    let suffix_len = c.len() - p.len() - decimal(n).len();
    assert(suffix_len == d.len() - p.len() - decimal(m).len());
    assert(c.subrange(p.len() as int, (p.len() + decimal(n).len()) as int) =~= decimal(n));
    assert(d.subrange(p.len() as int, (p.len() + decimal(m).len()) as int) =~= decimal(m));
    lemma_decimal_injective(n, m);
}

proof fn lemma_none_free_means_all_taken(name: Seq<char>, taken: Seq<Seq<char>>, n: nat, left: nat)
    requires
        free_among(name, taken, n, left) is None,
    ensures
        forall|k: nat| n <= k < n + left ==> taken.contains(#[trigger] candidate_name(name, k)),
    decreases left,
{
    if left > 0 {
        lemma_none_free_means_all_taken(name, taken, n + 1, (left - 1) as nat);
    }
}

proof fn lemma_taken_holds_all(name: Seq<char>, taken: Seq<Seq<char>>, k: nat)
    requires
        forall|n: nat| 1 <= n <= k ==> taken.contains(#[trigger] candidate_name(name, n)),
    ensures
        taken.len() >= k,
    decreases k,
{
    if k > 0 {
        assert(taken.contains(candidate_name(name, k)));
        let j = choose|j: int| 0 <= j < taken.len() && taken[j] == candidate_name(name, k);
        let rest = taken.remove(j);
        assert forall|n: nat| 1 <= n <= (k - 1) as nat implies rest.contains(
            #[trigger] candidate_name(name, n),
        ) by {
            assert(taken.contains(candidate_name(name, n)));
            let i = choose|i: int| 0 <= i < taken.len() && taken[i] == candidate_name(name, n);
            if i == j {
                lemma_candidate_injective(name, n, k);
            } else if i < j {
                assert(rest[i] == taken[i]);
            } else {
                assert(rest[i - 1] == taken[i]);
            }
        }
        lemma_taken_holds_all(name, rest, (k - 1) as nat);
    }
}

/// Some alternative to a name is always free: one more alternative is tried
/// than there are names taken, and no two alternatives are equal.
pub proof fn lemma_first_free_exists(name: Seq<char>, taken: Seq<Seq<char>>)
    ensures
        first_free(name, taken) is Some,
{
    if first_free(name, taken) is None {
        lemma_none_free_means_all_taken(name, taken, 1, taken.len() + 1);
        assert forall|n: nat| 1 <= n <= taken.len() + 1 implies taken.contains(
            #[trigger] candidate_name(name, n),
        ) by {}
        lemma_taken_holds_all(name, taken, taken.len() + 1);
    }
}

/// The `n`-th alternative to the file name `name`.
pub fn alternative_name(name: &str, n: u128) -> (r: String)
    ensures
        r@ == candidate_name(name@, n as nat),
{
    let (stem, ext) = split_extension(name);
    let base = stem.concat("_(").concat(decimal_string(n).as_str());
    match ext {
        Some(e) => {
            if e.unicode_len() > 0 {
                base.concat(").").concat(e.as_str())
            } else {
                base.concat(")")
            }
        },
        None => base.concat(")"),
    }
}

fn contains_name(taken: &Vec<String>, name: &String) -> (r: bool)
    ensures
        r == names_of(taken@).contains(name@),
{
    let mut i: usize = 0;
    while i < taken.len()
        invariant
            i <= taken@.len(),
            forall|j: int| 0 <= j < i ==> #[trigger] taken@[j]@ != name@,
        decreases taken@.len() - i,
    {
        if taken[i] == *name {
            assert(names_of(taken@)[i as int] == name@);
            return true;
        }
        i = i + 1;
    }
    proof {
        if names_of(taken@).contains(name@) {
            let j = choose|j: int| 0 <= j < names_of(taken@).len() && names_of(taken@)[j] == name@;
            assert(taken@[j]@ == name@);
        }
    }
    false
}

/// A free name for a file called `name` in a folder that already holds the
/// names `taken`: the first alternative `stem_(n).ext` that is not taken.
/// The search is bounded, and one of the alternatives it tries is always
/// free, so it never fails.
pub fn resolve_conflict(name: &str, taken: &Vec<String>) -> (r: Result<String, OrganizerError>)
    ensures
        r is Ok,
        r matches Ok(c) ==> first_free(name@, names_of(taken@)) == Some(c@),
{
    let len = taken.len();
    let mut k: usize = 0;
    loop
        invariant
            k <= len == taken@.len() == names_of(taken@).len(),
            first_free(name@, names_of(taken@)) == free_among(
                name@,
                names_of(taken@),
                (k + 1) as nat,
                (len + 1 - k) as nat,
            ),
        decreases len - k,
    {
        let c = alternative_name(name, k as u128 + 1);
        if !contains_name(taken, &c) {
            return Ok(c);
        }
        if k == len {
            proof {
                assert(free_among(name@, names_of(taken@), (k + 2) as nat, 0) is None);
                lemma_first_free_exists(name@, names_of(taken@));
            }
            return Err(OrganizerError::Other(String::from_str("Unable to resolve name conflict")));
        }
        k = k + 1;
    }
}

/// The folder under the destination that `rules` choose for `file`.
pub fn target_dir_for<R: RuleEngine>(config: &OrganizerConfig, rules: &R, file: &str) -> (r: String)
    ensures
        r@ == joined(config.dst_dir@, rules.spec_classify(file@)),
{
    let folder = rules.classify(file);
    join(config.dst_dir.as_str(), folder.as_str())
}

/// What to do with one file: move it from `from` to `to`, on disk only when
/// `perform` holds.
#[derive(Debug, Clone, PartialEq, Eq)]
pub struct PlannedMove {
    pub from: String,
    pub to: String,
    pub perform: bool,
}

/// Decides where `file` goes in `target_dir`, a folder that already holds
/// the names `taken`.
pub fn plan_move(config: &OrganizerConfig, file: &str, target_dir: &str, taken: &Vec<String>) -> (r:
    Result<PlannedMove, OrganizerError>)
    ensures
        match r {
            Ok(p) => file_name_of(file@) matches Some(n) && landing_name(
                n,
                names_of(taken@),
                config.overwrite,
            ) matches Some(t) && p.from@ == file@ && p.to@ == joined(target_dir@, t) && p.perform
                == !config.dry_run,
            Err(e) => file_name_of(file@) is None && e.is_other_with(
                "Cannot extract filename from "@ + file@,
            ),
        },
{
    let name = match file_name(file) {
        Some(n) => n,
        None => {
            return Err(
                OrganizerError::Other(String::from_str("Cannot extract filename from ").concat(file)),
            );
        },
    };
    let landing = if !config.overwrite && contains_name(taken, &name) {
        match resolve_conflict(name.as_str(), taken) {
            Ok(c) => c,
            Err(e) => {
                return Err(e);
            },
        }
    } else {
        name
    };
    let to = join(target_dir, landing.as_str());
    Ok(PlannedMove { from: String::from_str(file), to, perform: !config.dry_run })
}

/// The record of a move that was carried out.
pub fn record_of(plan: PlannedMove) -> (r: MovedFile)
    ensures
        r.from == plan.from,
        r.to == plan.to,
{
    MovedFile::stamped(plan.from, plan.to)
}

/// What a run does with the next entry of the directory walk.
#[derive(Debug, Clone, Copy, PartialEq, Eq, Structural)]
pub enum EntryAction {
    /// The run is over: look at no more entries.
    Stop,
    /// A directory: nothing to move.
    Skip,
    /// A file: classify and move it.
    Process,
}

/// The state of one organize run: whether it has ended, and the most recent
/// failure of a single file.
#[derive(Debug, Clone)]
pub struct OrganizeRun {
    pub terminated: bool,
    pub last_error: Option<OrganizerError>,
}

impl OrganizeRun {
    /// A run that has not started on any entry.
    pub fn new() -> (r: OrganizeRun)
        ensures
            !r.terminated,
            r.last_error is None,
    {
        OrganizeRun { terminated: false, last_error: None }
    }

    /// Decides on the next entry of the walk. A cancelled or ended run stops
    /// and stays ended; otherwise directories are skipped and files processed.
    pub fn next_entry(&mut self, cancelled: bool, is_dir: bool) -> (r: EntryAction)
        ensures
            final(self).last_error == old(self).last_error,
            old(self).terminated || cancelled ==> r == EntryAction::Stop && final(self).terminated,
            !(old(self).terminated || cancelled) ==> !final(self).terminated && r == (if is_dir {
                EntryAction::Skip
            } else {
                EntryAction::Process
            }),
    {
        if self.terminated || cancelled {
            self.terminated = true;
            EntryAction::Stop
        } else if is_dir {
            EntryAction::Skip
        } else {
            EntryAction::Process
        }
    }

    /// Notes the failure of one file; the run goes on.
    pub fn file_failed(&mut self, e: OrganizerError)
        ensures
            final(self).last_error == Some(e),
            final(self).terminated == old(self).terminated,
    {
        self.last_error = Some(e);
    }

    /// Ends the run once the walk has no more entries.
    pub fn finish(&mut self)
        ensures
            final(self).terminated,
            final(self).last_error == old(self).last_error,
    {
        self.terminated = true;
    }

    /// The text of the most recent failure, if any.
    pub fn last_error(&self) -> (r: Option<String>)
        ensures
            match self.last_error {
                Some(e) => r matches Some(m) && m@ == e.spec_message(),
                None => r is None,
            },
    {
        match &self.last_error {
            Some(e) => Some(e.message()),
            None => None,
        }
    }
}

/// The move that takes back one recorded move: from where the file went to
/// where it came from.
#[derive(Debug, Clone, PartialEq, Eq)]
pub struct UndoStep {
    pub from: String,
    pub to: String,
}

/// The step that takes back `moved`.
pub fn undo_step(moved: MovedFile) -> (r: UndoStep)
    ensures
        r.from == moved.to,
        r.to == moved.from,
{
    UndoStep { from: moved.to, to: moved.from }
}

/// `steps` take back `moves`, the newest move first.
pub open spec fn undoes(steps: Seq<UndoStep>, moves: Seq<MovedFile>) -> bool {
    &&& steps.len() == moves.len()
    &&& forall|i: int|
        0 <= i < steps.len() ==> #[trigger] steps[i].from == moves[moves.len() - 1 - i].to
            && steps[i].to == moves[moves.len() - 1 - i].from
}

/// The steps that take back all of `moves` (oldest first), newest first.
pub fn undo_steps(moves: Vec<MovedFile>) -> (r: Vec<UndoStep>)
    ensures
        undoes(r@, moves@),
{
    let ghost all = moves@;
    let mut rest = moves;
    let mut r: Vec<UndoStep> = Vec::new();
    while rest.len() > 0
        invariant
            rest@ == all.subrange(0, rest@.len() as int),
            rest@.len() <= all.len(),
            r@.len() == all.len() - rest@.len(),
            forall|i: int|
                0 <= i < r@.len() ==> #[trigger] r@[i].from == all[all.len() - 1 - i].to
                    && r@[i].to == all[all.len() - 1 - i].from,
        decreases rest@.len(),
    {
        let m = rest.pop().unwrap();
        r.push(undo_step(m));
        assert(rest@ =~= all.subrange(0, rest@.len() as int));
    }
    r
}

} // verus!
