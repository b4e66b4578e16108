//! Restoring the archived registry values of one tweak group.

use vstd::prelude::*;

use crate::config::{
    of_group, restoring, unrestored, Archive, Entry, Saved, GROUP_MTU, GROUP_POWER, GROUP_SYSTEM,
    GROUP_TCP,
};
use crate::mtu::{note_restore, note_setting, restore_note, setting_note};
use crate::ops::{
    action_views, clone_outcome, first_error, outcome_view, pending_view, result_view,
    result_views, truthful, value_of, Act, Action, Registry, Rep, Reply,
};
use crate::recovery::{
    acting_keeps_safe, archived, drained_means_restored, group_of, harmless_pending, on_disk,
    recoverable, safe, settling_keeps_covered, settling_keeps_recoverable,
};
use crate::text;
use crate::text::{list_views, views};

verus! {

/// How far a revert has come.
#[derive(Clone, Copy, Debug, PartialEq, Eq, Structural)]
pub enum Phase {
    /// Putting archived values back, one after the other.
    Restoring,
    /// Saving the archive without the restored entries.
    Saving,
    /// Correcting the live link with this number.
    Linking(usize),
    /// Finished.
    Finished,
}

/// The revert of one tweak group.
#[derive(Debug)]
pub struct Revert {
    /// The archive that is being drained.
    pub archive: Archive,
    /// The group that is restored.
    pub group: String,
    /// The actions that put the archived values back.
    pub actions: Vec<Action>,
    /// Their results so far.
    pub results: Vec<Result<(), String>>,
    /// Best-effort actions on live links once the archive is saved.
    pub links: Vec<Action>,
    /// What the log is told before each link, and after the last one.
    pub asides: Vec<Vec<String>>,
    /// The first failure among the restored values.
    pub settled: Result<(), String>,
    pub phase: Phase,
    /// The outcome, once the revert has finished.
    pub result: Option<Result<(), String>>,
}

/// A [`Revert`] over texts.
#[verifier::ext_equal]
pub struct Reverting {
    pub archive: Saved,
    pub group: Seq<char>,
    pub actions: Seq<Act>,
    pub results: Seq<Result<(), Seq<char>>>,
    pub links: Seq<Act>,
    pub asides: Seq<Seq<Seq<char>>>,
    pub settled: Result<(), Seq<char>>,
    pub phase: Phase,
    pub result: Option<Result<(), Seq<char>>>,
}

impl View for Revert {
    type V = Reverting;

    open spec fn view(&self) -> Reverting {
        Reverting {
            archive: self.archive@,
            group: self.group@,
            actions: action_views(self.actions@),
            results: result_views(self.results@),
            links: action_views(self.links@),
            asides: list_views(self.asides@),
            settled: result_view(self.settled),
            phase: self.phase,
            result: outcome_view(self.result),
        }
    }
}

/// What the log is told of the correction of a live link.
pub open spec fn link_notes(link: Act, answer: Result<Seq<char>, Seq<char>>) -> Seq<Seq<char>> {
    match link {
        Act::LiveMtu { adapter, value, .. } => seq![setting_note(adapter, value)] + (match answer {
            Ok(_) => Seq::empty(),
            Err(e) => seq![restore_note(adapter, value, e)],
        }),
        _ => Seq::empty(),
    }
}

impl Reverting {
    /// What every revert keeps: while values are restored, the actions are
    /// those of the group's entries, and the next one exists.
    pub open spec fn wf(self) -> bool {
        &&& self.phase is Restoring ==> self.actions == restoring(
            of_group(self.archive.values, self.group),
        ) && self.results.len() < self.actions.len()
        &&& self.phase matches Phase::Linking(k) ==> k < self.links.len()
        &&& self.links.len() <= usize::MAX
        &&& self.asides.len() == self.links.len() + 1
        &&& self.phase is Finished <==> self.result is Some
    }

    /// The action that the revert waits for.
    pub open spec fn pending(self) -> Option<Act> {
        match self.phase {
            Phase::Restoring => Some(self.actions[self.results.len() as int]),
            Phase::Saving => Some(Act::SaveArchive),
            Phase::Linking(k) => Some(self.links[k as int]),
            Phase::Finished => None,
        }
    }

    /// The state in which link `k` is next.
    pub open spec fn linking(self, k: int) -> Reverting {
        if k < self.links.len() {
            Reverting { phase: Phase::Linking(k as usize), ..self }
        } else {
            Reverting { phase: Phase::Finished, result: Some(self.settled), ..self }
        }
    }

    /// The state once every value has been tried: restored entries leave the
    /// archive, and the first failure is kept for the end.
    pub open spec fn settle(self) -> Reverting {
        Reverting {
            archive: Saved {
                values: unrestored(self.archive.values, self.group, self.results),
                dns: self.archive.dns,
            },
            settled: match first_error(self.results) {
                Some(e) => Err(e),
                None => Ok(()),
            },
            phase: Phase::Saving,
            ..self
        }
    }

    /// The state after `reply`; a reply that does not fit changes nothing.
    pub open spec fn advance(self, reply: Rep) -> Reverting {
        match (self.phase, reply) {
            (Phase::Restoring, Rep::Done(result)) => {
                let tried = Reverting { results: self.results.push(result), ..self };
                if tried.results.len() < tried.actions.len() {
                    tried
                } else {
                    tried.settle()
                }
            },
            (Phase::Saving, Rep::Done(Err(e))) => Reverting {
                phase: Phase::Finished,
                result: Some(Err(e)),
                ..self
            },
            (Phase::Saving, Rep::Done(Ok(_))) => self.linking(0),
            (Phase::Linking(k), Rep::Output(_)) => self.linking(k + 1),
            _ => self,
        }
    }

    /// What the log is told when `reply` comes in: the correction of a live
    /// link, and why it failed; once the archive is saved and after each link,
    /// which links could not be corrected at all.
    pub open spec fn notes(self, reply: Rep) -> Seq<Seq<char>> {
        match (self.phase, reply) {
            (Phase::Saving, Rep::Done(Ok(_))) => self.asides[0],
            (Phase::Linking(k), Rep::Output(answer)) => link_notes(self.links[k as int], answer)
                + self.asides[k + 1],
            _ => Seq::empty(),
        }
    }

    /// How many replies the revert waits for at most.
    pub open spec fn remaining(self) -> nat {
        match self.phase {
            Phase::Restoring => (self.actions.len() - self.results.len() + 1
                + self.links.len()) as nat,
            Phase::Saving => 1 + self.links.len(),
            Phase::Linking(k) => (self.links.len() - k) as nat,
            Phase::Finished => 0,
        }
    }
}

/// The first state of a revert of `group`.
pub open spec fn starting(
    archive: Saved,
    group: Seq<char>,
    links: Seq<Act>,
    asides: Seq<Seq<Seq<char>>>,
) -> Reverting {
    let actions = restoring(of_group(archive.values, group));
    Reverting {
        archive,
        group,
        actions,
        results: Seq::empty(),
        links,
        asides,
        settled: Ok(()),
        phase: if actions.len() == 0 {
            Phase::Saving
        } else {
            Phase::Restoring
        },
        result: None,
    }
}

/// The first state of a revert of `group` that has no links to correct.
pub open spec fn starting_plain(archive: Saved, group: Seq<char>) -> Reverting {
    starting(archive, group, Seq::empty(), seq![Seq::empty()])
}

impl Revert {
    /// Starts the revert of `group` that has no links to correct.
    pub fn plain(archive: Archive, group: &str) -> (run: Revert)
        ensures
            run@ == starting_plain(archive@, group@),
            run@.wf(),
    {
        let links: Vec<Action> = Vec::new();
        let mut asides: Vec<Vec<String>> = Vec::new();
        asides.push(Vec::new());
        assert(views(asides@[0]@) =~= Seq::<Seq<char>>::empty());
        assert(action_views(links@) =~= Seq::<Act>::empty());
        assert(list_views(asides@) =~= seq![Seq::<Seq<char>>::empty()]);
        Revert::start(archive, group, links, asides)
    }

    /// Starts the revert of `group`. `links` are tried after the archive has
    /// been saved; their outcome does not count. `asides` are for the log.
    pub fn start(
        archive: Archive,
        group: &str,
        links: Vec<Action>,
        asides: Vec<Vec<String>>,
    ) -> (run: Revert)
        requires
            asides@.len() == links@.len() + 1,
        ensures
            run@ == starting(archive@, group@, action_views(links@), list_views(asides@)),
            run@.wf(),
    {
        let actions = archive.restore_actions(group);
        let count: usize = links.len();
        let phase = if actions.len() == 0 {
            Phase::Saving
        } else {
            Phase::Restoring
        };
        let run = Revert {
            archive,
            group: group.to_owned(),
            actions,
            results: Vec::new(),
            links,
            asides,
            settled: Ok(()),
            phase,
            result: None,
        };
        assert(run@.links.len() == count);
        assert(run@.results =~= Seq::<Result<(), Seq<char>>>::empty());
        run
    }

    /// The action to perform next, `None` once the revert has finished.
    pub fn pending(&self) -> (action: Option<Action>)
        requires
            self@.wf(),
        ensures
            pending_view(action) == self@.pending(),
    {
        match self.phase {
            Phase::Restoring => {
                let k: usize = self.results.len();
                assert(self@.results.len() == k);
                Some(self.actions[k].clone())
            },
            Phase::Saving => Some(Action::SaveArchive),
            Phase::Linking(k) => Some(self.links[k].clone()),
            Phase::Finished => None,
        }
    }

    /// What the log is told when `reply` comes in.
    pub fn notes(&self, reply: &Reply) -> (notes: Vec<String>)
        requires
            self@.wf(),
        ensures
            views(notes@) == self@.notes(reply@),
    {
        let mut notes: Vec<String> = Vec::new();
        match (self.phase, reply) {
            (Phase::Saving, Reply::Done(Ok(_))) => {
                notes = text::clone_all(&self.asides[0]);
            },
            (Phase::Linking(k), Reply::Output(answer)) => {
                assert(self@.links[k as int] == self.links@[k as int]@);
                if let Action::LiveMtu { adapter, value, .. } = &self.links[k] {
                    notes.push(note_setting(adapter.as_str(), *value));
                    if let Err(e) = answer {
                        notes.push(note_restore(adapter.as_str(), *value, e.as_str()));
                    }
                }
                let ghost told = link_notes(
                    self@.links[k as int],
                    crate::ops::text_result_view(*answer),
                );
                assert(views(notes@) =~= told);
                text::extend(&mut notes, &self.asides[k + 1]);
            },
            _ => {},
        }
        assert(views(notes@) =~= self@.notes(reply@));
        notes
    }

    fn link(&mut self, k: usize)
        requires
            old(self)@.phase !is Finished,
            old(self)@.result is None,
        ensures
            final(self)@ == old(self)@.linking(k as int),
    {
        if k < self.links.len() {
            self.phase = Phase::Linking(k);
        } else {
            self.phase = Phase::Finished;
            self.result = Some(clone_outcome(&self.settled));
        }
    }

    /// Takes the answer to the pending action.
    pub fn resume(&mut self, reply: Reply)
        requires
            old(self)@.wf(),
        ensures
            final(self)@ == old(self)@.advance(reply@),
            final(self)@.wf(),
    {
        let ghost before = self@;
        match (self.phase, reply) {
            (Phase::Restoring, Reply::Done(result)) => {
                let ghost answer = result_view(result);
                assert(before.actions.len() == of_group(before.archive.values, before.group).len());
                self.results.push(result);
                assert(result_views(self.results@) =~= before.results.push(answer));
                if self.results.len() >= self.actions.len() {
                    let outcome = self.archive.restore_group(self.group.as_str(), &self.results);
                    self.settled = match outcome {
                        Ok(_) => Ok(()),
                        Err(e) => Err(e),
                    };
                    self.phase = Phase::Saving;
                }
            },
            (Phase::Saving, Reply::Done(Err(e))) => {
                self.phase = Phase::Finished;
                self.result = Some(Err(e));
            },
            (Phase::Saving, Reply::Done(Ok(_))) => {
                self.link(0);
            },
            (Phase::Linking(k), Reply::Output(_)) => {
                let count: usize = self.links.len();
                assert(k < count);
                self.link(k + 1);
            },
            _ => {},
        }
        assert(self@ =~= before.advance(reply@));
    }
}

/// A correction of a live link that persists nothing but the MTU that was
/// there originally.
pub open spec fn link_harmless(original: Registry, action: Act) -> bool {
    &&& action matches Act::LiveMtu { subkey, value, persistent, .. }
    &&& persistent ==> value_of(original, subkey, "MTU"@) == Some(value)
}

/// What a revert keeps with every step, in a machine whose registry was
/// `original` before the first tweak and is `current` now, and whose archive on
/// disk is `disk`.
pub open spec fn sound(original: Registry, current: Registry, disk: Saved, run: Reverting) -> bool {
    let entries = of_group(run.archive.values, run.group);
    &&& run.wf()
    &&& safe(original, current, disk, run.archive)
    &&& run.phase is Linking ==> disk == run.archive
    &&& run.result matches Some(Ok(_)) ==> disk == run.archive
    &&& run.phase is Restoring ==> forall|j: int|
        0 <= j < run.results.len() && run.results[j] is Ok ==> value_of(
            current,
            (#[trigger] entries[j]).subkey,
            entries[j].name,
        ) == entries[j].saved()
    &&& run.phase !is Restoring && run.settled is Ok ==> entries.len() == 0
    &&& run.result matches Some(Ok(_)) ==> run.settled is Ok
    &&& forall|k: int|
        0 <= k < run.links.len() ==> link_harmless(original, #[trigger] run.links[k])
}

/// A revert that starts in a safe machine starts out sound.
pub proof fn starting_is_sound(
    original: Registry,
    current: Registry,
    disk: Saved,
    archive: Saved,
    group: Seq<char>,
    links: Seq<Act>,
    asides: Seq<Seq<Seq<char>>>,
)
    requires
        safe(original, current, disk, archive),
        forall|k: int| 0 <= k < links.len() ==> link_harmless(original, #[trigger] links[k]),
        links.len() <= usize::MAX,
        asides.len() == links.len() + 1,
    ensures
        sound(original, current, disk, starting(archive, group, links, asides)),
{
}

/// Every step of a revert keeps the machine safe, whatever the step answers, and
/// brings the revert closer to its end.
pub proof fn reverting_keeps_recoverable(
    original: Registry,
    before: Registry,
    disk: Saved,
    run: Reverting,
    reply: Rep,
    after: Registry,
)
    requires
        sound(original, before, disk, run),
        run.pending() is Some,
        truthful(before, run.pending()->0, reply, after),
    ensures
        harmless_pending(original, disk.values, run.pending()),
        sound(
            original,
            after,
            on_disk(disk, run.archive, run.pending()->0, reply),
            run.advance(reply),
        ),
        run.advance(reply).remaining() < run.remaining(),
{
    let values = run.archive.values;
    let entries = of_group(values, run.group);
    let action = run.pending()->0;
    let next = run.advance(reply);
    match run.phase {
        Phase::Restoring => {
            let k = run.results.len() as int;
            let e = entries[k];
            of_group_is_part(values, run.group, k);
            let at = choose|i: int| 0 <= i < values.len() && values[i] == e;
            assert(values[at].is_at(e.subkey, e.name));
            assert(archived(values, e.subkey, e.name));
            assert(action == e.restoring());
            acting_keeps_safe(original, before, disk, run.archive, action, reply, after);
            let tried = run.results.push(reply->Done_0);
            assert forall|j: int| 0 <= j < tried.len() && tried[j] is Ok implies value_of(
                after,
                (#[trigger] entries[j]).subkey,
                entries[j].name,
            ) == entries[j].saved() by {
                of_group_is_part(values, run.group, j);
                let other = choose|i: int| 0 <= i < values.len() && values[i] == entries[j];
                assert(values[other].saved() == value_of(
                    original,
                    values[other].subkey,
                    values[other].name,
                ));
                assert(values[at].saved() == value_of(
                    original,
                    values[at].subkey,
                    values[at].name,
                ));
                if j < k {
                    assert(tried[j] == run.results[j]);
                }
            }
            if tried.len() >= run.actions.len() {
                settling_keeps_recoverable(original, after, values, run.group, tried);
                settling_keeps_covered(values, disk.values, run.group, tried);
                if first_error(tried) is None {
                    no_error_means_success(tried);
                    restored_group_is_drained(values, run.group, tried);
                }
            }
        },
        _ => {
            acting_keeps_safe(original, before, disk, run.archive, action, reply, after);
        },
    }
}

/// A revert that reports success has drained its group, in its archive and on
/// disk, and every value of the group is what it was before the first tweak.
pub proof fn successful_revert_restores_group(
    original: Registry,
    current: Registry,
    disk: Saved,
    run: Reverting,
    subkey: Seq<char>,
    name: Seq<char>,
)
    requires
        sound(original, current, disk, run),
        run.result == Some(Ok::<(), Seq<char>>(())),
        group_of(name) == run.group,
    ensures
        of_group(run.archive.values, run.group).len() == 0,
        disk == run.archive,
        value_of(current, subkey, name) == value_of(original, subkey, name),
{
    let values = run.archive.values;
    if value_of(current, subkey, name) != value_of(original, subkey, name) {
        assert(archived(values, subkey, name));
        let i = choose|i: int| 0 <= i < values.len() && (#[trigger] values[i]).is_at(subkey, name);
        member_is_in_group(values, run.group, i);
    }
}

/// Restoring one group leaves the entries of every other group alone.
pub proof fn other_groups_are_kept(
    values: Seq<Entry>,
    group: Seq<char>,
    results: Seq<Result<(), Seq<char>>>,
    other: Seq<char>,
)
    requires
        other != group,
    ensures
        of_group(unrestored(values, group, results), other) == of_group(values, other),
    decreases values.len(),
{
    if values.len() > 0 {
        let front = values.drop_last();
        other_groups_are_kept(front, group, results, other);
        let rest = unrestored(front, group, results);
        let kept = unrestored(values, group, results);
        if kept != rest {
            assert(kept.drop_last() =~= rest);
        }
    }
}

/// Once every group is drained, the archive is empty and the registry is exactly
/// the one from before the first tweak.
pub proof fn reverting_every_group_restores_the_machine(
    original: Registry,
    current: Registry,
    values: Seq<Entry>,
)
    requires
        recoverable(original, current, values),
        of_group(values, GROUP_TCP@).len() == 0,
        of_group(values, GROUP_SYSTEM@).len() == 0,
        of_group(values, GROUP_MTU@).len() == 0,
        of_group(values, GROUP_POWER@).len() == 0,
    ensures
        values.len() == 0,
        current == original,
{
    if values.len() > 0 {
        member_is_in_group(values, group_of(values[0].name), 0);
    }
    assert(values =~= Seq::<Entry>::empty());
    drained_means_restored(original, current);
}

proof fn of_group_is_part(values: Seq<Entry>, group: Seq<char>, k: int)
    requires
        0 <= k < of_group(values, group).len(),
    ensures
        values.contains(of_group(values, group)[k]),
    decreases values.len(),
{
    if values.len() > 0 {
        let front = values.drop_last();
        let rest = of_group(front, group);
        if k < rest.len() {
            of_group_is_part(front, group, k);
            let i = choose|i: int| 0 <= i < front.len() && front[i] == rest[k];
            assert(values[i] == of_group(values, group)[k]);
        } else {
            assert(values[values.len() - 1] == of_group(values, group)[k]);
        }
    }
}

proof fn member_is_in_group(values: Seq<Entry>, group: Seq<char>, i: int)
    requires
        0 <= i < values.len(),
        values[i].group == group,
    ensures
        of_group(values, group).len() > 0,
    decreases values.len(),
{
    if i < values.len() - 1 {
        member_is_in_group(values.drop_last(), group, i);
    }
}

proof fn no_error_means_success(results: Seq<Result<(), Seq<char>>>)
    requires
        first_error(results) is None,
    ensures
        forall|j: int| 0 <= j < results.len() ==> (#[trigger] results[j]) is Ok,
    decreases results.len(),
{
    if results.len() > 0 {
        no_error_means_success(results.skip(1));
        assert forall|j: int| 0 <= j < results.len() implies (#[trigger] results[j]) is Ok by {
            if j > 0 {
                assert(results.skip(1)[j - 1] == results[j]);
            }
        }
    }
}

proof fn restored_group_is_drained(
    values: Seq<Entry>,
    group: Seq<char>,
    results: Seq<Result<(), Seq<char>>>,
)
    requires
        of_group(values, group).len() <= results.len(),
        forall|j: int| 0 <= j < results.len() ==> (#[trigger] results[j]) is Ok,
    ensures
        of_group(unrestored(values, group, results), group).len() == 0,
    decreases values.len(),
{
    if values.len() > 0 {
        let front = values.drop_last();
        restored_group_is_drained(front, group, results);
        let rest = unrestored(front, group, results);
        let kept = unrestored(values, group, results);
        if values.last().group == group {
            assert(results[of_group(front, group).len() as int] is Ok);
        } else {
            assert(kept.drop_last() =~= rest);
        }
    }
}

} // verus!
