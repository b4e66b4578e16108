//! Multimedia network throttling removal.
//!
//! Windows reserves network bandwidth for the Multimedia Class Scheduler
//! Service. Setting `NetworkThrottlingIndex` to its maximum removes the limit.

use vstd::prelude::*;

use crate::config::{ensured, recorded, taken_back, Archive, Saved, GROUP_SYSTEM};
use crate::ops::{
    outcome_view, pending_view, result_view, truthful, value_of, Act, Action,
    Registry, Rep, Reply,
};
use crate::recovery::{
    acting_keeps_safe, archived, group_of, harmless_pending, on_disk, recording_is_safe_or_saving,
    recoverable, safe, saving, saving_ends_safe,
};
use crate::registry::{read_error, read_message, write_error, write_message, Seen, Snapshot};
use crate::revert::{starting_plain, Revert};

verus! {

/// The key of the throttling index.
pub const SUBKEY: &'static str =
    "SOFTWARE\\Microsoft\\Windows NT\\CurrentVersion\\Multimedia\\SystemProfile";

/// The name of the throttling index.
pub const NAME: &'static str = "NetworkThrottlingIndex";

/// Maximum (unthrottled) index value.
pub const UNTHROTTLED: u32 = 0xFFFF_FFFF;

/// How far an apply run has come.
#[derive(Clone, Copy, Debug, PartialEq, Eq, Structural)]
pub enum Step {
    Read,
    Save,
    Write,
    Finished,
}

/// A run that removes the throttling. The value found is archived, and the
/// archive saved, before it is written.
#[derive(Debug)]
pub struct Apply {
    pub archive: Archive,
    pub step: Step,
    /// The outcome, once the run has finished.
    pub result: Option<Result<(), String>>,
}

/// An [`Apply`] over texts.
#[verifier::ext_equal]
pub struct Unthrottling {
    pub archive: Saved,
    pub step: Step,
    pub result: Option<Result<(), Seq<char>>>,
}

impl View for Apply {
    type V = Unthrottling;

    open spec fn view(&self) -> Unthrottling {
        Unthrottling {
            archive: self.archive@,
            step: self.step,
            result: outcome_view(self.result),
        }
    }
}

impl Unthrottling {
    /// A finished run has an outcome, and only a finished one; there is an
    /// entry to be saved.
    pub open spec fn wf(self) -> bool {
        &&& self.step is Finished <==> self.result is Some
        &&& self.step is Save ==> self.archive.values.len() > 0
    }

    /// The action that the run waits for.
    pub open spec fn pending(self) -> Option<Act> {
        match self.step {
            Step::Read => Some(Act::ReadDword { subkey: SUBKEY@, name: NAME@ }),
            Step::Save => Some(Act::SaveArchive),
            Step::Write => Some(
                Act::WriteDword { subkey: SUBKEY@, name: NAME@, value: UNTHROTTLED },
            ),
            Step::Finished => None,
        }
    }

    /// The state that ends the run.
    pub open spec fn finish(self, result: Result<(), Seq<char>>) -> Unthrottling {
        Unthrottling { step: Step::Finished, result: Some(result), ..self }
    }

    /// The state after `reply`; a reply that does not fit changes nothing.
    pub open spec fn advance(self, reply: Rep) -> Unthrottling {
        match (self.step, reply) {
            (Step::Read, Rep::Value(Err(e))) => self.finish(Err(read_error(SUBKEY@, NAME@, e))),
            (Step::Read, Rep::Value(Ok(current))) => Unthrottling {
                step: if recorded(self.archive.values, GROUP_SYSTEM@, SUBKEY@, NAME@) {
                    Step::Write
                } else {
                    Step::Save
                },
                archive: Saved {
                    values: ensured(
                        self.archive.values,
                        GROUP_SYSTEM@,
                        SUBKEY@,
                        NAME@,
                        current,
                    ),
                    dns: self.archive.dns,
                },
                ..self
            },
            (Step::Save, Rep::Done(Err(e))) => Unthrottling {
                archive: taken_back(self.archive),
                ..self
            }.finish(Err(e)),
            (Step::Save, Rep::Done(Ok(_))) => Unthrottling { step: Step::Write, ..self },
            (Step::Write, Rep::Done(Err(e))) => self.finish(
                Err(write_error(SUBKEY@, NAME@, e)),
            ),
            (Step::Write, Rep::Done(Ok(_))) => self.finish(Ok(())),
            _ => self,
        }
    }

    /// How many replies the run waits for at most.
    pub open spec fn remaining(self) -> nat {
        match self.step {
            Step::Read => 3,
            Step::Save => 2,
            Step::Write => 1,
            Step::Finished => 0,
        }
    }
}

/// Removes the network throttling, archiving the value found first.
pub fn apply(archive: Archive) -> (run: Apply)
    ensures
        run@ == (Unthrottling { archive: archive@, step: Step::Read, result: None }),
        run@.wf(),
{
    Apply { archive, step: Step::Read, result: None }
}

impl Apply {
    /// The action to perform next, `None` once the run has finished.
    pub fn pending(&self) -> (action: Option<Action>)
        ensures
            pending_view(action) == self@.pending(),
    {
        match self.step {
            Step::Read => Some(
                Action::ReadDword { subkey: SUBKEY.to_owned(), name: NAME.to_owned() },
            ),
            Step::Save => Some(Action::SaveArchive),
            Step::Write => Some(
                Action::WriteDword {
                    subkey: SUBKEY.to_owned(),
                    name: NAME.to_owned(),
                    value: UNTHROTTLED,
                },
            ),
            Step::Finished => None,
        }
    }

    fn finish(&mut self, result: Result<(), String>)
        ensures
            final(self)@ == old(self)@.finish(result_view(result)),
    {
        self.step = Step::Finished;
        self.result = Some(result);
    }

    /// Takes the answer to the pending action.
    pub fn resume(&mut self, reply: Reply)
        requires
            old(self)@.wf(),
        ensures
            final(self)@ == old(self)@.advance(reply@),
            final(self)@.wf(),
    {
        let ghost before = self@;
        match (self.step, reply) {
            (Step::Read, Reply::Value(Err(e))) => {
                self.finish(Err(read_message(SUBKEY, NAME, e.as_str())));
            },
            (Step::Read, Reply::Value(Ok(current))) => {
                let added = self.archive.ensure(GROUP_SYSTEM, SUBKEY, NAME, current);
                self.step = if added {
                    Step::Save
                } else {
                    Step::Write
                };
            },
            (Step::Save, Reply::Done(Err(e))) => {
                self.archive.take_back();
                self.finish(Err(e));
            },
            (Step::Save, Reply::Done(Ok(_))) => {
                self.step = Step::Write;
            },
            (Step::Write, Reply::Done(Err(e))) => {
                self.finish(Err(write_message(SUBKEY, NAME, e.as_str())));
            },
            (Step::Write, Reply::Done(Ok(_))) => self.finish(Ok(())),
            _ => {},
        }
        assert(self@ =~= before.advance(reply@));
    }
}

/// Restores the archived throttling value.
pub fn revert(archive: Archive) -> (run: Revert)
    ensures
        run@ == starting_plain(archive@, GROUP_SYSTEM@),
        run@.wf(),
{
    Revert::plain(archive, GROUP_SYSTEM)
}

/// True when the snapshot shows the throttling index at its maximum.
pub fn status(snapshot: &Snapshot) -> (b: bool)
    ensures
        b == snapshot@.holds(SUBKEY@, NAME@, UNTHROTTLED),
{
    snapshot.holds(SUBKEY, NAME, UNTHROTTLED)
}

/// The question that [`status`] needs answered.
pub fn query() -> (question: Action)
    ensures
        question@ == (Act::ReadDword { subkey: SUBKEY@, name: NAME@ }),
{
    Action::ReadDword { subkey: SUBKEY.to_owned(), name: NAME.to_owned() }
}

/// What an apply run keeps with every step, in a machine whose registry was
/// `original` before the first tweak and is `current` now, and whose archive on
/// disk is `disk`.
pub open spec fn sound(
    original: Registry,
    current: Registry,
    disk: Saved,
    run: Unthrottling,
) -> bool {
    &&& run.wf()
    &&& recoverable(original, current, disk.values)
    &&& harmless_pending(original, disk.values, run.pending())
    &&& match run.step {
        Step::Save => saving(original, current, disk, run.archive, SUBKEY@, NAME@),
        Step::Write => safe(original, current, disk, run.archive) && archived(
            run.archive.values,
            SUBKEY@,
            NAME@,
        ),
        _ => safe(original, current, disk, run.archive),
    }
    &&& run.result matches Some(Ok(_)) ==> value_of(current, SUBKEY@, NAME@) == Some(UNTHROTTLED)
}

/// A run that starts in a safe machine starts out sound.
pub proof fn unthrottling_starts_sound(
    original: Registry,
    current: Registry,
    disk: Saved,
    archive: Saved,
)
    requires
        safe(original, current, disk, archive),
    ensures
        sound(original, current, disk, Unthrottling { archive, step: Step::Read, result: None }),
{
}

/// A run that has ended, with success or without, leaves a safe machine: every
/// entry that it has added to its archive is on disk.
pub proof fn unthrottling_ends_safe(
    original: Registry,
    current: Registry,
    disk: Saved,
    run: Unthrottling,
)
    requires
        sound(original, current, disk, run),
        run.result is Some,
    ensures
        safe(original, current, disk, run.archive),
{
}

/// Every step of an apply run keeps the machine recoverable from the archive on
/// disk, whatever the step answers, and brings the run closer to its end. A run
/// that reports success has set the index to its maximum.
pub proof fn unthrottling_keeps_recoverable(
    original: Registry,
    before: Registry,
    disk: Saved,
    run: Unthrottling,
    reply: Rep,
    after: Registry,
)
    requires
        sound(original, before, disk, run),
        run.pending() is Some,
        truthful(before, run.pending()->0, reply, after),
    ensures
        sound(
            original,
            after,
            on_disk(disk, run.archive, run.pending()->0, reply),
            run.advance(reply),
        ),
        run.advance(reply).remaining() < run.remaining(),
{
    assert(group_of(NAME@) == GROUP_SYSTEM@) by {
        reveal_strlit("MTU");
        reveal_strlit("PnPCapabilities");
        reveal_strlit("NetworkThrottlingIndex");
        assert("MTU"@.len() == 3);
        assert("PnPCapabilities"@.len() == 15);
        assert("NetworkThrottlingIndex"@.len() == 22);
    }
    if run.step is Save {
        saving_ends_safe(
            original,
            before,
            disk,
            run.archive,
            SUBKEY@,
            NAME@,
            reply,
            after,
        );
    } else {
        acting_keeps_safe(original, before, disk, run.archive, run.pending()->0, reply, after);
    }
    if run.step is Read {
        recording_is_safe_or_saving(
            original,
            after,
            disk,
            run.archive,
            GROUP_SYSTEM@,
            SUBKEY@,
            NAME@,
        );
    }
}

/// A machine whose index is at its maximum is reported as unthrottled by every
/// snapshot that shows it as it is, and no other is.
pub proof fn status_shows_the_index(reg: Registry, readable: Set<Seq<char>>, seen: Seen)
    requires
        seen.shows(reg, readable, SUBKEY@, NAME@),
    ensures
        seen.holds(SUBKEY@, NAME@, UNTHROTTLED) <==> value_of(reg, SUBKEY@, NAME@) == Some(
            UNTHROTTLED,
        ),
{
}

} // verus!
