//! TCP/IP parameter tuning.
//!
//! Two families of registry values are handled: machine-wide values under
//! `Tcpip\Parameters` (the TIME-WAIT timer and the ephemeral port ceiling), and
//! per-interface values under `Tcpip\Parameters\Interfaces\{GUID}` (Nagle's
//! algorithm, delayed ACK frequency and delayed ACK timing). Only adapters
//! that carry a `Tcpip` registry key are counted as applicable.

use vstd::prelude::*;

use crate::config::{ensured, recorded, taken_back, Archive, Saved, GROUP_TCP};
use crate::interfaces::{adapters, physical, physical_of, Adapter, Interface};
use crate::ops::{
    clone_message, message_view, outcome_view, pending_view, result_view, truthful, value_of, Act,
    Action, Registry, Rep, Reply,
};
use crate::recovery::{
    acting_keeps_safe, archived, group_of, harmless_pending, on_disk, recording_is_safe_or_saving,
    recoverable, safe, saving, saving_ends_safe,
};
use crate::registry::{read_error, read_message, write_error, write_message, Seen, Snapshot};
use crate::revert::{starting_plain, Revert};
use crate::text::views;

verus! {

/// Machine-wide TCP parameters subkey.
pub const GLOBAL_SUBKEY: &'static str = "SYSTEM\\CurrentControlSet\\Services\\Tcpip\\Parameters";

/// Per-adapter parameters subkey.
pub const IFACES_SUBKEY: &'static str =
    "SYSTEM\\CurrentControlSet\\Services\\Tcpip\\Parameters\\Interfaces";

/// The machine-wide values: the TIME-WAIT delay in seconds, and the highest
/// ephemeral port.
pub open spec fn global_values() -> Seq<(Seq<char>, u32)> {
    seq![("TcpTimedWaitDelay"@, 30u32), ("MaxUserPort"@, 65534u32)]
}

/// The per-interface values: no Nagle's algorithm, an ACK for every segment,
/// no delayed ACK ticks.
pub open spec fn iface_values() -> Seq<(Seq<char>, u32)> {
    seq![("TCPNoDelay"@, 1u32), ("TcpAckFrequency"@, 1u32), ("TcpDelAckTicks"@, 0u32)]
}

/// The machine-wide value with number `i`.
pub fn global_value(i: usize) -> (v: (&'static str, u32))
    requires
        i < 2,
    ensures
        (v.0@, v.1) == global_values()[i as int],
{
    if i == 0 {
        ("TcpTimedWaitDelay", 30)
    } else {
        ("MaxUserPort", 65534)
    }
}

/// The per-interface value with number `i`.
pub fn iface_value(i: usize) -> (v: (&'static str, u32))
    requires
        i < 3,
    ensures
        (v.0@, v.1) == iface_values()[i as int],
{
    if i == 0 {
        ("TCPNoDelay", 1)
    } else if i == 1 {
        ("TcpAckFrequency", 1)
    } else {
        ("TcpDelAckTicks", 0)
    }
}

/// State of the TCP tuning across the machine.
#[derive(Clone, Copy, Debug, PartialEq, Eq, Structural)]
pub struct TcpStatus {
    /// Number of applicable interfaces that are fully tuned.
    pub ifaces_ok: usize,
    /// Number of applicable interfaces (those with a `Tcpip` key).
    pub ifaces_total: usize,
    /// Whether all machine-wide values match the target.
    pub global_ok: bool,
}

impl Default for TcpStatus {
    fn default() -> (status: Self)
        ensures
            status == (TcpStatus { ifaces_ok: 0, ifaces_total: 0, global_ok: false }),
    {
        TcpStatus { ifaces_ok: 0, ifaces_total: 0, global_ok: false }
    }
}

impl TcpStatus {
    /// True when there is nothing left to tune.
    pub open spec fn is_aligned(self) -> bool {
        self.global_ok && (self.ifaces_total == 0 || self.ifaces_ok == self.ifaces_total)
    }

    /// True when there is nothing left to tune.
    pub fn aligned(&self) -> (b: bool)
        ensures
            b == self.is_aligned(),
    {
        self.global_ok && (self.ifaces_total == 0 || self.ifaces_ok == self.ifaces_total)
    }
}

/// The registry key of an adapter's TCP parameters.
pub open spec fn subkey_of(guid: Seq<char>) -> Seq<char> {
    IFACES_SUBKEY@ + "\\"@ + guid
}

/// The registry key of an adapter's TCP parameters.
pub fn iface_subkey(guid: &str) -> (subkey: String)
    ensures
        subkey@ == subkey_of(guid@),
{
    IFACES_SUBKEY.to_owned().concat("\\").concat(guid)
}

/// The registry keys of these adapters.
pub open spec fn subkeys_of(ifaces: Seq<Adapter>) -> Seq<Seq<char>> {
    Seq::new(ifaces.len(), |i: int| subkey_of(ifaces[i].guid))
}

/// The registry keys of these adapters.
pub fn iface_subkeys(ifaces: &Vec<Interface>) -> (subkeys: Vec<String>)
    ensures
        views(subkeys@) == subkeys_of(adapters(ifaces@)),
{
    let mut subkeys: Vec<String> = Vec::new();
    let mut i: usize = 0;
    while i < ifaces.len()
        invariant
            i <= ifaces@.len(),
            subkeys@.len() == i,
            forall|k: int| 0 <= k < i ==> (#[trigger] subkeys@[k])@ == subkey_of(ifaces@[k].guid@),
        decreases ifaces@.len() - i,
    {
        subkeys.push(iface_subkey(ifaces[i].guid.as_str()));
        i = i + 1;
    }
    assert(views(subkeys@) =~= subkeys_of(adapters(ifaces@)));
    subkeys
}

// ---------------------------------------------------------------------------
// Applying
// ---------------------------------------------------------------------------

/// How far an apply run has come. The numbers are those of the value, or of
/// the adapter and the value.
#[derive(Clone, Copy, Debug, PartialEq, Eq, Structural)]
pub enum Step {
    GlobalRead(usize),
    GlobalSave(usize),
    GlobalWrite(usize),
    GlobalCheck(usize),
    Exists(usize),
    Read(usize, usize),
    Save(usize, usize),
    Write(usize, usize),
    Finished,
}

/// A run that applies the TCP optimizations. Each value is archived, and the
/// archive saved, before it is written.
#[derive(Debug)]
pub struct Apply {
    pub archive: Archive,
    /// The keys of the physical adapters.
    pub subkeys: Vec<String>,
    pub step: Step,
    /// The status gathered so far.
    pub status: TcpStatus,
    /// Every write on the present adapter succeeded.
    pub tuned: bool,
    /// The first failed write.
    pub failure: Option<String>,
    /// The outcome, once the run has finished.
    pub result: Option<Result<TcpStatus, String>>,
}

/// An [`Apply`] over texts.
#[verifier::ext_equal]
pub struct Tuning {
    pub archive: Saved,
    pub subkeys: Seq<Seq<char>>,
    pub step: Step,
    pub status: TcpStatus,
    pub tuned: bool,
    pub failure: Option<Seq<char>>,
    pub result: Option<Result<TcpStatus, Seq<char>>>,
}

impl View for Apply {
    type V = Tuning;

    open spec fn view(&self) -> Tuning {
        Tuning {
            archive: self.archive@,
            subkeys: views(self.subkeys@),
            step: self.step,
            status: self.status,
            tuned: self.tuned,
            failure: message_view(self.failure),
            result: outcome_view(self.result),
        }
    }
}

/// The first failure: one that is noted already stays.
pub open spec fn first_failure(
    noted: Option<Seq<char>>,
    result: Result<(), Seq<char>>,
    message: spec_fn(Seq<char>) -> Seq<char>,
) -> Option<Seq<char>> {
    match (noted, result) {
        (None, Err(e)) => Some(message(e)),
        _ => noted,
    }
}

/// The archive after recording a value of the TCP group.
pub open spec fn recording(
    archive: Saved,
    subkey: Seq<char>,
    name: Seq<char>,
    current: Option<u32>,
) -> Saved {
    Saved { values: ensured(archive.values, GROUP_TCP@, subkey, name, current), dns: archive.dns }
}

impl Tuning {
    /// The numbers of the step are in range, and the counters fit.
    pub open spec fn wf(self) -> bool {
        &&& self.subkeys.len() <= usize::MAX
        &&& self.status.ifaces_ok <= self.status.ifaces_total
        &&& match self.step {
            Step::GlobalRead(i)
            | Step::GlobalSave(i)
            | Step::GlobalWrite(i)
            | Step::GlobalCheck(i) => i < 2 && self.status.ifaces_total == 0,
            Step::Exists(j) => j < self.subkeys.len() && self.status.ifaces_total <= j,
            Step::Read(j, i) | Step::Save(j, i) | Step::Write(j, i) => j < self.subkeys.len()
                && i < 3 && self.status.ifaces_total <= j + 1 && self.status.ifaces_ok
                < self.status.ifaces_total,
            Step::Finished => true,
        }
        &&& self.step is GlobalSave || self.step is Save ==> self.archive.values.len() > 0
        &&& self.step is Finished <==> self.result is Some
        &&& self.result matches Some(Ok(_)) ==> self.failure is None
    }

    /// The action that the run waits for.
    pub open spec fn pending(self) -> Option<Act> {
        match self.step {
            Step::GlobalRead(i) | Step::GlobalCheck(i) => Some(
                Act::ReadDword { subkey: GLOBAL_SUBKEY@, name: global_values()[i as int].0 },
            ),
            Step::GlobalSave(_) | Step::Save(_, _) => Some(Act::SaveArchive),
            Step::GlobalWrite(i) => Some(
                Act::WriteDword {
                    subkey: GLOBAL_SUBKEY@,
                    name: global_values()[i as int].0,
                    value: global_values()[i as int].1,
                },
            ),
            Step::Exists(j) => Some(Act::KeyExists { subkey: self.subkeys[j as int] }),
            Step::Read(j, i) => Some(
                Act::ReadDword { subkey: self.subkeys[j as int], name: iface_values()[i as int].0 },
            ),
            Step::Write(j, i) => Some(
                Act::WriteDword {
                    subkey: self.subkeys[j as int],
                    name: iface_values()[i as int].0,
                    value: iface_values()[i as int].1,
                },
            ),
            Step::Finished => None,
        }
    }

    /// The state that ends the run.
    pub open spec fn finish(self, result: Result<TcpStatus, Seq<char>>) -> Tuning {
        Tuning { step: Step::Finished, result: Some(result), ..self }
    }

    /// The outcome when nothing aborted the run: the first failed write, or
    /// the status.
    pub open spec fn verdict(self) -> Result<TcpStatus, Seq<char>> {
        match self.failure {
            Some(e) => Err(e),
            None => Ok(self.status),
        }
    }

    /// The state in which adapter `j` is next, or the run ends.
    pub open spec fn turn_to(self, j: int) -> Tuning {
        if j < self.subkeys.len() {
            Tuning { step: Step::Exists(j as usize), ..self }
        } else {
            self.finish(self.verdict())
        }
    }

    /// The state after value `name` of `subkey` was read: a failure ends the
    /// run, a value is archived. A new entry is saved before the value is
    /// written.
    pub open spec fn after_read(
        self,
        subkey: Seq<char>,
        name: Seq<char>,
        answer: Result<Option<u32>, Seq<char>>,
        save: Step,
        write: Step,
    ) -> Tuning {
        match answer {
            Err(e) => self.finish(Err(read_error(subkey, name, e))),
            Ok(current) => Tuning {
                step: if recorded(self.archive.values, GROUP_TCP@, subkey, name) {
                    write
                } else {
                    save
                },
                archive: recording(self.archive, subkey, name, current),
                ..self
            },
        }
    }

    /// The state after the archive was saved: `write` is next. When it could
    /// not be saved the new entry is taken back and the run ends.
    pub open spec fn after_save(self, result: Result<(), Seq<char>>, write: Step) -> Tuning {
        match result {
            Ok(_) => Tuning { step: write, ..self },
            Err(e) => Tuning { archive: taken_back(self.archive), ..self }.finish(Err(e)),
        }
    }

    /// The failure noted after a write.
    pub open spec fn after_write(
        self,
        subkey: Seq<char>,
        name: Seq<char>,
        result: Result<(), Seq<char>>,
    ) -> Option<Seq<char>> {
        first_failure(self.failure, result, |e: Seq<char>| write_error(subkey, name, e))
    }

    /// The state after `reply`; a reply that does not fit changes nothing.
    pub open spec fn advance(self, reply: Rep) -> Tuning {
        match (self.step, reply) {
            (Step::GlobalRead(i), Rep::Value(answer)) => self.after_read(
                GLOBAL_SUBKEY@,
                global_values()[i as int].0,
                answer,
                Step::GlobalSave(i),
                Step::GlobalWrite(i),
            ),
            (Step::GlobalSave(i), Rep::Done(result)) => self.after_save(
                result,
                Step::GlobalWrite(i),
            ),
            (Step::GlobalWrite(i), Rep::Done(result)) => Tuning {
                failure: self.after_write(GLOBAL_SUBKEY@, global_values()[i as int].0, result),
                step: if i + 1 < 2 {
                    Step::GlobalRead((i + 1) as usize)
                } else {
                    Step::GlobalCheck(0)
                },
                ..self
            },
            (Step::GlobalCheck(i), Rep::Value(answer)) => {
                if answer == Ok::<Option<u32>, Seq<char>>(Some(global_values()[i as int].1)) {
                    if i + 1 < 2 {
                        Tuning { step: Step::GlobalCheck((i + 1) as usize), ..self }
                    } else {
                        Tuning {
                            status: TcpStatus { global_ok: true, ..self.status },
                            ..self
                        }.turn_to(0)
                    }
                } else {
                    Tuning {
                        status: TcpStatus { global_ok: false, ..self.status },
                        ..self
                    }.turn_to(0)
                }
            },
            (Step::Exists(j), Rep::Exists(false)) => self.turn_to(j + 1),
            (Step::Exists(j), Rep::Exists(true)) => Tuning {
                status: TcpStatus {
                    ifaces_total: (self.status.ifaces_total + 1) as usize,
                    ..self.status
                },
                tuned: true,
                step: Step::Read(j, 0),
                ..self
            },
            (Step::Read(j, i), Rep::Value(answer)) => self.after_read(
                self.subkeys[j as int],
                iface_values()[i as int].0,
                answer,
                Step::Save(j, i),
                Step::Write(j, i),
            ),
            (Step::Save(j, i), Rep::Done(result)) => self.after_save(result, Step::Write(j, i)),
            (Step::Write(j, i), Rep::Done(result)) => {
                let written = Tuning {
                    failure: self.after_write(
                        self.subkeys[j as int],
                        iface_values()[i as int].0,
                        result,
                    ),
                    tuned: self.tuned && result is Ok,
                    ..self
                };
                if i + 1 < 3 {
                    Tuning { step: Step::Read(j, (i + 1) as usize), ..written }
                } else {
                    Tuning {
                        status: TcpStatus {
                            ifaces_ok: (self.status.ifaces_ok + if written.tuned {
                                1int
                            } else {
                                0int
                            }) as usize,
                            ..self.status
                        },
                        ..written
                    }.turn_to(j + 1)
                }
            },
            _ => self,
        }
    }
}

/// The first state of a run.
pub open spec fn tuning(archive: Saved, ifaces: Seq<Adapter>) -> Tuning {
    Tuning {
        archive,
        subkeys: subkeys_of(ifaces),
        step: Step::GlobalRead(0),
        status: TcpStatus { ifaces_ok: 0, ifaces_total: 0, global_ok: false },
        tuned: true,
        failure: None,
        result: None,
    }
}

/// Applies all TCP optimizations to the machine with these adapters, archiving
/// the values found first.
pub fn apply(archive: Archive, all: &Vec<Interface>) -> (run: Apply)
    ensures
        run@ == tuning(archive@, physical_of(adapters(all@))),
        run@.wf(),
{
    let ifaces = physical(all);
    let subkeys = iface_subkeys(&ifaces);
    let count: usize = subkeys.len();
    assert(views(subkeys@).len() == count);
    Apply {
        archive,
        subkeys,
        step: Step::GlobalRead(0),
        status: TcpStatus::default(),
        tuned: true,
        failure: None,
        result: None,
    }
}

impl Apply {
    /// The action to perform next, `None` once the run has finished.
    pub fn pending(&self) -> (action: Option<Action>)
        requires
            self@.wf(),
        ensures
            pending_view(action) == self@.pending(),
    {
        match self.step {
            Step::GlobalRead(i) | Step::GlobalCheck(i) => Some(
                Action::ReadDword {
                    subkey: GLOBAL_SUBKEY.to_owned(),
                    name: global_value(i).0.to_owned(),
                },
            ),
            Step::GlobalWrite(i) => {
                let (name, value) = global_value(i);
                Some(
                    Action::WriteDword {
                        subkey: GLOBAL_SUBKEY.to_owned(),
                        name: name.to_owned(),
                        value,
                    },
                )
            },
            Step::GlobalSave(_) | Step::Save(_, _) => Some(Action::SaveArchive),
            Step::Exists(j) => Some(Action::KeyExists { subkey: self.subkeys[j].clone() }),
            Step::Read(j, i) => Some(
                Action::ReadDword {
                    subkey: self.subkeys[j].clone(),
                    name: iface_value(i).0.to_owned(),
                },
            ),
            Step::Write(j, i) => {
                let (name, value) = iface_value(i);
                Some(
                    Action::WriteDword {
                        subkey: self.subkeys[j].clone(),
                        name: name.to_owned(),
                        value,
                    },
                )
            },
            Step::Finished => None,
        }
    }

    fn finish(&mut self, result: Result<TcpStatus, String>)
        ensures
            final(self)@ == old(self)@.finish(result_view(result)),
    {
        self.step = Step::Finished;
        self.result = Some(result);
    }

    fn conclude(&mut self)
        ensures
            final(self)@ == old(self)@.finish(old(self)@.verdict()),
    {
        match clone_message(&self.failure) {
            Some(e) => self.finish(Err(e)),
            None => {
                let status = self.status;
                self.finish(Ok(status))
            },
        }
    }

    fn turn_to(&mut self, j: usize)
        ensures
            final(self)@ == old(self)@.turn_to(j as int),
    {
        if j < self.subkeys.len() {
            self.step = Step::Exists(j);
        } else {
            self.conclude();
        }
    }

    fn after_read(
        &mut self,
        subkey: &str,
        name: &str,
        answer: Result<Option<u32>, String>,
        save: Step,
        write: Step,
    )
        ensures
            final(self)@ == old(self)@.after_read(
                subkey@,
                name@,
                result_view(answer),
                save,
                write,
            ),
            answer is Ok ==> final(self)@.archive.values.len() > 0,
    {
        match answer {
            Err(e) => self.finish(Err(read_message(subkey, name, e.as_str()))),
            Ok(current) => {
                let added = self.archive.ensure(GROUP_TCP, subkey, name, current);
                self.step = if added {
                    save
                } else {
                    write
                };
            },
        }
    }

    fn after_save(&mut self, result: Result<(), String>, write: Step)
        requires
            old(self)@.archive.values.len() > 0,
        ensures
            final(self)@ == old(self)@.after_save(result_view(result), write),
    {
        match result {
            Ok(_) => {
                self.step = write;
            },
            Err(e) => {
                self.archive.take_back();
                self.finish(Err(e));
            },
        }
    }

    fn note_write(&mut self, subkey: &str, name: &str, result: &Result<(), String>)
        ensures
            final(self)@ == (Tuning {
                failure: old(self)@.after_write(subkey@, name@, result_view(*result)),
                ..old(self)@
            }),
    {
        if self.failure.is_none() {
            if let Err(e) = result {
                self.failure = Some(write_message(subkey, name, e.as_str()));
            }
        }
    }

    /// Takes the answer to the pending action.
    pub fn resume(&mut self, reply: Reply)
        requires
            old(self)@.wf(),
        ensures
            final(self)@ == old(self)@.advance(reply@),
            final(self)@.wf(),
    {
        let ghost before = self@;
        let count: usize = self.subkeys.len();
        match (self.step, reply) {
            (Step::GlobalRead(i), Reply::Value(answer)) => {
                self.after_read(
                    GLOBAL_SUBKEY,
                    global_value(i).0,
                    answer,
                    Step::GlobalSave(i),
                    Step::GlobalWrite(i),
                );
            },
            (Step::GlobalSave(i), Reply::Done(result)) => {
                self.after_save(result, Step::GlobalWrite(i));
            },
            (Step::GlobalWrite(i), Reply::Done(result)) => {
                self.note_write(GLOBAL_SUBKEY, global_value(i).0, &result);
                self.step = if i + 1 < 2 {
                    Step::GlobalRead(i + 1)
                } else {
                    Step::GlobalCheck(0)
                };
            },
            (Step::GlobalCheck(i), Reply::Value(answer)) => {
                let matches = match answer {
                    Ok(Some(v)) => v == global_value(i).1,
                    _ => false,
                };
                if matches && i + 1 < 2 {
                    self.step = Step::GlobalCheck(i + 1);
                } else {
                    self.status.global_ok = matches;
                    self.turn_to(0);
                }
            },
            (Step::Exists(j), Reply::Exists(false)) => {
                self.turn_to(j + 1);
            },
            (Step::Exists(j), Reply::Exists(true)) => {
                self.status.ifaces_total = self.status.ifaces_total + 1;
                self.tuned = true;
                self.step = Step::Read(j, 0);
            },
            (Step::Read(j, i), Reply::Value(answer)) => {
                let subkey = self.subkeys[j].clone();
                self.after_read(
                    subkey.as_str(),
                    iface_value(i).0,
                    answer,
                    Step::Save(j, i),
                    Step::Write(j, i),
                );
            },
            (Step::Save(j, i), Reply::Done(result)) => {
                self.after_save(result, Step::Write(j, i));
            },
            (Step::Write(j, i), Reply::Done(result)) => {
                let subkey = self.subkeys[j].clone();
                self.note_write(subkey.as_str(), iface_value(i).0, &result);
                self.tuned = self.tuned && result.is_ok();
                if i + 1 < 3 {
                    self.step = Step::Read(j, i + 1);
                } else {
                    if self.tuned {
                        self.status.ifaces_ok = self.status.ifaces_ok + 1;
                    }
                    self.turn_to(j + 1);
                }
            },
            _ => {},
        }
        assert(self@ =~= before.advance(reply@));
    }
}

/// Restores the archived values of the TCP group.
pub fn revert(archive: Archive) -> (run: Revert)
    ensures
        run@ == starting_plain(archive@, GROUP_TCP@),
        run@.wf(),
{
    Revert::plain(archive, GROUP_TCP)
}

// ---------------------------------------------------------------------------
// Status
// ---------------------------------------------------------------------------

/// True when every machine-wide value was read and matches its target.
pub open spec fn globals_match(seen: Seen) -> bool {
    forall|i: int|
        0 <= i < 2 ==> #[trigger] seen.holds(
            GLOBAL_SUBKEY@,
            global_values()[i].0,
            global_values()[i].1,
        )
}

/// True when every value of this adapter was read and matches its target.
pub open spec fn iface_matches(seen: Seen, subkey: Seq<char>) -> bool {
    forall|i: int|
        0 <= i < 3 ==> #[trigger] seen.holds(subkey, iface_values()[i].0, iface_values()[i].1)
}

/// How many of these adapters have a key.
pub open spec fn applicable(seen: Seen, subkeys: Seq<Seq<char>>) -> nat {
    subkeys.filter(|k: Seq<char>| seen.keys.contains(k)).len()
}

/// How many of these adapters have a key and are fully tuned.
pub open spec fn matching(seen: Seen, subkeys: Seq<Seq<char>>) -> nat {
    subkeys.filter(|k: Seq<char>| seen.keys.contains(k) && iface_matches(seen, k)).len()
}

/// The status that a snapshot of the registry shows for these adapters.
pub open spec fn status_of(seen: Seen, ifaces: Seq<Adapter>) -> TcpStatus {
    TcpStatus {
        ifaces_ok: matching(seen, subkeys_of(ifaces)) as usize,
        ifaces_total: applicable(seen, subkeys_of(ifaces)) as usize,
        global_ok: globals_match(seen),
    }
}

fn iface_holds(snapshot: &Snapshot, subkey: &str) -> (b: bool)
    ensures
        b == iface_matches(snapshot@, subkey@),
{
    let mut i: usize = 0;
    while i < 3
        invariant
            i <= 3,
            forall|k: int|
                0 <= k < i ==> #[trigger] snapshot@.holds(
                    subkey@,
                    iface_values()[k].0,
                    iface_values()[k].1,
                ),
        decreases 3 - i,
    {
        let (name, value) = iface_value(i);
        if !snapshot.holds(subkey, name, value) {
            assert(!snapshot@.holds(
                subkey@,
                iface_values()[i as int].0,
                iface_values()[i as int].1,
            ));
            return false;
        }
        i = i + 1;
    }
    true
}

fn globals_hold(snapshot: &Snapshot) -> (b: bool)
    ensures
        b == globals_match(snapshot@),
{
    let mut i: usize = 0;
    while i < 2
        invariant
            i <= 2,
            forall|k: int|
                0 <= k < i ==> #[trigger] snapshot@.holds(
                    GLOBAL_SUBKEY@,
                    global_values()[k].0,
                    global_values()[k].1,
                ),
        decreases 2 - i,
    {
        let (name, value) = global_value(i);
        if !snapshot.holds(GLOBAL_SUBKEY, name, value) {
            assert(!snapshot@.holds(
                GLOBAL_SUBKEY@,
                global_values()[i as int].0,
                global_values()[i as int].1,
            ));
            return false;
        }
        i = i + 1;
    }
    true
}

/// Reads the tunables out of a snapshot of the registry.
pub fn status(snapshot: &Snapshot, all: &Vec<Interface>) -> (status: TcpStatus)
    ensures
        status == status_of(snapshot@, physical_of(adapters(all@))),
{
    let ifaces = physical(all);
    let subkeys = iface_subkeys(&ifaces);
    let global_ok = globals_hold(snapshot);
    let mut total: usize = 0;
    let mut ok: usize = 0;
    let mut j: usize = 0;
    let ghost keys = views(subkeys@);
    let ghost seen = snapshot@;
    proof {
        assert(keys.take(0) =~= Seq::<Seq<char>>::empty());
        reveal(Seq::filter);
    }
    while j < subkeys.len()
        invariant
            j <= subkeys@.len(),
            keys == views(subkeys@),
            seen == snapshot@,
            ok <= total <= j,
            total == applicable(seen, keys.take(j as int)),
            ok == matching(seen, keys.take(j as int)),
        decreases subkeys@.len() - j,
    {
        let subkey = subkeys[j].as_str();
        proof {
            assert(keys.take(j + 1).drop_last() =~= keys.take(j as int));
            assert(keys.take(j + 1).last() == subkey@);
            reveal(Seq::filter);
        }
        if snapshot.key_exists(subkey) {
            total = total + 1;
            if iface_holds(snapshot, subkey) {
                ok = ok + 1;
            }
        }
        j = j + 1;
    }
    assert(keys.take(keys.len() as int) =~= keys);
    TcpStatus { ifaces_ok: ok, ifaces_total: total, global_ok }
}

/// The questions that [`status`] needs answered.
pub fn queries(all: &Vec<Interface>) -> (questions: Vec<Action>)
    ensures
        crate::ops::action_views(questions@) == questions_for(
            subkeys_of(physical_of(adapters(all@))),
        ),
{
    let ifaces = physical(all);
    let subkeys = iface_subkeys(&ifaces);
    let mut questions: Vec<Action> = Vec::new();
    questions.push(
        Action::ReadDword {
            subkey: GLOBAL_SUBKEY.to_owned(),
            name: global_value(0).0.to_owned(),
        },
    );
    questions.push(
        Action::ReadDword {
            subkey: GLOBAL_SUBKEY.to_owned(),
            name: global_value(1).0.to_owned(),
        },
    );
    let ghost keys = views(subkeys@);
    let mut j: usize = 0;
    proof {
        assert(keys.take(0) =~= Seq::<Seq<char>>::empty());
        assert(crate::ops::action_views(questions@) =~= questions_for(keys.take(0)));
    }
    while j < subkeys.len()
        invariant
            j <= subkeys@.len(),
            keys == views(subkeys@),
            crate::ops::action_views(questions@) == questions_for(keys.take(j as int)),
        decreases subkeys@.len() - j,
    {
        let ghost before = questions@;
        proof {
            assert(keys.take(j + 1).drop_last() =~= keys.take(j as int));
            assert(keys.take(j + 1).last() == subkeys@[j as int]@);
        }
        questions.push(Action::KeyExists { subkey: subkeys[j].clone() });
        questions.push(
            Action::ReadDword { subkey: subkeys[j].clone(), name: iface_value(0).0.to_owned() },
        );
        questions.push(
            Action::ReadDword { subkey: subkeys[j].clone(), name: iface_value(1).0.to_owned() },
        );
        questions.push(
            Action::ReadDword { subkey: subkeys[j].clone(), name: iface_value(2).0.to_owned() },
        );
        assert(crate::ops::action_views(questions@) =~= crate::ops::action_views(before)
            + questions_about(subkeys@[j as int]@));
        j = j + 1;
    }
    assert(keys.take(keys.len() as int) =~= keys);
    questions
}

/// The questions about one adapter.
pub open spec fn questions_about(subkey: Seq<char>) -> Seq<Act> {
    seq![
        Act::KeyExists { subkey },
        Act::ReadDword { subkey, name: iface_values()[0].0 },
        Act::ReadDword { subkey, name: iface_values()[1].0 },
        Act::ReadDword { subkey, name: iface_values()[2].0 },
    ]
}

/// The machine-wide questions, and those about these adapters.
pub open spec fn questions_for(subkeys: Seq<Seq<char>>) -> Seq<Act>
    decreases subkeys.len(),
{
    if subkeys.len() == 0 {
        seq![
            Act::ReadDword { subkey: GLOBAL_SUBKEY@, name: global_values()[0].0 },
            Act::ReadDword { subkey: GLOBAL_SUBKEY@, name: global_values()[1].0 },
        ]
    } else {
        questions_for(subkeys.drop_last()) + questions_about(subkeys.last())
    }
}

// ---------------------------------------------------------------------------
// What an apply run guarantees
// ---------------------------------------------------------------------------

/// What an apply run keeps with every step, in a machine whose registry was
/// `original` before the first tweak and is `current` now, and whose archive on
/// disk is `disk`.
pub open spec fn sound(original: Registry, current: Registry, disk: Saved, run: Tuning) -> bool {
    &&& run.wf()
    &&& recoverable(original, current, disk.values)
    &&& harmless_pending(original, disk.values, run.pending())
    &&& match run.step {
        Step::GlobalSave(i) => saving(
            original,
            current,
            disk,
            run.archive,
            GLOBAL_SUBKEY@,
            global_values()[i as int].0,
        ),
        Step::Save(j, i) => saving(
            original,
            current,
            disk,
            run.archive,
            run.subkeys[j as int],
            iface_values()[i as int].0,
        ),
        Step::GlobalWrite(i) => safe(original, current, disk, run.archive) && archived(
            run.archive.values,
            GLOBAL_SUBKEY@,
            global_values()[i as int].0,
        ),
        Step::Write(j, i) => safe(original, current, disk, run.archive) && archived(
            run.archive.values,
            run.subkeys[j as int],
            iface_values()[i as int].0,
        ),
        _ => safe(original, current, disk, run.archive),
    }
}

impl Tuning {
    /// How many replies the run waits for at most.
    pub open spec fn remaining(self) -> int {
        let n = self.subkeys.len();
        match self.step {
            Step::GlobalRead(i) => 3 * (2 - i) + 3 + 10 * n,
            Step::GlobalSave(i) => 3 * (2 - i) + 2 + 10 * n,
            Step::GlobalWrite(i) => 3 * (2 - i) + 1 + 10 * n,
            Step::GlobalCheck(i) => (2 - i) + 1 + 10 * n,
            Step::Exists(j) => 10 * (n - j) + 1,
            Step::Read(j, i) => 10 * (n - j - 1) + 3 * (3 - i) + 1,
            Step::Save(j, i) => 10 * (n - j - 1) + 3 * (3 - i),
            Step::Write(j, i) => 10 * (n - j - 1) + 3 * (3 - i) - 1,
            Step::Finished => 0,
        }
    }
}

/// A run that starts in a safe machine starts out sound.
pub proof fn tuning_starts_sound(
    original: Registry,
    current: Registry,
    disk: Saved,
    archive: Saved,
    ifaces: Seq<Adapter>,
)
    requires
        safe(original, current, disk, archive),
        ifaces.len() <= usize::MAX,
    ensures
        sound(original, current, disk, tuning(archive, ifaces)),
        forall|readable: Set<Seq<char>>|
            {
                &&& #[trigger] progress(current, readable, tuning(archive, ifaces))
                &&& counted(readable, tuning(archive, ifaces))
            },
{
}

/// A run that has ended, with success or without, leaves a safe machine: every
/// entry that it has added to its archive is on disk.
pub proof fn tuning_ends_safe(original: Registry, current: Registry, disk: Saved, run: Tuning)
    requires
        sound(original, current, disk, run),
        run.result is Some,
    ensures
        safe(original, current, disk, run.archive),
{
}

/// The values of this group have distinct names, and no other group uses them.
proof fn names_are_distinct()
    ensures
        forall|i: int| 0 <= i < 2 ==> group_of(#[trigger] global_values()[i].0) == GROUP_TCP@,
        forall|i: int| 0 <= i < 3 ==> group_of(#[trigger] iface_values()[i].0) == GROUP_TCP@,
        forall|i: int, k: int|
            0 <= i < 2 && 0 <= k < 2 && i != k ==> (#[trigger] global_values()[i]).0
                != (#[trigger] global_values()[k]).0,
        forall|i: int, k: int|
            0 <= i < 3 && 0 <= k < 3 && i != k ==> (#[trigger] iface_values()[i]).0
                != (#[trigger] iface_values()[k]).0,
        forall|i: int, k: int|
            0 <= i < 2 && 0 <= k < 3 ==> (#[trigger] global_values()[i]).0
                != (#[trigger] iface_values()[k]).0,
{
    reveal_strlit("TcpTimedWaitDelay");
    reveal_strlit("MaxUserPort");
    reveal_strlit("TCPNoDelay");
    reveal_strlit("TcpAckFrequency");
    reveal_strlit("TcpDelAckTicks");
    reveal_strlit("MTU");
    reveal_strlit("PnPCapabilities");
    reveal_strlit("NetworkThrottlingIndex");
    assert("TcpTimedWaitDelay"@.len() == 17);
    assert("MaxUserPort"@.len() == 11);
    assert("TCPNoDelay"@.len() == 10);
    assert("TcpAckFrequency"@.len() == 15);
    assert("TcpDelAckTicks"@.len() == 14);
    assert("MTU"@.len() == 3);
    assert("PnPCapabilities"@.len() == 15);
    assert("NetworkThrottlingIndex"@.len() == 22);
    assert("TcpAckFrequency"@[0] == 'T' && "PnPCapabilities"@[0] == 'P');
    assert(group_of("TcpTimedWaitDelay"@) == GROUP_TCP@);
    assert(group_of("MaxUserPort"@) == GROUP_TCP@);
    assert(group_of("TCPNoDelay"@) == GROUP_TCP@);
    assert(group_of("TcpAckFrequency"@) == GROUP_TCP@);
    assert(group_of("TcpDelAckTicks"@) == GROUP_TCP@);
}

/// Every step of an apply run keeps the machine recoverable from the archive on
/// disk, whatever the step answers, and brings the run closer to its end.
pub proof fn tuning_keeps_recoverable(
    original: Registry,
    before: Registry,
    disk: Saved,
    run: Tuning,
    reply: Rep,
    after: Registry,
)
    requires
        sound(original, before, disk, run),
        run.pending() is Some,
        truthful(before, run.pending()->0, reply, after),
    ensures
        sound(
            original,
            after,
            on_disk(disk, run.archive, run.pending()->0, reply),
            run.advance(reply),
        ),
        0 <= run.advance(reply).remaining() < run.remaining(),
{
    names_are_distinct();
    match run.step {
        Step::GlobalSave(i) => {
            saving_ends_safe(
                original,
                before,
                disk,
                run.archive,
                GLOBAL_SUBKEY@,
                global_values()[i as int].0,
                reply,
                after,
            );
        },
        Step::Save(j, i) => {
            saving_ends_safe(
                original,
                before,
                disk,
                run.archive,
                run.subkeys[j as int],
                iface_values()[i as int].0,
                reply,
                after,
            );
        },
        _ => {
            acting_keeps_safe(
                original,
                before,
                disk,
                run.archive,
                run.pending()->0,
                reply,
                after,
            );
        },
    }
    match run.step {
        Step::GlobalRead(i) => {
            recording_is_safe_or_saving(
                original,
                after,
                disk,
                run.archive,
                GROUP_TCP@,
                GLOBAL_SUBKEY@,
                global_values()[i as int].0,
            );
        },
        Step::Read(j, i) => {
            recording_is_safe_or_saving(
                original,
                after,
                disk,
                run.archive,
                GROUP_TCP@,
                run.subkeys[j as int],
                iface_values()[i as int].0,
            );
        },
        _ => {},
    }
}

/// The adapter with this key carries every value of the tuning.
pub open spec fn iface_tuned(reg: Registry, subkey: Seq<char>) -> bool {
    forall|i: int|
        0 <= i < 3 ==> value_of(reg, subkey, (#[trigger] iface_values()[i]).0) == Some(
            iface_values()[i].1,
        )
}

/// The machine-wide values are set.
pub open spec fn globals_tuned(reg: Registry) -> bool {
    forall|i: int|
        0 <= i < 2 ==> value_of(reg, GLOBAL_SUBKEY@, (#[trigger] global_values()[i]).0) == Some(
            global_values()[i].1,
        )
}

/// What has been reached so far by a run that has met no failure: all values
/// up to the present one are set, on every adapter whose key is readable.
pub open spec fn progress(reg: Registry, readable: Set<Seq<char>>, run: Tuning) -> bool {
    run.failure is None && !(run.result matches Some(Err(_))) ==> {
        &&& forall|i: int|
            0 <= i < run.globals_done() ==> value_of(
                reg,
                GLOBAL_SUBKEY@,
                (#[trigger] global_values()[i]).0,
            ) == Some(global_values()[i].1)
        &&& forall|j: int|
            0 <= j < run.ifaces_done() && readable.contains(#[trigger] run.subkeys[j])
                ==> iface_tuned(reg, run.subkeys[j])
        &&& match run.step {
            Step::Read(j, n) | Step::Save(j, n) | Step::Write(j, n) => {
                &&& run.tuned
                &&& run.status.ifaces_ok + 1 == run.status.ifaces_total
                &&& forall|i: int|
                    0 <= i < n ==> value_of(
                        reg,
                        run.subkeys[j as int],
                        (#[trigger] iface_values()[i]).0,
                    ) == Some(iface_values()[i].1)
            },
            _ => run.status.ifaces_ok == run.status.ifaces_total,
        }
        &&& run.result matches Some(Ok(status)) ==> status == run.status
    }
}

impl Tuning {
    /// How many machine-wide values have been written.
    pub open spec fn globals_done(self) -> int {
        match self.step {
            Step::GlobalRead(i) | Step::GlobalSave(i) | Step::GlobalWrite(i) => i as int,
            _ => 2,
        }
    }

    /// How many adapters have been dealt with.
    pub open spec fn ifaces_done(self) -> int {
        match self.step {
            Step::GlobalRead(_)
            | Step::GlobalSave(_)
            | Step::GlobalWrite(_)
            | Step::GlobalCheck(_) => 0,
            Step::Exists(j) | Step::Read(j, _) | Step::Save(j, _) | Step::Write(j, _) => j as int,
            Step::Finished => self.subkeys.len() as int,
        }
    }
}

/// Every step of a run keeps its [`progress`].
pub proof fn tuning_makes_progress(
    before: Registry,
    readable: Set<Seq<char>>,
    run: Tuning,
    reply: Rep,
    after: Registry,
)
    requires
        run.wf(),
        progress(before, readable, run),
        run.pending() is Some,
        truthful(before, run.pending()->0, reply, after),
        run.pending()->0 matches Act::KeyExists { subkey } ==> reply == Rep::Exists(
            readable.contains(subkey),
        ),
    ensures
        progress(after, readable, run.advance(reply)),
{
    names_are_distinct();
    let next = run.advance(reply);
    if next.failure is None && !(next.result matches Some(Err(_))) {
        assert(run.failure is None);
        assert forall|i: int| 0 <= i < next.globals_done() implies value_of(
            after,
            GLOBAL_SUBKEY@,
            (#[trigger] global_values()[i]).0,
        ) == Some(global_values()[i].1) by {
            if i < run.globals_done() {
                assert(value_of(before, GLOBAL_SUBKEY@, global_values()[i].0) == Some(
                    global_values()[i].1,
                ));
            }
        }
        assert forall|j: int|
            0 <= j < next.ifaces_done() && readable.contains(
                #[trigger] next.subkeys[j],
            ) implies iface_tuned(after, next.subkeys[j]) by {
            assert(next.subkeys == run.subkeys);
            assert forall|i: int| 0 <= i < 3 implies value_of(
                after,
                run.subkeys[j],
                (#[trigger] iface_values()[i]).0,
            ) == Some(iface_values()[i].1) by {
                if j < run.ifaces_done() {
                    assert(iface_tuned(before, run.subkeys[j]));
                    assert(value_of(before, run.subkeys[j], iface_values()[i].0) == Some(
                        iface_values()[i].1,
                    ));
                }
            }
        }
    }
}

/// How many of these keys are readable.
pub open spec fn readable_count(readable: Set<Seq<char>>, subkeys: Seq<Seq<char>>) -> nat {
    subkeys.filter(|k: Seq<char>| readable.contains(k)).len()
}

/// What the status of a run that has met no failure says so far: every readable
/// key up to the present adapter is counted, and once they were checked the
/// machine-wide values are known to match.
pub open spec fn counted(readable: Set<Seq<char>>, run: Tuning) -> bool {
    run.failure is None && !(run.result matches Some(Err(_))) ==> {
        let begun = match run.step {
            Step::Read(j, _) | Step::Save(j, _) | Step::Write(j, _) => j + 1,
            _ => run.ifaces_done(),
        };
        &&& run.status.ifaces_total == readable_count(readable, run.subkeys.take(begun))
        &&& !(run.step is GlobalRead || run.step is GlobalSave || run.step is GlobalWrite
            || run.step is GlobalCheck) ==> run.status.global_ok
        &&& match run.step {
            Step::Read(j, _) | Step::Save(j, _) | Step::Write(j, _) => readable.contains(
                run.subkeys[j as int],
            ),
            _ => true,
        }
    }
}

/// Every step of a run in which the machine-wide values can be read back keeps
/// its status right.
pub proof fn tuning_counts_the_adapters(
    before: Registry,
    readable: Set<Seq<char>>,
    run: Tuning,
    reply: Rep,
    after: Registry,
)
    requires
        run.wf(),
        progress(before, readable, run),
        counted(readable, run),
        run.pending() is Some,
        truthful(before, run.pending()->0, reply, after),
        run.pending()->0 matches Act::KeyExists { subkey } ==> reply == Rep::Exists(
            readable.contains(subkey),
        ),
        run.step is GlobalCheck ==> reply matches Rep::Value(Ok(_)),
    ensures
        counted(readable, run.advance(reply)),
{
    reveal(Seq::filter);
    let keys = run.subkeys;
    assert(keys.take(0) =~= Seq::<Seq<char>>::empty());
    assert(keys.take(keys.len() as int) =~= keys);
    if let Step::Exists(j) = run.step {
        assert(keys.take(j + 1).drop_last() =~= keys.take(j as int));
        assert(keys.take(j + 1).last() == keys[j as int]);
    }
}

/// A run that reports success has brought the machine into the target state:
/// the machine-wide values are set, and so are those of every adapter whose
/// key is readable. Where the machine-wide values could be read back, the status
/// that it reports says so too: it counts exactly these adapters and is aligned.
pub proof fn successful_apply_tunes(reg: Registry, readable: Set<Seq<char>>, run: Tuning)
    requires
        run.wf(),
        progress(reg, readable, run),
        run.result matches Some(Ok(_)),
    ensures
        globals_tuned(reg),
        forall|j: int|
            0 <= j < run.subkeys.len() && readable.contains(#[trigger] run.subkeys[j])
                ==> iface_tuned(reg, run.subkeys[j]),
        run.result matches Some(Ok(status)) && status.ifaces_ok == status.ifaces_total,
        counted(readable, run) ==> (run.result matches Some(Ok(status)) && {
            &&& status.global_ok
            &&& status.ifaces_total == readable_count(readable, run.subkeys)
            &&& status.is_aligned()
        }),
{
    assert(run.subkeys.take(run.subkeys.len() as int) =~= run.subkeys);
}

/// A machine in the target state is reported as aligned by every snapshot that
/// shows it as it is.
pub proof fn tuned_machine_is_aligned(
    reg: Registry,
    readable: Set<Seq<char>>,
    seen: Seen,
    ifaces: Seq<Adapter>,
)
    requires
        globals_tuned(reg),
        forall|j: int|
            0 <= j < ifaces.len() && readable.contains(#[trigger] subkeys_of(ifaces)[j])
                ==> iface_tuned(reg, subkeys_of(ifaces)[j]),
        forall|i: int|
            0 <= i < 2 ==> seen.shows(
                reg,
                readable,
                GLOBAL_SUBKEY@,
                (#[trigger] global_values()[i]).0,
            ),
        forall|j: int, i: int|
            0 <= j < ifaces.len() && 0 <= i < 3 ==> seen.shows(
                reg,
                readable,
                #[trigger] subkeys_of(ifaces)[j],
                (#[trigger] iface_values()[i]).0,
            ),
    ensures
        status_of(seen, ifaces).is_aligned(),
{
    let subkeys = subkeys_of(ifaces);
    assert forall|i: int| 0 <= i < 2 implies #[trigger] seen.holds(
        GLOBAL_SUBKEY@,
        global_values()[i].0,
        global_values()[i].1,
    ) by {
        assert(seen.shows(reg, readable, GLOBAL_SUBKEY@, global_values()[i].0));
    }
    assert forall|j: int| 0 <= j < subkeys.len() && seen.keys.contains(#[trigger] subkeys[j]) implies
        iface_matches(seen, subkeys[j]) by {
        assert forall|i: int| 0 <= i < 3 implies #[trigger] seen.holds(
            subkeys[j],
            iface_values()[i].0,
            iface_values()[i].1,
        ) by {
            assert(seen.shows(reg, readable, subkeys[j], iface_values()[i].0));
        }
    }
    same_filter(seen, subkeys);
}

proof fn same_filter(seen: Seen, subkeys: Seq<Seq<char>>)
    requires
        forall|j: int|
            0 <= j < subkeys.len() && seen.keys.contains(#[trigger] subkeys[j]) ==> iface_matches(
                seen,
                subkeys[j],
            ),
    ensures
        matching(seen, subkeys) == applicable(seen, subkeys),
    decreases subkeys.len(),
{
    reveal(Seq::filter);
    if subkeys.len() > 0 {
        let front = subkeys.drop_last();
        assert forall|j: int| 0 <= j < front.len() && seen.keys.contains(#[trigger] front[j]) implies
            iface_matches(seen, front[j]) by {
            assert(subkeys[j] == front[j]);
        }
        same_filter(seen, front);
        assert(subkeys[subkeys.len() - 1] == subkeys.last());
    }
}

} // verus!
