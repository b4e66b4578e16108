//! Network-adapter power-management control.
//!
//! Windows lets an adapter turn itself off while idle. The switch is the
//! `PnPCapabilities` DWORD next to the adapter's driver key; bit `0x10` means
//! that the computer may not turn the device off. The tweak sets that bit and
//! its companion `0x08`.

use vstd::prelude::*;

use crate::config::{ensured, recorded, taken_back, Archive, Saved, GROUP_POWER};
use crate::mtu::{conclude, verdict};
use crate::ops::{
    outcome_view, pending_view, result_view, truthful, value_of, Act, Action,
    Registry, Rep, Reply,
};
use crate::recovery::{
    acting_keeps_safe, archived, group_of, harmless_pending, on_disk, recording_is_safe_or_saving,
    recoverable, safe, saving, saving_ends_safe,
};
use crate::registry::{read_error, read_message};
use crate::revert::{starting_plain, Revert};
use crate::text;
use crate::text::{hex_lower, views};

verus! {

/// The driver nodes of network adapters.
pub const CLASS_SUBKEY: &'static str =
    "SYSTEM\\CurrentControlSet\\Control\\Class\\{4d36e972-e325-11ce-bfc1-08002be10318}";

/// The power-management value of a node.
pub const VALUE: &'static str = "PnPCapabilities";

/// Instance GUID value that marks a driver node as a NIC.
pub const NODE_GUID: &'static str = "NetCfgInstanceId";

/// The driver description of a node.
pub const NODE_DESCRIPTION: &'static str = "DriverDesc";

/// Bit meaning "the computer is not allowed to turn off this device".
pub const POWER_BIT: u32 = 0x10;

/// `POWER_BIT` plus the companion bit most NIC drivers require together.
pub const APPLIED_BITS: u32 = 0x18;

/// What was read about one driver node.
#[derive(Debug)]
pub struct Node {
    /// The node's name under [`CLASS_SUBKEY`].
    pub name: String,
    /// Its [`NODE_GUID`].
    pub guid: Result<Option<String>, String>,
    /// Its [`NODE_DESCRIPTION`].
    pub description: Result<Option<String>, String>,
    /// Its [`VALUE`].
    pub value: Result<Option<u32>, String>,
}

/// One NIC driver node and its current power-management value.
#[derive(Debug)]
pub struct Nic {
    /// Full registry subkey of the node.
    pub subkey: String,
    /// Adapter GUID from `NetCfgInstanceId`.
    pub guid: String,
    /// Driver description (`DriverDesc`).
    pub description: String,
    /// Current `PnPCapabilities` value, if present.
    pub value: Option<u32>,
}

/// A [`Nic`] over texts.
pub struct NicNode {
    pub subkey: Seq<char>,
    pub guid: Seq<char>,
    pub description: Seq<char>,
    pub value: Option<u32>,
}

impl View for Nic {
    type V = NicNode;

    open spec fn view(&self) -> NicNode {
        NicNode {
            subkey: self.subkey@,
            guid: self.guid@,
            description: self.description@,
            value: self.value,
        }
    }
}

/// Driver nodes over texts.
pub open spec fn nic_views(v: Seq<Nic>) -> Seq<NicNode> {
    Seq::new(v.len(), |i: int| v[i]@)
}

/// The key of a driver node.
pub open spec fn node_key(name: Seq<char>) -> Seq<char> {
    CLASS_SUBKEY@ + "\\"@ + name
}

/// The key of a driver node.
pub fn node_subkey(name: &str) -> (subkey: String)
    ensures
        subkey@ == node_key(name@),
{
    CLASS_SUBKEY.to_owned().concat("\\").concat(name)
}

/// The NIC that a driver node stands for: a node without a readable GUID is
/// none; a description or a value that cannot be read counts as absent.
pub open spec fn nic_of(node: Node) -> Option<NicNode> {
    match node.guid {
        Ok(Some(guid)) => Some(
            NicNode {
                subkey: node_key(node.name@),
                guid: guid@,
                description: match node.description {
                    Ok(Some(d)) => d@,
                    _ => Seq::empty(),
                },
                value: match node.value {
                    Ok(v) => v,
                    Err(_) => None,
                },
            },
        ),
        _ => None,
    }
}

/// The NICs among these nodes, in order.
pub open spec fn nics_of(nodes: Seq<Node>) -> Seq<NicNode>
    decreases nodes.len(),
{
    if nodes.len() == 0 {
        Seq::empty()
    } else {
        let rest = nics_of(nodes.drop_last());
        match nic_of(nodes.last()) {
            Some(nic) => rest.push(nic),
            None => rest,
        }
    }
}

/// The NICs that an enumeration of the driver nodes found. Errors are skipped,
/// so that one broken node cannot spoil the whole group.
pub fn nics(nodes: &Result<Vec<Node>, String>) -> (nics: Vec<Nic>)
    ensures
        nic_views(nics@) == match *nodes {
            Ok(v) => nics_of(v@),
            Err(_) => Seq::empty(),
        },
{
    let mut found: Vec<Nic> = Vec::new();
    assert(nic_views(found@) =~= Seq::<NicNode>::empty());
    match nodes {
        Err(_) => found,
        Ok(v) => {
            let mut i: usize = 0;
            assert(v@.take(0) =~= Seq::<Node>::empty());
            while i < v.len()
                invariant
                    i <= v@.len(),
                    nic_views(found@) == nics_of(v@.take(i as int)),
                decreases v@.len() - i,
            {
                let node = &v[i];
                let ghost before = found@;
                proof {
                    assert(v@.take(i + 1).drop_last() =~= v@.take(i as int));
                    assert(v@.take(i + 1).last() == *node);
                }
                if let Ok(Some(guid)) = &node.guid {
                    let description = match &node.description {
                        Ok(Some(d)) => d.clone(),
                        _ => String::new(),
                    };
                    let value: Option<u32> = match &node.value {
                        Ok(value) => *value,
                        Err(_) => None,
                    };
                    let nic = Nic {
                        subkey: node_subkey(node.name.as_str()),
                        guid: guid.clone(),
                        description,
                        value,
                    };
                    let ghost shown = nic@;
                    assert(nic_of(*node) == Some(shown));
                    found.push(nic);
                    assert(nic_views(found@) =~= nic_views(before).push(shown));
                }
                i = i + 1;
            }
            assert(v@.take(v@.len() as int) =~= v@);
            found
        },
    }
}

/// The failed readings of these driver nodes, in order: a value of a NIC that
/// could not be read. A node without a readable GUID is no NIC.
pub open spec fn unread_values(nodes: Seq<Node>) -> Seq<Seq<char>>
    decreases nodes.len(),
{
    if nodes.len() == 0 {
        Seq::empty()
    } else {
        let rest = unread_values(nodes.drop_last());
        match (nic_of(nodes.last()), nodes.last().value) {
            (Some(nic), Err(e)) => rest.push(read_error(nic.subkey, VALUE@, e@)),
            _ => rest,
        }
    }
}

/// The failed readings of an enumeration of the driver nodes; one that failed
/// itself has read nothing at all.
pub open spec fn unread_of(nodes: Result<Vec<Node>, String>) -> Seq<Seq<char>> {
    match nodes {
        Ok(v) => unread_values(v@),
        Err(e) => seq!["read "@ + CLASS_SUBKEY@ + ": "@ + e@],
    }
}

/// The failed readings of an enumeration of the driver nodes.
pub fn unread(nodes: &Result<Vec<Node>, String>) -> (failures: Vec<String>)
    ensures
        views(failures@) == unread_of(*nodes),
{
    let mut failures: Vec<String> = Vec::new();
    match nodes {
        Err(e) => {
            failures.push(
                "read ".to_owned().concat(CLASS_SUBKEY).concat(": ").concat(e.as_str()),
            );
            assert(views(failures@) =~= unread_of(*nodes));
        },
        Ok(v) => {
            let mut i: usize = 0;
            assert(v@.take(0) =~= Seq::<Node>::empty());
            assert(views(failures@) =~= unread_values(v@.take(0)));
            while i < v.len()
                invariant
                    i <= v@.len(),
                    views(failures@) == unread_values(v@.take(i as int)),
                decreases v@.len() - i,
            {
                let node = &v[i];
                let ghost before = failures@;
                proof {
                    assert(v@.take(i + 1).drop_last() =~= v@.take(i as int));
                    assert(v@.take(i + 1).last() == *node);
                }
                if let (Ok(Some(_)), Err(e)) = (&node.guid, &node.value) {
                    let subkey = node_subkey(node.name.as_str());
                    let message = read_message(subkey.as_str(), VALUE, e.as_str());
                    let ghost shown = message@;
                    failures.push(message);
                    assert(views(failures@) =~= views(before).push(shown));
                }
                i = i + 1;
            }
            assert(v@.take(v@.len() as int) =~= v@);
        },
    }
    failures
}

/// There is a message exactly when the nodes could not be enumerated or the value
/// of a NIC could not be read.
pub proof fn failures_tell_of_a_nic(nodes: Result<Vec<Node>, String>)
    ensures
        unread_of(nodes).len() > 0 <==> (match nodes {
            Err(_) => true,
            Ok(v) => exists|i: int|
                0 <= i < v@.len() && nic_of(#[trigger] v@[i]) is Some && v@[i].value is Err,
        }),
{
    if let Ok(v) = nodes {
        failures_tell_of_a_value(v@);
    }
}

proof fn failures_tell_of_a_value(nodes: Seq<Node>)
    ensures
        unread_values(nodes).len() > 0 <==> exists|i: int|
            0 <= i < nodes.len() && nic_of(#[trigger] nodes[i]) is Some && nodes[i].value is Err,
    decreases nodes.len(),
{
    if nodes.len() > 0 {
        let front = nodes.drop_last();
        failures_tell_of_a_value(front);
        assert(nodes[nodes.len() - 1] == nodes.last());
        assert forall|i: int| 0 <= i < front.len() implies front[i] == #[trigger] nodes[i] by {}
        if exists|i: int|
            0 <= i < front.len() && nic_of(#[trigger] front[i]) is Some && front[i].value is Err {
            let i = choose|i: int|
                0 <= i < front.len() && nic_of(#[trigger] front[i]) is Some && front[i].value is Err;
            assert(nic_of(nodes[i]) is Some);
        }
    }
}

/// The NIC may not be turned off.
pub open spec fn stays_on(value: Option<u32>) -> bool {
    value matches Some(v) && v & POWER_BIT != 0
}

/// True when every one of these NICs disallows power-down.
pub open spec fn all_stay_on(nodes: Seq<NicNode>) -> bool {
    forall|i: int| 0 <= i < nodes.len() ==> stays_on((#[trigger] nodes[i]).value)
}

/// True when every one of these NICs disallows power-down.
pub fn all_disallow(nodes: &Vec<Nic>) -> (b: bool)
    ensures
        b == all_stay_on(nic_views(nodes@)),
{
    let ghost shown = nic_views(nodes@);
    let mut i: usize = 0;
    while i < nodes.len()
        invariant
            i <= nodes@.len(),
            shown == nic_views(nodes@),
            forall|k: int| 0 <= k < i ==> stays_on((#[trigger] shown[k]).value),
        decreases nodes@.len() - i,
    {
        assert(shown[i as int] == nodes@[i as int]@);
        let on = match nodes[i].value {
            Some(v) => v & POWER_BIT != 0,
            None => false,
        };
        if !on {
            return false;
        }
        i = i + 1;
    }
    true
}

/// True when every NIC already disallows power-down. A machine without NIC
/// nodes counts as aligned.
pub fn status(nodes: &Vec<Nic>) -> (b: bool)
    ensures
        b == all_stay_on(nic_views(nodes@)),
{
    if nodes.len() == 0 {
        return true;
    }
    all_disallow(nodes)
}

// ---------------------------------------------------------------------------
// Applying
// ---------------------------------------------------------------------------

/// How far an apply run has come; the number is that of the NIC.
#[derive(Clone, Copy, Debug, PartialEq, Eq, Structural)]
pub enum Step {
    Read(usize),
    /// Save the archive, and write this value next.
    Save(usize, u32),
    /// Write this value.
    Write(usize, u32),
    Finished,
}

/// A run that tells every NIC to stay on. Each value is archived, and the
/// archive saved, before it is written.
#[derive(Debug)]
pub struct Apply {
    pub archive: Archive,
    pub nics: Vec<Nic>,
    pub step: Step,
    /// What failed so far.
    pub errors: Vec<String>,
    /// The outcome, once the run has finished.
    pub result: Option<Result<(), String>>,
}

/// An [`Apply`] over texts.
#[verifier::ext_equal]
pub struct Powering {
    pub archive: Saved,
    pub nics: Seq<NicNode>,
    pub step: Step,
    pub errors: Seq<Seq<char>>,
    pub result: Option<Result<(), Seq<char>>>,
}

impl View for Apply {
    type V = Powering;

    open spec fn view(&self) -> Powering {
        Powering {
            archive: self.archive@,
            nics: nic_views(self.nics@),
            step: self.step,
            errors: views(self.errors@),
            result: outcome_view(self.result),
        }
    }
}

/// The value that keeps a NIC on: what was there, with the bits set.
pub open spec fn target_of(current: Option<u32>) -> u32 {
    match current {
        Some(v) => v | APPLIED_BITS,
        None => APPLIED_BITS,
    }
}

impl Powering {
    /// The number of the step is in range.
    pub open spec fn wf(self) -> bool {
        &&& self.nics.len() <= usize::MAX
        &&& match self.step {
            Step::Read(k) | Step::Save(k, _) | Step::Write(k, _) => k < self.nics.len(),
            Step::Finished => true,
        }
        &&& self.step is Save ==> self.archive.values.len() > 0
        &&& self.step is Finished <==> self.result is Some
        &&& self.result matches Some(Ok(_)) ==> self.errors.len() == 0
    }

    /// The action that the run waits for.
    pub open spec fn pending(self) -> Option<Act> {
        match self.step {
            Step::Read(k) => Some(
                Act::ReadDword { subkey: self.nics[k as int].subkey, name: VALUE@ },
            ),
            Step::Write(k, value) => Some(
                Act::WriteDword { subkey: self.nics[k as int].subkey, name: VALUE@, value },
            ),
            Step::Save(_, _) => Some(Act::SaveArchive),
            Step::Finished => None,
        }
    }

    /// The state that ends the run.
    pub open spec fn finish(self, result: Result<(), Seq<char>>) -> Powering {
        Powering { step: Step::Finished, result: Some(result), ..self }
    }

    /// The state in which NIC `k` is next, or the run ends.
    pub open spec fn turn_to(self, k: int) -> Powering {
        if k < self.nics.len() {
            Powering { step: Step::Read(k as usize), ..self }
        } else {
            self.finish(verdict(self.errors))
        }
    }

    /// The state after `reply`; a reply that does not fit changes nothing.
    pub open spec fn advance(self, reply: Rep) -> Powering {
        match (self.step, reply) {
            (Step::Read(k), Rep::Value(Err(e))) => self.finish(
                Err("read "@ + self.nics[k as int].description + ": "@ + e),
            ),
            (Step::Read(k), Rep::Value(Ok(current))) => Powering {
                step: if recorded(
                    self.archive.values,
                    GROUP_POWER@,
                    self.nics[k as int].subkey,
                    VALUE@,
                ) {
                    Step::Write(k, target_of(current))
                } else {
                    Step::Save(k, target_of(current))
                },
                archive: Saved {
                    values: ensured(
                        self.archive.values,
                        GROUP_POWER@,
                        self.nics[k as int].subkey,
                        VALUE@,
                        current,
                    ),
                    dns: self.archive.dns,
                },
                ..self
            },
            (Step::Save(k, value), Rep::Done(Ok(_))) => Powering {
                step: Step::Write(k, value),
                ..self
            },
            (Step::Save(_, _), Rep::Done(Err(e))) => Powering {
                archive: taken_back(self.archive),
                ..self
            }.finish(Err(e)),
            (Step::Write(k, _), Rep::Done(Err(e))) => Powering {
                errors: self.errors.push(
                    self.nics[k as int].description + ": write PnPCapabilities: "@ + e,
                ),
                ..self
            }.turn_to(k + 1),
            (Step::Write(k, _), Rep::Done(Ok(_))) => self.turn_to(k + 1),
            _ => self,
        }
    }

    /// What the log is told when `reply` comes in.
    pub open spec fn notes(self, reply: Rep) -> Seq<Seq<char>> {
        match (self.step, reply) {
            (Step::Write(k, value), Rep::Done(_)) => seq![
                "power: "@ + self.nics[k as int].description + " ("@ + self.nics[k as int].guid
                    + ") PnPCapabilities -> 0x"@ + hex_lower(value as nat),
            ],
            _ => Seq::empty(),
        }
    }

    /// How many replies the run waits for at most.
    pub open spec fn remaining(self) -> int {
        let n = self.nics.len();
        match self.step {
            Step::Read(k) => 3 * (n - k),
            Step::Save(k, _) => 3 * (n - k) - 1,
            Step::Write(k, _) => 3 * (n - k) - 2,
            Step::Finished => 0,
        }
    }
}

/// The first state of a run.
pub open spec fn powering(archive: Saved, nics: Seq<NicNode>) -> Powering {
    Powering {
        archive,
        nics,
        step: Step::Finished,
        errors: Seq::empty(),
        result: None,
    }.turn_to(0)
}

/// Applies the "no power-down" flags to every NIC, archiving each node's
/// present value first.
pub fn apply(archive: Archive, nics: Vec<Nic>) -> (run: Apply)
    ensures
        run@ == powering(archive@, nic_views(nics@)),
        run@.wf(),
{
    let count: usize = nics.len();
    assert(nic_views(nics@).len() == count);
    let mut run = Apply {
        archive,
        nics,
        step: Step::Finished,
        errors: Vec::new(),
        result: None,
    };
    assert(run@.errors =~= Seq::<Seq<char>>::empty());
    run.turn_to(0);
    run
}

impl Apply {
    /// The action to perform next, `None` once the run has finished.
    pub fn pending(&self) -> (action: Option<Action>)
        requires
            self@.wf(),
        ensures
            pending_view(action) == self@.pending(),
    {
        match self.step {
            Step::Read(k) => Some(
                Action::ReadDword { subkey: self.nics[k].subkey.clone(), name: VALUE.to_owned() },
            ),
            Step::Write(k, value) => Some(
                Action::WriteDword {
                    subkey: self.nics[k].subkey.clone(),
                    name: VALUE.to_owned(),
                    value,
                },
            ),
            Step::Save(_, _) => Some(Action::SaveArchive),
            Step::Finished => None,
        }
    }

    /// What the log is told when `reply` comes in.
    pub fn notes(&self, reply: &Reply) -> (notes: Vec<String>)
        requires
            self@.wf(),
        ensures
            views(notes@) == self@.notes(reply@),
    {
        let mut notes: Vec<String> = Vec::new();
        if let (Step::Write(k, value), Reply::Done(_)) = (self.step, reply) {
            let number = text::hex_small(value as u64);
            notes.push(
                "power: ".to_owned().concat(self.nics[k].description.as_str()).concat(
                    " (",
                ).concat(self.nics[k].guid.as_str()).concat(") PnPCapabilities -> 0x").concat(
                    number.as_str(),
                ),
            );
        }
        assert(views(notes@) =~= self@.notes(reply@));
        notes
    }

    fn finish(&mut self, result: Result<(), String>)
        ensures
            final(self)@ == old(self)@.finish(result_view(result)),
    {
        self.step = Step::Finished;
        self.result = Some(result);
    }

    fn turn_to(&mut self, k: usize)
        ensures
            final(self)@ == old(self)@.turn_to(k as int),
    {
        if k < self.nics.len() {
            self.step = Step::Read(k);
        } else {
            let result = conclude(&self.errors);
            self.finish(result);
        }
    }

    /// Takes the answer to the pending action.
    pub fn resume(&mut self, reply: Reply)
        requires
            old(self)@.wf(),
        ensures
            final(self)@ == old(self)@.advance(reply@),
            final(self)@.wf(),
    {
        let ghost before = self@;
        let count: usize = self.nics.len();
        match (self.step, reply) {
            (Step::Read(k), Reply::Value(Err(e))) => {
                let message = "read ".to_owned().concat(self.nics[k].description.as_str()).concat(
                    ": ",
                ).concat(e.as_str());
                self.finish(Err(message));
            },
            (Step::Read(k), Reply::Value(Ok(current))) => {
                let subkey = self.nics[k].subkey.clone();
                let added = self.archive.ensure(GROUP_POWER, subkey.as_str(), VALUE, current);
                let target: u32 = match current {
                    Some(v) => v | APPLIED_BITS,
                    None => APPLIED_BITS,
                };
                self.step = if added {
                    Step::Save(k, target)
                } else {
                    Step::Write(k, target)
                };
            },
            (Step::Save(k, value), Reply::Done(Ok(_))) => {
                self.step = Step::Write(k, value);
            },
            (Step::Save(_, _), Reply::Done(Err(e))) => {
                self.archive.take_back();
                self.finish(Err(e));
            },
            (Step::Write(k, _), Reply::Done(Err(e))) => {
                let message = self.nics[k].description.clone().concat(
                    ": write PnPCapabilities: ",
                ).concat(e.as_str());
                let ghost shown = message@;
                self.errors.push(message);
                assert(self@.errors =~= before.errors.push(shown));
                self.turn_to(k + 1);
            },
            (Step::Write(k, _), Reply::Done(Ok(_))) => self.turn_to(k + 1),
            _ => {},
        }
        assert(self@ =~= before.advance(reply@));
    }
}

/// Restores the archived values.
pub fn revert(archive: Archive) -> (run: Revert)
    ensures
        run@ == starting_plain(archive@, GROUP_POWER@),
        run@.wf(),
{
    Revert::plain(archive, GROUP_POWER)
}

// ---------------------------------------------------------------------------
// What an apply run guarantees
// ---------------------------------------------------------------------------

/// What an apply run keeps with every step, in a machine whose registry was
/// `original` before the first tweak and is `current` now, and whose archive on
/// disk is `disk`.
pub open spec fn sound(original: Registry, current: Registry, disk: Saved, run: Powering) -> bool {
    &&& run.wf()
    &&& recoverable(original, current, disk.values)
    &&& harmless_pending(original, disk.values, run.pending())
    &&& match run.step {
        Step::Save(k, value) => stays_on(Some(value)) && saving(
            original,
            current,
            disk,
            run.archive,
            run.nics[k as int].subkey,
            VALUE@,
        ),
        Step::Write(k, value) => stays_on(Some(value)) && safe(
            original,
            current,
            disk,
            run.archive,
        ) && archived(run.archive.values, run.nics[k as int].subkey, VALUE@),
        _ => safe(original, current, disk, run.archive),
    }
    &&& run.errors.len() == 0 && !(run.result matches Some(Err(_))) ==> forall|k: int|
        0 <= k < run.nics_done() ==> stays_on(
            value_of(current, (#[trigger] run.nics[k]).subkey, VALUE@),
        )
}

impl Powering {
    /// How many NICs have been dealt with.
    pub open spec fn nics_done(self) -> int {
        match self.step {
            Step::Read(k) | Step::Save(k, _) | Step::Write(k, _) => k as int,
            Step::Finished => self.nics.len() as int,
        }
    }
}

/// The value that is written keeps the NIC on, and no other bit is lost.
pub proof fn target_keeps_the_nic_on(current: Option<u32>)
    ensures
        stays_on(Some(target_of(current))),
        current matches Some(v) ==> target_of(current) & v == v,
{
    let v = match current {
        Some(v) => v,
        None => 0u32,
    };
    assert((v | 0x18u32) & 0x10u32 != 0) by (bit_vector);
    assert((v | 0x18u32) & v == v) by (bit_vector);
    assert(0x18u32 & 0x10u32 != 0) by (bit_vector);
}

/// A run that starts in a safe machine starts out sound.
pub proof fn powering_starts_sound(
    original: Registry,
    current: Registry,
    disk: Saved,
    archive: Saved,
    nics: Seq<NicNode>,
)
    requires
        safe(original, current, disk, archive),
        nics.len() <= usize::MAX,
    ensures
        sound(original, current, disk, powering(archive, nics)),
{
}

/// A run that has ended, with success or without, leaves a safe machine: every
/// entry that it has added to its archive is on disk.
pub proof fn powering_ends_safe(original: Registry, current: Registry, disk: Saved, run: Powering)
    requires
        sound(original, current, disk, run),
        run.result is Some,
    ensures
        safe(original, current, disk, run.archive),
{
}

/// Every step of an apply run keeps the machine recoverable from the archive on
/// disk, whatever the step answers, and brings the run closer to its end.
pub proof fn powering_keeps_recoverable(
    original: Registry,
    before: Registry,
    disk: Saved,
    run: Powering,
    reply: Rep,
    after: Registry,
)
    requires
        sound(original, before, disk, run),
        run.pending() is Some,
        truthful(before, run.pending()->0, reply, after),
    ensures
        sound(
            original,
            after,
            on_disk(disk, run.archive, run.pending()->0, reply),
            run.advance(reply),
        ),
        0 <= run.advance(reply).remaining() < run.remaining(),
{
    assert(group_of(VALUE@) == GROUP_POWER@) by {
        reveal_strlit("MTU");
        reveal_strlit("PnPCapabilities");
        assert("MTU"@.len() == 3);
        assert("PnPCapabilities"@.len() == 15);
    }
    match run.step {
        Step::Save(k, _) => {
            saving_ends_safe(
                original,
                before,
                disk,
                run.archive,
                run.nics[k as int].subkey,
                VALUE@,
                reply,
                after,
            );
        },
        _ => {
            acting_keeps_safe(
                original,
                before,
                disk,
                run.archive,
                run.pending()->0,
                reply,
                after,
            );
        },
    }
    if let Step::Read(k) = run.step {
        recording_is_safe_or_saving(
            original,
            after,
            disk,
            run.archive,
            GROUP_POWER@,
            run.nics[k as int].subkey,
            VALUE@,
        );
        target_keeps_the_nic_on(value_of(before, run.nics[k as int].subkey, VALUE@));
    }
    let next = run.advance(reply);
    if next.errors.len() == 0 && !(next.result matches Some(Err(_))) {
        assert(run.errors.len() == 0);
        assert forall|k: int| 0 <= k < next.nics_done() implies stays_on(
            value_of(after, (#[trigger] next.nics[k]).subkey, VALUE@),
        ) by {
            assert(next.nics == run.nics);
            if k < run.nics_done() {
                assert(stays_on(value_of(before, run.nics[k].subkey, VALUE@)));
            }
        }
    }
}

/// A run that reports success leaves every NIC with the bit set.
pub proof fn successful_apply_keeps_nics_on(
    original: Registry,
    current: Registry,
    disk: Saved,
    run: Powering,
    k: int,
)
    requires
        sound(original, current, disk, run),
        run.result matches Some(Ok(_)),
        0 <= k < run.nics.len(),
    ensures
        stays_on(value_of(current, run.nics[k].subkey, VALUE@)),
{
}

} // verus!
