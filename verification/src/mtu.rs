//! MTU normalization.
//!
//! Sets every physical adapter's IPv4 MTU to a uniform value. The value lives
//! in the registry (`MTU` under the adapter's `Tcpip\Parameters\Interfaces`
//! key), which is also where `netsh` puts a persistent change. The values found
//! are archived on the first apply and put back on revert.

use vstd::prelude::*;

use crate::config::{ensured, of_group, recorded, taken_back, Archive, Entry, Saved, GROUP_MTU};
use crate::interfaces::{adapters, physical, physical_of, Adapter, Interface};
use crate::netsh;
use crate::netsh::quoted_arg;
use crate::ops::{
    action_views, outcome_view, pending_view, result_view, truthful, value_of, Act, Action,
    Registry, Rep, Reply,
};
use crate::recovery::{
    acting_keeps_safe, archived, group_of, harmless_pending, on_disk, recording_is_safe_or_saving,
    recoverable, safe, saving, saving_ends_safe,
};
use crate::registry::{read_error, read_message, Seen, Snapshot};
use crate::revert;
use crate::revert::{link_harmless, starting, starting_is_sound, Revert};
use crate::tcp::{iface_subkey, iface_subkeys, subkey_of, subkeys_of};
use crate::text;
use crate::text::{decimal, joined, list_views, views};

verus! {

/// Smallest MTU the program will write (IPv6's minimum is 1280).
pub const MIN_MTU: u32 = 1280;

/// Largest sane MTU for a physical ethernet link.
pub const MAX_MTU: u32 = 9000;

/// The MTU of a link whose registry value is absent.
pub const DEFAULT_MTU: u32 = 1500;

/// The name of the registry value.
pub const NAME: &'static str = "MTU";

/// What follows the last backslash of a key.
pub open spec fn last_segment(subkey: Seq<char>) -> Seq<char>
    decreases subkey.len(),
{
    if subkey.len() == 0 || subkey.last() == '\\' {
        Seq::empty()
    } else {
        last_segment(subkey.drop_last()).push(subkey.last())
    }
}

/// The adapter GUID that a key ends in.
pub fn guid_from_subkey(subkey: &str) -> (guid: Option<String>)
    ensures
        guid matches Some(g) && g@ == last_segment(subkey@),
{
    let v = text::chars(subkey);
    let mut start: usize = v.len();
    proof {
        assert(v@.take(v@.len() as int) =~= v@);
        assert(last_segment(v@) =~= last_segment(v@) + Seq::<char>::empty());
        assert(v@.skip(v@.len() as int) =~= Seq::<char>::empty());
    }
    while start > 0 && v[start - 1] != '\\'
        invariant
            start <= v@.len(),
            last_segment(v@) == last_segment(v@.take(start as int)) + v@.skip(start as int),
        decreases start,
    {
        proof {
            let t = v@.take(start as int);
            assert(t.drop_last() =~= v@.take(start - 1));
            assert(t.last() == v@[start - 1]);
            assert(last_segment(v@.take(start - 1)).push(v@[start - 1]) + v@.skip(start as int)
                =~= last_segment(v@.take(start - 1)) + v@.skip(start - 1));
        }
        start = start - 1;
    }
    let guid = text::slice(&v, start, v.len());
    proof {
        let t = v@.take(start as int);
        assert(start > 0 ==> t.last() == v@[start - 1]);
        assert(last_segment(t) =~= Seq::<char>::empty());
        assert(guid@ =~= v@.skip(start as int));
        assert(last_segment(v@) =~= v@.skip(start as int));
    }
    Some(guid)
}

/// An adapter's key gives its GUID back.
pub proof fn subkey_gives_guid_back(guid: Seq<char>)
    requires
        !guid.contains('\\'),
    ensures
        last_segment(subkey_of(guid)) == guid,
    decreases guid.len(),
{
    let base = crate::tcp::IFACES_SUBKEY@ + "\\"@;
    reveal_strlit("\\");
    assert("\\"@.len() == 1);
    if guid.len() == 0 {
        assert(subkey_of(guid) =~= base);
        assert(base.last() == '\\');
        assert(last_segment(subkey_of(guid)) =~= guid);
    } else {
        let front = guid.drop_last();
        assert forall|i: int| 0 <= i < front.len() implies front[i] != '\\' by {
            assert(guid[i] == front[i]);
        }
        assert(guid[guid.len() - 1] != '\\');
        subkey_gives_guid_back(front);
        assert(subkey_of(guid).drop_last() =~= subkey_of(front));
        assert(subkey_of(guid).last() == guid.last());
        assert(front.push(guid.last()) =~= guid);
    }
}

/// The `netsh` arguments that set the MTU of a live link.
pub open spec fn live_args(friendly: Seq<char>, mtu: u32, persistent: bool) -> Result<
    Seq<Seq<char>>,
    Seq<char>,
> {
    match quoted_arg("name"@, friendly) {
        Err(e) => Err(e),
        Ok(name_arg) => Ok(
            seq![
                "interface"@,
                "ipv4"@,
                "set"@,
                "subinterface"@,
                name_arg,
                "mtu="@ + decimal(mtu as nat),
                if persistent {
                    "store=persistent"@
                } else {
                    "store=active"@
                },
            ],
        ),
    }
}

/// The `netsh` arguments that set the MTU of a live link, for good or for this
/// session only.
pub fn set_live_mtu(friendly: &str, mtu: u32, persistent: bool) -> (args: Result<
    Vec<String>,
    String,
>)
    ensures
        match args {
            Ok(v) => live_args(friendly@, mtu, persistent) == Ok::<Seq<Seq<char>>, Seq<char>>(
                views(v@),
            ),
            Err(e) => live_args(friendly@, mtu, persistent) == Err::<Seq<Seq<char>>, Seq<char>>(e@),
        },
{
    match netsh::name_arg(friendly) {
        Err(e) => Err(e),
        Ok(name_arg) => {
            let number = text::dec(mtu as u64);
            let mut args: Vec<String> = Vec::new();
            args.push("interface".to_owned());
            args.push("ipv4".to_owned());
            args.push("set".to_owned());
            args.push("subinterface".to_owned());
            args.push(name_arg);
            args.push("mtu=".to_owned().concat(number.as_str()));
            args.push(
                if persistent {
                    "store=persistent".to_owned()
                } else {
                    "store=active".to_owned()
                },
            );
            assert(views(args@) =~= live_args(friendly@, mtu, persistent)->Ok_0);
            Ok(args)
        },
    }
}

// ---------------------------------------------------------------------------
// Applying
// ---------------------------------------------------------------------------

/// How far an apply run has come; the number is that of the adapter.
#[derive(Clone, Copy, Debug, PartialEq, Eq, Structural)]
pub enum Step {
    Exists(usize),
    Read(usize),
    Save(usize),
    Write(usize),
    Live(usize),
    Finished,
}

/// A run that applies one MTU to every adapter. Each value is archived, and the
/// archive saved, before it is written. An adapter that `netsh` cannot be told about is not touched.
#[derive(Debug)]
pub struct Apply {
    pub archive: Archive,
    pub target: u32,
    /// The names of the physical adapters.
    pub names: Vec<String>,
    /// Their registry keys.
    pub subkeys: Vec<String>,
    pub step: Step,
    /// What failed so far.
    pub errors: Vec<String>,
    /// The outcome, once the run has finished.
    pub result: Option<Result<(), String>>,
}

/// An [`Apply`] over texts.
#[verifier::ext_equal]
pub struct Sizing {
    pub archive: Saved,
    pub target: u32,
    pub names: Seq<Seq<char>>,
    pub subkeys: Seq<Seq<char>>,
    pub step: Step,
    pub errors: Seq<Seq<char>>,
    pub result: Option<Result<(), Seq<char>>>,
}

impl View for Apply {
    type V = Sizing;

    open spec fn view(&self) -> Sizing {
        Sizing {
            archive: self.archive@,
            target: self.target,
            names: views(self.names@),
            subkeys: views(self.subkeys@),
            step: self.step,
            errors: views(self.errors@),
            result: outcome_view(self.result),
        }
    }
}

/// The outcome of a run with these failures.
pub open spec fn verdict(errors: Seq<Seq<char>>) -> Result<(), Seq<char>> {
    if errors.len() == 0 {
        Ok(())
    } else {
        Err(joined(errors, "; "@))
    }
}

/// The outcome of a run with these failures.
pub fn conclude(errors: &Vec<String>) -> (result: Result<(), String>)
    ensures
        result_view(result) == verdict(views(errors@)),
{
    if errors.len() == 0 {
        Ok(())
    } else {
        Err(text::join(errors, "; "))
    }
}

impl Sizing {
    /// The number of the step is in range.
    pub open spec fn wf(self) -> bool {
        &&& self.subkeys.len() <= usize::MAX
        &&& self.names.len() == self.subkeys.len()
        &&& match self.step {
            Step::Exists(j) => j < self.subkeys.len(),
            Step::Read(j) | Step::Save(j) | Step::Write(j) | Step::Live(j) => j
                < self.subkeys.len() && live_args(
                self.names[j as int],
                self.target,
                true,
            ) is Ok,
            Step::Finished => true,
        }
        &&& self.step is Save ==> self.archive.values.len() > 0
        &&& self.step is Finished <==> self.result is Some
        &&& self.result matches Some(Ok(_)) ==> self.errors.len() == 0
    }

    /// The action that the run waits for.
    pub open spec fn pending(self) -> Option<Act> {
        match self.step {
            Step::Exists(j) => Some(Act::KeyExists { subkey: self.subkeys[j as int] }),
            Step::Read(j) => Some(Act::ReadDword { subkey: self.subkeys[j as int], name: NAME@ }),
            Step::Write(j) => Some(
                Act::WriteDword {
                    subkey: self.subkeys[j as int],
                    name: NAME@,
                    value: self.target,
                },
            ),
            Step::Live(j) => Some(
                Act::LiveMtu {
                    adapter: self.names[j as int],
                    args: live_args(self.names[j as int], self.target, true)->Ok_0,
                    subkey: self.subkeys[j as int],
                    value: self.target,
                    persistent: true,
                },
            ),
            Step::Save(_) => Some(Act::SaveArchive),
            Step::Finished => None,
        }
    }

    /// The state that ends the run.
    pub open spec fn finish(self, result: Result<(), Seq<char>>) -> Sizing {
        Sizing { step: Step::Finished, result: Some(result), ..self }
    }

    /// The state in which adapter `j` is next, or the run ends.
    pub open spec fn turn_to(self, j: int) -> Sizing {
        if j < self.subkeys.len() {
            Sizing { step: Step::Exists(j as usize), ..self }
        } else {
            self.finish(verdict(self.errors))
        }
    }

    /// The state after adapter `j` failed: the run goes on with the next one.
    pub open spec fn failed(self, j: int, what: Seq<char>) -> Sizing {
        Sizing { errors: self.errors.push(self.names[j] + what), ..self }.turn_to(j + 1)
    }

    /// The state after `reply`; a reply that does not fit changes nothing.
    pub open spec fn advance(self, reply: Rep) -> Sizing {
        match (self.step, reply) {
            (Step::Exists(j), Rep::Exists(false)) => self.turn_to(j + 1),
            (Step::Exists(j), Rep::Exists(true)) => match live_args(
                self.names[j as int],
                self.target,
                true,
            ) {
                Err(e) => self.failed(j as int, ": "@ + e),
                Ok(_) => Sizing { step: Step::Read(j), ..self },
            },
            (Step::Read(j), Rep::Value(Err(e))) => self.finish(
                Err(read_error(self.subkeys[j as int], NAME@, e)),
            ),
            (Step::Read(j), Rep::Value(Ok(current))) => Sizing {
                step: if recorded(
                    self.archive.values,
                    GROUP_MTU@,
                    self.subkeys[j as int],
                    NAME@,
                ) {
                    Step::Write(j)
                } else {
                    Step::Save(j)
                },
                archive: Saved {
                    values: ensured(
                        self.archive.values,
                        GROUP_MTU@,
                        self.subkeys[j as int],
                        NAME@,
                        current,
                    ),
                    dns: self.archive.dns,
                },
                ..self
            },
            (Step::Save(j), Rep::Done(Ok(_))) => Sizing { step: Step::Write(j), ..self },
            (Step::Save(_), Rep::Done(Err(e))) => Sizing {
                archive: taken_back(self.archive),
                ..self
            }.finish(Err(e)),
            (Step::Write(j), Rep::Done(Err(e))) => self.failed(j as int, ": write MTU: "@ + e),
            (Step::Write(j), Rep::Done(Ok(_))) => Sizing { step: Step::Live(j), ..self },
            (Step::Live(j), Rep::Output(Err(e))) => self.failed(j as int, ": "@ + e),
            (Step::Live(j), Rep::Output(Ok(_))) => self.turn_to(j + 1),
            _ => self,
        }
    }

    /// What the log is told when `reply` comes in.
    pub open spec fn notes(self, reply: Rep) -> Seq<Seq<char>> {
        match (self.step, reply) {
            (Step::Live(j), Rep::Output(_)) => seq![
                setting_note(self.names[j as int], self.target),
            ],
            _ => Seq::empty(),
        }
    }

    /// How many replies the run waits for at most.
    pub open spec fn remaining(self) -> int {
        let n = self.subkeys.len();
        match self.step {
            Step::Exists(j) => 5 * (n - j),
            Step::Read(j) => 5 * (n - j) - 1,
            Step::Save(j) => 5 * (n - j) - 2,
            Step::Write(j) => 5 * (n - j) - 3,
            Step::Live(j) => 5 * (n - j) - 4,
            Step::Finished => 0,
        }
    }
}

/// What the log is told of a change to a live link.
pub open spec fn setting_note(adapter: Seq<char>, value: u32) -> Seq<char> {
    "mtu: setting "@ + adapter + " to "@ + decimal(value as nat)
}

/// What the log is told of a change to a live link.
pub fn note_setting(adapter: &str, value: u32) -> (note: String)
    ensures
        note@ == setting_note(adapter@, value),
{
    let number = text::dec(value as u64);
    "mtu: setting ".to_owned().concat(adapter).concat(" to ").concat(number.as_str())
}

/// What the log is told when a live link could not be corrected.
pub open spec fn restore_note(adapter: Seq<char>, value: u32, error: Seq<char>) -> Seq<char> {
    "mtu: live restore of "@ + decimal(value as nat) + " on "@ + adapter + " failed: "@ + error
}

/// What the log is told when a live link could not be corrected.
pub fn note_restore(adapter: &str, value: u32, error: &str) -> (note: String)
    ensures
        note@ == restore_note(adapter@, value, error@),
{
    let number = text::dec(value as u64);
    "mtu: live restore of ".to_owned().concat(number.as_str()).concat(" on ").concat(
        adapter,
    ).concat(" failed: ").concat(error)
}

/// The friendly names of these adapters.
pub open spec fn names_of(ifaces: Seq<Adapter>) -> Seq<Seq<char>> {
    Seq::new(ifaces.len(), |i: int| ifaces[i].friendly)
}

fn friendly_names(ifaces: &Vec<Interface>) -> (names: Vec<String>)
    ensures
        views(names@) == names_of(adapters(ifaces@)),
{
    let mut names: Vec<String> = Vec::new();
    let mut i: usize = 0;
    while i < ifaces.len()
        invariant
            i <= ifaces@.len(),
            names@.len() == i,
            forall|k: int| 0 <= k < i ==> (#[trigger] names@[k])@ == ifaces@[k].friendly@,
        decreases ifaces@.len() - i,
    {
        names.push(ifaces[i].friendly.clone());
        i = i + 1;
    }
    assert(views(names@) =~= names_of(adapters(ifaces@)));
    names
}

/// The refusal of an MTU out of range.
pub open spec fn range_error(target: u32) -> Seq<char> {
    "invalid MTU "@ + decimal(target as nat) + ": expected 1280..=9000"@
}

/// The first state of a run: a target out of range is refused at once.
pub open spec fn sizing(archive: Saved, target: u32, ifaces: Seq<Adapter>) -> Sizing {
    let run = Sizing {
        archive,
        target,
        names: names_of(ifaces),
        subkeys: subkeys_of(ifaces),
        step: Step::Finished,
        errors: Seq::empty(),
        result: None,
    };
    if MIN_MTU <= target <= MAX_MTU {
        run.turn_to(0)
    } else {
        run.finish(Err(range_error(target)))
    }
}

/// Applies the target MTU to every applicable physical adapter, archiving each
/// adapter's present value first.
pub fn apply(archive: Archive, target: u32, all: &Vec<Interface>) -> (run: Apply)
    ensures
        run@ == sizing(archive@, target, physical_of(adapters(all@))),
        run@.wf(),
{
    let ifaces = physical(all);
    let names = friendly_names(&ifaces);
    let subkeys = iface_subkeys(&ifaces);
    let count: usize = subkeys.len();
    assert(views(subkeys@).len() == count);
    let mut run = Apply {
        archive,
        target,
        names,
        subkeys,
        step: Step::Finished,
        errors: Vec::new(),
        result: None,
    };
    assert(run@.errors =~= Seq::<Seq<char>>::empty());
    if MIN_MTU <= target && target <= MAX_MTU {
        run.turn_to(0);
    } else {
        let number = text::dec(target as u64);
        run.finish(
            Err("invalid MTU ".to_owned().concat(number.as_str()).concat(": expected 1280..=9000")),
        );
    }
    run
}

impl Apply {
    /// The action to perform next, `None` once the run has finished.
    pub fn pending(&self) -> (action: Option<Action>)
        requires
            self@.wf(),
        ensures
            pending_view(action) == self@.pending(),
    {
        match self.step {
            Step::Exists(j) => Some(Action::KeyExists { subkey: self.subkeys[j].clone() }),
            Step::Read(j) => Some(
                Action::ReadDword { subkey: self.subkeys[j].clone(), name: NAME.to_owned() },
            ),
            Step::Write(j) => Some(
                Action::WriteDword {
                    subkey: self.subkeys[j].clone(),
                    name: NAME.to_owned(),
                    value: self.target,
                },
            ),
            Step::Live(j) => match set_live_mtu(self.names[j].as_str(), self.target, true) {
                Ok(args) => Some(
                    Action::LiveMtu {
                        adapter: self.names[j].clone(),
                        args,
                        subkey: self.subkeys[j].clone(),
                        value: self.target,
                        persistent: true,
                    },
                ),
                Err(_) => None,
            },
            Step::Save(_) => Some(Action::SaveArchive),
            Step::Finished => None,
        }
    }

    /// What the log is told when `reply` comes in.
    pub fn notes(&self, reply: &Reply) -> (notes: Vec<String>)
        requires
            self@.wf(),
        ensures
            views(notes@) == self@.notes(reply@),
    {
        let mut notes: Vec<String> = Vec::new();
        if let (Step::Live(j), Reply::Output(_)) = (self.step, reply) {
            notes.push(note_setting(self.names[j].as_str(), self.target));
        }
        assert(views(notes@) =~= self@.notes(reply@));
        notes
    }

    fn finish(&mut self, result: Result<(), String>)
        ensures
            final(self)@ == old(self)@.finish(result_view(result)),
    {
        self.step = Step::Finished;
        self.result = Some(result);
    }

    fn turn_to(&mut self, j: usize)
        ensures
            final(self)@ == old(self)@.turn_to(j as int),
    {
        if j < self.subkeys.len() {
            self.step = Step::Exists(j);
        } else {
            let result = conclude(&self.errors);
            self.finish(result);
        }
    }

    fn failed(&mut self, j: usize, what: &str)
        requires
            j < old(self)@.subkeys.len(),
            old(self)@.wf(),
        ensures
            final(self)@ == old(self)@.failed(j as int, what@),
    {
        let ghost before = self@;
        let count: usize = self.subkeys.len();
        let message = self.names[j].clone().concat(what);
        self.errors.push(message);
        assert(self@.errors =~= before.errors.push(before.names[j as int] + what@));
        self.turn_to(j + 1);
    }

    /// Takes the answer to the pending action.
    pub fn resume(&mut self, reply: Reply)
        requires
            old(self)@.wf(),
        ensures
            final(self)@ == old(self)@.advance(reply@),
            final(self)@.wf(),
    {
        let ghost before = self@;
        let count: usize = self.subkeys.len();
        match (self.step, reply) {
            (Step::Exists(j), Reply::Exists(false)) => self.turn_to(j + 1),
            (Step::Exists(j), Reply::Exists(true)) => {
                match set_live_mtu(self.names[j].as_str(), self.target, true) {
                    Err(e) => {
                        let what = ": ".to_owned().concat(e.as_str());
                        self.failed(j, what.as_str());
                    },
                    Ok(_) => {
                        self.step = Step::Read(j);
                    },
                }
            },
            (Step::Read(j), Reply::Value(Err(e))) => {
                let message = read_message(self.subkeys[j].as_str(), NAME, e.as_str());
                self.finish(Err(message));
            },
            (Step::Read(j), Reply::Value(Ok(current))) => {
                let subkey = self.subkeys[j].clone();
                let added = self.archive.ensure(GROUP_MTU, subkey.as_str(), NAME, current);
                self.step = if added {
                    Step::Save(j)
                } else {
                    Step::Write(j)
                };
            },
            (Step::Save(j), Reply::Done(Ok(_))) => {
                self.step = Step::Write(j);
            },
            (Step::Save(_), Reply::Done(Err(e))) => {
                self.archive.take_back();
                self.finish(Err(e));
            },
            (Step::Write(j), Reply::Done(Err(e))) => {
                let what = ": write MTU: ".to_owned().concat(e.as_str());
                self.failed(j, what.as_str());
            },
            (Step::Write(j), Reply::Done(Ok(_))) => {
                self.step = Step::Live(j);
            },
            (Step::Live(j), Reply::Output(Err(e))) => {
                let what = ": ".to_owned().concat(e.as_str());
                self.failed(j, what.as_str());
            },
            (Step::Live(j), Reply::Output(Ok(_))) => self.turn_to(j + 1),
            _ => {},
        }
        assert(self@ =~= before.advance(reply@));
    }
}

// ---------------------------------------------------------------------------
// Reverting
// ---------------------------------------------------------------------------

/// The first adapter with this GUID.
pub open spec fn with_guid(ifaces: Seq<Adapter>, guid: Seq<char>) -> Option<Adapter>
    decreases ifaces.len(),
{
    if ifaces.len() == 0 {
        None
    } else if ifaces[0].guid == guid {
        Some(ifaces[0])
    } else {
        with_guid(ifaces.skip(1), guid)
    }
}

/// The correction of the live link that an archived value belongs to: the
/// archived MTU for good, or the default for this session when there was none.
/// There is none when the adapter is gone or its name cannot be passed on.
pub open spec fn link_for(entry: Entry, ifaces: Seq<Adapter>) -> Option<Act> {
    let value = if entry.present {
        entry.value
    } else {
        DEFAULT_MTU
    };
    match with_guid(ifaces, last_segment(entry.subkey)) {
        None => None,
        Some(a) => match live_args(a.friendly, value, entry.present) {
            Err(_) => None,
            Ok(args) => Some(
                Act::LiveMtu {
                    adapter: a.friendly,
                    args,
                    subkey: entry.subkey,
                    value,
                    persistent: entry.present,
                },
            ),
        },
    }
}

/// What the log is told of an archived value whose adapter is there but cannot
/// be named to `netsh`.
pub open spec fn refusal_for(entry: Entry, ifaces: Seq<Adapter>) -> Option<Seq<char>> {
    let value = if entry.present {
        entry.value
    } else {
        DEFAULT_MTU
    };
    match with_guid(ifaces, last_segment(entry.subkey)) {
        None => None,
        Some(a) => match live_args(a.friendly, value, entry.present) {
            Err(e) => Some(restore_note(a.friendly, value, e)),
            Ok(_) => None,
        },
    }
}

/// What the log is told before each of [`links_for`], and after the last one:
/// every refusal, in the order of the entries.
pub open spec fn asides_for(entries: Seq<Entry>, ifaces: Seq<Adapter>) -> Seq<Seq<Seq<char>>>
    decreases entries.len(),
{
    if entries.len() == 0 {
        seq![Seq::empty()]
    } else {
        let rest = asides_for(entries.drop_last(), ifaces);
        match (link_for(entries.last(), ifaces), refusal_for(entries.last(), ifaces)) {
            (Some(_), _) => rest.push(Seq::empty()),
            (None, Some(note)) => rest.drop_last().push(rest.last().push(note)),
            (None, None) => rest,
        }
    }
}

/// There is an aside before each link, and one after the last.
proof fn asides_fit_the_links(entries: Seq<Entry>, ifaces: Seq<Adapter>)
    ensures
        asides_for(entries, ifaces).len() == links_for(entries, ifaces).len() + 1,
    decreases entries.len(),
{
    if entries.len() > 0 {
        asides_fit_the_links(entries.drop_last(), ifaces);
    }
}

/// The corrections for these entries, in order.
pub open spec fn links_for(entries: Seq<Entry>, ifaces: Seq<Adapter>) -> Seq<Act>
    decreases entries.len(),
{
    if entries.len() == 0 {
        Seq::empty()
    } else {
        let rest = links_for(entries.drop_last(), ifaces);
        match link_for(entries.last(), ifaces) {
            None => rest,
            Some(act) => rest.push(act),
        }
    }
}

fn find_guid(ifaces: &Vec<Interface>, guid: &str) -> (found: Option<usize>)
    ensures
        match found {
            Some(i) => i < ifaces@.len() && with_guid(adapters(ifaces@), guid@) == Some(
                ifaces@[i as int]@,
            ),
            None => with_guid(adapters(ifaces@), guid@) is None,
        },
{
    let ghost all = adapters(ifaces@);
    let mut i: usize = 0;
    assert(all.skip(0) =~= all);
    while i < ifaces.len()
        invariant
            i <= ifaces@.len(),
            all == adapters(ifaces@),
            with_guid(all, guid@) == with_guid(all.skip(i as int), guid@),
        decreases ifaces@.len() - i,
    {
        proof {
            assert(all.skip(i as int)[0] == ifaces@[i as int]@);
            assert(all.skip(i as int).skip(1) =~= all.skip(i + 1));
        }
        if text::same(ifaces[i].guid.as_str(), guid) {
            return Some(i);
        }
        i = i + 1;
    }
    None
}

/// Restores the archived MTU of each adapter. A value that existed is written
/// back, and set on the live link for good; where there was none, the link gets
/// the default for this session only, so that the registry stays without it.
pub fn revert(archive: Archive, all: &Vec<Interface>) -> (run: Revert)
    ensures
        run@ == starting(
            archive@,
            GROUP_MTU@,
            links_for(of_group(archive@.values, GROUP_MTU@), physical_of(adapters(all@))),
            asides_for(of_group(archive@.values, GROUP_MTU@), physical_of(adapters(all@))),
        ),
        run@.wf(),
{
    let ifaces = physical(all);
    let ghost shown = adapters(ifaces@);
    let ghost entries = archive@.values;
    let mut links: Vec<Action> = Vec::new();
    let mut asides: Vec<Vec<String>> = Vec::new();
    let mut refusals: Vec<String> = Vec::new();
    let mut i: usize = 0;
    proof {
        assert(entries.take(0) =~= Seq::<Entry>::empty());
        assert(views(refusals@) =~= Seq::<Seq<char>>::empty());
        assert(list_views(asides@).push(views(refusals@)) =~= asides_for(
            of_group(entries.take(0), GROUP_MTU@),
            shown,
        ));
        assert(action_views(links@) =~= links_for(
            of_group(entries.take(0), GROUP_MTU@),
            shown,
        ));
    }
    while i < archive.values.len()
        invariant
            i <= archive.values@.len(),
            entries == archive@.values,
            shown == adapters(ifaces@),
            action_views(links@) == links_for(
                of_group(entries.take(i as int), GROUP_MTU@),
                shown,
            ),
            list_views(asides@).push(views(refusals@)) == asides_for(
                of_group(entries.take(i as int), GROUP_MTU@),
                shown,
            ),
        decreases archive.values@.len() - i,
    {
        let entry = &archive.values[i];
        let ghost before = links@;
        let ghost seen = of_group(entries.take(i as int), GROUP_MTU@);
        proof {
            assert(entries.take(i + 1).drop_last() =~= entries.take(i as int));
            assert(entries.take(i + 1).last() == entry@);
            assert(seen.push(entry@).drop_last() =~= seen);
            assert(seen.push(entry@).last() == entry@);
        }
        if text::same(entry.group.as_str(), GROUP_MTU) {
            if let Some(guid) = guid_from_subkey(entry.subkey.as_str()) {
                if let Some(k) = find_guid(&ifaces, guid.as_str()) {
                    let value: u32 = if entry.present {
                        entry.value
                    } else {
                        DEFAULT_MTU
                    };
                    let friendly = ifaces[k].friendly.as_str();
                    let ghost told = list_views(asides@);
                    let ghost refused = views(refusals@);
                    match set_live_mtu(friendly, value, entry.present) {
                        Ok(args) => {
                            let link = Action::LiveMtu {
                                adapter: friendly.to_owned(),
                                args,
                                subkey: entry.subkey.clone(),
                                value,
                                persistent: entry.present,
                            };
                            let ghost act = link@;
                            links.push(link);
                            assert(action_views(links@) =~= action_views(before).push(act));
                            asides.push(refusals);
                            refusals = Vec::new();
                            assert(views(refusals@) =~= Seq::<Seq<char>>::empty());
                            assert(list_views(asides@) =~= told.push(refused));
                        },
                        Err(e) => {
                            let note = note_restore(friendly, value, e.as_str());
                            let ghost shown_note = note@;
                            refusals.push(note);
                            assert(views(refusals@) =~= refused.push(shown_note));
                            assert(told.push(refused).drop_last() =~= told);
                        },
                    }
                }
            }
        }
        i = i + 1;
    }
    assert(entries.take(entries.len() as int) =~= entries);
    let ghost rest = list_views(asides@);
    let ghost last = views(refusals@);
    asides.push(refusals);
    proof {
        assert(list_views(asides@) =~= rest.push(last));
        asides_fit_the_links(of_group(entries, GROUP_MTU@), shown);
        assert(action_views(links@).len() == links@.len());
    }
    Revert::start(archive, GROUP_MTU, links, asides)
}

// ---------------------------------------------------------------------------
// Status
// ---------------------------------------------------------------------------

/// True when this adapter reports `target`: in the registry, where an absent
/// value means the default, and on the live link as far as its MTU is known.
/// An adapter without a key does not count.
pub open spec fn reports(seen: Seen, a: Adapter, target: u32) -> bool {
    let subkey = subkey_of(a.guid);
    seen.keys.contains(subkey) ==> {
        &&& match seen.value(subkey, NAME@) {
            Ok(Some(current)) => current == target,
            Ok(None) => target == DEFAULT_MTU,
            Err(_) => false,
        }
        &&& a.mtu == 0 || a.mtu == target
    }
}

/// True when every physical adapter reports `target`.
pub open spec fn all_report(seen: Seen, ifaces: Seq<Adapter>, target: u32) -> bool {
    forall|i: int| 0 <= i < ifaces.len() ==> reports(seen, #[trigger] ifaces[i], target)
}

/// True when every applicable adapter reports `target` at present, in the
/// registry and on the live link.
pub fn status(snapshot: &Snapshot, target: u32, all: &Vec<Interface>) -> (b: bool)
    ensures
        b == all_report(snapshot@, physical_of(adapters(all@)), target),
{
    let ifaces = physical(all);
    let ghost shown = adapters(ifaces@);
    let mut i: usize = 0;
    while i < ifaces.len()
        invariant
            i <= ifaces@.len(),
            shown == adapters(ifaces@),
            shown == physical_of(adapters(all@)),
            forall|k: int| 0 <= k < i ==> reports(snapshot@, #[trigger] shown[k], target),
        decreases ifaces@.len() - i,
    {
        let iface = &ifaces[i];
        let subkey = iface_subkey(iface.guid.as_str());
        assert(shown[i as int] == iface@);
        if snapshot.key_exists(subkey.as_str()) {
            let stored = match snapshot.read_dword(subkey.as_str(), NAME) {
                Ok(Some(current)) => current == target,
                Ok(None) => target == DEFAULT_MTU,
                Err(_) => false,
            };
            if !(stored && (iface.mtu == 0 || iface.mtu == target)) {
                assert(!reports(snapshot@, shown[i as int], target));
                return false;
            }
        }
        i = i + 1;
    }
    true
}

/// True when there is no target, or every physical adapter reports it.
pub open spec fn target_met(seen: Seen, ifaces: Seq<Adapter>, target: Option<u32>) -> bool {
    target matches Some(mtu) ==> all_report(seen, ifaces, mtu)
}

/// True when the feature is off, or every applicable adapter reports its target
/// at present.
pub fn is_met(snapshot: &Snapshot, target: Option<u32>, all: &Vec<Interface>) -> (b: bool)
    ensures
        b == target_met(snapshot@, physical_of(adapters(all@)), target),
{
    match target {
        Some(mtu) => status(snapshot, mtu, all),
        None => true,
    }
}

/// The questions about these adapters.
pub open spec fn questions_for(subkeys: Seq<Seq<char>>) -> Seq<Act>
    decreases subkeys.len(),
{
    if subkeys.len() == 0 {
        Seq::empty()
    } else {
        questions_for(subkeys.drop_last()).push(Act::KeyExists { subkey: subkeys.last() }).push(
            Act::ReadDword { subkey: subkeys.last(), name: NAME@ },
        )
    }
}

/// The questions that [`status`] needs answered.
pub fn queries(all: &Vec<Interface>) -> (questions: Vec<Action>)
    ensures
        action_views(questions@) == questions_for(subkeys_of(physical_of(adapters(all@)))),
{
    let ifaces = physical(all);
    let subkeys = iface_subkeys(&ifaces);
    let mut questions: Vec<Action> = Vec::new();
    let ghost keys = views(subkeys@);
    let mut j: usize = 0;
    proof {
        assert(keys.take(0) =~= Seq::<Seq<char>>::empty());
        assert(action_views(questions@) =~= questions_for(keys.take(0)));
    }
    while j < subkeys.len()
        invariant
            j <= subkeys@.len(),
            keys == views(subkeys@),
            action_views(questions@) == questions_for(keys.take(j as int)),
        decreases subkeys@.len() - j,
    {
        let ghost before = questions@;
        proof {
            assert(keys.take(j + 1).drop_last() =~= keys.take(j as int));
            assert(keys.take(j + 1).last() == subkeys@[j as int]@);
        }
        questions.push(Action::KeyExists { subkey: subkeys[j].clone() });
        questions.push(Action::ReadDword { subkey: subkeys[j].clone(), name: NAME.to_owned() });
        assert(action_views(questions@) =~= action_views(before).push(
            Act::KeyExists { subkey: subkeys@[j as int]@ },
        ).push(Act::ReadDword { subkey: subkeys@[j as int]@, name: NAME@ }));
        j = j + 1;
    }
    assert(keys.take(keys.len() as int) =~= keys);
    questions
}

// ---------------------------------------------------------------------------
// What the runs guarantee
// ---------------------------------------------------------------------------

/// What an apply run keeps with every step, in a machine whose registry was
/// `original` before the first tweak and is `current` now, and whose archive on
/// disk is `disk`.
pub open spec fn sound(original: Registry, current: Registry, disk: Saved, run: Sizing) -> bool {
    &&& run.wf()
    &&& recoverable(original, current, disk.values)
    &&& harmless_pending(original, disk.values, run.pending())
    &&& match run.step {
        Step::Save(j) => saving(
            original,
            current,
            disk,
            run.archive,
            run.subkeys[j as int],
            NAME@,
        ),
        Step::Write(j) | Step::Live(j) => safe(original, current, disk, run.archive) && archived(
            run.archive.values,
            run.subkeys[j as int],
            NAME@,
        ),
        _ => safe(original, current, disk, run.archive),
    }
}

proof fn mtu_group()
    ensures
        group_of(NAME@) == GROUP_MTU@,
        forall|name: Seq<char>| #[trigger] group_of(name) == GROUP_MTU@ ==> name == NAME@,
{
    reveal_strlit("mtu");
    reveal_strlit("tcp");
    reveal_strlit("power");
    reveal_strlit("system");
    assert("mtu"@.len() == 3 && "mtu"@[0] == 'm');
    assert("tcp"@.len() == 3 && "tcp"@[0] == 't');
    assert("power"@.len() == 5);
    assert("system"@.len() == 6);
}

/// A run that starts in a safe machine starts out sound.
pub proof fn sizing_starts_sound(
    original: Registry,
    current: Registry,
    disk: Saved,
    archive: Saved,
    target: u32,
    ifaces: Seq<Adapter>,
)
    requires
        safe(original, current, disk, archive),
        ifaces.len() <= usize::MAX,
    ensures
        sound(original, current, disk, sizing(archive, target, ifaces)),
        forall|readable: Set<Seq<char>>| #[trigger]
            progress(current, readable, sizing(archive, target, ifaces)),
{
}

/// A run that has ended, with success or without, leaves a safe machine: every
/// entry that it has added to its archive is on disk.
pub proof fn sizing_ends_safe(original: Registry, current: Registry, disk: Saved, run: Sizing)
    requires
        sound(original, current, disk, run),
        run.result is Some,
    ensures
        safe(original, current, disk, run.archive),
{
}

/// Every step of an apply run keeps the machine recoverable from the archive on
/// disk, whatever the step answers, and brings the run closer to its end.
pub proof fn sizing_keeps_recoverable(
    original: Registry,
    before: Registry,
    disk: Saved,
    run: Sizing,
    reply: Rep,
    after: Registry,
)
    requires
        sound(original, before, disk, run),
        run.pending() is Some,
        truthful(before, run.pending()->0, reply, after),
    ensures
        sound(
            original,
            after,
            on_disk(disk, run.archive, run.pending()->0, reply),
            run.advance(reply),
        ),
        0 <= run.advance(reply).remaining() < run.remaining(),
{
    mtu_group();
    match run.step {
        Step::Save(j) => {
            saving_ends_safe(
                original,
                before,
                disk,
                run.archive,
                run.subkeys[j as int],
                NAME@,
                reply,
                after,
            );
        },
        _ => {
            acting_keeps_safe(
                original,
                before,
                disk,
                run.archive,
                run.pending()->0,
                reply,
                after,
            );
        },
    }
    if let Step::Read(j) = run.step {
        recording_is_safe_or_saving(
            original,
            after,
            disk,
            run.archive,
            GROUP_MTU@,
            run.subkeys[j as int],
            NAME@,
        );
    }
}

/// What has been reached so far by a run that has met no failure: the target is
/// set on every adapter up to the present one whose key is readable.
pub open spec fn progress(reg: Registry, readable: Set<Seq<char>>, run: Sizing) -> bool {
    run.errors.len() == 0 && !(run.result matches Some(Err(_))) ==> {
        &&& forall|j: int|
            0 <= j < run.ifaces_done() && readable.contains(#[trigger] run.subkeys[j])
                ==> value_of(reg, run.subkeys[j], NAME@) == Some(run.target)
        &&& run.step matches Step::Live(j) ==> value_of(reg, run.subkeys[j as int], NAME@) == Some(
            run.target,
        )
    }
}

impl Sizing {
    /// How many adapters have been dealt with.
    pub open spec fn ifaces_done(self) -> int {
        match self.step {
            Step::Exists(j) | Step::Read(j) | Step::Save(j) | Step::Write(j) | Step::Live(
                j,
            ) => j as int,
            Step::Finished => self.subkeys.len() as int,
        }
    }
}

/// Every step of a run keeps its [`progress`].
pub proof fn sizing_makes_progress(
    before: Registry,
    readable: Set<Seq<char>>,
    run: Sizing,
    reply: Rep,
    after: Registry,
)
    requires
        run.wf(),
        progress(before, readable, run),
        run.pending() is Some,
        truthful(before, run.pending()->0, reply, after),
        run.pending()->0 matches Act::KeyExists { subkey } ==> reply == Rep::Exists(
            readable.contains(subkey),
        ),
    ensures
        progress(after, readable, run.advance(reply)),
{
    let next = run.advance(reply);
    if next.errors.len() == 0 && !(next.result matches Some(Err(_))) {
        assert(run.errors.len() == 0);
        assert forall|j: int|
            0 <= j < next.ifaces_done() && readable.contains(
                #[trigger] next.subkeys[j],
            ) implies value_of(after, next.subkeys[j], NAME@) == Some(next.target) by {
            assert(next.subkeys == run.subkeys);
            if j < run.ifaces_done() {
                assert(value_of(before, run.subkeys[j], NAME@) == Some(run.target));
            }
        }
    }
}

/// A run that reports success has set the target on every adapter whose key is
/// readable.
pub proof fn successful_apply_sets_the_target(
    reg: Registry,
    readable: Set<Seq<char>>,
    run: Sizing,
    j: int,
)
    requires
        run.wf(),
        progress(reg, readable, run),
        run.result matches Some(Ok(_)),
        0 <= j < run.subkeys.len(),
        readable.contains(run.subkeys[j]),
    ensures
        value_of(reg, run.subkeys[j], NAME@) == Some(run.target),
{
}

/// A machine whose readable adapter keys hold the target, and whose live links
/// have taken it on, is reported as aligned by every snapshot that shows it as
/// it is.
pub proof fn sized_machine_is_aligned(
    reg: Registry,
    readable: Set<Seq<char>>,
    seen: Seen,
    ifaces: Seq<Adapter>,
    target: u32,
)
    requires
        forall|j: int|
            0 <= j < ifaces.len() ==> {
                &&& seen.shows(reg, readable, subkey_of((#[trigger] ifaces[j]).guid), NAME@)
                &&& ifaces[j].mtu == 0 || ifaces[j].mtu == target
                &&& readable.contains(subkey_of(ifaces[j].guid)) ==> value_of(
                    reg,
                    subkey_of(ifaces[j].guid),
                    NAME@,
                ) == Some(target)
            },
    ensures
        all_report(seen, ifaces, target),
{
}

/// An adapter whose name cannot be handed to `netsh` is reported and skipped: no
/// value of it is read or written, so it is never half-applied.
pub proof fn unnameable_adapters_are_not_touched(run: Sizing, j: usize)
    requires
        run.wf(),
        j < run.subkeys.len(),
        live_args(run.names[j as int], run.target, true) is Err,
    ensures
        run.step != Step::Read(j),
        run.step != Step::Save(j),
        run.step != Step::Write(j),
        run.step != Step::Live(j),
        run.step == Step::Exists(j) ==> run.advance(Rep::Exists(true)).errors
            == run.errors.push(
            run.names[j as int] + (": "@ + live_args(run.names[j as int], run.target, true)->Err_0),
        ) && run.advance(Rep::Exists(true)).archive == run.archive,
{
}

/// An MTU out of range is refused, and nothing is read or written.
pub proof fn out_of_range_is_refused(archive: Saved, target: u32, ifaces: Seq<Adapter>)
    requires
        target < MIN_MTU || target > MAX_MTU,
    ensures
        sizing(archive, target, ifaces).pending() is None,
        sizing(archive, target, ifaces).archive == archive,
        sizing(archive, target, ifaces).result == Some(
            Err::<(), Seq<char>>(range_error(target)),
        ),
{
}

/// A revert of this group starts out sound: its corrections of live links
/// persist nothing but what was there originally.
pub proof fn revert_starts_sound(
    original: Registry,
    current: Registry,
    disk: Saved,
    archive: Saved,
    ifaces: Seq<Adapter>,
)
    requires
        safe(original, current, disk, archive),
        links_for(of_group(archive.values, GROUP_MTU@), ifaces).len() <= usize::MAX,
    ensures
        revert::sound(
            original,
            current,
            disk,
            starting(
                archive,
                GROUP_MTU@,
                links_for(of_group(archive.values, GROUP_MTU@), ifaces),
                asides_for(of_group(archive.values, GROUP_MTU@), ifaces),
            ),
        ),
{
    mtu_group();
    let links = links_for(of_group(archive.values, GROUP_MTU@), ifaces);
    links_are_harmless(original, archive.values, ifaces);
    let asides = asides_for(of_group(archive.values, GROUP_MTU@), ifaces);
    asides_fit_the_links(of_group(archive.values, GROUP_MTU@), ifaces);
    starting_is_sound(original, current, disk, archive, GROUP_MTU@, links, asides);
}

proof fn links_are_harmless(original: Registry, values: Seq<Entry>, ifaces: Seq<Adapter>)
    requires
        forall|i: int|
            0 <= i < values.len() ==> (#[trigger] values[i]).saved() == value_of(
                original,
                values[i].subkey,
                values[i].name,
            ),
        forall|i: int|
            0 <= i < values.len() ==> (#[trigger] values[i]).group == group_of(values[i].name),
    ensures
        forall|k: int|
            0 <= k < links_for(of_group(values, GROUP_MTU@), ifaces).len() ==> link_harmless(
                original,
                #[trigger] links_for(of_group(values, GROUP_MTU@), ifaces)[k],
            ),
    decreases values.len(),
{
    mtu_group();
    if values.len() > 0 {
        let front = values.drop_last();
        assert forall|i: int| 0 <= i < front.len() implies (#[trigger] front[i]).saved() == value_of(
            original,
            front[i].subkey,
            front[i].name,
        ) && front[i].group == group_of(front[i].name) by {
            assert(front[i] == values[i]);
        }
        links_are_harmless(original, front, ifaces);
        let rest = of_group(front, GROUP_MTU@);
        let e = values.last();
        if e.group == GROUP_MTU@ {
            assert(rest.push(e).drop_last() =~= rest);
            assert(values[values.len() - 1] == e);
            assert(e.saved() == value_of(original, e.subkey, e.name));
            assert(e.name == NAME@);
            let before = links_for(rest, ifaces);
            let links = links_for(rest.push(e), ifaces);
            assert(of_group(values, GROUP_MTU@) == rest.push(e));
            assert forall|k: int| 0 <= k < links.len() implies link_harmless(
                original,
                #[trigger] links[k],
            ) by {
                if k < before.len() {
                    assert(links[k] == before[k]);
                }
            }
        }
    }
}

} // verus!
