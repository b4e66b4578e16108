//! Settings, profiles and the restore archive.
//!
//! The archive keeps the machine state that the program replaced: DWORDs of the
//! registry, and the DNS servers of each adapter. An entry is recorded once, so
//! applying a tweak again never overwrites what was saved first.

use vstd::prelude::*;

use crate::order;
use crate::order::{ordered, sorted, sorts};
use crate::ops::{action_views, first_error, result_view, result_views, Act, Action};
use crate::text;
use crate::text::{alphanumeric, ascii_alphanumeric, ends, views};

verus! {

/// Which anycast resolver set the DNS feature switches to.
#[derive(Clone, Copy, Debug, PartialEq, Eq, Structural)]
pub enum DnsProvider {
    /// Cloudflare 1.1.1.1 / 1.0.0.1.
    Cloudflare,
    /// Google 8.8.8.8 / 8.8.4.4.
    Google,
    /// Pick whichever of Cloudflare / Google is faster right now.
    Auto,
}

impl Default for DnsProvider {
    fn default() -> (provider: Self)
        ensures
            provider == DnsProvider::Cloudflare,
    {
        DnsProvider::Cloudflare
    }
}

/// The enabled feature groups.
#[derive(Clone, Copy, Debug, PartialEq, Eq)]
pub struct Config {
    /// TCP/IP parameter tuning (Nagle, ACK frequency, timers).
    pub tcp: bool,
    /// Switch active adapters to a low-latency DNS server set.
    pub dns: bool,
    /// Disable the Windows multimedia network throttling.
    pub multimedia: bool,
    /// Re-apply enabled tweaks when something reverts them.
    pub self_heal: bool,
    /// Which DNS server set to use.
    pub dns_provider: DnsProvider,
    /// Desired IPv4 MTU; `None` disables the feature.
    pub mtu: Option<u32>,
    /// Whether NICs are told not to power themselves down.
    pub power: bool,
}

impl Default for Config {
    fn default() -> (cfg: Self)
        ensures
            cfg == (Config {
                tcp: true,
                dns: false,
                multimedia: true,
                self_heal: true,
                dns_provider: DnsProvider::Cloudflare,
                mtu: None,
                power: true,
            }),
    {
        Config {
            tcp: true,
            dns: false,
            multimedia: true,
            self_heal: true,
            dns_provider: DnsProvider::Cloudflare,
            mtu: None,
            power: true,
        }
    }
}

/// A feature to apply.
#[derive(Clone, Copy, Debug, PartialEq, Eq, Structural)]
pub enum Feature {
    Tcp,
    Dns,
    Multimedia,
    /// With this MTU.
    Mtu(u32),
    Power,
}

/// One feature, if it is on.
pub open spec fn feature_if(on: bool, feature: Feature) -> Seq<Feature> {
    if on {
        seq![feature]
    } else {
        Seq::empty()
    }
}

/// The enabled features in the order in which they are applied.
pub open spec fn enabled_of(cfg: Config) -> Seq<Feature> {
    feature_if(cfg.tcp, Feature::Tcp) + feature_if(cfg.dns, Feature::Dns) + feature_if(
        cfg.multimedia,
        Feature::Multimedia,
    ) + (match cfg.mtu {
        Some(target) => seq![Feature::Mtu(target)],
        None => Seq::empty(),
    }) + feature_if(cfg.power, Feature::Power)
}

impl Config {
    /// The enabled features in the order in which they are applied.
    pub fn enabled(&self) -> (features: Vec<Feature>)
        ensures
            features@ == enabled_of(*self),
    {
        let mut features: Vec<Feature> = Vec::new();
        if self.tcp {
            features.push(Feature::Tcp);
        }
        if self.dns {
            features.push(Feature::Dns);
        }
        if self.multimedia {
            features.push(Feature::Multimedia);
        }
        if let Some(target) = self.mtu {
            features.push(Feature::Mtu(target));
        }
        if self.power {
            features.push(Feature::Power);
        }
        assert(features@ =~= enabled_of(*self));
        features
    }
}

/// Tweak group of the TCP tuning feature.
pub const GROUP_TCP: &'static str = "tcp";

/// Tweak group of the multimedia throttling feature.
pub const GROUP_SYSTEM: &'static str = "system";

/// Tweak group of the MTU normalization feature.
pub const GROUP_MTU: &'static str = "mtu";

/// Tweak group of the NIC power-management feature.
pub const GROUP_POWER: &'static str = "power";

/// One archived registry value.
#[derive(Debug, PartialEq, Eq)]
pub struct ArchiveValue {
    /// Tweak group this value belongs to.
    pub group: String,
    /// Full registry subkey under `HKEY_LOCAL_MACHINE`.
    pub subkey: String,
    /// Value name inside the subkey.
    pub name: String,
    /// The value existed before the program wrote it.
    pub present: bool,
    /// The saved DWORD (meaningful only when `present` is true).
    pub value: u32,
}

/// An [`ArchiveValue`] over texts.
pub struct Entry {
    pub group: Seq<char>,
    pub subkey: Seq<char>,
    pub name: Seq<char>,
    pub present: bool,
    pub value: u32,
}

impl View for ArchiveValue {
    type V = Entry;

    open spec fn view(&self) -> Entry {
        Entry {
            group: self.group@,
            subkey: self.subkey@,
            name: self.name@,
            present: self.present,
            value: self.value,
        }
    }
}

impl Clone for ArchiveValue {
    fn clone(&self) -> (copy: Self)
        ensures
            copy@ == self@,
    {
        ArchiveValue {
            group: self.group.clone(),
            subkey: self.subkey.clone(),
            name: self.name.clone(),
            present: self.present,
            value: self.value,
        }
    }
}

impl Entry {
    /// The registry value that the entry describes, `None` when absent.
    pub open spec fn saved(self) -> Option<u32> {
        if self.present {
            Some(self.value)
        } else {
            None
        }
    }

    /// True when the entry is about this registry value.
    pub open spec fn is_at(self, subkey: Seq<char>, name: Seq<char>) -> bool {
        self.subkey == subkey && self.name == name
    }

    /// The action that puts the saved value back.
    pub open spec fn restoring(self) -> Act {
        if self.present {
            Act::WriteDword { subkey: self.subkey, name: self.name, value: self.value }
        } else {
            Act::DeleteValue { subkey: self.subkey, name: self.name }
        }
    }
}

/// DNS servers that an adapter used before the program switched it.
#[derive(Debug, PartialEq, Eq)]
pub struct DnsBackup {
    /// Friendly adapter name.
    pub interface: String,
    /// The adapter obtained its IPv4 setting from DHCP before the switch.
    pub dhcp: bool,
    /// The IPv4 DNS servers in order, primary first.
    pub servers: Vec<String>,
    /// The IPv6 DNS servers in order; an empty list means DHCP-managed.
    pub servers6: Vec<String>,
}

/// A [`DnsBackup`] over texts.
pub struct Backup {
    pub interface: Seq<char>,
    pub dhcp: bool,
    pub servers: Seq<Seq<char>>,
    pub servers6: Seq<Seq<char>>,
}

impl View for DnsBackup {
    type V = Backup;

    open spec fn view(&self) -> Backup {
        Backup {
            interface: self.interface@,
            dhcp: self.dhcp,
            servers: views(self.servers@),
            servers6: views(self.servers6@),
        }
    }
}

impl Clone for DnsBackup {
    fn clone(&self) -> (copy: Self)
        ensures
            copy@ == self@,
    {
        DnsBackup {
            interface: self.interface.clone(),
            dhcp: self.dhcp,
            servers: text::clone_all(&self.servers),
            servers6: text::clone_all(&self.servers6),
        }
    }
}

/// The saved machine state.
#[derive(Debug, PartialEq, Eq)]
pub struct Archive {
    /// Saved registry values.
    pub values: Vec<ArchiveValue>,
    /// Saved DNS servers per adapter.
    pub dns: Vec<DnsBackup>,
}

/// An [`Archive`] over texts.
pub struct Saved {
    pub values: Seq<Entry>,
    pub dns: Seq<Backup>,
}

/// Archived values over texts.
pub open spec fn entry_views(v: Seq<ArchiveValue>) -> Seq<Entry> {
    Seq::new(v.len(), |i: int| v[i]@)
}

/// Archived DNS states over texts.
pub open spec fn backup_views(v: Seq<DnsBackup>) -> Seq<Backup> {
    Seq::new(v.len(), |i: int| v[i]@)
}

impl View for Archive {
    type V = Saved;

    open spec fn view(&self) -> Saved {
        Saved { values: entry_views(self.values@), dns: backup_views(self.dns@) }
    }
}

impl Default for Archive {
    fn default() -> (archive: Self)
        ensures
            archive@ == (Saved { values: Seq::empty(), dns: Seq::empty() }),
    {
        let archive = Archive { values: Vec::new(), dns: Vec::new() };
        assert(archive@.values =~= Seq::<Entry>::empty());
        assert(archive@.dns =~= Seq::<Backup>::empty());
        archive
    }
}

/// True when a value is recorded for `(group, subkey, name)`.
pub open spec fn recorded(
    values: Seq<Entry>,
    group: Seq<char>,
    subkey: Seq<char>,
    name: Seq<char>,
) -> bool {
    exists|i: int|
        0 <= i < values.len() && (#[trigger] values[i]).group == group && values[i].is_at(
            subkey,
            name,
        )
}

/// The archived values after recording `current` for `(group, subkey, name)`:
/// a value that is recorded already stays as it is.
pub open spec fn ensured(
    values: Seq<Entry>,
    group: Seq<char>,
    subkey: Seq<char>,
    name: Seq<char>,
    current: Option<u32>,
) -> Seq<Entry> {
    if recorded(values, group, subkey, name) {
        values
    } else {
        values.push(
            Entry {
                group,
                subkey,
                name,
                present: current is Some,
                value: match current {
                    Some(v) => v,
                    None => 0,
                },
            },
        )
    }
}

/// The archive without the value that was recorded last.
pub open spec fn taken_back(archive: Saved) -> Saved {
    Saved { values: archive.values.drop_last(), dns: archive.dns }
}

/// True when the DNS state of `interface` is recorded.
pub open spec fn dns_recorded(dns: Seq<Backup>, interface: Seq<char>) -> bool {
    exists|i: int| 0 <= i < dns.len() && (#[trigger] dns[i]).interface == interface
}

/// The archived DNS states after recording `backup`: an adapter that is
/// recorded already stays as it is.
pub open spec fn dns_ensured(dns: Seq<Backup>, backup: Backup) -> Seq<Backup> {
    if dns_recorded(dns, backup.interface) {
        dns
    } else {
        dns.push(backup)
    }
}

/// The entries of one group, in order.
pub open spec fn of_group(values: Seq<Entry>, group: Seq<char>) -> Seq<Entry>
    decreases values.len(),
{
    if values.len() == 0 {
        Seq::empty()
    } else {
        let rest = of_group(values.drop_last(), group);
        if values.last().group == group {
            rest.push(values.last())
        } else {
            rest
        }
    }
}

/// What stays of the archived values once the entries of `group` have been
/// restored with these results, the first result belonging to the first entry
/// of the group: the other groups, and the entries that could not be restored.
pub open spec fn unrestored(
    values: Seq<Entry>,
    group: Seq<char>,
    results: Seq<Result<(), Seq<char>>>,
) -> Seq<Entry>
    decreases values.len(),
{
    if values.len() == 0 {
        Seq::empty()
    } else {
        let front = values.drop_last();
        let rest = unrestored(front, group, results);
        if values.last().group != group || results[of_group(front, group).len() as int] is Err {
            rest.push(values.last())
        } else {
            rest
        }
    }
}

/// How many results are successes.
pub open spec fn successes(results: Seq<Result<(), Seq<char>>>) -> nat
    decreases results.len(),
{
    if results.len() == 0 {
        0
    } else {
        successes(results.drop_last()) + if results.last() is Ok {
            1nat
        } else {
            0nat
        }
    }
}

/// The actions that restore these entries, in order.
pub open spec fn restoring(entries: Seq<Entry>) -> Seq<Act> {
    Seq::new(entries.len(), |i: int| entries[i].restoring())
}

/// The first error of `results`, if one of them failed.
fn find_error(results: &Vec<Result<(), String>>) -> (error: Option<String>)
    ensures
        match error {
            Some(e) => first_error(result_views(results@)) == Some(e@),
            None => first_error(result_views(results@)) is None,
        },
{
    let mut i: usize = 0;
    let ghost all = result_views(results@);
    assert(all.skip(0) =~= all);
    while i < results.len()
        invariant
            i <= results@.len(),
            all == result_views(results@),
            first_error(all) == first_error(all.skip(i as int)),
        decreases results@.len() - i,
    {
        assert(all.skip(i as int)[0] == result_view(results@[i as int]));
        assert(all.skip(i as int).skip(1) =~= all.skip(i + 1));
        if let Err(e) = &results[i] {
            return Some(e.clone());
        }
        i = i + 1;
    }
    None
}

impl Archive {
    /// Records the current value for `(group, subkey, name)` unless it was
    /// recorded already. Returns true when a new entry was added.
    pub fn ensure(&mut self, group: &str, subkey: &str, name: &str, current: Option<u32>) -> (added:
        bool)
        ensures
            added == !recorded(old(self)@.values, group@, subkey@, name@),
            final(self)@ == (Saved {
                values: ensured(old(self)@.values, group@, subkey@, name@, current),
                dns: old(self)@.dns,
            }),
    {
        let ghost before = self@.values;
        let mut i: usize = 0;
        while i < self.values.len()
            invariant
                i <= self.values@.len(),
                *self == *old(self),
                before == self@.values,
                forall|k: int|
                    0 <= k < i ==> !((#[trigger] before[k]).group == group@ && before[k].is_at(
                        subkey@,
                        name@,
                    )),
            decreases self.values@.len() - i,
        {
            let entry = &self.values[i];
            assert(before[i as int] == entry@);
            if text::same(entry.group.as_str(), group) && text::same(entry.subkey.as_str(), subkey)
                && text::same(entry.name.as_str(), name) {
                return false;
            }
            i = i + 1;
        }
        let present = current.is_some();
        let value: u32 = current.unwrap_or(0);
        self.values.push(
            ArchiveValue {
                group: group.to_owned(),
                subkey: subkey.to_owned(),
                name: name.to_owned(),
                present,
                value,
            },
        );
        assert(self@.values =~= ensured(before, group@, subkey@, name@, current));
        assert(self@.dns =~= old(self)@.dns);
        true
    }

    /// Takes back the value that was recorded last.
    pub fn take_back(&mut self)
        requires
            old(self)@.values.len() > 0,
        ensures
            final(self)@ == taken_back(old(self)@),
    {
        let ghost before = self@;
        let _ = self.values.pop();
        assert(self@.values =~= before.values.drop_last());
        assert(self@.dns =~= before.dns);
    }

    /// Takes back the DNS states recorded after the first `count`.
    pub fn dns_take_back(&mut self, count: usize)
        requires
            count <= old(self)@.dns.len(),
        ensures
            final(self)@ == (Saved {
                values: old(self)@.values,
                dns: old(self)@.dns.take(count as int),
            }),
    {
        let ghost before = self@;
        self.dns.truncate(count);
        assert(self@.values =~= before.values);
        assert(self@.dns =~= before.dns.take(count as int));
    }

    /// The actions that put the archived values of `group` back, in the order
    /// of the archive: an entry that was present is written, one that was
    /// absent is deleted.
    pub fn restore_actions(&self, group: &str) -> (actions: Vec<Action>)
        ensures
            action_views(actions@) == restoring(of_group(self@.values, group@)),
    {
        let mut actions: Vec<Action> = Vec::new();
        let mut i: usize = 0;
        let ghost all = self@.values;
        assert(all.take(0) =~= Seq::<Entry>::empty());
        assert(action_views(actions@) =~= restoring(of_group(all.take(0), group@)));
        while i < self.values.len()
            invariant
                i <= self.values@.len(),
                all == self@.values,
                action_views(actions@) == restoring(of_group(all.take(i as int), group@)),
            decreases self.values@.len() - i,
        {
            let entry = &self.values[i];
            let ghost before = actions@;
            proof {
                assert(all.take(i + 1).drop_last() =~= all.take(i as int));
                assert(all.take(i + 1).last() == entry@);
            }
            if text::same(entry.group.as_str(), group) {
                let action = if entry.present {
                    Action::WriteDword {
                        subkey: entry.subkey.clone(),
                        name: entry.name.clone(),
                        value: entry.value,
                    }
                } else {
                    Action::DeleteValue { subkey: entry.subkey.clone(), name: entry.name.clone() }
                };
                let ghost shown = action@;
                actions.push(action);
                proof {
                    assert(action_views(actions@) =~= action_views(before).push(shown));
                    assert(restoring(of_group(all.take(i + 1), group@)) =~= restoring(
                        of_group(all.take(i as int), group@),
                    ).push(shown));
                }
            }
            i = i + 1;
        }
        assert(all.take(all.len() as int) =~= all);
        actions
    }

    /// Settles the archive after the actions of [`Archive::restore_actions`]
    /// were performed with these results. Restored entries are removed; failed
    /// ones stay so that they can be retried. Returns the number of restored
    /// entries, or the first error.
    pub fn restore_group(&mut self, group: &str, results: &Vec<Result<(), String>>) -> (outcome:
        Result<usize, String>)
        requires
            results@.len() == of_group(old(self)@.values, group@).len(),
        ensures
            final(self)@ == (Saved {
                values: unrestored(old(self)@.values, group@, result_views(results@)),
                dns: old(self)@.dns,
            }),
            match outcome {
                Ok(count) => first_error(result_views(results@)) is None && count == successes(
                    result_views(results@),
                ),
                Err(e) => first_error(result_views(results@)) == Some(e@),
            },
    {
        let ghost all = self@.values;
        let ghost answers = result_views(results@);
        let mut kept: Vec<ArchiveValue> = Vec::new();
        let mut i: usize = 0;
        let mut next: usize = 0;
        let mut restored: usize = 0;
        proof {
            assert(all.take(0) =~= Seq::<Entry>::empty());
            assert(entry_views(kept@) =~= unrestored(all.take(0), group@, answers));
            assert(answers.take(0) =~= Seq::<Result<(), Seq<char>>>::empty());
        }
        while i < self.values.len()
            invariant
                i <= self.values@.len(),
                *self == *old(self),
                all == self@.values,
                answers == result_views(results@),
                answers.len() == of_group(all, group@).len(),
                next == of_group(all.take(i as int), group@).len(),
                restored == successes(answers.take(next as int)),
                restored <= next <= i,
                next <= answers.len(),
                entry_views(kept@) == unrestored(all.take(i as int), group@, answers),
            decreases self.values@.len() - i,
        {
            let entry = &self.values[i];
            let ghost before = kept@;
            proof {
                assert(all.take(i + 1).drop_last() =~= all.take(i as int));
                assert(all.take(i + 1).last() == entry@);
                of_group_shorter(all, i + 1, group@);
            }
            if !text::same(entry.group.as_str(), group) {
                kept.push(entry.clone());
                proof {
                    assert(kept@.last()@ == entry@);
                    assert(entry_views(kept@) =~= entry_views(before).push(entry@));
                }
            } else {
                assert(next < answers.len());
                assert(answers[next as int] == result_view(results@[next as int]));
                assert(answers.take(next + 1).drop_last() =~= answers.take(next as int));
                match &results[next] {
                    Ok(_) => {
                        restored = restored + 1;
                    },
                    Err(_) => {
                        kept.push(entry.clone());
                        proof {
                            assert(kept@.last()@ == entry@);
                            assert(entry_views(kept@) =~= entry_views(before).push(entry@));
                        }
                    },
                }
                next = next + 1;
            }
            i = i + 1;
        }
        assert(all.take(all.len() as int) =~= all);
        assert(answers.take(answers.len() as int) =~= answers);
        self.values = kept;
        match find_error(results) {
            Some(e) => Err(e),
            None => Ok(restored),
        }
    }

    /// Records the DNS state of `interface` unless it was recorded already.
    /// Returns true when a new entry was added.
    pub fn dns_ensure(
        &mut self,
        interface: &str,
        dhcp: bool,
        servers: Vec<String>,
        servers6: Vec<String>,
    ) -> (added: bool)
        ensures
            added == !dns_recorded(old(self)@.dns, interface@),
            final(self)@ == (Saved {
                values: old(self)@.values,
                dns: dns_ensured(
                    old(self)@.dns,
                    Backup {
                        interface: interface@,
                        dhcp,
                        servers: views(servers@),
                        servers6: views(servers6@),
                    },
                ),
            }),
    {
        let ghost before = self@.dns;
        let mut i: usize = 0;
        while i < self.dns.len()
            invariant
                i <= self.dns@.len(),
                *self == *old(self),
                before == self@.dns,
                forall|k: int| 0 <= k < i ==> (#[trigger] before[k]).interface != interface@,
            decreases self.dns@.len() - i,
        {
            assert(before[i as int] == self.dns@[i as int]@);
            if text::same(self.dns[i].interface.as_str(), interface) {
                return false;
            }
            i = i + 1;
        }
        let ghost backup = Backup {
            interface: interface@,
            dhcp,
            servers: views(servers@),
            servers6: views(servers6@),
        };
        self.dns.push(DnsBackup { interface: interface.to_owned(), dhcp, servers, servers6 });
        assert(self@.dns =~= dns_ensured(before, backup));
        assert(self@.values =~= old(self)@.values);
        true
    }
}

proof fn of_group_shorter(values: Seq<Entry>, i: int, group: Seq<char>)
    requires
        0 <= i <= values.len(),
    ensures
        of_group(values.take(i), group).len() <= of_group(values, group).len(),
    decreases values.len() - i,
{
    if i < values.len() {
        of_group_shorter(values, i + 1, group);
        assert(values.take(i + 1).drop_last() =~= values.take(i));
    } else {
        assert(values.take(i) =~= values);
    }
}

// ---------------------------------------------------------------------------
// Profiles
// ---------------------------------------------------------------------------

/// The longest profile name.
pub const MAX_PROFILE_NAME: usize = 40;

/// A character that a profile name may have.
pub open spec fn profile_char(c: char) -> bool {
    alphanumeric(c) || c == '-' || c == '_' || c == '.'
}

/// True of the names that a profile may have: short, not empty, and made of
/// letters, digits, dashes, underscores and dots.
pub open spec fn valid_profile_name(name: Seq<char>) -> bool {
    &&& 0 < name.len() <= MAX_PROFILE_NAME
    &&& forall|i: int| 0 <= i < name.len() ==> profile_char(#[trigger] name[i])
}

/// The refusal of a profile name.
pub open spec fn profile_name_error(name: Seq<char>) -> Seq<char> {
    "invalid profile name '"@ + name + "': use letters, digits, '-', '_' or '.'"@
}

/// Validates a profile name: non-empty, short, printable. A name that passes
/// holds no path separator and no other ASCII character with a meaning to the
/// file system.
pub fn validate_profile_name(name: &str) -> (outcome: Result<(), String>)
    ensures
        outcome is Ok <==> valid_profile_name(name@),
        outcome matches Err(e) ==> e@ == profile_name_error(name@),
        outcome is Ok ==> forall|i: int|
            0 <= i < name@.len() && (name@[i] as u32) < 128 ==> ascii_alphanumeric(
                #[trigger] name@[i],
            ) || name@[i] == '-' || name@[i] == '_' || name@[i] == '.',
        outcome is Ok ==> !name@.contains('/') && !name@.contains('\\') && !name@.contains(':'),
{
    let v = text::chars(name);
    let mut valid = v.len() > 0 && v.len() <= MAX_PROFILE_NAME;
    let mut i: usize = 0;
    while valid && i < v.len()
        invariant
            i <= v@.len(),
            v@ == name@,
            valid ==> 0 < v@.len() <= MAX_PROFILE_NAME,
            valid ==> forall|k: int| 0 <= k < i ==> profile_char(#[trigger] name@[k]),
            valid ==> forall|k: int|
                0 <= k < i && (name@[k] as u32) < 128 ==> ascii_alphanumeric(
                    #[trigger] name@[k],
                ) || name@[k] == '-' || name@[k] == '_' || name@[k] == '.',
            !valid ==> !valid_profile_name(name@),
        decreases v@.len() - i,
    {
        let c: char = v[i];
        let fine = c.is_alphanumeric() || c == '-' || c == '_' || c == '.';
        if !fine {
            assert(!profile_char(name@[i as int]));
            valid = false;
        }
        i = i + 1;
    }
    if valid {
        proof {
            if name@.contains('/') {
                let k = choose|k: int| 0 <= k < name@.len() && name@[k] == '/';
                assert(!ascii_alphanumeric(name@[k]));
            }
            if name@.contains('\\') {
                let k = choose|k: int| 0 <= k < name@.len() && name@[k] == '\\';
                assert(!ascii_alphanumeric(name@[k]));
            }
            if name@.contains(':') {
                let k = choose|k: int| 0 <= k < name@.len() && name@[k] == ':';
                assert(!ascii_alphanumeric(name@[k]));
            }
        }
        Ok(())
    } else {
        Err(
            "invalid profile name '".to_owned().concat(name).concat(
                "': use letters, digits, '-', '_' or '.'",
            ),
        )
    }
}

/// The file that holds a profile.
pub fn profile_file(name: &str) -> (file: Result<String, String>)
    ensures
        file is Ok <==> valid_profile_name(name@),
        file matches Ok(f) ==> f@ == name@ + ".json"@,
        file matches Err(e) ==> e@ == profile_name_error(name@),
{
    match validate_profile_name(name) {
        Ok(_) => Ok(name.to_owned().concat(".json")),
        Err(e) => Err(e),
    }
}

/// The profile that a file holds: a file `NAME.json` holds the profile `NAME`.
pub open spec fn profile_of(file: Seq<char>) -> Option<Seq<char>> {
    if ends(file, ".json"@) && file.len() > ".json"@.len() {
        Some(file.take(file.len() - ".json"@.len()))
    } else {
        None
    }
}

/// The profiles that these files hold, in order.
pub open spec fn profiles_of(files: Seq<Seq<char>>) -> Seq<Seq<char>>
    decreases files.len(),
{
    if files.len() == 0 {
        Seq::empty()
    } else {
        let rest = profiles_of(files.drop_last());
        match profile_of(files.last()) {
            Some(name) => rest.push(name),
            None => rest,
        }
    }
}

/// Lists the saved profile names sorted, given the files of the profile
/// directory.
pub fn list_profiles(files: &Vec<String>) -> (names: Vec<String>)
    ensures
        sorts(profiles_of(views(files@)), views(names@)),
{
    let mut names: Vec<String> = Vec::new();
    let ghost all = views(files@);
    let mut i: usize = 0;
    proof {
        assert(all.take(0) =~= Seq::<Seq<char>>::empty());
        assert(views(names@) =~= profiles_of(all.take(0)));
    }
    while i < files.len()
        invariant
            i <= files@.len(),
            all == views(files@),
            views(names@) == profiles_of(all.take(i as int)),
        decreases files@.len() - i,
    {
        let ghost before = names@;
        proof {
            assert(all.take(i + 1).drop_last() =~= all.take(i as int));
            assert(all.take(i + 1).last() == files@[i as int]@);
        }
        if let Some(name) = text::strip_suffix(files[i].as_str(), ".json") {
            if name.unicode_len() > 0 {
                let ghost shown = name@;
                names.push(name);
                assert(views(names@) =~= views(before).push(shown));
            }
        }
        i = i + 1;
    }
    assert(all.take(all.len() as int) =~= all);
    order::sort(names)
}

/// A profile is listed under the name that it was saved under.
pub proof fn saved_profile_is_listed(name: Seq<char>)
    requires
        valid_profile_name(name),
    ensures
        profile_of(name + ".json"@) == Some(name),
{
    let file = name + ".json"@;
    assert(file.skip(file.len() - ".json"@.len()) =~= ".json"@);
    assert(file.take(file.len() - ".json"@.len()) =~= name);
}

// ---------------------------------------------------------------------------
// Archive snapshots
// ---------------------------------------------------------------------------

/// Number of old archive snapshots kept around.
pub const MAX_SNAPSHOTS: usize = 8;

/// True of a file with the extension `json`.
pub open spec fn is_json(file: Seq<char>) -> bool {
    ends(file, ".json"@) && file.len() > ".json"@.len()
}

/// The JSON files among these, in order.
pub open spec fn json_files(files: Seq<Seq<char>>) -> Seq<Seq<char>> {
    files.filter(|f: Seq<char>| is_json(f))
}

fn snapshots(files: &Vec<String>) -> (found: Vec<String>)
    ensures
        sorts(json_files(views(files@)), views(found@)),
{
    let mut found: Vec<String> = Vec::new();
    let ghost all = views(files@);
    let mut i: usize = 0;
    proof {
        assert(all.take(0) =~= Seq::<Seq<char>>::empty());
        reveal(Seq::filter);
        assert(views(found@) =~= json_files(all.take(0)));
    }
    while i < files.len()
        invariant
            i <= files@.len(),
            all == views(files@),
            views(found@) == json_files(all.take(i as int)),
        decreases files@.len() - i,
    {
        let ghost before = found@;
        proof {
            assert(all.take(i + 1).drop_last() =~= all.take(i as int));
            assert(all.take(i + 1).last() == files@[i as int]@);
            reveal(Seq::filter);
        }
        if let Some(stem) = text::strip_suffix(files[i].as_str(), ".json") {
            if stem.unicode_len() > 0 {
                found.push(files[i].clone());
                assert(views(found@) =~= views(before).push(files@[i as int]@));
            }
        }
        i = i + 1;
    }
    assert(all.take(all.len() as int) =~= all);
    order::sort(found)
}

/// What goes of an ordered list so that no more than `keep` stay: the first
/// ones.
pub open spec fn excess_of(list: Seq<Seq<char>>, keep: int) -> Seq<Seq<char>> {
    list.take(
        if list.len() > keep {
            list.len() - keep
        } else {
            0
        },
    )
}

/// The snapshots to delete so that no more than `keep` stay: the first ones in
/// the order of their names.
pub fn prune(files: &Vec<String>, keep: usize) -> (excess: Vec<String>)
    ensures
        exists|list: Seq<Seq<char>>| #[trigger]
            sorts(json_files(views(files@)), list) && views(excess@) == excess_of(
                list,
                keep as int,
            ),
        exists|list: Seq<Seq<char>>| #[trigger]
            sorts(json_files(views(files@)), list) && views(excess@) == list.take(
                if list.len() > keep {
                    list.len() - keep
                } else {
                    0
                },
            ),
{
    let found = snapshots(files);
    let count: usize = if found.len() > keep {
        found.len() - keep
    } else {
        0
    };
    let mut excess: Vec<String> = Vec::new();
    let mut i: usize = 0;
    while i < count
        invariant
            i <= count <= found@.len(),
            excess@.len() == i,
            forall|k: int| 0 <= k < i ==> (#[trigger] excess@[k])@ == found@[k]@,
        decreases count - i,
    {
        excess.push(found[i].clone());
        i = i + 1;
    }
    assert(views(excess@) =~= views(found@).take(count as int));
    excess
}

/// The most recent archive snapshot, if any: the last in the order of names.
pub fn latest_archive_snapshot(files: &Vec<String>) -> (latest: Option<String>)
    ensures
        match latest {
            None => json_files(views(files@)).len() == 0,
            Some(name) => {
                &&& json_files(views(files@)).contains(name@)
                &&& forall|f: Seq<char>| #[trigger]
                    json_files(views(files@)).contains(f) ==> ordered(f, name@)
            },
        },
{
    let found = snapshots(files);
    let ghost list = views(found@);
    let ghost all = json_files(views(files@));
    proof {
        list.to_multiset_ensures();
        all.to_multiset_ensures();
    }
    if found.len() == 0 {
        assert(all.len() == list.len());
        return None;
    }
    let last: usize = found.len() - 1;
    let name = found[last].clone();
    proof {
        assert(list[last as int] == name@);
        assert(list.contains(name@));
        assert(list.to_multiset().count(name@) > 0);
        assert(all.contains(name@));
        assert forall|f: Seq<char>| #[trigger] all.contains(f) implies ordered(f, name@) by {
            assert(all.to_multiset().count(f) > 0);
            assert(list.contains(f));
            let k = choose|k: int| 0 <= k < list.len() && list[k] == f;
            assert(ordered(list[k], list[last as int]));
        }
    }
    Some(name)
}

/// Pruning keeps the newest snapshots: at most `keep` stay, none of them comes
/// before a deleted one, and the latest is among them.
pub proof fn pruning_keeps_the_newest(list: Seq<Seq<char>>, keep: int, i: int, j: int)
    requires
        sorted(list),
        0 <= keep,
        0 <= i < (if list.len() > keep {
            list.len() - keep
        } else {
            0
        }) <= j < list.len(),
    ensures
        list.skip(
            if list.len() > keep {
                list.len() - keep
            } else {
                0
            },
        ).len() <= keep,
        ordered(list[i], list[j]),
        ordered(list[j], list.last()),
{
}

} // verus!
