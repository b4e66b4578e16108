//! Applying and reverting the registry tweaks on a model of the machine.

use std::collections::{BTreeMap, BTreeSet};

use stabilizatores::config::{
    Archive, ArchiveValue, GROUP_MTU, GROUP_POWER, GROUP_SYSTEM, GROUP_TCP,
};
use stabilizatores::interfaces::Interface;
use stabilizatores::log::{autostart_entry, entry};
use stabilizatores::mtu;
use stabilizatores::ops::{Action, Reply};
use stabilizatores::power;
use stabilizatores::power::{all_disallow, nics, Nic, Node, APPLIED_BITS, POWER_BIT};
use stabilizatores::registry::Snapshot;
use stabilizatores::revert::Revert;
use stabilizatores::system;
use stabilizatores::system::UNTHROTTLED;
use stabilizatores::tcp;
use stabilizatores::tcp::{iface_subkey, TcpStatus, GLOBAL_SUBKEY};

/// A registry that can refuse to read or write some values, a `netsh` that can
/// fail, and the archive file.
#[derive(Default)]
struct Machine {
    values: BTreeMap<(String, String), u32>,
    keys: BTreeSet<String>,
    refused: BTreeSet<String>,
    unreadable: BTreeSet<String>,
    netsh_fails: bool,
    saving_fails: bool,
    disk: Vec<ArchiveValue>,
    saves: usize,
}

impl Machine {
    fn with_keys(keys: &[String]) -> Machine {
        Machine {
            keys: keys.iter().cloned().collect(),
            ..Machine::default()
        }
    }

    fn set(&mut self, subkey: &str, name: &str, value: u32) {
        self.values.insert((subkey.into(), name.into()), value);
    }

    fn get(&self, subkey: &str, name: &str) -> Option<u32> {
        self.values.get(&(subkey.to_string(), name.to_string())).copied()
    }

    /// Every value that is about to change must be in the archive file.
    fn must_be_on_disk(&self, subkey: &str, name: &str) {
        assert!(
            self.disk
                .iter()
                .any(|entry| entry.subkey == subkey && entry.name == name),
            "{subkey} {name} is not on disk"
        );
    }

    fn perform(&mut self, action: Action, archive: &Archive) -> Reply {
        match action {
            Action::ReadDword { subkey, name } => {
                if self.unreadable.contains(&name) {
                    return Reply::Value(Err("denied".into()));
                }
                Reply::Value(Ok(self.get(&subkey, &name)))
            }
            Action::WriteDword { subkey, name, value } => {
                self.must_be_on_disk(&subkey, &name);
                if self.refused.contains(&name) {
                    return Reply::Done(Err("denied".into()));
                }
                self.values.insert((subkey, name), value);
                Reply::Done(Ok(()))
            }
            Action::DeleteValue { subkey, name } => {
                self.must_be_on_disk(&subkey, &name);
                if self.refused.contains(&name) {
                    return Reply::Done(Err("denied".into()));
                }
                self.values.remove(&(subkey, name));
                Reply::Done(Ok(()))
            }
            Action::KeyExists { subkey } => Reply::Exists(self.keys.contains(&subkey)),
            Action::Netsh { .. } => Reply::Output(Ok(String::new())),
            Action::LiveMtu {
                subkey,
                value,
                persistent,
                ..
            } => {
                if self.netsh_fails {
                    return Reply::Output(Err("no such interface".into()));
                }
                if persistent {
                    self.values.insert((subkey, "MTU".into()), value);
                }
                Reply::Output(Ok(String::new()))
            }
            Action::SaveArchive => {
                if self.saving_fails {
                    return Reply::Done(Err("disk full".into()));
                }
                self.saves += 1;
                self.disk = archive.values.clone();
                Reply::Done(Ok(()))
            }
        }
    }

    fn look(&mut self, questions: Vec<Action>) -> Snapshot {
        let mut snapshot = Snapshot::empty();
        for question in questions {
            let reply = self.perform(question.clone(), &Archive::default());
            snapshot.record(question, reply);
        }
        snapshot
    }

    fn undo(&mut self, mut run: Revert) -> (Archive, Result<(), String>) {
        while let Some(action) = run.pending() {
            let reply = self.perform(action, &run.archive);
            run.resume(reply);
        }
        (run.archive, run.result.expect("the run has finished"))
    }

    fn tune(&mut self, archive: Archive, all: &Vec<Interface>) -> (Archive, Result<TcpStatus, String>) {
        let mut run = tcp::apply(archive, all);
        while let Some(action) = run.pending() {
            let reply = self.perform(action, &run.archive);
            run.resume(reply);
        }
        (run.archive, run.result.expect("the run has finished"))
    }

    fn unthrottle(&mut self, archive: Archive) -> (Archive, Result<(), String>) {
        let mut run = system::apply(archive);
        while let Some(action) = run.pending() {
            let reply = self.perform(action, &run.archive);
            run.resume(reply);
        }
        (run.archive, run.result.expect("the run has finished"))
    }

    fn size(&mut self, archive: Archive, target: u32, all: &Vec<Interface>) -> (Archive, Result<(), String>) {
        let mut run = mtu::apply(archive, target, all);
        while let Some(action) = run.pending() {
            let reply = self.perform(action, &run.archive);
            run.resume(reply);
        }
        (run.archive, run.result.expect("the run has finished"))
    }

    fn keep_on(&mut self, archive: Archive, nics: Vec<Nic>) -> (Archive, Result<(), String>) {
        let mut run = power::apply(archive, nics);
        while let Some(action) = run.pending() {
            let reply = self.perform(action, &run.archive);
            run.resume(reply);
        }
        (run.archive, run.result.expect("the run has finished"))
    }
}

fn adapter(guid: &str, friendly: &str) -> Interface {
    Interface {
        guid: guid.into(),
        index: 1,
        friendly: friendly.into(),
        description: String::new(),
        mtu: 0,
        if_type: 6,
        up: true,
        dhcp: true,
        dns: vec![],
        dns6: vec![],
        ips: vec![],
        gateways: vec![],
        mac: String::new(),
    }
}

#[test]
fn aligned_false_when_global_missing() {
    assert!(!TcpStatus {
        global_ok: false,
        ..TcpStatus::default()
    }
    .aligned());
}

#[test]
fn aligned_true_when_no_interfaces() {
    assert!(TcpStatus {
        global_ok: true,
        ifaces_total: 0,
        ..TcpStatus::default()
    }
    .aligned());
}

#[test]
fn aligned_requires_all_ifaces() {
    let status = TcpStatus {
        global_ok: true,
        ifaces_ok: 1,
        ifaces_total: 2,
    };
    assert!(!status.aligned());
    let status = TcpStatus {
        global_ok: true,
        ifaces_ok: 2,
        ifaces_total: 2,
    };
    assert!(status.aligned());
}

#[test]
fn iface_subkey_shape() {
    assert_eq!(
        iface_subkey("{abc}"),
        r"SYSTEM\CurrentControlSet\Services\Tcpip\Parameters\Interfaces\{abc}"
    );
}

#[test]
fn tuning_and_reverting_leaves_the_registry_as_it_was() {
    let all = vec![adapter("{a}", "A"), adapter("{b}", "B")];
    let key = iface_subkey("{a}");
    let mut machine = Machine::with_keys(&[key.clone(), GLOBAL_SUBKEY.to_string()]);
    machine.set(GLOBAL_SUBKEY, "TcpTimedWaitDelay", 240);
    machine.set(&key, "TcpAckFrequency", 2);
    let before = machine.values.clone();

    let (archive, result) = machine.tune(Archive::default(), &all);
    let status = result.expect("apply should succeed");
    assert!(status.aligned(), "everything must be tuned: {status:?}");
    assert_eq!(status.ifaces_total, 1, "an adapter without a key is skipped");
    assert_eq!(machine.get(GLOBAL_SUBKEY, "TcpTimedWaitDelay"), Some(30));
    assert_eq!(machine.get(GLOBAL_SUBKEY, "MaxUserPort"), Some(65534));
    assert_eq!(machine.get(&key, "TCPNoDelay"), Some(1));
    assert_eq!(machine.saves, 5, "every new entry is saved before its value is written");
    assert_eq!(machine.disk, archive.values);

    let snapshot = machine.look(tcp::queries(&all));
    assert!(tcp::status(&snapshot, &all).aligned());

    let (archive, again) = machine.tune(archive, &all);
    assert!(again.is_ok());
    assert_eq!(archive.values.len(), 5, "a second apply records nothing new");
    assert_eq!(machine.saves, 5);

    let (archive, result) = machine.undo(tcp::revert(archive));
    assert_eq!(result, Ok(()));
    assert!(archive.values.is_empty(), "archive must be drained after revert");
    assert_eq!(machine.values, before);
}

#[test]
fn a_refused_write_fails_the_tuning_but_stays_recoverable() {
    let all = vec![adapter("{a}", "A")];
    let key = iface_subkey("{a}");
    let mut machine = Machine::with_keys(&[key.clone()]);
    machine.set(&key, "TCPNoDelay", 0);
    machine.refused.insert("TcpDelAckTicks".into());
    let before = machine.values.clone();
    let (archive, result) = machine.tune(Archive::default(), &all);
    assert!(result.is_err());
    machine.refused.clear();
    let (archive, result) = machine.undo(tcp::revert(archive));
    assert_eq!(result, Ok(()));
    assert!(archive.values.is_empty());
    assert_eq!(machine.values, before);
}

#[test]
fn a_failed_restore_is_kept_and_retried() {
    let mut machine = Machine::default();
    machine.set(system::SUBKEY, system::NAME, 10);
    let (archive, result) = machine.unthrottle(Archive::default());
    assert_eq!(result, Ok(()));
    machine.refused.insert(system::NAME.into());
    let (archive, result) = machine.undo(system::revert(archive));
    assert!(result.is_err());
    assert_eq!(archive.values.len(), 1);
    machine.refused.clear();
    let (archive, result) = machine.undo(system::revert(archive));
    assert_eq!(result, Ok(()));
    assert!(archive.values.is_empty());
    assert_eq!(machine.get(system::SUBKEY, system::NAME), Some(10));
}

#[test]
fn unthrottled_value_is_max() {
    assert_eq!(UNTHROTTLED, u32::MAX);
}

#[test]
fn throttling_is_removed_and_comes_back() {
    let mut machine = Machine::default();
    let (archive, result) = machine.unthrottle(Archive::default());
    assert_eq!(result, Ok(()));
    let snapshot = machine.look(vec![system::query()]);
    assert!(
        system::status(&snapshot),
        "throttling must read as removed after apply"
    );
    let (archive, result) = machine.undo(system::revert(archive));
    assert_eq!(result, Ok(()));
    assert!(archive.values.is_empty(), "archive must be drained");
    assert_eq!(machine.get(system::SUBKEY, system::NAME), None);
}

#[test]
fn guid_is_subkey_suffix() {
    assert_eq!(
        mtu::guid_from_subkey(
            r"SYSTEM\CurrentControlSet\Services\Tcpip\Parameters\Interfaces\{abc}"
        ),
        Some("{abc}".to_string())
    );
}

#[test]
fn apply_rejects_out_of_range() {
    let mut machine = Machine::default();
    let (archive, result) = machine.size(Archive::default(), 60, &vec![]);
    assert!(result.is_err());
    let (archive, result) = machine.size(archive, 20000, &vec![]);
    assert!(result.is_err());
    assert!(archive.values.is_empty());
}

#[test]
fn the_mtu_is_set_and_comes_back() {
    let all = vec![adapter("{a}", "A"), adapter("{b}", "B")];
    let a = iface_subkey("{a}");
    let b = iface_subkey("{b}");
    let mut machine = Machine::with_keys(&[a.clone(), b.clone()]);
    machine.set(&a, "MTU", 1300);
    let before = machine.values.clone();
    let (archive, result) = machine.size(Archive::default(), 1400, &all);
    assert_eq!(result, Ok(()));
    assert_eq!(machine.get(&a, "MTU"), Some(1400));
    assert_eq!(machine.get(&b, "MTU"), Some(1400));
    let snapshot = machine.look(mtu::queries(&all));
    assert!(mtu::status(&snapshot, 1400, &all));
    assert!(!mtu::status(&snapshot, 1500, &all));

    let (archive, result) = machine.undo(mtu::revert(archive, &all));
    assert_eq!(result, Ok(()));
    assert!(archive.values.iter().all(|entry| entry.group != GROUP_MTU));
    assert_eq!(machine.values, before);
}

#[test]
fn the_live_mtu_counts_too() {
    let mut all = vec![adapter("{a}", "A")];
    let a = iface_subkey("{a}");
    let mut machine = Machine::with_keys(&[a.clone()]);
    machine.set(&a, "MTU", 1400);
    let snapshot = machine.look(mtu::queries(&all));
    assert!(mtu::status(&snapshot, 1400, &all), "an unknown link passes");
    all[0].mtu = 1500;
    assert!(!mtu::status(&snapshot, 1400, &all));
    all[0].mtu = 1400;
    assert!(mtu::status(&snapshot, 1400, &all));
}

#[test]
fn an_absent_mtu_counts_as_the_default() {
    let all = vec![adapter("{a}", "A")];
    let mut machine = Machine::with_keys(&[iface_subkey("{a}")]);
    let snapshot = machine.look(mtu::queries(&all));
    assert!(mtu::status(&snapshot, 1500, &all));
    assert!(!mtu::status(&snapshot, 1400, &all));
}

#[test]
fn quoted_adapters_are_reported_not_half_applied() {
    let all = vec![adapter("{a}", "bad\"name"), adapter("{b}", "B")];
    let a = iface_subkey("{a}");
    let b = iface_subkey("{b}");
    let mut machine = Machine::with_keys(&[a.clone(), b.clone()]);
    let (archive, result) = machine.size(Archive::default(), 1400, &all);
    assert!(result.is_err());
    assert_eq!(machine.get(&a, "MTU"), None);
    assert_eq!(machine.get(&b, "MTU"), Some(1400));
    assert_eq!(archive.values.len(), 1);
}

#[test]
fn failing_links_are_told_together() {
    let all = vec![adapter("{a}", "A"), adapter("{b}", "B")];
    let mut machine = Machine::with_keys(&[iface_subkey("{a}"), iface_subkey("{b}")]);
    machine.netsh_fails = true;
    let (_, result) = machine.size(Archive::default(), 1400, &all);
    let error = result.expect_err("netsh fails");
    assert!(error.contains("; "), "{error}");
}

fn nic(value: Option<u32>) -> Nic {
    Nic {
        subkey: "k".into(),
        guid: "{x}".into(),
        description: "NIC".into(),
        value,
    }
}

#[test]
fn all_must_disallow_power_down() {
    assert!(all_disallow(&vec![nic(Some(0x18)), nic(Some(0x10))]));
    assert!(!all_disallow(&vec![nic(Some(0x18)), nic(None)]));
    assert!(!all_disallow(&vec![nic(Some(0x18)), nic(Some(0x00))]));
}

#[test]
fn empty_node_list_is_aligned() {
    assert!(all_disallow(&vec![]));
}

#[test]
fn applied_bits_include_power_bit() {
    assert_ne!(APPLIED_BITS & POWER_BIT, 0);
}

#[test]
fn nics_are_kept_on_and_come_back() {
    let mut machine = Machine::default();
    let nodes = |machine: &Machine| {
        let node = |name: &str| Node {
            name: name.into(),
            guid: Ok(Some(format!("{{{name}}}"))),
            description: Ok(Some("card".into())),
            value: Ok(machine.get(&power::node_subkey(name), power::VALUE)),
        };
        nics(&Ok(vec![node("0001"), node("0002")]))
    };
    machine.set(&power::node_subkey("0001"), power::VALUE, 0x20);
    let before = machine.values.clone();
    let list = nodes(&machine);
    assert_eq!(list.len(), 2);
    assert!(!power::status(&list));

    let (archive, result) = machine.keep_on(Archive::default(), list);
    assert_eq!(result, Ok(()));
    assert!(
        power::status(&nodes(&machine)),
        "every NIC must disallow power-down after apply"
    );
    assert_eq!(
        machine.get(&power::node_subkey("0001"), power::VALUE),
        Some(0x38),
        "other bits are kept"
    );

    let (archive, result) = machine.undo(power::revert(archive));
    assert_eq!(result, Ok(()));
    assert!(archive.values.iter().all(|entry| entry.group != GROUP_POWER));
    assert_eq!(machine.values, before, "values must be restored exactly");
}

#[test]
fn reverting_one_group_leaves_the_others() {
    let all = vec![adapter("{a}", "A")];
    let mut machine = Machine::with_keys(&[iface_subkey("{a}")]);
    let (archive, _) = machine.tune(Archive::default(), &all);
    let (archive, _) = machine.unthrottle(archive);
    let (archive, result) = machine.undo(tcp::revert(archive));
    assert_eq!(result, Ok(()));
    assert!(archive.values.iter().all(|entry| entry.group == GROUP_SYSTEM));
    assert!(archive.values.iter().all(|entry| entry.group != GROUP_TCP));
    assert_eq!(archive.values.len(), 1);
    assert_eq!(machine.get(system::SUBKEY, system::NAME), Some(UNTHROTTLED));
}

#[test]
fn read_missing_key_is_none() {
    let mut machine = Machine::default();
    let snapshot = machine.look(vec![Action::ReadDword {
        subkey: r"SYSTEM\CurrentControlSet\Services\Tcpip\Parameters\Interfaces".into(),
        name: "TCPNoDelay".into(),
    }]);
    let value = snapshot
        .read_dword(
            r"SYSTEM\CurrentControlSet\Services\Tcpip\Parameters\Interfaces",
            "TCPNoDelay",
        )
        .expect("reading should not fail");
    assert_eq!(value, None);
}

#[test]
fn no_target_is_always_met() {
    let all = vec![adapter("{a}", "A")];
    let mut machine = Machine::with_keys(&[iface_subkey("{a}")]);
    let snapshot = machine.look(mtu::queries(&all));
    assert!(mtu::is_met(&snapshot, None, &all));
    assert!(mtu::is_met(&snapshot, Some(1500), &all));
    assert!(!mtu::is_met(&snapshot, Some(1400), &all));
}

#[test]
fn a_tuning_that_cannot_read_on_has_saved_what_it_replaced() {
    let mut machine = Machine::default();
    machine.set(GLOBAL_SUBKEY, "TcpTimedWaitDelay", 240);
    machine.unreadable.insert("MaxUserPort".into());
    let (archive, result) = machine.tune(Archive::default(), &vec![]);
    assert_eq!(
        result,
        Err(format!("read {GLOBAL_SUBKEY}\\MaxUserPort: denied"))
    );
    assert_eq!(machine.get(GLOBAL_SUBKEY, "TcpTimedWaitDelay"), Some(30));
    assert_eq!(machine.disk, archive.values);
    assert_eq!(
        machine.disk,
        vec![ArchiveValue {
            group: GROUP_TCP.into(),
            subkey: GLOBAL_SUBKEY.into(),
            name: "TcpTimedWaitDelay".into(),
            present: true,
            value: 240,
        }]
    );
}

#[test]
fn an_mtu_run_that_cannot_read_on_has_saved_what_it_replaced() {
    let all = vec![adapter("{a}", "A"), adapter("{b}", "B")];
    let a = iface_subkey("{a}");
    let b = iface_subkey("{b}");
    let mut machine = Machine::with_keys(&[a.clone(), b.clone()]);
    machine.set(&a, "MTU", 1300);
    let mut run = mtu::apply(Archive::default(), 1400, &all);
    while let Some(action) = run.pending() {
        let second = matches!(&action, Action::ReadDword { subkey, .. } if *subkey == b);
        let reply = if second {
            Reply::Value(Err("denied".into()))
        } else {
            machine.perform(action, &run.archive)
        };
        run.resume(reply);
    }
    assert_eq!(run.result, Some(Err(format!("read {b}\\MTU: denied"))));
    assert_eq!(machine.get(&a, "MTU"), Some(1400));
    assert_eq!(machine.disk.len(), 1);
    assert_eq!(machine.disk, run.archive.values);
    assert_eq!(machine.disk[0].value, 1300);
}

#[test]
fn a_power_run_that_cannot_read_on_has_saved_what_it_replaced() {
    let mut machine = Machine::default();
    let mut first = nic(None);
    first.subkey = "first".into();
    machine.set("first", power::VALUE, 0x20);
    let mut run = power::apply(Archive::default(), vec![first, nic(None)]);
    while let Some(action) = run.pending() {
        let second = matches!(&action, Action::ReadDword { subkey, .. } if subkey == "k");
        let reply = if second {
            Reply::Value(Err("denied".into()))
        } else {
            machine.perform(action, &run.archive)
        };
        run.resume(reply);
    }
    assert_eq!(run.result, Some(Err("read NIC: denied".to_string())));
    assert_eq!(machine.get("first", power::VALUE), Some(0x38));
    assert_eq!(machine.disk.len(), 1);
    assert_eq!(machine.disk, run.archive.values);
}

#[test]
fn a_throttling_run_that_cannot_read_changes_nothing() {
    let mut machine = Machine::default();
    machine.set(system::SUBKEY, system::NAME, 10);
    machine.unreadable.insert(system::NAME.into());
    let (archive, result) = machine.unthrottle(Archive::default());
    assert!(result.is_err());
    assert!(archive.values.is_empty());
    assert_eq!(machine.get(system::SUBKEY, system::NAME), Some(10));
}

#[test]
fn what_cannot_be_saved_is_not_replaced() {
    let all = vec![adapter("{a}", "A")];
    let mut machine = Machine::with_keys(&[iface_subkey("{a}")]);
    machine.set(GLOBAL_SUBKEY, "TcpTimedWaitDelay", 240);
    machine.set(system::SUBKEY, system::NAME, 10);
    let before = machine.values.clone();
    machine.saving_fails = true;
    let full = Err("disk full".to_string());

    let (archive, result) = machine.tune(Archive::default(), &all);
    assert_eq!(result.map(|_| ()), full);
    let (archive, result) = machine.unthrottle(archive);
    assert_eq!(result, full);
    let (archive, result) = machine.size(archive, 1400, &all);
    assert_eq!(result, full);
    let (archive, result) = machine.keep_on(archive, vec![nic(None)]);
    assert_eq!(result, full);
    assert!(archive.values.is_empty(), "unsaved entries are taken back");
    assert_eq!(machine.values, before);

    machine.saving_fails = false;
    let (archive, result) = machine.unthrottle(archive);
    assert_eq!(result, Ok(()), "the next run tries again");
    assert_eq!(machine.disk, archive.values);
}

#[test]
fn every_change_has_a_log_line() {
    let set = Action::WriteDword {
        subkey: "k".into(),
        name: "n".into(),
        value: 30,
    };
    assert_eq!(entry(&set, &Ok(())), Some(r"set k\n to 30".to_string()));
    assert_eq!(
        entry(&set, &Err("denied".into())),
        Some(r"set k\n to 30: denied".to_string())
    );
    let delete = Action::DeleteValue {
        subkey: "k".into(),
        name: "n".into(),
    };
    assert_eq!(entry(&delete, &Ok(())), Some(r"delete k\n".to_string()));
    let netsh = Action::Netsh {
        args: vec!["dns".into(), "add".into(), "?".into()],
    };
    assert_eq!(entry(&netsh, &Ok(())), Some("netsh dns add ?".to_string()));
    let read = Action::ReadDword {
        subkey: "k".into(),
        name: "n".into(),
    };
    assert_eq!(autostart_entry(true, &Ok(())), "autostart: enabled");
    assert_eq!(
        autostart_entry(false, &Err("denied".into())),
        "autostart: disabled: denied"
    );
    assert_eq!(entry(&read, &Ok(())), None);
    assert_eq!(entry(&Action::SaveArchive, &Ok(())), None);
    assert_eq!(entry(&Action::KeyExists { subkey: "k".into() }, &Ok(())), None);
}

#[test]
fn links_and_nics_are_named_in_the_log() {
    let all = vec![adapter("{a}", "A")];
    let a = iface_subkey("{a}");
    let mut machine = Machine::with_keys(&[a.clone()]);
    machine.set(&a, "MTU", 1300);
    let mut notes = Vec::new();
    let mut run = mtu::apply(Archive::default(), 1400, &all);
    while let Some(action) = run.pending() {
        if let Action::LiveMtu { adapter, .. } = &action {
            assert_eq!(adapter, "A");
        }
        let reply = machine.perform(action, &run.archive);
        notes.extend(run.notes(&reply));
        run.resume(reply);
    }
    assert_eq!(notes, vec!["mtu: setting A to 1400"]);

    notes.clear();
    machine.netsh_fails = true;
    let mut run = mtu::revert(run.archive, &all);
    while let Some(action) = run.pending() {
        let reply = machine.perform(action, &run.archive);
        notes.extend(run.notes(&reply));
        run.resume(reply);
    }
    assert_eq!(
        notes,
        vec![
            "mtu: setting A to 1300",
            "mtu: live restore of 1300 on A failed: no such interface"
        ]
    );

    notes.clear();
    let mut run = power::apply(Archive::default(), vec![nic(None)]);
    while let Some(action) = run.pending() {
        let reply = machine.perform(action, &run.archive);
        notes.extend(run.notes(&reply));
        run.resume(reply);
    }
    assert_eq!(notes, vec!["power: NIC ({x}) PnPCapabilities -> 0x18"]);
}

#[test]
fn unread_nics_are_listed() {
    let node = |name: &str, guid: Result<Option<String>, String>, value| Node {
        name: name.into(),
        guid,
        description: Ok(None),
        value,
    };
    let nodes = Ok(vec![
        node("0001", Ok(Some("{a}".into())), Err("denied".into())),
        node("0002", Ok(Some("{b}".into())), Ok(None)),
        node("0003", Err("denied".into()), Err("denied".into())),
    ]);
    assert_eq!(
        power::unread(&nodes),
        vec![format!(
            "read {}\\{}: denied",
            power::node_subkey("0001"),
            power::VALUE
        )]
    );
    assert_eq!(
        power::unread(&Err("denied".into())),
        vec![format!("read {}: denied", power::CLASS_SUBKEY)]
    );
}

#[test]
fn links_that_cannot_be_named_are_noted() {
    let a = iface_subkey("{a}");
    let b = iface_subkey("{b}");
    let c = iface_subkey("{c}");
    let gone = iface_subkey("{gone}");
    let mut archive = Archive::default();
    archive.ensure(GROUP_MTU, &a, "MTU", Some(1300));
    archive.ensure(GROUP_MTU, &b, "MTU", Some(1350));
    archive.ensure(GROUP_MTU, &gone, "MTU", Some(1360));
    archive.ensure(GROUP_MTU, &c, "MTU", None);
    let all = vec![
        adapter("{a}", "bad\"name"),
        adapter("{b}", "B"),
        adapter("{c}", ""),
    ];
    let mut machine = Machine {
        disk: archive.values.clone(),
        ..Machine::default()
    };
    let mut notes = Vec::new();
    let mut run = mtu::revert(archive, &all);
    while let Some(action) = run.pending() {
        let reply = machine.perform(action, &run.archive);
        notes.extend(run.notes(&reply));
        run.resume(reply);
    }
    assert_eq!(run.result, Some(Ok(())));
    assert_eq!(
        notes,
        vec![
            "mtu: live restore of 1300 on bad\"name failed: name value contains a quote: bad\"name",
            "mtu: setting B to 1350",
            "mtu: live restore of 1500 on  failed: empty name value",
        ]
    );
}
