//! Settings, profiles and the archive.

use stabilizatores::config::{
    latest_archive_snapshot, list_profiles, profile_file, prune, validate_profile_name, Archive,
    Config, DnsProvider, Feature, GROUP_SYSTEM, GROUP_TCP, MAX_SNAPSHOTS,
};
use stabilizatores::ops::Action;

fn texts(list: &[&str]) -> Vec<String> {
    list.iter().map(|text| text.to_string()).collect()
}

#[test]
fn config_defaults() {
    let cfg = Config::default();
    assert!(cfg.tcp);
    assert!(!cfg.dns);
    assert!(cfg.multimedia);
    assert!(cfg.self_heal);
    assert_eq!(cfg.dns_provider, DnsProvider::Cloudflare);
    assert_eq!(cfg.mtu, None);
    assert!(cfg.power);
}

#[test]
fn archive_ensure_is_idempotent() {
    let mut archive = Archive::default();
    assert_eq!(archive.values.len(), 0);
    assert!(archive.ensure(GROUP_TCP, "k", "v", Some(9)));
    assert!(!archive.ensure(GROUP_TCP, "k", "v", Some(9)));
    assert_eq!(archive.values.len(), 1);
    assert_eq!(archive.values[0].value, 9);
    assert!(archive.values[0].present);
}

#[test]
fn archive_ensure_records_absence() {
    let mut archive = Archive::default();
    archive.ensure(GROUP_SYSTEM, "k", "missing", None);
    assert!(!archive.values[0].present);
    assert_eq!(archive.values[0].value, 0);
}

#[test]
fn archive_groups_are_independent() {
    let mut archive = Archive::default();
    archive.ensure(GROUP_TCP, "t", "a", Some(1));
    archive.ensure(GROUP_SYSTEM, "s", "b", Some(2));
    archive.ensure(GROUP_TCP, "t", "c", Some(3));
    assert_eq!(archive.values.len(), 3);
}

#[test]
fn dns_ensure_is_idempotent_per_interface() {
    let mut archive = Archive::default();
    assert_eq!(archive.dns.len(), 0);
    assert!(archive.dns_ensure(
        "Wi-Fi",
        false,
        vec!["1.1.1.1".into(), "8.8.8.8".into()],
        vec!["2606:4700:4700::1111".into()]
    ));
    assert!(!archive.dns_ensure("Wi-Fi", false, vec!["9.9.9.9".into()], vec![]));
    assert_eq!(archive.dns.len(), 1);
    assert_eq!(
        archive.dns[0].servers,
        vec!["1.1.1.1".to_string(), "8.8.8.8".to_string()]
    );
    assert_eq!(
        archive.dns[0].servers6,
        vec!["2606:4700:4700::1111".to_string()]
    );
    assert!(!archive.dns[0].dhcp);
    assert!(archive.dns_ensure("Ethernet", true, vec![], vec![]));
    assert_eq!(archive.dns.len(), 2);
    assert!(archive.dns[1].dhcp);
}

#[test]
fn a_second_apply_keeps_the_original() {
    let mut archive = Archive::default();
    archive.ensure(GROUP_TCP, "k", "v", Some(9));
    assert!(!archive.ensure(GROUP_TCP, "k", "v", Some(30)));
    assert_eq!(archive.values[0].value, 9);
}

#[test]
fn restoring_drains_what_succeeded() {
    let mut archive = Archive::default();
    archive.ensure(GROUP_TCP, "t", "a", Some(1));
    archive.ensure(GROUP_SYSTEM, "s", "b", Some(2));
    archive.ensure(GROUP_TCP, "t", "c", None);
    let actions = archive.restore_actions(GROUP_TCP);
    assert_eq!(
        actions,
        vec![
            Action::WriteDword {
                subkey: "t".into(),
                name: "a".into(),
                value: 1
            },
            Action::DeleteValue {
                subkey: "t".into(),
                name: "c".into()
            },
        ]
    );
    let outcome = archive.restore_group(GROUP_TCP, &vec![Ok(()), Err("denied".into())]);
    assert!(outcome.is_err());
    assert_eq!(archive.values.len(), 2, "the failed entry stays");
    let outcome = archive.restore_group(GROUP_TCP, &vec![Ok(())]);
    assert_eq!(outcome, Ok(1));
    assert_eq!(archive.values.len(), 1);
    assert_eq!(archive.values[0].group, "system");
}

#[test]
fn enabled_features_come_in_order() {
    let cfg = Config {
        tcp: true,
        dns: true,
        multimedia: true,
        self_heal: false,
        dns_provider: DnsProvider::Auto,
        mtu: Some(1500),
        power: true,
    };
    assert_eq!(
        cfg.enabled(),
        vec![
            Feature::Tcp,
            Feature::Dns,
            Feature::Multimedia,
            Feature::Mtu(1500),
            Feature::Power
        ]
    );
}

#[test]
fn profile_names_are_checked() {
    assert!(validate_profile_name("gaming_2-lan").is_ok());
    assert!(validate_profile_name("").is_err());
    assert!(validate_profile_name("../evil").is_err());
    assert!(validate_profile_name("a b").is_err());
    assert!(validate_profile_name(&"x".repeat(40)).is_ok());
    assert!(validate_profile_name(&"x".repeat(41)).is_err());
    assert!(validate_profile_name("\u{e9}t\u{e9}").is_ok(), "letters of any script");
    assert_eq!(
        validate_profile_name("a:b"),
        Err("invalid profile name 'a:b': use letters, digits, '-', '_' or '.'".to_string())
    );
}

#[test]
fn a_saved_profile_is_listed() {
    let file = profile_file("lan").unwrap();
    assert_eq!(file, "lan.json");
    assert_eq!(
        list_profiles(&texts(&["wan.json", "notes.txt", &file])),
        texts(&["lan", "wan"])
    );
    assert!(profile_file("a/b").is_err());
}

#[test]
fn snapshots_are_pruned_to_the_newest() {
    let mut files: Vec<String> = (10..22).map(|n| format!("archive-{n}.json")).collect();
    files.push("readme.txt".into());
    let excess = prune(&files, MAX_SNAPSHOTS);
    assert_eq!(
        excess,
        texts(&[
            "archive-10.json",
            "archive-11.json",
            "archive-12.json",
            "archive-13.json"
        ])
    );
    assert_eq!(prune(&excess, MAX_SNAPSHOTS), Vec::<String>::new());
    assert_eq!(
        latest_archive_snapshot(&files),
        Some("archive-21.json".to_string())
    );
    assert_eq!(latest_archive_snapshot(&vec![]), None);
}
