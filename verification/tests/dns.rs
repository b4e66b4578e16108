//! Resolver selection and the state of the DNS feature.

use stabilizatores::config::{Archive, DnsProvider};
use stabilizatores::dns::{
    apply, cloudflare, google, is_set, resolve_provider, revert, status, DnsStatus, Run,
};
use stabilizatores::interfaces::Interface;
use stabilizatores::ops::{Action, Reply};
use stabilizatores::probe::{Endpoint, Latency};

fn adapter(friendly: &str, dhcp: bool, dns: &[&str]) -> Interface {
    Interface {
        guid: format!("{{{friendly}}}"),
        index: 1,
        friendly: friendly.into(),
        description: String::new(),
        mtu: 1500,
        if_type: 6,
        up: true,
        dhcp,
        dns: dns.iter().map(|server| server.to_string()).collect(),
        dns6: vec![],
        ips: vec![],
        gateways: vec![],
        mac: String::new(),
    }
}

/// Performs a run; every `netsh` call whose arguments hold `refused` fails.
fn perform(mut run: Run, refused: &str) -> (Run, Vec<Vec<String>>) {
    let mut calls = Vec::new();
    while let Some(action) = run.pending() {
        let reply = match action {
            Action::Netsh { args } => {
                let fails = !refused.is_empty() && args.iter().any(|arg| arg.contains(refused));
                calls.push(args);
                if fails {
                    Reply::Output(Err("netsh failed".into()))
                } else {
                    Reply::Output(Ok(String::new()))
                }
            }
            Action::SaveArchive => Reply::Done(Ok(())),
            other => panic!("unexpected action {other:?}"),
        };
        run.resume(reply);
    }
    (run, calls)
}

#[test]
fn resolve_provider_returns_requested_set() {
    assert_eq!(resolve_provider(DnsProvider::Cloudflare, None), cloudflare());
    assert_eq!(resolve_provider(DnsProvider::Google, None), google());
}

#[test]
fn resolve_auto_prefers_fastest() {
    let latency = Latency {
        cloudflare: Endpoint::with_rtt(Some(40)),
        google: Endpoint::with_rtt(Some(10)),
        ..Latency::default()
    };
    assert_eq!(resolve_provider(DnsProvider::Auto, Some(&latency)), google());
    let latency = Latency {
        cloudflare: Endpoint::with_rtt(Some(10)),
        google: Endpoint::with_rtt(Some(40)),
        ..Latency::default()
    };
    assert_eq!(
        resolve_provider(DnsProvider::Auto, Some(&latency)),
        cloudflare()
    );
}

#[test]
fn resolve_auto_prefers_real_dns_resolution() {
    let latency = Latency {
        cloudflare: Endpoint::with_rtt(Some(5)),
        google: Endpoint::with_rtt(Some(5)),
        cf_dns_ms: Some(30),
        google_dns_ms: Some(12),
    };
    assert_eq!(resolve_provider(DnsProvider::Auto, Some(&latency)), google());
}

#[test]
fn resolve_auto_ties_break_to_cloudflare() {
    let latency = Latency {
        cloudflare: Endpoint::with_rtt(Some(10)),
        google: Endpoint::with_rtt(Some(10)),
        ..Latency::default()
    };
    assert_eq!(
        resolve_provider(DnsProvider::Auto, Some(&latency)),
        cloudflare()
    );
}

#[test]
fn resolve_auto_falls_back_without_measurement() {
    assert_eq!(resolve_provider(DnsProvider::Auto, None), cloudflare());
}

#[test]
fn is_set_ignores_order() {
    let mut iface = Interface {
        guid: String::new(),
        index: 1,
        friendly: String::new(),
        description: String::new(),
        mtu: 0,
        if_type: 6,
        up: true,
        dhcp: false,
        dns: vec!["1.1.1.1".into(), "1.0.0.1".into()],
        dns6: vec![],
        ips: vec![],
        gateways: vec![],
        mac: String::new(),
    };
    assert!(is_set(&iface, &cloudflare()));

    iface.dns = vec!["1.0.0.1".into(), "8.8.8.8".into(), "1.1.1.1".into()];
    assert!(is_set(&iface, &cloudflare()));

    iface.dns = vec![cloudflare().primary.into()];
    assert!(!is_set(&iface, &cloudflare()));

    // Google's set is a different feature, even on the same adapter.
    assert!(!is_set(&iface, &google()));
}

#[test]
fn status_empty_when_no_ifaces() {
    let status = DnsStatus::default();
    assert!(status.aligned_all());
    assert_eq!(status.total, 0);
}

#[test]
fn revert_keeps_backup_for_missing_adapter() {
    let mut archive = Archive::default();
    archive.dns_ensure("Ghost", false, vec!["1.1.1.1".into()], vec![]);
    let (run, _) = perform(revert(archive, None, &vec![], Some(false)), "");
    let result = run.result.expect("the run has finished");
    assert!(result.is_err(), "missing adapter must fail the revert");
    assert_eq!(run.archive.dns.len(), 1, "failed backup stays archived");
}

#[test]
fn revert_drains_empty_archive() {
    let archive = Archive::default();
    let (run, _) = perform(revert(archive, None, &vec![], Some(false)), "");
    assert!(run.result.expect("the run has finished").is_ok());
    assert!(run.archive.dns.is_empty());
}

#[test]
fn resolver_sets_are_the_public_ones() {
    assert_eq!(cloudflare().primary, "1.1.1.1");
    assert_eq!(cloudflare().secondary, "1.0.0.1");
    assert_eq!(cloudflare().primary_v6, "2606:4700:4700::1111");
    assert_eq!(cloudflare().secondary_v6, "2606:4700:4700::1001");
    assert_eq!(google().primary, "8.8.8.8");
    assert_eq!(google().secondary, "8.8.4.4");
    assert_eq!(google().primary_v6, "2001:4860:4860::8888");
    assert_eq!(google().secondary_v6, "2001:4860:4860::8844");
    for set in [cloudflare(), google()] {
        assert!(set.doh_template.starts_with("https://"));
    }
}

#[test]
fn status_counts_the_active_adapters() {
    let mut down = adapter("Down", true, &[]);
    down.up = false;
    let all = vec![
        adapter("A", false, &["1.1.1.1", "1.0.0.1"]),
        adapter("B", true, &["192.168.1.1"]),
        down,
    ];
    let found = status(&all, &cloudflare());
    assert_eq!((found.aligned, found.total), (1, 2));
    assert!(!found.aligned_all());
}

#[test]
fn switching_archives_and_sets_each_adapter() {
    let all = vec![
        adapter("Wi-Fi", true, &["192.168.1.1"]),
        adapter("Done", false, &["1.1.1.1", "1.0.0.1"]),
    ];
    let (run, calls) = perform(
        apply(Archive::default(), &cloudflare(), &all, Some(false)),
        "",
    );
    assert_eq!(run.result, Some(Ok(())));
    assert_eq!(run.archive.dns.len(), 1, "an aligned adapter is left alone");
    assert_eq!(run.archive.dns[0].interface, "Wi-Fi");
    assert!(run.archive.dns[0].dhcp);
    assert!(calls
        .iter()
        .any(|args| args.iter().any(|arg| arg.contains("1.1.1.1"))));
    assert!(calls
        .iter()
        .all(|args| args.iter().all(|arg| !arg.contains("Done"))));
}

#[test]
fn restoring_puts_the_exact_servers_back() {
    let mut archive = Archive::default();
    archive.dns_ensure(
        "Lan",
        false,
        vec!["10.0.0.1".into(), "10.0.0.2".into()],
        vec![],
    );
    let all = vec![adapter("Lan", false, &["1.1.1.1", "1.0.0.1"])];
    let (run, calls) = perform(
        revert(archive, Some(cloudflare()), &all, Some(false)),
        "",
    );
    assert_eq!(run.result, Some(Ok(())));
    assert!(run.archive.dns.is_empty());
    let first = calls
        .iter()
        .position(|args| args.iter().any(|arg| arg.contains("10.0.0.1")));
    let second = calls
        .iter()
        .position(|args| args.iter().any(|arg| arg.contains("10.0.0.2")));
    assert!(first.is_some() && first < second);
}

#[test]
fn a_failed_restore_stays_archived() {
    let mut archive = Archive::default();
    archive.dns_ensure("One", false, vec!["10.0.0.1".into()], vec![]);
    archive.dns_ensure("Two", false, vec!["10.0.0.2".into()], vec![]);
    let all = vec![adapter("One", false, &[]), adapter("Two", false, &[])];
    let (run, _) = perform(revert(archive, None, &all, Some(false)), "10.0.0.1");
    assert!(run.result.expect("the run has finished").is_err());
    assert_eq!(run.archive.dns.len(), 1);
    assert_eq!(run.archive.dns[0].interface, "One");
}

#[test]
fn encryption_support_is_asked_once() {
    let all = vec![adapter("A", true, &[]), adapter("B", true, &[])];
    let mut run = apply(Archive::default(), &google(), &all, None);
    let mut questions = 0;
    let mut mappings = 0;
    while let Some(action) = run.pending() {
        let reply = match action {
            Action::Netsh { args } => {
                if args == vec!["dns".to_string(), "add".to_string(), "?".to_string()] {
                    questions += 1;
                    Reply::Output(Ok("add encryption - Adds an encryption rule.".into()))
                } else {
                    if args.iter().any(|arg| arg.contains("https://dns.google/dns-query")) {
                        mappings += 1;
                    }
                    Reply::Output(Ok(String::new()))
                }
            }
            Action::SaveArchive => Reply::Done(Ok(())),
            other => panic!("unexpected action {other:?}"),
        };
        run.resume(reply);
    }
    assert_eq!(questions, 1);
    assert_eq!(run.doh, Some(true));
    assert_eq!(mappings, 4, "two servers on each of two adapters");
}

#[test]
fn servers_are_saved_before_they_are_replaced() {
    let all = vec![adapter("A", true, &[]), adapter("B", true, &[])];
    let mut run = apply(Archive::default(), &google(), &all, Some(false));
    assert_eq!(run.pending(), Some(Action::SaveArchive));
    assert_eq!(run.archive.dns.len(), 2);
    run.resume(Reply::Done(Ok(())));
    assert!(matches!(run.pending(), Some(Action::Netsh { .. })));
    let (run, _) = perform(run, "");
    assert_eq!(run.result, Some(Ok(())));
}

#[test]
fn servers_that_cannot_be_saved_are_not_replaced() {
    let mut archive = Archive::default();
    archive.dns_ensure("Old", true, vec![], vec![]);
    let all = vec![adapter("A", true, &[])];
    let mut run = apply(archive, &google(), &all, Some(false));
    assert_eq!(run.pending(), Some(Action::SaveArchive));
    run.resume(Reply::Done(Err("disk full".into())));
    assert_eq!(run.pending(), None);
    assert_eq!(run.result, Some(Err("disk full".to_string())));
    assert_eq!(run.archive.dns.len(), 1, "the new entry is taken back");
    assert_eq!(run.archive.dns[0].interface, "Old");
}

/// What the log is told in a run whose `netsh` calls answer `text`, except those
/// that hold `refused`, which fail.
fn noted(mut run: Run, text: &str, refused: &str) -> Vec<String> {
    let mut notes = Vec::new();
    while let Some(action) = run.pending() {
        let reply = match action {
            Action::Netsh { args } => {
                if !refused.is_empty() && args.iter().any(|arg| arg.contains(refused)) {
                    Reply::Output(Err("denied".into()))
                } else {
                    Reply::Output(Ok(text.into()))
                }
            }
            _ => Reply::Done(Ok(())),
        };
        notes.extend(run.notes(&reply));
        run.resume(reply);
    }
    notes
}

#[test]
fn switches_and_mappings_are_noted() {
    let all = vec![adapter("A", true, &[])];
    let start = |doh| apply(Archive::default(), &google(), &all, doh);
    assert_eq!(
        noted(start(None), "add encryption", ""),
        vec![
            "dns: setting A to 8.8.8.8",
            "dns: DoH supported",
            "dns: DoH enabled for 8.8.8.8 on A"
        ]
    );
    assert_eq!(
        noted(start(Some(true)), "", "server=8.8.4.4"),
        vec![
            "dns: setting A to 8.8.8.8",
            "dns: DoH add 8.8.4.4 on A: denied"
        ]
    );
    assert_eq!(
        noted(start(Some(true)), "", "server=8.8.8.8"),
        vec![
            "dns: setting A to 8.8.8.8",
            "dns: DoH add 8.8.8.8 on A: denied"
        ]
    );
    assert_eq!(
        noted(start(None), "", ""),
        vec![
            "dns: setting A to 8.8.8.8",
            "dns: DoH not supported",
            "dns: DoH unavailable on this system, skipping"
        ]
    );
    assert_eq!(
        noted(start(Some(false)), "", ""),
        vec![
            "dns: setting A to 8.8.8.8",
            "dns: DoH unavailable on this system, skipping"
        ]
    );
    let mut archive = Archive::default();
    archive.dns_ensure("A", true, vec![], vec![]);
    assert_eq!(
        noted(
            revert(archive, Some(google()), &all, Some(true)),
            "",
            "server=8.8.8.8"
        ),
        vec!["dns: DoH delete 8.8.8.8 on A: denied"]
    );
}
