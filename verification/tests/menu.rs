//! The interactive menu: keys, self-heal, and what is drawn.

use stabilizatores::app::{
    mtu_cycle, next_in_cycle, next_provider, title, App, Request, Schedule, Work, BANNER,
};
use stabilizatores::cli::Line;
use stabilizatores::config::{Archive, Config, DnsProvider};
use stabilizatores::connections::TcpConnections;
use stabilizatores::dns::{cloudflare, google, DnsStatus};
use stabilizatores::interfaces::Interface;
use stabilizatores::ops::{Action, Reply};
use stabilizatores::power::Nic;
use stabilizatores::probe::{Endpoint, Latency};
use stabilizatores::registry::Snapshot;
use stabilizatores::screen::{
    check, dns_probe_line, latency_line, mtu_label, provider_label, render_detail, render_log,
    Rates,
};
use stabilizatores::system;
use stabilizatores::tcp;
use stabilizatores::tcp::TcpStatus;
use stabilizatores::traffic;
use stabilizatores::traffic::{sample, Row};
use stabilizatores::wlan::WlanLink;

fn disabled() -> Config {
    Config {
        tcp: false,
        dns: false,
        multimedia: false,
        self_heal: false,
        dns_provider: DnsProvider::Cloudflare,
        mtu: None,
        power: false,
    }
}

fn no_rates() -> Rates {
    Rates {
        traffic: vec![],
        links: vec![],
    }
}

fn drawn(app: &App) -> String {
    app.render(
        true,
        &Snapshot::empty(),
        &vec![],
        &no_rates(),
        false,
        &vec![],
    )
}

/// The state of an application that looked at an empty machine.
fn view(cfg: Config) -> App {
    let mut app = App::base(cfg, Archive::default());
    app.refresh(
        &Snapshot::empty(),
        &vec![],
        &vec![],
        TcpConnections::default(),
        sample(0, vec![]),
        vec![],
    );
    app
}

fn adapter(guid: &str, friendly: &str) -> Interface {
    Interface {
        guid: guid.into(),
        index: 7,
        friendly: friendly.into(),
        description: "Intel(R) Wi-Fi 6".into(),
        mtu: 1500,
        if_type: 71,
        up: true,
        dhcp: true,
        dns: vec!["1.1.1.1".into(), "1.0.0.1".into()],
        dns6: vec![],
        ips: vec!["192.168.1.7".into()],
        gateways: vec!["192.168.1.1".into()],
        mac: "00-11-22-33-44-55".into(),
    }
}

fn link(guid: &str) -> WlanLink {
    WlanLink {
        guid: guid.into(),
        description: "card".into(),
        connected: true,
        ssid: "home".into(),
        bssid: "AA:BB:CC:DD:EE:FF".into(),
        signal_quality: 80,
        rssi_dbm: Some(-55),
        channel: Some(36),
        rx_kbps: 866_000,
        tx_kbps: 400,
    }
}

#[test]
fn render_with_all_features_disabled() {
    let app = view(disabled());
    let text = drawn(&app);
    assert!(text.contains("STABILIZATORES"), "title is rendered");
    assert!(text.contains("tuning off"), "disabled tcp shows off state");
    assert!(
        text.contains("READY"),
        "no enabled feature shows ready state"
    );
}

#[test]
fn render_shows_mtu_and_provider() {
    let cfg = Config {
        tcp: false,
        dns: true,
        multimedia: false,
        self_heal: false,
        dns_provider: DnsProvider::Cloudflare,
        mtu: Some(1500),
        power: false,
    };
    let app = view(cfg);
    let text = drawn(&app);
    assert!(
        text.contains("1.1.1.1") && text.contains("1.0.0.1"),
        "the active resolver set is shown"
    );
    assert!(text.contains("cloudflare"), "provider label is shown");
    assert!(text.contains("1500"), "mtu target is shown");
}

#[test]
fn overall_state_with_no_tweaks() {
    let app = view(disabled());
    assert!(
        app.all_aligned(&Snapshot::empty(), &vec![]),
        "disabled features are always aligned"
    );
}

#[test]
fn mtu_cycle_steps_and_wraps() {
    let cycle = mtu_cycle();
    assert_eq!(next_in_cycle(&None, &cycle), Some(1500));
    assert_eq!(next_in_cycle(&Some(1500), &cycle), Some(1400));
    assert_eq!(next_in_cycle(&Some(1400), &cycle), None);
    assert_eq!(
        next_in_cycle(&Some(9000), &cycle),
        Some(1500),
        "anything else counts as off"
    );
}

#[test]
fn provider_cycle_matches_docs_order() {
    let mut provider = DnsProvider::Cloudflare;
    let mut order = Vec::new();
    for _ in 0..6 {
        order.push(provider);
        provider = next_provider(provider);
    }
    assert_eq!(
        order,
        vec![
            DnsProvider::Cloudflare,
            DnsProvider::Google,
            DnsProvider::Auto,
            DnsProvider::Cloudflare,
            DnsProvider::Google,
            DnsProvider::Auto,
        ]
    );
}

#[test]
fn latency_line_measures() {
    let latency = Latency {
        cloudflare: Endpoint::with_rtt(Some(12)),
        google: Endpoint::with_rtt(None),
        ..Latency::default()
    };
    let text = latency_line(Some(&latency));
    assert!(text.contains("12 ms"), "reported rtt is shown");
    assert!(text.contains("n/a"), "missing probe is shown as n/a");
    assert_eq!(latency_line(None), "\x1b[2mmeasuring...\x1b[0m");
}

#[test]
fn dns_probe_line_hidden_without_results() {
    assert_eq!(dns_probe_line(Some(&Latency::default())), "");
    assert_eq!(dns_probe_line(None), "");
}

#[test]
fn dns_probe_line_shows_results() {
    let latency = Latency {
        cf_dns_ms: Some(14),
        google_dns_ms: None,
        ..Latency::default()
    };
    let text = dns_probe_line(Some(&latency));
    assert!(text.contains("14 ms"), "dns resolution rtt is shown");
    assert!(text.contains("1.1.1.1"));
}

#[test]
fn latency_line_shows_jitter_loss_and_history() {
    let mut latency = Latency::default();
    for rtt_ms in [10, 20] {
        latency.observe(
            Some(stabilizatores::probe::Sample { rtt_ms, status: 0 }),
            None,
            None,
            None,
        );
    }
    let text = latency_line(Some(&latency));
    assert!(text.starts_with("\x1b[2mcloudflare\x1b[0m \x1b[32m20 ms\x1b[0m \x1b[2m\u{b1}10\x1b[0m \x1b[2m0%\x1b[0m \x1b[36m"));
    assert!(text.contains("\x1b[2mgoogle\x1b[0m \x1b[2mn/a\x1b[0m \x1b[2m100%\x1b[0m"));
}

#[test]
fn toggles_ask_for_work() {
    let mut app = App::base(disabled(), Archive::default());
    assert_eq!(app.key('t'), Some(Request::Switch(Work::ApplyTcp)));
    assert!(app.cfg.tcp);
    assert_eq!(app.key('T'), Some(Request::Switch(Work::RevertTcp)));
    assert!(!app.cfg.tcp);
    assert_eq!(
        app.key('d'),
        Some(Request::Switch(Work::ApplyDns(cloudflare())))
    );
    app.switched(&Work::ApplyDns(cloudflare()), &Ok(()), &Ok(()));
    assert_eq!(app.active_dns, Some(cloudflare()));
    assert_eq!(
        app.key('r'),
        Some(Request::Switch(Work::ApplyDns(google())))
    );
    assert_eq!(
        app.key('d'),
        Some(Request::Switch(Work::RevertDns(Some(cloudflare()))))
    );
    assert_eq!(app.active_dns, None);
    assert_eq!(app.key('r'), Some(Request::Switch(Work::Nothing)));
    assert_eq!(app.cfg.dns_provider, DnsProvider::Auto);
    assert_eq!(app.key('m'), Some(Request::Switch(Work::ApplyThrottling)));
    assert_eq!(app.key('m'), Some(Request::Switch(Work::RevertThrottling)));
    assert_eq!(app.key('u'), Some(Request::Switch(Work::ApplyMtu(1500))));
    assert_eq!(app.key('u'), Some(Request::Switch(Work::ApplyMtu(1400))));
    assert_eq!(app.key('u'), Some(Request::Switch(Work::RevertMtu)));
    assert_eq!(app.key('p'), Some(Request::Switch(Work::ApplyPower)));
    assert_eq!(app.key('p'), Some(Request::Switch(Work::RevertPower)));
    assert_eq!(app.key('h'), Some(Request::Save));
    assert!(app.cfg.self_heal);
    assert_eq!(app.key('a'), Some(Request::ToggleAutostart));
    assert_eq!(app.key('f'), Some(Request::FlushDns));
    assert_eq!(app.key('s'), Some(Request::RestorePoint));
    assert_eq!(app.key('i'), None);
    assert_eq!(app.key('l'), None);
    assert!(app.detail && app.show_log);
    assert_eq!(app.key('?'), None);
}

#[test]
fn quitting_is_confirmed() {
    let mut app = App::base(disabled(), Archive::default());
    assert_eq!(app.key('q'), None);
    assert!(app.confirming_quit && !app.quit_removes && !app.quit);
    assert_eq!(app.key('t'), None, "other keys wait");
    assert!(!app.cfg.tcp);
    app.key('\x1b');
    assert!(!app.confirming_quit);
    app.key('x');
    assert!(app.quit_removes);
    app.key('n');
    assert!(!app.quit);
    app.key('X');
    app.key('Y');
    assert!(app.quit);
}

#[test]
fn outcomes_become_messages() {
    let mut app = App::base(disabled(), Archive::default());
    app.switched(&Work::ApplyTcp, &Err("denied".into()), &Ok(()));
    assert_eq!(app.last_error, Some("tcp: denied".to_string()));
    app.switched(&Work::ApplyTcp, &Ok(()), &Err("disk full".into()));
    assert_eq!(app.last_error, Some("save config: disk full".to_string()));
    app.switched(&Work::RevertThrottling, &Ok(()), &Ok(()));
    assert_eq!(app.last_error, None);
    app.report_save(&Err("disk full".into()));
    assert_eq!(app.last_error, Some("save config: disk full".to_string()));
    app.autostart_set(&Err("denied".into()));
    assert_eq!(app.last_error, Some("autostart: denied".to_string()));
    app.autostart_set(&Ok(()));
    assert_eq!(app.last_error, None);
    app.restore_point(&Err("disabled".into()), 0);
    assert_eq!(app.last_error, Some("restore point: disabled".to_string()));
    app.restore_point(&Ok(()), 1_000);
    assert_eq!(app.flash, Some(("restore point created".to_string(), 1_000)));
    app.flushed(2_000);
    app.expire_flash(4_999);
    assert_eq!(app.flash, Some(("dns cache flushed".to_string(), 2_000)));
    app.expire_flash(5_000);
    assert_eq!(app.flash, None);
}

#[test]
fn startup_applies_every_enabled_group() {
    let cfg = Config {
        tcp: true,
        dns: true,
        multimedia: false,
        self_heal: true,
        dns_provider: DnsProvider::Google,
        mtu: Some(1400),
        power: true,
    };
    let (mut app, works) = App::new(cfg, Archive::default());
    assert_eq!(
        works,
        vec![
            Work::Snapshot,
            Work::ApplyTcp,
            Work::ApplyDns(google()),
            Work::ApplyMtu(1400),
            Work::ApplyPower
        ]
    );
    let tuned = TcpStatus {
        ifaces_ok: 1,
        ifaces_total: 1,
        global_ok: true,
    };
    app.started(&Work::ApplyTcp, &Ok(()), Some(tuned));
    assert_eq!(app.tcp, tuned);
    app.started(&Work::ApplyDns(google()), &Ok(()), None);
    assert_eq!(app.active_dns, Some(google()));
    app.started(&Work::ApplyPower, &Err("denied".into()), None);
    assert_eq!(app.last_error, Some("power: denied".to_string()));
    assert_eq!(App::new(disabled(), Archive::default()).1, vec![]);
}

#[test]
fn healing_applies_what_drifted() {
    let cfg = Config {
        tcp: true,
        dns: true,
        multimedia: true,
        self_heal: true,
        dns_provider: DnsProvider::Auto,
        mtu: Some(1400),
        power: true,
    };
    let mut app = App::base(cfg, Archive::default());
    app.active_dns = Some(cloudflare());
    let mut iface = adapter("{a}", "A");
    iface.dns = vec!["1.1.1.1".into(), "1.0.0.1".into()];
    let mut aligned = Snapshot::empty();
    for (subkey, name, value) in [
        (tcp::GLOBAL_SUBKEY, "TcpTimedWaitDelay", 30),
        (tcp::GLOBAL_SUBKEY, "MaxUserPort", 65534),
        (system::SUBKEY, system::NAME, system::UNTHROTTLED),
    ] {
        aligned.record(
            Action::ReadDword {
                subkey: subkey.into(),
                name: name.into(),
            },
            Reply::Value(Ok(Some(value))),
        );
    }
    assert_eq!(heal(&mut app, &aligned, &iface, 0x18), Some(vec![]));
    assert!(app.tcp.aligned() && app.throttling && app.power_ok);

    app.latency = Some(Latency {
        google_dns_ms: Some(5),
        cf_dns_ms: Some(9),
        ..Latency::default()
    });
    let mut drifted = Snapshot::empty();
    drifted.record(
        Action::KeyExists {
            subkey: tcp::iface_subkey(&iface.guid),
        },
        Reply::Exists(true),
    );
    let works = heal(&mut app, &drifted, &iface, 0).expect("self-heal is on");
    assert_eq!(
        works,
        vec![
            Work::ApplyTcp,
            Work::ApplyDns(google()),
            Work::ApplyThrottling,
            Work::ApplyMtu(1400),
            Work::ApplyPower
        ]
    );
    app.settled(
        &works,
        &vec![Err("a".into()), Ok(()), Ok(()), Err("b".into()), Ok(())],
    );
    assert_eq!(app.last_error, Some("tcp: a | mtu: b".to_string()));
    assert_eq!(app.active_dns, Some(google()));
    app.settled(&vec![], &vec![]);
    assert_eq!(app.last_error, None);

    app.cfg.self_heal = false;
    assert_eq!(heal(&mut app, &aligned, &iface, 0x18), None);
    assert!(!app.throttling, "nothing is taken in when self-heal is off");
}

fn heal(app: &mut App, snapshot: &Snapshot, iface: &Interface, value: u32) -> Option<Vec<Work>> {
    let nic = Nic {
        subkey: "k".into(),
        guid: "{x}".into(),
        description: "NIC".into(),
        value: Some(value),
    };
    app.heal(
        snapshot,
        &vec![iface.clone()],
        &vec![nic],
        TcpConnections::default(),
        traffic::Snapshot {
            taken_at: 0,
            rows: vec![],
        },
        vec![],
    )
}

#[test]
fn reverting_covers_every_group() {
    let mut app = App::base(disabled(), Archive::default());
    app.active_dns = Some(google());
    assert_eq!(
        app.revert_all(),
        vec![
            Work::RevertMtu,
            Work::RevertTcp,
            Work::RevertDns(Some(google())),
            Work::RevertThrottling,
            Work::RevertPower
        ]
    );
}

#[test]
fn overall_words_follow_the_state() {
    let nothing = Snapshot::empty();
    let mut app = App::base(disabled(), Archive::default());
    assert_eq!(app.overall_state(&nothing, &vec![]).0, "READY");
    app.cfg.multimedia = true;
    assert_eq!(app.overall_state(&nothing, &vec![]).0, "PENDING");
    app.throttling = true;
    assert_eq!(app.overall_state(&nothing, &vec![]), ("ACTIVE", "\x1b[32m"));
    app.cfg.self_heal = true;
    assert_eq!(app.overall_state(&nothing, &vec![]).0, "PROTECTED");
    app.last_error = Some("boom".into());
    assert_eq!(app.overall_state(&nothing, &vec![]), ("ERROR", "\x1b[31m"));
}

#[test]
fn refreshing_takes_in_the_machine() {
    let mut cfg = disabled();
    cfg.dns = true;
    cfg.mtu = Some(1400);
    let mut app = App::base(cfg, Archive::default());
    let all = vec![adapter("{a}", "Wi-Fi")];
    let mut snapshot = Snapshot::empty();
    for question in stabilizatores::mtu::queries(&all) {
        let reply = match question {
            Action::KeyExists { .. } => Reply::Exists(true),
            _ => Reply::Value(Ok(None)),
        };
        snapshot.record(question, reply);
    }
    let nics = vec![Nic {
        subkey: "k".into(),
        guid: "{a}".into(),
        description: "card".into(),
        value: Some(0x18),
    }];
    let row = |octets| Row {
        index: 7,
        in_octets: octets,
        out_octets: 0,
    };
    app.refresh(
        &snapshot,
        &all,
        &nics,
        TcpConnections::default(),
        sample(0, vec![row(100)]),
        vec![link("{A}")],
    );
    assert!(app.dns.aligned_all() && app.dns.total == 1);
    assert!(!app.mtu_ok, "an absent value is the default");
    assert!(app.power_ok);
    assert_eq!((app.physical.len(), app.active_ifaces), (1, 1));
    assert!(app.transfers.is_empty());
    app.refresh(
        &snapshot,
        &all,
        &nics,
        TcpConnections::default(),
        sample(2_000_000_000, vec![row(500)]),
        vec![link("{A}")],
    );
    assert_eq!(app.transfers[0].down, 400);
    assert_eq!(app.glance, 2_000_000_000);
    app.refresh(
        &snapshot,
        &all,
        &nics,
        TcpConnections::default(),
        sample(2_500_000_000, vec![row(900)]),
        vec![],
    );
    assert_eq!(app.transfers[0].down, 400, "too short a glance");
}

#[test]
fn the_loop_has_its_rhythm() {
    let mut schedule = Schedule::start(0);
    let due = schedule.due(249);
    assert!(!due.tick && !due.heal && !due.render);
    let due = schedule.due(250);
    assert!(due.tick && !due.heal && !due.render);
    let due = schedule.due(1_000);
    assert!(due.tick && !due.heal && due.render);
    let due = schedule.due(5_000);
    assert!(due.tick && due.heal && due.render);
    let due = schedule.due(9_999);
    assert!(due.tick && !due.heal);
    assert!(schedule.due(10_300).heal);
}

#[test]
fn the_last_words_depend_on_how_it_ends() {
    let mut app = App::base(disabled(), Archive::default());
    app.last_error = Some("dns: gone".into());
    assert_eq!(
        app.farewell(),
        vec![
            Line::Out("\nbye, tweaks kept.".into()),
            Line::Out("press enter to close...".into())
        ]
    );
    app.quit_removes = true;
    assert_eq!(
        app.farewell(),
        vec![
            Line::Out("\ntweaks removed, system restored.".into()),
            Line::Out("\x1b[33mwarning\x1b[0m: dns: gone".into()),
            Line::Out("press enter to close...".into())
        ]
    );
    assert_eq!(title(), "stabilizatores 0.3.0");
    assert!(BANNER.starts_with("stabilizatores running"));
}

#[test]
fn labels_of_the_menu() {
    assert_eq!(check(true), "\x1b[32m[x]\x1b[0m");
    assert_eq!(check(false), "\x1b[2m[ ]\x1b[0m");
    assert_eq!(provider_label(DnsProvider::Auto), "auto");
    assert_eq!(mtu_label(Some(1400)), "1400");
    assert_eq!(mtu_label(None), "off");
}

#[test]
fn the_log_pane_shows_the_lines() {
    assert_eq!(
        render_log(&vec!["one".into(), "two".into()]),
        "  \x1b[36m\x1b[1maction log\x1b[0m\x1b[2m (last 12)\x1b[0m\n  \x1b[2m>\x1b[0m one\n  \x1b[2m>\x1b[0m two\n"
    );
    assert!(render_log(&vec![]).contains("nothing logged yet"));
}

#[test]
fn the_detail_pane_shows_the_adapter() {
    let rates = Rates {
        traffic: vec![(7, "2 KB/s".into(), "10 B/s".into())],
        links: vec![("866.0 Mbps".into(), "400 kbps".into())],
    };
    let pane = render_detail(&vec![adapter("{a}", "Wi-Fi")], &vec![link("{A}")], &rates);
    assert_eq!(
        pane,
        "  \x1b[36mWi-Fi\x1b[0m\n    Intel(R) Wi-Fi 6 up  dhcp  mtu 1500  00-11-22-33-44-55\n    \x1b[2mtraffic\x1b[0m    \u{2193}2 KB/s  \u{2191}10 B/s\n    \x1b[2mwi-fi\x1b[0m     home  AA:BB:CC:DD:EE:FF   80%  ch 36  -55 dBm  rx 866.0 Mbps  tx 400 kbps\n    \x1b[2mip\x1b[0m       192.168.1.7\n    \x1b[2mgateway\x1b[0m   192.168.1.1\n    \x1b[2mdns\x1b[0m       1.1.1.1, 1.0.0.1\n"
    );
}

#[test]
fn the_screen_shows_panes_and_questions() {
    let mut app = view(disabled());
    assert_eq!(
        app.render(false, &Snapshot::empty(), &vec![], &no_rates(), false, &vec![]),
        ""
    );
    app.last_error = Some("tcp: denied".into());
    app.flushed(0);
    app.key('l');
    app.key('x');
    let text = drawn(&app);
    assert!(text.starts_with("\x1b[2J\x1b[H\x1b[1m\x1b[36m  STABILIZATORES\x1b[0m  \x1b[2mv0.3.0\x1b[0m\n"));
    assert!(text.contains("\x1b[31m\x1b[1mERROR\x1b[0m"));
    assert!(text.contains("tcp: denied"));
    assert!(text.contains("dns cache flushed"));
    assert!(text.contains("nothing logged yet"));
    assert!(text.ends_with("  \x1b[33mrevert every tweak and exit? (y/n)\x1b[0m\n"));
}

#[test]
fn the_screen_names_adapters_and_wifi() {
    let mut app = App::base(disabled(), Archive::default());
    app.physical = vec![adapter("{a}", "Wi-Fi"), adapter("{b}", "")];
    app.active_ifaces = 1;
    app.wlan = vec![link("{a}")];
    let rates = Rates {
        traffic: vec![],
        links: vec![("866.0 Mbps".into(), "400 kbps".into())],
    };
    let text = app.render(true, &Snapshot::empty(), &vec![], &rates, true, &vec![]);
    assert!(text.contains("2 physical, 1 active"));
    assert!(text.contains("\x1b[36mWi-Fi\x1b[0m\x1b[2m (MTU 1500)\x1b[0m  \x1b[36mIntel(R) Wi-Fi 6\x1b[0m"));
    assert!(text.contains("home   80%  ch 36  -55 dBm  866.0 Mbps / 400 kbps\n"));
    assert!(text.contains("autostart \x1b[32m[x]\x1b[0m"));
}
