//! The command line: parsing, and what each command prints.

use stabilizatores::cli::{
    drained, needs_elevation, nothing_enabled, parse, provider_label, ratio, refuse, resolved_cfg,
    restore_point_label, run_apply, run_help, run_plan, run_profile, run_report, run_restore_point,
    run_revert, run_status, run_undo, run_version, unreadable, Applied, Command, Line, Observed,
    Options, Printed, ProfileAction, Reverted, Store, Written, EXIT_DRIFT, EXIT_ERROR, EXIT_OK,
    USAGE,
};
use stabilizatores::config::{Archive, Config, DnsProvider};
use stabilizatores::connections::TcpConnections;
use stabilizatores::dns::{cloudflare, google, DnsStatus};
use stabilizatores::ops::{Action, Reply};
use stabilizatores::registry::Snapshot;
use stabilizatores::tcp::{iface_subkey, TcpStatus, GLOBAL_SUBKEY};

fn parse_one(args: &[&str]) -> Options {
    let args = args.iter().map(|arg| arg.to_string()).collect::<Vec<_>>();
    parse(&args).expect("arguments parse")
}

fn parse_error(args: &[&str]) -> String {
    let args = args.iter().map(|arg| arg.to_string()).collect::<Vec<_>>();
    parse(&args).expect_err("arguments are refused")
}

fn out(printed: &Printed) -> Vec<String> {
    printed
        .lines
        .iter()
        .filter_map(|line| match line {
            Line::Out(text) => Some(text.clone()),
            Line::Warn(_) => None,
        })
        .collect()
}

fn warned(printed: &Printed) -> Vec<String> {
    printed
        .lines
        .iter()
        .filter_map(|line| match line {
            Line::Out(_) => None,
            Line::Warn(text) => Some(text.clone()),
        })
        .collect()
}

#[test]
fn parse_recognizes_flags() {
    assert_eq!(parse(&[]).unwrap().command, Command::Interactive);
    assert_eq!(parse_one(&["--status"]).command, Command::Status);
    assert_eq!(parse_one(&["--apply"]).command, Command::Apply);
    assert_eq!(parse_one(&["--revert"]).command, Command::Revert);
    assert_eq!(parse_one(&["--plan"]).command, Command::Plan);
    assert_eq!(parse_one(&["--report"]).command, Command::Report);
    assert_eq!(
        parse_one(&["--restore-point"]).command,
        Command::RestorePoint
    );
    assert_eq!(parse_one(&["-h"]).command, Command::Help);
    assert_eq!(parse_one(&["--version"]).command, Command::Version);
}

#[test]
fn parse_first_action_wins() {
    assert_eq!(parse_one(&["--revert", "--apply"]).command, Command::Revert);
    assert_eq!(parse_one(&["--apply", "--status"]).command, Command::Apply);
}

#[test]
fn parse_help_wins_over_actions() {
    assert_eq!(parse_one(&["--apply", "--help"]).command, Command::Help);
}

#[test]
fn overrides_parse_both_forms() {
    let options = parse_one(&["--status", "--dns=on", "--mtu=off", "--power", "off"]);
    assert_eq!(options.dns, Some(true));
    assert_eq!(options.mtu, Some(None));
    assert_eq!(options.power, Some(false));

    let options = parse_one(&["--status", "--dns", "off", "--mtu=1400"]);
    assert_eq!(options.dns, Some(false));
    assert_eq!(options.mtu, Some(Some(1400)));
}

#[test]
fn invalid_overrides_are_errors() {
    assert!(parse(&["--dns=yes-please".into()]).is_err());
    assert!(parse(&["--mtu=999".into()]).is_err());
    assert!(parse(&["--power".into()]).is_ok(), "bare flag is ignored");
}

#[test]
fn exit_codes_are_distinct() {
    assert_ne!(EXIT_OK, EXIT_DRIFT);
    assert_ne!(EXIT_OK, EXIT_ERROR);
    assert_ne!(EXIT_DRIFT, EXIT_ERROR);
}

#[test]
fn profile_operations_parse() {
    let save = parse_one(&["--profile", "save", "lan"]);
    assert_eq!(save.command, Command::Profile);
    assert_eq!(
        save.profile,
        Some(ProfileAction::Save { name: "lan".into() })
    );

    let apply = parse_one(&["--profile", "apply", "gaming"]);
    assert_eq!(
        apply.profile,
        Some(ProfileAction::Apply {
            name: "gaming".into()
        })
    );

    let list = parse_one(&["--profile", "list"]);
    assert_eq!(list.profile, Some(ProfileAction::List));

    let delete = parse_one(&["--profile", "delete", "lan"]);
    assert_eq!(
        delete.profile,
        Some(ProfileAction::Delete { name: "lan".into() })
    );
}

#[test]
fn profile_names_with_path_tricks_are_rejected() {
    assert!(parse(&["--profile".into(), "save".into(), "../evil".into()]).is_err());
    assert!(parse(&["--profile".into(), "apply".into(), "bad".into()]).is_ok());
}

#[test]
fn undo_parses_as_action() {
    assert_eq!(parse_one(&["--undo"]).command, Command::Undo);
    assert!(
        parse(&["--profile".into()]).is_err(),
        "bare --profile needs an operation"
    );
}

#[test]
fn version_wins_and_unknown_flags_are_ignored() {
    assert_eq!(parse_one(&["--apply", "-V"]).command, Command::Version);
    assert_eq!(parse_one(&["--frobnicate"]).command, Command::Interactive);
}

#[test]
fn mtu_overrides_are_bounded() {
    assert_eq!(parse_one(&["--mtu=1280"]).mtu, Some(Some(1280)));
    assert_eq!(parse_one(&["--mtu", "9000"]).mtu, Some(Some(9000)));
    assert!(!parse_error(&["--mtu=1279"]).is_empty());
    assert!(!parse_error(&["--mtu=9001"]).is_empty());
    assert!(!parse_error(&["--mtu=big"]).is_empty());
}

#[test]
fn overrides_count_after_a_profile() {
    let options = parse_one(&["--profile", "apply", "lan", "--mtu=1400"]);
    assert_eq!(options.command, Command::Profile);
    assert_eq!(options.mtu, Some(Some(1400)));
}

#[test]
fn overrides_change_the_config_of_the_run() {
    let options = parse_one(&["--apply", "--dns=on", "--mtu=1400", "--power=off"]);
    let cfg = resolved_cfg(Config::default(), &options);
    assert!(cfg.dns && cfg.tcp && cfg.multimedia && !cfg.power);
    assert_eq!(cfg.mtu, Some(1400));
    assert_eq!(resolved_cfg(cfg, &parse_one(&["--apply"])), cfg);
}

#[test]
fn only_changing_commands_need_elevation() {
    for flag in ["--apply", "--revert", "--undo", "--restore-point"] {
        assert!(needs_elevation(&parse_one(&[flag])), "{flag}");
    }
    for flag in ["--status", "--plan", "--report", "--help", "--version"] {
        assert!(!needs_elevation(&parse_one(&[flag])), "{flag}");
    }
    assert!(needs_elevation(&parse_one(&[])));
    assert!(needs_elevation(&parse_one(&["--profile", "apply", "a"])));
    assert!(!needs_elevation(&parse_one(&["--profile", "save", "a"])));
}

fn applied() -> Applied {
    Applied {
        tcp: Ok(TcpStatus {
            ifaces_ok: 2,
            ifaces_total: 2,
            global_ok: true,
        }),
        resolvers: cloudflare(),
        dns: Ok(()),
        throttling: Ok(()),
        mtu: Ok(()),
        power: Ok(()),
    }
}

fn everything() -> Config {
    Config {
        tcp: true,
        dns: true,
        multimedia: true,
        self_heal: true,
        dns_provider: DnsProvider::Cloudflare,
        mtu: Some(1400),
        power: true,
    }
}

#[test]
fn apply_prints_one_line_per_group() {
    let printed = run_apply(&everything(), &applied());
    assert_eq!(printed.code, EXIT_OK);
    assert_eq!(
        out(&printed),
        vec![
            "tcp: tuned 2/2 ifaces, global ok",
            "dns: switching to cloudflare 1.1.1.1 / 1.0.0.1",
            "throttling: removed",
            "mtu: 1400 applied to all applicable adapters",
            "power: nics told to stay on",
        ]
    );
    assert!(warned(&printed).is_empty());
}

#[test]
fn apply_warns_about_each_failure() {
    let mut result = applied();
    result.tcp = Err("boom".into());
    result.power = Err("stuck".into());
    let printed = run_apply(&everything(), &result);
    assert_eq!(printed.code, EXIT_ERROR);
    assert_eq!(
        warned(&printed),
        vec![
            "\x1b[33mwarning\x1b[0m: tcp: boom".to_string(),
            "\x1b[33mwarning\x1b[0m: power: stuck".to_string(),
        ]
    );
}

#[test]
fn apply_without_features_changes_nothing() {
    let idle = Config {
        tcp: false,
        dns: false,
        multimedia: false,
        self_heal: true,
        dns_provider: DnsProvider::Auto,
        mtu: None,
        power: false,
    };
    assert!(nothing_enabled(&idle));
    assert!(!nothing_enabled(&everything()));
    let printed = run_apply(&idle, &applied());
    assert_eq!(printed.code, EXIT_OK);
    assert!(warned(&printed).is_empty());
}

fn reverted() -> Reverted {
    Reverted {
        mtu: Ok(()),
        throttling: Ok(()),
        power: Ok(()),
        tcp: Ok(()),
        dns: Ok(()),
        autostart: Ok(()),
    }
}

#[test]
fn revert_reports_the_restored_system() {
    let printed = run_revert(&reverted());
    assert_eq!(printed.code, EXIT_OK);
    assert!(out(&printed).contains(&"system restored.".to_string()));

    let mut failing = reverted();
    failing.dns = Err("adapter is gone".into());
    let printed = run_revert(&failing);
    assert_eq!(printed.code, EXIT_ERROR);
    assert_eq!(
        warned(&printed),
        vec!["\x1b[33mwarning\x1b[0m: dns: adapter is gone".to_string()]
    );
}

#[test]
fn drained_needs_both_lists_empty() {
    let mut archive = Archive::default();
    assert!(drained(&archive));
    archive.ensure("tcp", "k", "v", None);
    assert!(!drained(&archive));
    let mut archive = Archive::default();
    archive.dns_ensure("Wi-Fi", true, vec![], vec![]);
    assert!(!drained(&archive));
}

#[test]
fn undo_keeps_the_exit_code() {
    assert_eq!(run_undo(EXIT_OK, &Some("archive-1.json".into())).code, EXIT_OK);
    assert_eq!(run_undo(EXIT_ERROR, &None).code, EXIT_ERROR);
}

#[test]
fn restore_point_outcome_is_told() {
    assert_eq!(
        restore_point_label(),
        "stabilizatores before tweaks v0.3.0"
    );
    assert_eq!(run_restore_point(&Ok(())).code, EXIT_OK);
    let printed = run_restore_point(&Err("disabled".into()));
    assert_eq!(printed.code, EXIT_ERROR);
    assert_eq!(
        out(&printed),
        vec!["\x1b[33mwarning\x1b[0m: disabled".to_string()]
    );
}

fn observed() -> Observed {
    Observed {
        physical: 3,
        active: 2,
        tcp: TcpStatus {
            ifaces_ok: 2,
            ifaces_total: 2,
            global_ok: true,
        },
        resolvers: cloudflare(),
        dns: DnsStatus {
            aligned: 2,
            total: 2,
        },
        throttling: true,
        mtu: true,
        power: true,
        connections: TcpConnections {
            total: 9,
            established: 5,
            time_wait: 1,
        },
        failures: vec![],
    }
}

#[test]
fn status_codes_follow_the_state() {
    assert_eq!(run_status(&everything(), &observed()).code, EXIT_OK);

    let mut drift = observed();
    drift.tcp.ifaces_ok = 1;
    assert_eq!(run_status(&everything(), &drift).code, EXIT_DRIFT);

    let mut drift = observed();
    drift.mtu = false;
    assert_eq!(run_status(&everything(), &drift).code, EXIT_DRIFT);

    let mut unknown = observed();
    unknown.failures = vec!["cannot read".into()];
    assert_eq!(run_status(&everything(), &unknown).code, EXIT_ERROR);
}

#[test]
fn status_ignores_disabled_groups() {
    let mut drift = observed();
    drift.dns.aligned = 0;
    let mut cfg = everything();
    cfg.dns = false;
    assert_eq!(run_status(&cfg, &drift).code, EXIT_OK);
}

#[test]
fn failed_reads_of_enabled_groups_count() {
    let mut broken = Snapshot::empty();
    broken.record(
        Action::ReadDword {
            subkey: GLOBAL_SUBKEY.into(),
            name: "MaxUserPort".into(),
        },
        Reply::Value(Err("denied".into())),
    );
    let clean = Snapshot::empty();
    let nodes = Ok(vec![]);
    let mut cfg = everything();
    assert_eq!(
        unreadable(&cfg, &Ok(vec![]), &broken, &clean, &clean, &nodes),
        vec![format!("read {GLOBAL_SUBKEY}\\MaxUserPort: denied")]
    );
    cfg.tcp = false;
    assert_eq!(unreadable(&cfg, &Ok(vec![]), &broken, &clean, &clean, &nodes).len(), 0);
}

#[test]
fn failed_reads_under_unreadable_keys_do_not_count() {
    let key = iface_subkey("{a}");
    let mut broken = Snapshot::empty();
    broken.record(
        Action::ReadDword {
            subkey: key.clone(),
            name: "MTU".into(),
        },
        Reply::Value(Err("denied".into())),
    );
    let clean = Snapshot::empty();
    let cfg = everything();
    let nodes = Ok(vec![]);
    assert_eq!(unreadable(&cfg, &Ok(vec![]), &broken, &clean, &broken, &nodes).len(), 0);
    broken.record(Action::KeyExists { subkey: key }, Reply::Exists(true));
    assert_eq!(unreadable(&cfg, &Ok(vec![]), &broken, &clean, &broken, &nodes).len(), 2);
}

#[test]
fn unlisted_adapters_are_an_error() {
    let clean = Snapshot::empty();
    let nodes = Ok(vec![]);
    let broken = Err("denied".to_string());
    let mut cfg = everything();
    let mut seen = observed();
    seen.failures = unreadable(&cfg, &broken, &clean, &clean, &clean, &nodes);
    assert_eq!(seen.failures, vec!["read adapters: denied"]);
    assert_eq!(run_status(&cfg, &seen).code, EXIT_ERROR);
    cfg.tcp = false;
    cfg.dns = false;
    cfg.mtu = None;
    assert!(unreadable(&cfg, &broken, &clean, &clean, &clean, &nodes).is_empty());
}

#[test]
fn unread_nics_are_an_error() {
    let clean = Snapshot::empty();
    let mut cfg = everything();
    let broken = Err("denied".to_string());
    let mut seen = observed();
    seen.failures = unreadable(&cfg, &Ok(vec![]), &clean, &clean, &clean, &broken);
    assert_eq!(seen.failures.len(), 1);
    assert_eq!(run_status(&cfg, &seen).code, EXIT_ERROR);
    cfg.power = false;
    assert_eq!(unreadable(&cfg, &Ok(vec![]), &clean, &clean, &clean, &broken).len(), 0);
}

#[test]
fn plan_names_what_would_change() {
    let printed = run_plan(&everything(), 2, &google(), &parse_one(&["--plan"]));
    assert_eq!(printed.code, EXIT_OK);
    let text = out(&printed).join("\n");
    assert!(text.contains("8.8.8.8"));
    assert!(text.contains("1400"));
}

#[test]
fn profile_outcomes_are_told() {
    let save = ProfileAction::Save { name: "lan".into() };
    let (lines, code) = run_profile(&save, &Store::Saved(Ok(())));
    assert_eq!(lines, vec![Line::Out("profile 'lan' saved.".into())]);
    assert_eq!(code, Some(EXIT_OK));
    let (lines, code) = run_profile(&save, &Store::Saved(Err("full".into())));
    assert_eq!(lines, vec![Line::Warn("error saving profile: full".into())]);
    assert_eq!(code, Some(EXIT_ERROR));

    let list = ProfileAction::List;
    let (lines, _) = run_profile(&list, &Store::Names(vec![]));
    assert_eq!(lines, vec![Line::Out("no profiles saved.".into())]);
    let (lines, code) = run_profile(&list, &Store::Names(vec!["a".into(), "b".into()]));
    assert_eq!(lines, vec![Line::Out("  a\n  b".into())]);
    assert_eq!(code, Some(EXIT_OK));

    let delete = ProfileAction::Delete { name: "lan".into() };
    let (lines, _) = run_profile(&delete, &Store::Deleted(Ok(())));
    assert_eq!(lines, vec![Line::Out("profile 'lan' deleted.".into())]);
    let (lines, code) = run_profile(&delete, &Store::Deleted(Err("gone".into())));
    assert_eq!(lines, vec![Line::Warn("error deleting profile: gone".into())]);
    assert_eq!(code, Some(EXIT_ERROR));

    let apply = ProfileAction::Apply { name: "lan".into() };
    let (lines, code) = run_profile(&apply, &Store::Missing);
    assert_eq!(
        lines,
        vec![Line::Warn(
            "profile 'lan' does not exist; use --profile list".into()
        )]
    );
    assert_eq!(code, Some(EXIT_ERROR));
    let (lines, code) = run_profile(&apply, &Store::Activated(Ok(())));
    assert_eq!(
        lines,
        vec![Line::Out("profile 'lan' is now the active config.".into())]
    );
    assert_eq!(code, None, "the apply run comes next");
    let (lines, code) = run_profile(&apply, &Store::Activated(Err("full".into())));
    assert_eq!(lines, vec![Line::Warn("error saving config: full".into())]);
    assert_eq!(code, Some(EXIT_ERROR));
}

#[test]
fn report_outcomes_are_told() {
    let printed = run_report(&Written::File { path: "r.json".into() });
    assert_eq!(out(&printed), vec!["report written to r.json".to_string()]);
    assert_eq!(printed.code, EXIT_OK);
    for (written, text) in [
        (
            Written::NoDirectory {
                path: "d".into(),
                error: "e".into(),
            },
            "cannot create d: e",
        ),
        (
            Written::NotSerialized { error: "e".into() },
            "report serialization failed: e",
        ),
        (
            Written::NotWritten {
                path: "f".into(),
                error: "e".into(),
            },
            "cannot write f: e",
        ),
    ] {
        let printed = run_report(&written);
        assert_eq!(printed.code, EXIT_ERROR);
        assert_eq!(
            warned(&printed),
            vec![format!("\x1b[33mwarning\x1b[0m: {text}")]
        );
    }
}

#[test]
fn usage_and_version_are_printed() {
    assert_eq!(out(&run_help()), vec![USAGE.to_string()]);
    assert!(USAGE.contains("--restore-point"));
    assert_eq!(out(&run_version()), vec!["stabilizatores 0.3.0".to_string()]);
    let printed = refuse("bad flag");
    assert_eq!(printed.code, EXIT_ERROR);
    assert_eq!(warned(&printed), vec!["stabilizatores: bad flag".to_string()]);
    assert_eq!(out(&printed), vec![format!("\n{USAGE}")]);
}

#[test]
fn labels_and_counts_are_plain() {
    assert_eq!(provider_label(DnsProvider::Cloudflare), "cloudflare");
    assert_eq!(provider_label(DnsProvider::Google), "google");
    assert_eq!(ratio(1, 2), "1/2");
}
