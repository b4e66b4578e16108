//! What the command line takes, prints and answers with.

use vstd::prelude::*;

use crate::cli;
use crate::cli::{
    action_of, apply_errors, apply_lines, asks_help, asks_version, bool_of, choice_up_to, code_of,
    drift_errors, is_idle, mtu_of, parsed, plan_lines, profile_end, profile_op, revert_errors,
    status_end, status_lines, warning, warnings, Applied, Choice, Command, Observed, ProfileOp,
    Reverted, Shown, Store,
};
use crate::config::{Config, DnsProvider};
use crate::dns::Resolvers;
use crate::interfaces::Interface;
use crate::laws::tweaks::{machine_key, throttling_key};
use crate::power::{failures_tell_of_a_nic, nic_of, Node};
use crate::registry::{failed, failures_tell_of_a_reading, Answer, Seen};
use crate::text::{
    decimal, decimal_reads_back, digits_value, is_numeral, numeral_digits, starts, views,
};

verus! {

/// Some feature is enabled.
pub open spec fn something_on(cfg: Config) -> bool {
    cfg.tcp || cfg.dns || cfg.multimedia || cfg.mtu is Some || cfg.power
}

// ---------------------------------------------------------------------------
// Exit codes
// ---------------------------------------------------------------------------

/// With something enabled and nothing unreadable, a status report answers 1 as
/// soon as one enabled feature is not in its target state, and 0 otherwise. What
/// could not be read makes it 2; with nothing enabled it is 0.
pub proof fn status_code_goes_by_each_feature(cfg: Config, o: Observed)
    ensures
        ({
            let code = status_end(cfg, o).1;
            let read = o.failures@.len() == 0;
            &&& !something_on(cfg) ==> code == 0
            &&& something_on(cfg) && !read ==> code == 2
            &&& something_on(cfg) && read ==> {
                &&& cfg.multimedia && !o.throttling ==> code == 1
                &&& cfg.tcp && !o.tcp.global_ok ==> code == 1
                &&& cfg.tcp && o.tcp.ifaces_total != 0 && o.tcp.ifaces_ok != o.tcp.ifaces_total
                    ==> code == 1
                &&& cfg.dns && o.dns.total != 0 && o.dns.aligned != o.dns.total ==> code == 1
                &&& cfg.mtu is Some && !o.mtu ==> code == 1
                &&& cfg.power && !o.power ==> code == 1
                &&& code == 0 || code == 1
                &&& code == 1 ==> {
                    ||| cfg.multimedia && !o.throttling
                    ||| cfg.tcp && !(o.tcp.global_ok && (o.tcp.ifaces_total == 0
                        || o.tcp.ifaces_ok == o.tcp.ifaces_total))
                    ||| cfg.dns && !(o.dns.total == 0 || o.dns.aligned == o.dns.total)
                    ||| cfg.mtu is Some && !o.mtu
                    ||| cfg.power && !o.power
                }
            }
        }),
{
}

/// The last line of a status report says the same as its exit code, and every
/// reading that failed is warned about.
pub proof fn status_ends_with_its_verdict(cfg: Config, o: Observed)
    ensures
        ({
            let lines = status_end(cfg, o).0;
            let code = status_end(cfg, o).1;
            let label = "\x1b[2m"@ + "overall"@ + "\x1b[0m"@ + "      "@;
            &&& lines.len() > 0
            &&& !something_on(cfg) ==> lines == seq![Shown::Out(label + "nothing enabled"@)]
            &&& something_on(cfg) && code == 0 ==> lines.last() == Shown::Out(
                label + "all aligned"@,
            )
            &&& code == 1 ==> lines.last() == Shown::Out(label + "drift detected"@)
            &&& something_on(cfg) ==> forall|i: int|
                0 <= i < o.failures@.len() ==> lines.contains(
                    Shown::Warn(
                        "\x1b[33m"@ + "warning"@ + "\x1b[0m"@ + ": "@ + (#[trigger] o.failures@[i])@,
                    ),
                )
            &&& something_on(cfg) && cfg.power && !o.power ==> lines.contains(
                Shown::Warn(
                    "\x1b[33m"@ + "warning"@ + "\x1b[0m"@ + ": "@
                        + "power: some NICs may still power down"@,
                ),
            )
            &&& cfg.mtu is Some && !o.mtu ==> lines.contains(
                Shown::Warn(
                    "\x1b[33m"@ + "warning"@ + "\x1b[0m"@ + ": "@ + ("mtu: adapters not at "@
                        + decimal(cfg.mtu->0 as nat)),
                ),
            )
        }),
{
    let lines = status_end(cfg, o).0;
    if something_on(cfg) {
        let drift = drift_errors(cfg, o);
        let warned = warnings(drift);
        assert forall|i: int| 0 <= i < o.failures@.len() implies lines.contains(
            Shown::Warn(
                "\x1b[33m"@ + "warning"@ + "\x1b[0m"@ + ": "@ + (#[trigger] o.failures@[i])@,
            ),
        ) by {
            assert(views(o.failures@)[i] == o.failures@[i]@);
            assert(lines[warned.len() + i] == Shown::Warn(warning(o.failures@[i]@)));
        }
        if cfg.power && !o.power {
            let n = drift.len() - 1;
            assert(drift[n] == "power: some NICs may still power down"@);
            assert(warned[n] == Shown::Warn(warning(drift[n])));
            assert(lines[n] == warned[n]);
        }
        if cfg.mtu is Some && !o.mtu {
            assert(drift[0] == "mtu: adapters not at "@ + decimal(cfg.mtu->0 as nat));
            assert(warned[0] == Shown::Warn(warning(drift[0])));
            assert(lines[0] == warned[0]);
        }
    }
}

/// An apply run answers 2 exactly when an enabled feature failed, and 0
/// otherwise; a feature that is off cannot fail it.
pub proof fn apply_code_goes_by_each_feature(cfg: Config, a: Applied)
    ensures
        ({
            let code = code_of(apply_errors(cfg, a));
            let failed = (cfg.tcp && a.tcp is Err) || (cfg.dns && a.dns is Err) || (
            cfg.multimedia && a.throttling is Err) || (cfg.mtu is Some && a.mtu is Err) || (
            cfg.power && a.power is Err);
            &&& failed ==> code == 2
            &&& !failed ==> code == 0
        }),
        is_idle(cfg) <==> !something_on(cfg),
{
}

/// Every enabled feature that failed is told of, by its name and its reason.
pub proof fn apply_tells_of_each_failure(cfg: Config, a: Applied)
    ensures
        ({
            let errors = apply_errors(cfg, a);
            &&& cfg.tcp ==> (a.tcp matches Err(e) ==> errors.contains("tcp: "@ + e@))
            &&& cfg.dns ==> (a.dns matches Err(e) ==> errors.contains("dns: "@ + e@))
            &&& cfg.multimedia ==> (a.throttling matches Err(e) ==> errors.contains(
                "throttling: "@ + e@,
            ))
            &&& cfg.mtu is Some ==> (a.mtu matches Err(e) ==> errors.contains("mtu: "@ + e@))
            &&& cfg.power ==> (a.power matches Err(e) ==> errors.contains("power: "@ + e@))
        }),
{
    let e1 = cli::failure_of(cfg.tcp, "tcp: "@, a.tcp);
    let e2 = cli::failure_of(cfg.dns, "dns: "@, a.dns);
    let e3 = cli::failure_of(cfg.multimedia, "throttling: "@, a.throttling);
    let e4 = cli::failure_of(cfg.mtu is Some, "mtu: "@, a.mtu);
    let e5 = cli::failure_of(cfg.power, "power: "@, a.power);
    let errors = apply_errors(cfg, a);
    assert(errors =~= e1 + e2 + e3 + e4 + e5);
    if e1.len() > 0 {
        assert(errors[0] == e1[0]);
    }
    if e2.len() > 0 {
        assert(errors[e1.len() as int] == e2[0]);
    }
    if e3.len() > 0 {
        assert(errors[(e1 + e2).len() as int] == e3[0]);
    }
    if e4.len() > 0 {
        assert(errors[(e1 + e2 + e3).len() as int] == e4[0]);
    }
    if e5.len() > 0 {
        assert(errors[(e1 + e2 + e3 + e4).len() as int] == e5[0]);
    }
}

/// One line, if there is reason for it.
pub open spec fn line_if(due: bool, line: Seq<char>) -> Seq<Shown> {
    if due {
        seq![Shown::Out(line)]
    } else {
        Seq::empty()
    }
}

/// Every enabled feature that succeeded has its line, the switch of the resolvers
/// its line in any case, and nothing else is printed.
pub proof fn apply_tells_of_each_success(cfg: Config, a: Applied)
    ensures
        ({
            let lines = apply_lines(cfg, a);
            let tuned = match a.tcp {
                Ok(s) => "tcp: tuned "@ + (decimal(s.ifaces_ok as nat) + "/"@ + decimal(
                    s.ifaces_total as nat,
                )) + " ifaces, global ok"@,
                Err(_) => ""@,
            };
            let switched = "dns: switching to "@ + cli::provider_text(a.resolvers.provider) + " "@
                + a.resolvers.primary@ + " / "@ + a.resolvers.secondary@;
            let sized = match cfg.mtu {
                Some(target) => "mtu: "@ + decimal(target as nat)
                    + " applied to all applicable adapters"@,
                None => ""@,
            };
            lines == line_if(cfg.tcp && a.tcp is Ok, tuned) + line_if(cfg.dns, switched) + line_if(
                cfg.multimedia && a.throttling is Ok,
                "throttling: removed"@,
            ) + line_if(cfg.mtu is Some && a.mtu is Ok, sized) + line_if(
                cfg.power && a.power is Ok,
                "power: nics told to stay on"@,
            )
        }),
{
}

/// A revert answers 2 exactly when one of its six parts failed, and tells of
/// each that did.
pub proof fn revert_code_goes_by_each_part(r: Reverted)
    ensures
        ({
            let errors = revert_errors(r);
            let failed = r.mtu is Err || r.throttling is Err || r.power is Err || r.tcp is Err
                || r.dns is Err || r.autostart is Err;
            &&& failed ==> code_of(errors) == 2
            &&& !failed ==> code_of(errors) == 0
            &&& r.mtu matches Err(e) ==> errors.contains("mtu: "@ + e@)
            &&& r.throttling matches Err(e) ==> errors.contains("throttling: "@ + e@)
            &&& r.power matches Err(e) ==> errors.contains("power: "@ + e@)
            &&& r.tcp matches Err(e) ==> errors.contains("tcp: "@ + e@)
            &&& r.dns matches Err(e) ==> errors.contains("dns: "@ + e@)
            &&& r.autostart matches Err(e) ==> errors.contains("autostart: "@ + e@)
        }),
{
    let e1 = cli::failure_of(true, "mtu: "@, r.mtu);
    let e2 = cli::failure_of(true, "throttling: "@, r.throttling);
    let e3 = cli::failure_of(true, "power: "@, r.power);
    let e4 = cli::failure_of(true, "tcp: "@, r.tcp);
    let e5 = cli::failure_of(true, "dns: "@, r.dns);
    let e6 = cli::failure_of(true, "autostart: "@, r.autostart);
    let errors = revert_errors(r);
    assert(errors =~= e1 + e2 + e3 + e4 + e5 + e6);
    if e1.len() > 0 {
        assert(errors[0] == e1[0]);
    }
    if e2.len() > 0 {
        assert(errors[e1.len() as int] == e2[0]);
    }
    if e3.len() > 0 {
        assert(errors[(e1 + e2).len() as int] == e3[0]);
    }
    if e4.len() > 0 {
        assert(errors[(e1 + e2 + e3).len() as int] == e4[0]);
    }
    if e5.len() > 0 {
        assert(errors[(e1 + e2 + e3 + e4).len() as int] == e5[0]);
    }
    if e6.len() > 0 {
        assert(errors[(e1 + e2 + e3 + e4 + e5).len() as int] == e6[0]);
    }
}

/// A profile operation that failed answers 2, one that succeeded 0; after a
/// profile was made the active config there is no answer yet, as it is applied
/// next.
pub proof fn profile_code_tells_the_outcome(name: Seq<char>, store: Store)
    ensures
        store matches Store::Saved(r) ==> profile_end(ProfileOp::Save { name }, store).1 == Some(
            if r is Ok {
                0i32
            } else {
                2i32
            },
        ),
        store matches Store::Deleted(r) ==> profile_end(ProfileOp::Delete { name }, store).1
            == Some(
            if r is Ok {
                0i32
            } else {
                2i32
            },
        ),
        store is Names ==> profile_end(ProfileOp::List, store).1 == Some(0i32),
        store is Missing ==> profile_end(ProfileOp::Apply { name }, store).1 == Some(2i32),
        store matches Store::Activated(r) ==> (profile_end(ProfileOp::Apply { name }, store).1
            is None <==> r is Ok),
        store matches Store::Activated(Err(_)) ==> profile_end(
            ProfileOp::Apply { name },
            store,
        ).1 == Some(2i32),
{
}

// ---------------------------------------------------------------------------
// Arguments
// ---------------------------------------------------------------------------

/// Each action has one flag, and no other text is an action.
pub proof fn flags_name_the_actions(arg: Seq<char>)
    ensures
        action_of(arg) == Some(Command::Apply) <==> arg == "--apply"@,
        action_of(arg) == Some(Command::Revert) <==> arg == "--revert"@,
        action_of(arg) == Some(Command::Status) <==> arg == "--status"@,
        action_of(arg) == Some(Command::Plan) <==> arg == "--plan"@,
        action_of(arg) == Some(Command::Report) <==> arg == "--report"@,
        action_of(arg) == Some(Command::RestorePoint) <==> arg == "--restore-point"@,
        action_of(arg) == Some(Command::Undo) <==> arg == "--undo"@,
        action_of(arg) is None <==> arg != "--apply"@ && arg != "--revert"@ && arg != "--status"@
            && arg != "--plan"@ && arg != "--report"@ && arg != "--restore-point"@ && arg
            != "--undo"@,
        asks_help(arg) <==> arg == "-h"@ || arg == "--help"@ || arg == "/?"@,
        asks_version(arg) <==> arg == "-V"@ || arg == "--version"@,
{
    reveal_strlit("--apply");
    reveal_strlit("--revert");
    reveal_strlit("--status");
    reveal_strlit("--plan");
    reveal_strlit("--report");
    reveal_strlit("--restore-point");
    reveal_strlit("--undo");
    assert("--apply"@.len() == 7 && "--apply"@[2] == 'a');
    assert("--revert"@.len() == 8 && "--revert"@[2] == 'r' && "--revert"@[4] == 'v');
    assert("--status"@.len() == 8 && "--status"@[2] == 's');
    assert("--plan"@.len() == 6 && "--plan"@[2] == 'p');
    assert("--report"@.len() == 8 && "--report"@[2] == 'r' && "--report"@[4] == 'p');
    assert("--restore-point"@.len() == 15);
    assert("--undo"@.len() == 6 && "--undo"@[2] == 'u');
}

/// A switch is on for four words, off for four others, and nothing else.
pub proof fn switch_words_are_these(value: Seq<char>)
    ensures
        bool_of(value) == Ok::<bool, Seq<char>>(true) <==> value == "on"@ || value == "true"@
            || value == "1"@ || value == "yes"@,
        bool_of(value) == Ok::<bool, Seq<char>>(false) <==> value == "off"@ || value == "false"@
            || value == "0"@ || value == "no"@,
        bool_of(value) matches Err(e) ==> e == "invalid boolean override '"@ + value
            + "', expected on/off"@,
{
    reveal_strlit("on");
    reveal_strlit("true");
    reveal_strlit("1");
    reveal_strlit("yes");
    reveal_strlit("off");
    reveal_strlit("false");
    reveal_strlit("0");
    reveal_strlit("no");
    assert("on"@.len() == 2 && "on"@[0] == 'o');
    assert("true"@.len() == 4);
    assert("1"@.len() == 1 && "1"@[0] == '1');
    assert("yes"@.len() == 3 && "yes"@[0] == 'y');
    assert("off"@.len() == 3 && "off"@[0] == 'o');
    assert("false"@.len() == 5);
    assert("0"@.len() == 1 && "0"@[0] == '0');
    assert("no"@.len() == 2 && "no"@[0] == 'n');
}

/// A number from 1280 to 9000 is taken as the MTU that it says, every other
/// number but 0 is refused, and 0, `off` and `default` switch the feature off.
pub proof fn mtu_override_says_its_number(n: nat)
    ensures
        1280 <= n <= 9000 ==> mtu_of(decimal(n)) == Ok::<Option<u32>, Seq<char>>(Some(n as u32)),
        0 < n < 1280 || n > 9000 ==> mtu_of(decimal(n)) is Err,
        n == 0 ==> mtu_of(decimal(n)) == Ok::<Option<u32>, Seq<char>>(None),
        mtu_of("off"@) == Ok::<Option<u32>, Seq<char>>(None),
        mtu_of("default"@) == Ok::<Option<u32>, Seq<char>>(None),
{
    decimal_reads_back(n);
    reveal_strlit("off");
    reveal_strlit("default");
    reveal_strlit("0");
    assert("off"@[0] == 'o' && "default"@[0] == 'd' && "0"@.len() == 1 && "0"@[0] == '0');
    let s = decimal(n);
    assert('0' <= s[0] <= '9');
    if n == 0 {
        assert(s =~= "0"@);
    } else if n < 10 {
        assert(s[0] == (48 + n) as char);
    } else {
        assert(s.len() >= 2) by {
            decimal_reads_back(n / 10);
        }
    }
}

/// Whatever the text, an MTU that comes out is in range, and a text that is
/// neither a number nor one of the words is refused.
pub proof fn mtu_override_is_a_number(value: Seq<char>)
    ensures
        mtu_of(value) matches Ok(Some(mtu)) ==> 1280 <= mtu <= 9000 && is_numeral(value) && mtu
            == digits_value(numeral_digits(value)),
        mtu_of(value) matches Ok(None) ==> value == "off"@ || value == "default"@ || value == "0"@,
        mtu_of(value) matches Err(e) ==> e == "invalid mtu override '"@ + value
            + "', expected off or 1280..=9000"@,
{
}

/// The overrides of a run change what they name and nothing else.
pub proof fn overrides_change_what_they_name(cfg: Config, choice: Choice)
    ensures
        ({
            let run = cli::resolved(cfg, choice);
            &&& choice.dns matches Some(dns) ==> run.dns == dns
            &&& choice.dns is None ==> run.dns == cfg.dns
            &&& choice.mtu matches Some(mtu) ==> run.mtu == mtu
            &&& choice.mtu is None ==> run.mtu == cfg.mtu
            &&& choice.power matches Some(power) ==> run.power == power
            &&& choice.power is None ==> run.power == cfg.power
            &&& run.tcp == cfg.tcp
            &&& run.multimedia == cfg.multimedia
            &&& run.self_heal == cfg.self_heal
            &&& run.dns_provider == cfg.dns_provider
        }),
{
}

/// True of an argument that overrides `key`, in either form.
pub open spec fn overrides(arg: Seq<char>, key: Seq<char>) -> bool {
    arg == key || starts(arg, key + "="@)
}

proof fn keys_differ(arg: Seq<char>)
    ensures
        starts(arg, "--dns"@ + "="@) ==> action_of(arg) is None && !starts(arg, "--mtu"@ + "="@)
            && !starts(arg, "--power"@ + "="@) && arg != "--profile"@,
        starts(arg, "--mtu"@ + "="@) ==> action_of(arg) is None && !starts(arg, "--dns"@ + "="@)
            && !starts(arg, "--power"@ + "="@) && arg != "--dns"@ && arg != "--profile"@,
        starts(arg, "--power"@ + "="@) ==> action_of(arg) is None && !starts(
            arg,
            "--dns"@ + "="@,
        ) && !starts(arg, "--mtu"@ + "="@) && arg != "--dns"@ && arg != "--mtu"@ && arg
            != "--profile"@,
{
    reveal_strlit("--dns");
    reveal_strlit("--mtu");
    reveal_strlit("--power");
    reveal_strlit("--profile");
    reveal_strlit("=");
    reveal_strlit("--apply");
    reveal_strlit("--revert");
    reveal_strlit("--status");
    reveal_strlit("--plan");
    reveal_strlit("--report");
    reveal_strlit("--restore-point");
    reveal_strlit("--undo");
    let d = "--dns"@ + "="@;
    let m = "--mtu"@ + "="@;
    let p = "--power"@ + "="@;
    assert(d.len() == 6 && d[2] == 'd');
    assert(m.len() == 6 && m[2] == 'm');
    assert(p.len() == 8 && p[2] == 'p' && p[3] == 'o');
    if starts(arg, d) {
        assert(arg.take(6)[2] == d[2]);
        assert(arg[2] == 'd');
    }
    if starts(arg, m) {
        assert(arg.take(6)[2] == m[2]);
        assert(arg[2] == 'm');
    }
    if starts(arg, p) {
        assert(arg.take(8)[2] == p[2] && arg.take(8)[3] == p[3]);
        assert(arg[2] == 'p' && arg[3] == 'o');
    }
    assert("--apply"@[2] == 'a');
    assert("--revert"@[2] == 'r');
    assert("--status"@[2] == 's');
    assert("--plan"@[2] == 'p' && "--plan"@[3] == 'l');
    assert("--report"@[2] == 'r');
    assert("--restore-point"@[2] == 'r');
    assert("--undo"@[2] == 'u');
    assert("--profile"@[2] == 'p' && "--profile"@[3] == 'r');
    assert("--dns"@[2] == 'd');
    assert("--mtu"@[2] == 'm');
}

/// Of the overrides of the DNS feature the last one counts; without any, the
/// feature is left as it is.
pub proof fn last_dns_override_counts(args: Seq<Seq<char>>, n: int, i: int)
    requires
        0 <= n <= args.len(),
        choice_up_to(args, n) is Ok,
        i < n,
        forall|k: int|
            0 <= k < n && i < k ==> !overrides(#[trigger] args[k], "--dns"@),
        0 <= i ==> starts(args[i], "--dns"@ + "="@),
    ensures
        0 <= i ==> Ok::<bool, Seq<char>>((choice_up_to(args, n)->Ok_0).dns->0) == bool_of(
            args[i].skip(6),
        ) && (choice_up_to(args, n)->Ok_0).dns is Some,
        i < 0 ==> (choice_up_to(args, n)->Ok_0).dns is None,
    decreases n,
{
    reveal_strlit("--dns");
    reveal_strlit("=");
    assert(("--dns"@ + "="@).len() == 6);
    if n > 0 {
        keys_differ(args[n - 1]);
        if n - 1 > i {
            last_dns_override_counts(args, n - 1, i);
            assert(!overrides(args[n - 1], "--dns"@));
        }
    }
}

/// Of the overrides of the MTU the last one counts; without any, the target is
/// left as it is.
pub proof fn last_mtu_override_counts(args: Seq<Seq<char>>, n: int, i: int)
    requires
        0 <= n <= args.len(),
        choice_up_to(args, n) is Ok,
        i < n,
        forall|k: int|
            0 <= k < n && i < k ==> !overrides(#[trigger] args[k], "--mtu"@),
        0 <= i ==> starts(args[i], "--mtu"@ + "="@),
    ensures
        0 <= i ==> Ok::<Option<u32>, Seq<char>>((choice_up_to(args, n)->Ok_0).mtu->0) == mtu_of(
            args[i].skip(6),
        ) && (choice_up_to(args, n)->Ok_0).mtu is Some,
        i < 0 ==> (choice_up_to(args, n)->Ok_0).mtu is None,
    decreases n,
{
    reveal_strlit("--mtu");
    reveal_strlit("=");
    assert(("--mtu"@ + "="@).len() == 6);
    if n > 0 {
        keys_differ(args[n - 1]);
        if n - 1 > i {
            last_mtu_override_counts(args, n - 1, i);
            assert(!overrides(args[n - 1], "--mtu"@));
        }
    }
}

/// Of the overrides of the power feature the last one counts; without any, the
/// feature is left as it is.
pub proof fn last_power_override_counts(args: Seq<Seq<char>>, n: int, i: int)
    requires
        0 <= n <= args.len(),
        choice_up_to(args, n) is Ok,
        i < n,
        forall|k: int|
            0 <= k < n && i < k ==> !overrides(#[trigger] args[k], "--power"@),
        0 <= i ==> starts(args[i], "--power"@ + "="@),
    ensures
        0 <= i ==> Ok::<bool, Seq<char>>((choice_up_to(args, n)->Ok_0).power->0) == bool_of(
            args[i].skip(8),
        ) && (choice_up_to(args, n)->Ok_0).power is Some,
        i < 0 ==> (choice_up_to(args, n)->Ok_0).power is None,
    decreases n,
{
    reveal_strlit("--power");
    reveal_strlit("=");
    assert(("--power"@ + "="@).len() == 8);
    if n > 0 {
        keys_differ(args[n - 1]);
        if n - 1 > i {
            last_power_override_counts(args, n - 1, i);
            assert(!overrides(args[n - 1], "--power"@));
        }
    }
}

/// A value may also stand behind its key, unless it looks like a flag: both
/// forms mean the same.
pub proof fn both_forms_mean_the_same(args: Seq<Seq<char>>, i: int, key: Seq<char>, value: Seq<char>)
    requires
        0 <= i < args.len() - 1,
        args[i] == key,
        args[i + 1] == value,
        !starts(value, "--"@),
    ensures
        cli::override_at(args, i, key) == Some(value),
        cli::override_at(seq![key + "="@ + value], 0, key) == Some(value),
{
    reveal_strlit("=");
    let eq = key + "="@;
    assert(eq.len() == key.len() + 1);
    assert(!starts(args[i], eq));
    let one = key + "="@ + value;
    assert(one.take(eq.len() as int) =~= eq);
    assert(one.skip(eq.len() as int) =~= value);
}

/// A profile operation is named by its first word, and those that need a name
/// take the second.
pub proof fn profile_words_are_these(tokens: Seq<Seq<char>>)
    ensures
        tokens.len() >= 1 && tokens[0] == "list"@ ==> profile_op(tokens) == Ok::<
            ProfileOp,
            Seq<char>,
        >(ProfileOp::List),
        tokens.len() >= 2 && !starts(tokens[1], "--"@) && crate::config::valid_profile_name(
            tokens[1],
        ) ==> {
            &&& tokens[0] == "save"@ ==> profile_op(tokens) == Ok::<ProfileOp, Seq<char>>(
                ProfileOp::Save { name: tokens[1] },
            )
            &&& tokens[0] == "apply"@ ==> profile_op(tokens) == Ok::<ProfileOp, Seq<char>>(
                ProfileOp::Apply { name: tokens[1] },
            )
            &&& tokens[0] == "delete"@ ==> profile_op(tokens) == Ok::<ProfileOp, Seq<char>>(
                ProfileOp::Delete { name: tokens[1] },
            )
        },
        profile_op(tokens) is Ok && profile_op(tokens)->Ok_0 !is List ==> tokens.len() >= 2 && !starts(
            tokens[1],
            "--"@,
        ) && crate::config::valid_profile_name(tokens[1]),
        profile_op(tokens) is Ok ==> tokens.len() >= 1 && (tokens[0] == "save"@ || tokens[0]
            == "apply"@ || tokens[0] == "list"@ || tokens[0] == "delete"@),
{
    reveal_strlit("");
    reveal_strlit("save");
    reveal_strlit("apply");
    reveal_strlit("list");
    reveal_strlit("delete");
    assert(""@.len() == 0);
    assert("save"@.len() == 4 && "save"@[0] == 's');
    assert("apply"@.len() == 5);
    assert("list"@.len() == 4 && "list"@[0] == 'l');
    assert("delete"@.len() == 6);
}

// ---------------------------------------------------------------------------
// Plans and reports on the screen
// ---------------------------------------------------------------------------

/// A plan names every feature with its switch, the resolvers and the MTU that an
/// apply would use, and says whether there is anything to apply.
pub proof fn plan_shows_the_config(cfg: Config, adapters: usize, r: Resolvers, choice: Choice)
    ensures
        ({
            let lines = plan_lines(cfg, adapters, r, choice);
            let on = |b: bool|
                if b {
                    "on"@
                } else {
                    "off"@
                };
            &&& lines.len() == 16
            &&& lines[1] == Shown::Out("           "@ + ("tcp:         "@ + on(cfg.tcp)))
            &&& lines[2] == Shown::Out(
                "           "@ + ("  (tune "@ + decimal(adapters as nat)
                    + " physical adapters: Nagle, ACK frequency, TCP timers)"@),
            )
            &&& lines[4] == Shown::Out("           "@ + ("dns:         "@ + on(cfg.dns)))
            &&& lines[5] == Shown::Out(
                "           "@ + ("  (switch adapters to "@ + cli::provider_text(r.provider) + " "@
                    + r.primary@ + " / "@ + r.secondary@ + ")"@),
            )
            &&& lines[7] == Shown::Out("           "@ + ("throttling:  "@ + on(cfg.multimedia)))
            &&& lines[10] == Shown::Out(
                "           "@ + ("mtu:         "@ + match cfg.mtu {
                    Some(target) => decimal(target as nat),
                    None => "off"@,
                }),
            )
            &&& lines[13] == Shown::Out("           "@ + ("power:       "@ + on(cfg.power)))
            &&& !something_on(cfg) ==> lines[15] == Shown::Out(
                "\nnothing enabled: --apply would do nothing. use the interactive menu to opt in."@,
            )
            &&& something_on(cfg) && choice.dns is None && choice.mtu is None && choice.power
                is None ==> lines[15] == Shown::Out(
                "\nrun `stabilizatores --apply` to apply"@ + ""@ + "."@,
            )
        }),
{
}

/// A provider is called by its name; `auto` stands for Cloudflare where nothing
/// was measured.
pub proof fn providers_are_called_by_name(provider: DnsProvider)
    ensures
        cli::provider_text(DnsProvider::Cloudflare) == "cloudflare"@,
        cli::provider_text(DnsProvider::Google) == "google"@,
        cli::provider_text(DnsProvider::Auto) == "auto (cloudflare)"@,
{
}

/// A text in the colour with this number.
pub open spec fn coloured(code: Seq<char>, text: Seq<char>) -> Seq<char> {
    "\x1b["@ + code + "m"@ + text + "\x1b["@ + "0"@ + "m"@
}

/// The colours are those of the terminal: 2 for dimmed text, 32 for green, 33 for
/// yellow and 36 for cyan; each ends with a reset.
pub proof fn colours_are_these(text: Seq<char>)
    ensures
        crate::paint::in_green(text) == coloured("32"@, text),
        crate::paint::in_yellow(text) == coloured("33"@, text),
        crate::paint::in_cyan(text) == coloured("36"@, text),
        crate::paint::in_dim(text) == coloured("2"@, text),
{
    reveal_strlit("\x1b[");
    reveal_strlit("m");
    reveal_strlit("0");
    reveal_strlit("2");
    reveal_strlit("32");
    reveal_strlit("33");
    reveal_strlit("36");
    reveal_strlit("\x1b[0m");
    reveal_strlit("\x1b[2m");
    reveal_strlit("\x1b[32m");
    reveal_strlit("\x1b[33m");
    reveal_strlit("\x1b[36m");
    assert(crate::paint::in_green(text) =~= coloured("32"@, text));
    assert(crate::paint::in_yellow(text) =~= coloured("33"@, text));
    assert(crate::paint::in_cyan(text) =~= coloured("36"@, text));
    assert(crate::paint::in_dim(text) =~= coloured("2"@, text));
}

/// A status report shows each feature dimmed as off, green in its target state,
/// and yellow otherwise.
pub proof fn status_shows_each_feature(cfg: Config, o: Observed)
    ensures
        ({
            let lines = status_lines(cfg, o);
            let dim = |s: Seq<char>| coloured("2"@, s);
            let green = |s: Seq<char>| coloured("32"@, s);
            let yellow = |s: Seq<char>| coloured("33"@, s);
            let tcp_counts = decimal(o.tcp.ifaces_ok as nat) + "/"@ + decimal(
                o.tcp.ifaces_total as nat,
            );
            let tcp_done = o.tcp.global_ok && (o.tcp.ifaces_total == 0 || o.tcp.ifaces_ok
                == o.tcp.ifaces_total);
            let dns_counts = decimal(o.dns.aligned as nat) + "/"@ + decimal(o.dns.total as nat)
                + " aligned"@;
            &&& lines.len() == 7
            &&& lines[0] == Shown::Out(
                dim("interfaces"@) + "  "@ + decimal(o.physical as nat) + " physical, "@ + decimal(
                    o.active as nat,
                ) + " active"@,
            )
            &&& lines[1] == Shown::Out(
                dim("tcp"@) + "         "@ + if !cfg.tcp {
                    dim("off"@)
                } else if tcp_done {
                    green("tuned "@ + tcp_counts + " ifaces, global ok"@)
                } else if o.tcp.ifaces_total == 0 {
                    yellow("no applicable interfaces"@)
                } else {
                    yellow("pending ("@ + tcp_counts + " ifaces)"@)
                },
            )
            &&& lines[2] == Shown::Out(
                dim("dns"@) + "         "@ + cli::provider_text(o.resolvers.provider) + " ("@
                    + o.resolvers.primary@ + "/"@ + o.resolvers.secondary@ + "): "@ + if !cfg.dns {
                    dim("off"@)
                } else if o.dns.total == 0 || o.dns.aligned == o.dns.total {
                    green(dns_counts)
                } else {
                    yellow(dns_counts)
                },
            )
            &&& lines[3] == Shown::Out(
                dim("throttling"@) + "  "@ + if !cfg.multimedia {
                    dim("off"@)
                } else if o.throttling {
                    green("removed"@)
                } else {
                    yellow("pending"@)
                },
            )
            &&& lines[4] == Shown::Out(
                dim("mtu"@) + "         "@ + match cfg.mtu {
                    None => dim("off"@),
                    Some(target) => if o.mtu {
                        green(decimal(target as nat) + " aligned"@)
                    } else {
                        yellow(decimal(target as nat) + " pending"@)
                    },
                },
            )
            &&& lines[5] == Shown::Out(
                dim("power"@) + "       "@ + if !cfg.power {
                    dim("off"@)
                } else if o.power {
                    green("no power-down"@)
                } else {
                    yellow("pending"@)
                },
            )
            &&& lines[6] == Shown::Out(
                dim("connections"@) + " "@ + decimal(o.connections.total as nat) + " total, "@
                    + decimal(o.connections.established as nat) + " established, "@ + decimal(
                    o.connections.time_wait as nat,
                ) + " time-wait"@,
            )
        }),
{
    assert forall|s: Seq<char>| #[trigger] coloured("2"@, s) == crate::paint::in_dim(s) by {
        colours_are_these(s);
    }
    assert forall|s: Seq<char>| #[trigger] coloured("32"@, s) == crate::paint::in_green(s) by {
        colours_are_these(s);
    }
    assert forall|s: Seq<char>| #[trigger] coloured("33"@, s) == crate::paint::in_yellow(s) by {
        colours_are_these(s);
    }
}

// ---------------------------------------------------------------------------
// What could not be read
// ---------------------------------------------------------------------------

/// Nothing counts as unreadable exactly when the adapters could be listed where
/// an enabled feature needs them, every value of an enabled feature was read that
/// stands under a key of its own or under a readable one, and the driver nodes
/// could be listed and read where the power feature is on.
pub proof fn unread_goes_by_each_reading(
    cfg: Config,
    listed: Result<Vec<Interface>, String>,
    tcp: Seen,
    system: Seen,
    mtu: Seen,
    nodes: Result<Vec<Node>, String>,
)
    ensures
        cli::unread(cfg, listed, tcp, system, mtu, nodes).len() == 0 <==> {
            &&& cfg.tcp || cfg.dns || cfg.mtu is Some ==> listed is Ok
            &&& cfg.tcp ==> forall|i: int|
                0 <= i < tcp.values.len() && (#[trigger] tcp.values[i]).answer is Err
                    ==> tcp.values[i].subkey != machine_key() && !tcp.keys.contains(
                    tcp.values[i].subkey,
                )
            &&& cfg.multimedia ==> forall|i: int|
                0 <= i < system.values.len() && (#[trigger] system.values[i]).answer is Err
                    ==> system.values[i].subkey != throttling_key() && !system.keys.contains(
                    system.values[i].subkey,
                )
            &&& cfg.mtu is Some ==> forall|i: int|
                0 <= i < mtu.values.len() && (#[trigger] mtu.values[i]).answer is Err
                    ==> !mtu.keys.contains(mtu.values[i].subkey)
            &&& cfg.power ==> nodes is Ok && forall|i: int|
                0 <= i < nodes->Ok_0@.len() && ((
                #[trigger] nodes->Ok_0@[i]).guid matches Ok(Some(_))) ==> nodes->Ok_0@[i].value is Ok
        },
{
    let base = Some(crate::tcp::GLOBAL_SUBKEY@);
    let key = Some(crate::system::SUBKEY@);
    failures_tell_of_a_reading(tcp.values, tcp.keys, base);
    failures_tell_of_a_reading(system.values, system.keys, key);
    failures_tell_of_a_reading(mtu.values, mtu.keys, None);
    failures_tell_of_a_nic(nodes);
    failed_readings(tcp.values, tcp.keys, base);
    failed_readings(system.values, system.keys, key);
    failed_readings(mtu.values, mtu.keys, None);
    if let Ok(v) = nodes {
        assert forall|i: int| 0 <= i < v@.len() implies (nic_of(#[trigger] v@[i]) is Some) == (
        v@[i].guid matches Ok(Some(_))) by {}
        if exists|i: int|
            0 <= i < v@.len() && nic_of(#[trigger] v@[i]) is Some && v@[i].value is Err {
            let i = choose|i: int|
                0 <= i < v@.len() && nic_of(#[trigger] v@[i]) is Some && v@[i].value is Err;
            assert(v@[i].guid matches Ok(Some(_)));
        }
        if !(forall|i: int|
            0 <= i < v@.len() && ((#[trigger] v@[i]).guid matches Ok(Some(_)))
                ==> v@[i].value is Ok) {
            let i = choose|i: int|
                0 <= i < v@.len() && ((#[trigger] v@[i]).guid matches Ok(Some(_)))
                    && v@[i].value is Err;
            assert(nic_of(v@[i]) is Some);
        }
    }
}

proof fn failed_readings(values: Seq<Answer>, keys: Seq<Seq<char>>, base: Option<Seq<char>>)
    ensures
        (exists|i: int| 0 <= i < values.len() && failed(#[trigger] values[i], keys, base)) <==> !(
        forall|i: int|
            0 <= i < values.len() && (#[trigger] values[i]).answer is Err ==> base != Some(
                values[i].subkey,
            ) && !keys.contains(values[i].subkey)),
{
    if exists|i: int| 0 <= i < values.len() && failed(#[trigger] values[i], keys, base) {
        let i = choose|i: int| 0 <= i < values.len() && failed(#[trigger] values[i], keys, base);
        assert(values[i].answer is Err);
    }
    if !(forall|i: int|
        0 <= i < values.len() && (#[trigger] values[i]).answer is Err ==> base != Some(
            values[i].subkey,
        ) && !keys.contains(values[i].subkey)) {
        let i = choose|i: int|
            0 <= i < values.len() && (#[trigger] values[i]).answer is Err && !(base != Some(
                values[i].subkey,
            ) && !keys.contains(values[i].subkey));
        assert(failed(values[i], keys, base));
    }
}

/// Help, the version, and what only reads or names profiles need no elevated
/// process; everything that changes the machine does.
pub proof fn elevation_goes_by_the_action(choice: Choice)
    ensures
        choice.command == Command::Help || choice.command == Command::Version || choice.command
            == Command::Status || choice.command == Command::Plan || choice.command
            == Command::Report ==> !cli::elevated(choice),
        choice.command == Command::Apply || choice.command == Command::Revert || choice.command
            == Command::Undo || choice.command == Command::RestorePoint || choice.command
            == Command::Interactive ==> cli::elevated(choice),
        choice.command == Command::Profile ==> (cli::elevated(choice)
            <==> choice.profile matches Some(ProfileOp::Apply { .. })),
{
}

/// An undo tells which archive it put back, or that there was none.
pub proof fn undo_names_the_archive(name: Seq<char>)
    ensures
        cli::undo_text(Some(name)) == "archive restored from "@ + name,
        cli::undo_text(None) == "no archive snapshot to restore; tweaks were reverted."@,
{
}

/// Help is shown exactly when it is asked for somewhere, and the version exactly
/// when it, and no help, is; without either the arguments are taken in order.
pub proof fn help_comes_before_the_version(args: Seq<Seq<char>>)
    ensures
        ({
            let help = exists|i: int|
                0 <= i < args.len() && (#[trigger] args[i] == "-h"@ || args[i] == "--help"@
                    || args[i] == "/?"@);
            let version = exists|i: int|
                0 <= i < args.len() && (#[trigger] args[i] == "-V"@ || args[i] == "--version"@);
            &&& help ==> parsed(args) is Ok && parsed(args)->Ok_0.command == Command::Help
            &&& !help && version ==> parsed(args) is Ok && parsed(args)->Ok_0.command
                == Command::Version
            &&& !help && !version ==> parsed(args) == choice_up_to(args, args.len() as int)
        }),
{
    if exists|i: int|
        0 <= i < args.len() && (#[trigger] args[i] == "-h"@ || args[i] == "--help"@ || args[i]
            == "/?"@) {
        let i = choose|i: int|
            0 <= i < args.len() && (#[trigger] args[i] == "-h"@ || args[i] == "--help"@ || args[i]
                == "/?"@);
        assert(asks_help(args[i]));
    } else if exists|i: int|
        0 <= i < args.len() && (#[trigger] args[i] == "-V"@ || args[i] == "--version"@) {
        let i = choose|i: int|
            0 <= i < args.len() && (#[trigger] args[i] == "-V"@ || args[i] == "--version"@);
        assert(asks_version(args[i]));
    }
}

/// The overrides of a run are repeated in the form in which they are given.
pub proof fn overrides_are_repeated(choice: Choice)
    ensures
        ({
            let texts = cli::override_texts(choice);
            &&& choice.dns is None && choice.mtu is None && choice.power is None ==> texts.len()
                == 0 && cli::suffix_of(choice) == ""@
            &&& choice.dns == Some(true) ==> texts.len() > 0 && texts[0] == "--dns="@ + "on"@
            &&& choice.dns == Some(false) ==> texts.len() > 0 && texts[0] == "--dns="@ + "off"@
            &&& choice.power == Some(true) ==> texts.len() > 0 && texts.last() == "--power="@
                + "on"@
            &&& choice.power == Some(false) ==> texts.len() > 0 && texts.last() == "--power="@
                + "off"@
            &&& choice.mtu matches Some(mtu) ==> {
                let k: int = if choice.dns is Some {
                    1
                } else {
                    0
                };
                k < texts.len() && texts[k] == "--mtu="@ + (match mtu {
                    Some(target) => decimal(target as nat),
                    None => "off"@,
                })
            }
            &&& texts.len() > 0 ==> cli::suffix_of(choice) == " (overrides: "@
                + crate::text::joined(texts, " "@) + ")"@
        }),
{
}

/// A plan says of every feature what it would set, and how.
pub proof fn plan_describes_each_feature(cfg: Config, adapters: usize, r: Resolvers, choice: Choice)
    ensures
        ({
            let lines = plan_lines(cfg, adapters, r, choice);
            let would = Shown::Out(coloured("32"@, "would set"@));
            &&& lines.len() == 16
            &&& lines[0] == would && lines[3] == would && lines[6] == would && lines[9] == would
                && lines[12] == would
            &&& lines[8] == Shown::Out(
                "           "@ + "  (remove the Windows multimedia network throttling)"@,
            )
            &&& lines[11] == Shown::Out(
                "           "@ + ("  (set adapter MTUs to "@ + (match cfg.mtu {
                    Some(target) => decimal(target as nat),
                    None => "unchanged"@,
                }) + ", normalized)"@),
            )
            &&& lines[14] == Shown::Out(
                "           "@ + "  (tell NICs to stay on, PnPCapabilities 0x18)"@,
            )
        }),
{
    colours_are_these("would set"@);
}

/// The first profile operation counts and a later one is passed over, as is an
/// action flag once an action is chosen; a flag that means nothing changes
/// nothing.
pub proof fn first_profile_operation_counts(args: Seq<Seq<char>>, i: int, choice: Choice)
    requires
        0 <= i < args.len(),
    ensures
        ({
            let next = cli::choose_at(args, i, choice);
            let op = profile_op(args.skip(i + 1));
            &&& args[i] == "--profile"@ && choice.profile is Some ==> next == Ok::<
                Choice,
                Seq<char>,
            >(choice)
            &&& args[i] == "--profile"@ && choice.profile is None && op is Ok ==> next == Ok::<
                Choice,
                Seq<char>,
            >(Choice { command: Command::Profile, profile: Some(op->Ok_0), ..choice })
            &&& args[i] == "--profile"@ && choice.profile is None && op is Err ==> next == Err::<
                Choice,
                Seq<char>,
            >(op->Err_0)
            &&& action_of(args[i]) is Some && choice.command != Command::Interactive ==> next
                == Ok::<Choice, Seq<char>>(choice)
            &&& action_of(args[i]) is Some && choice.command == Command::Interactive ==> next
                == Ok::<Choice, Seq<char>>(Choice { command: action_of(args[i])->0, ..choice })
            &&& action_of(args[i]) is None && args[i] != "--profile"@ && !overrides(
                args[i],
                "--dns"@,
            ) && !overrides(args[i], "--mtu"@) && !overrides(args[i], "--power"@) ==> next == Ok::<
                Choice,
                Seq<char>,
            >(choice)
        }),
{
    keys_differ(args[i]);
    reveal_strlit("--profile");
    reveal_strlit("--dns");
    reveal_strlit("--mtu");
    reveal_strlit("--power");
    assert("--profile"@.len() == 9 && "--dns"@.len() == 5 && "--mtu"@.len() == 5);
    assert("--power"@.len() == 7);
    profile_is_no_action();
}

proof fn profile_is_no_action()
    ensures
        action_of("--profile"@) is None,
{
    reveal_strlit("--profile");
    reveal_strlit("--apply");
    reveal_strlit("--revert");
    reveal_strlit("--status");
    reveal_strlit("--plan");
    reveal_strlit("--report");
    reveal_strlit("--undo");
    reveal_strlit("--restore-point");
    assert("--profile"@.len() == 9 && "--apply"@.len() == 7 && "--revert"@.len() == 8);
    assert("--status"@.len() == 8 && "--plan"@.len() == 6 && "--report"@.len() == 8);
    assert("--undo"@.len() == 6 && "--restore-point"@.len() == 15);
}

} // verus!
