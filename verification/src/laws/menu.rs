//! What the interactive menu does with keys, readings and outcomes.

use vstd::prelude::*;

use crate::app;
use crate::app::{all_adopted, glance_at, trouble, troubles, Ask, Deed, Schedule, State};
use crate::config::{enabled_of, Config, DnsProvider, Feature};
use crate::connections::TcpConnections;
use crate::interfaces::{active_of, physical_of, Adapter};
use crate::laws::tweaks::has_bit;
use crate::power::NicNode;
use crate::registry::Seen;
use crate::traffic::{advanced, transfers_of, Row};
use crate::wlan::Link;

verus! {

// ---------------------------------------------------------------------------
// Keys
// ---------------------------------------------------------------------------

/// The keys `t`, `m` and `p` flip their feature and nothing else, and ask for it
/// to be applied exactly when it is on from now on.
pub proof fn feature_keys_flip_their_feature(s: State)
    requires
        !s.confirming_quit,
    ensures
        ({
            let (next, ask) = s.pressed('t');
            &&& next == (State { cfg: Config { tcp: !s.cfg.tcp, ..s.cfg }, ..s })
            &&& next.cfg.tcp ==> ask == Some(Ask::Switch(Deed::ApplyTcp))
            &&& !next.cfg.tcp ==> ask == Some(Ask::Switch(Deed::RevertTcp))
        }),
        ({
            let (next, ask) = s.pressed('m');
            &&& next == (State { cfg: Config { multimedia: !s.cfg.multimedia, ..s.cfg }, ..s })
            &&& next.cfg.multimedia ==> ask == Some(Ask::Switch(Deed::ApplyThrottling))
            &&& !next.cfg.multimedia ==> ask == Some(Ask::Switch(Deed::RevertThrottling))
        }),
        ({
            let (next, ask) = s.pressed('p');
            &&& next == (State { cfg: Config { power: !s.cfg.power, ..s.cfg }, ..s })
            &&& next.cfg.power ==> ask == Some(Ask::Switch(Deed::ApplyPower))
            &&& !next.cfg.power ==> ask == Some(Ask::Switch(Deed::RevertPower))
        }),
{
}

/// The key `d` flips the DNS feature: switched on, the resolvers of the provider
/// are applied; switched off, the ones in use are reverted and forgotten.
pub proof fn dns_key_flips_the_resolvers(s: State)
    requires
        !s.confirming_quit,
    ensures
        ({
            let (next, ask) = s.pressed('d');
            &&& next.cfg == (Config { dns: !s.cfg.dns, ..s.cfg })
            &&& s.cfg.dns ==> ask == Some(Ask::Switch(Deed::RevertDns(s.active_dns)))
                && next.active_dns is None
            &&& !s.cfg.dns ==> ask == Some(
                Ask::Switch(Deed::ApplyDns(crate::dns::resolved(s.cfg.dns_provider, s.latency))),
            ) && next.active_dns == s.active_dns
            &&& next == (State { cfg: next.cfg, active_dns: next.active_dns, ..s })
        }),
{
}

/// The key `u` steps the MTU from off to 1500, to 1400 and back to off, from any
/// other value to 1500, and applies or reverts it at once.
pub proof fn mtu_key_steps_the_target(s: State)
    requires
        !s.confirming_quit,
    ensures
        ({
            let (next, ask) = s.pressed('u');
            let target: Option<u32> = if s.cfg.mtu == Some(1500u32) {
                Some(1400u32)
            } else if s.cfg.mtu == Some(1400u32) {
                None
            } else {
                Some(1500u32)
            };
            &&& next == (State { cfg: Config { mtu: target, ..s.cfg }, ..s })
            &&& target matches Some(mtu) ==> ask == Some(Ask::Switch(Deed::ApplyMtu(mtu)))
            &&& target is None ==> ask == Some(Ask::Switch(Deed::RevertMtu))
        }),
{
    steps_are_these(s.cfg.mtu);
}

proof fn steps_are_these(mtu: Option<u32>)
    ensures
        app::step(mtu, app::presets()) == if mtu == Some(1500u32) {
            Some(1400u32)
        } else if mtu == Some(1400u32) {
            None
        } else {
            Some(1500u32)
        },
{
    let cycle = app::presets();
    assert(cycle[0] == None::<u32> && cycle[1] == Some(1500u32) && cycle[2] == Some(1400u32));
    if cycle.contains(mtu) {
        cycle.index_of_first_ensures(mtu);
        let p = app::place(mtu, cycle);
        assert(cycle[p] == mtu);
        assert(p == 0 || p == 1 || p == 2);
        assert((p + 1) % 3 == if p == 2 {
            0
        } else {
            p + 1
        });
    } else {
        assert(mtu != cycle[0] && mtu != cycle[1] && mtu != cycle[2]);
        assert(app::place(mtu, cycle) == 0);
    }
}

/// The key `r` steps the provider from Cloudflare to Google, to `auto` and back,
/// and applies its resolvers where the DNS feature is on.
pub proof fn provider_key_steps_the_provider(s: State)
    requires
        !s.confirming_quit,
    ensures
        ({
            let (next, ask) = s.pressed('r');
            let provider = next.cfg.dns_provider;
            &&& s.cfg.dns_provider == DnsProvider::Cloudflare ==> provider == DnsProvider::Google
            &&& s.cfg.dns_provider == DnsProvider::Google ==> provider == DnsProvider::Auto
            &&& s.cfg.dns_provider == DnsProvider::Auto ==> provider == DnsProvider::Cloudflare
            &&& next == (State { cfg: Config { dns_provider: provider, ..s.cfg }, ..s })
            &&& s.cfg.dns ==> ask == Some(
                Ask::Switch(Deed::ApplyDns(crate::dns::resolved(provider, s.latency))),
            )
            &&& !s.cfg.dns ==> ask == Some(Ask::Switch(Deed::Nothing))
        }),
{
}

/// The remaining keys: the two panes, self-heal, the requests, and the two ways
/// to quit. Every other key does nothing.
#[verifier::rlimit(40)]
pub proof fn other_keys_are_these(s: State, key: char)
    requires
        !s.confirming_quit,
    ensures
        s.pressed('i') == (State { detail: !s.detail, ..s }, None::<Ask>),
        s.pressed('l') == (State { show_log: !s.show_log, ..s }, None::<Ask>),
        s.pressed('h') == (
            State { cfg: Config { self_heal: !s.cfg.self_heal, ..s.cfg }, ..s },
            Some(Ask::Save),
        ),
        s.pressed('a') == (s, Some(Ask::ToggleAutostart)),
        s.pressed('f') == (s, Some(Ask::FlushDns)),
        s.pressed('s') == (s, Some(Ask::RestorePoint)),
        s.pressed('q') == (
            State { quit_removes: false, confirming_quit: true, ..s },
            None::<Ask>,
        ),
        s.pressed('x') == (State { quit_removes: true, confirming_quit: true, ..s }, None::<Ask>),
        key == 'b' || key == 'c' || key == 'e' || key == 'g' || key == 'j' || key == 'k' || key
            == 'n' || key == 'o' || key == 'v' || key == 'w' || key == 'y' || key == 'z' || key
            < 'A' || ('Z' < key && key < 'a') || key > 'z' ==> s.pressed(key) == (s, None::<Ask>),
{
}

/// While the question is open, `y` quits, `n` and Escape close it, and nothing
/// else counts.
pub proof fn question_takes_three_answers(s: State, key: char)
    requires
        s.confirming_quit,
    ensures
        s.pressed(key).1 is None,
        key == 'y' || key == 'Y' ==> s.pressed(key).0 == (State { quit: true, ..s }),
        key == 'n' || key == 'N' || key == '\x1b' ==> s.pressed(key).0 == (State {
            confirming_quit: false,
            ..s
        }),
        key != 'y' && key != 'Y' && key != 'n' && key != 'N' && key != '\x1b' ==> s.pressed(key).0
            == s,
{
}

/// A capital letter is the same key as its small letter.
pub proof fn capitals_are_the_same_keys(s: State)
    ensures
        s.pressed('T') == s.pressed('t'),
        s.pressed('D') == s.pressed('d'),
        s.pressed('M') == s.pressed('m'),
        s.pressed('U') == s.pressed('u'),
        s.pressed('P') == s.pressed('p'),
        s.pressed('R') == s.pressed('r'),
        s.pressed('X') == s.pressed('x'),
        s.pressed('Q') == s.pressed('q'),
{
}

// ---------------------------------------------------------------------------
// What is applied when
// ---------------------------------------------------------------------------

/// The place of a feature in the order in which the features are applied.
pub open spec fn place(feature: Feature) -> int {
    match feature {
        Feature::Tcp => 0,
        Feature::Dns => 1,
        Feature::Multimedia => 2,
        Feature::Mtu(_) => 3,
        Feature::Power => 4,
    }
}

/// True when the places of the features grow, from `low` to below `high`.
pub open spec fn in_places(list: Seq<Feature>, low: int, high: int) -> bool {
    &&& forall|i: int| 0 <= i < list.len() ==> low <= place(#[trigger] list[i]) < high
    &&& forall|i: int, j: int|
        0 <= i < j < list.len() ==> place(#[trigger] list[i]) < place(#[trigger] list[j])
}

proof fn joined_places(a: Seq<Feature>, b: Seq<Feature>, low: int, middle: int, high: int)
    requires
        low <= middle <= high,
        in_places(a, low, middle),
        in_places(b, middle, high),
    ensures
        in_places(a + b, low, high),
{
    let list = a + b;
    assert forall|i: int| 0 <= i < list.len() implies low <= place(#[trigger] list[i]) < high by {
        if i >= a.len() {
            assert(list[i] == b[i - a.len()]);
        } else {
            assert(list[i] == a[i]);
        }
    }
    assert forall|i: int, j: int| 0 <= i < j < list.len() implies place(#[trigger] list[i])
        < place(#[trigger] list[j]) by {
        if i >= a.len() {
            assert(list[i] == b[i - a.len()] && list[j] == b[j - a.len()]);
        } else if j >= a.len() {
            assert(list[i] == a[i] && list[j] == b[j - a.len()]);
        } else {
            assert(list[i] == a[i] && list[j] == a[j]);
        }
    }
}

proof fn joined_contains(a: Seq<Feature>, b: Seq<Feature>, feature: Feature)
    ensures
        (a + b).contains(feature) <==> a.contains(feature) || b.contains(feature),
{
    let list = a + b;
    if a.contains(feature) {
        let i = choose|i: int| 0 <= i < a.len() && a[i] == feature;
        assert(list[i] == feature);
    }
    if b.contains(feature) {
        let i = choose|i: int| 0 <= i < b.len() && b[i] == feature;
        assert(list[i + a.len()] == feature);
    }
}

proof fn optional_contains(due: bool, one: Feature, feature: Feature)
    ensures
        crate::config::feature_if(due, one).contains(feature) <==> due && one == feature,
        in_places(crate::config::feature_if(due, one), place(one), place(one) + 1),
{
    let list = crate::config::feature_if(due, one);
    if due {
        assert(list[0] == one);
    }
}

proof fn sized_contains(target: Option<u32>, feature: Feature)
    ensures
        ({
            let list = match target {
                Some(n) => seq![Feature::Mtu(n)],
                None => Seq::empty(),
            };
            &&& list.contains(feature) <==> (target matches Some(n) && feature == Feature::Mtu(n))
            &&& in_places(list, 3, 4)
        }),
{
    if let Some(n) = target {
        assert(seq![Feature::Mtu(n)][0] == Feature::Mtu(n));
    }
}

/// A feature is applied exactly when the configuration enables it, once, and in
/// this order: TCP, DNS, multimedia, MTU, power.
#[verifier::spinoff_prover]
pub proof fn enabled_features_go_by_the_config(cfg: Config, feature: Feature)
    ensures
        enabled_of(cfg).contains(feature) <==> (match feature {
            Feature::Tcp => cfg.tcp,
            Feature::Dns => cfg.dns,
            Feature::Multimedia => cfg.multimedia,
            Feature::Mtu(target) => cfg.mtu == Some(target),
            Feature::Power => cfg.power,
        }),
        in_places(enabled_of(cfg), 0, 5),
{
    let a = crate::config::feature_if(cfg.tcp, Feature::Tcp);
    let b = crate::config::feature_if(cfg.dns, Feature::Dns);
    let c = crate::config::feature_if(cfg.multimedia, Feature::Multimedia);
    let d = match cfg.mtu {
        Some(target) => seq![Feature::Mtu(target)],
        None => Seq::empty(),
    };
    let e = crate::config::feature_if(cfg.power, Feature::Power);
    optional_contains(cfg.tcp, Feature::Tcp, feature);
    optional_contains(cfg.dns, Feature::Dns, feature);
    optional_contains(cfg.multimedia, Feature::Multimedia, feature);
    sized_contains(cfg.mtu, feature);
    optional_contains(cfg.power, Feature::Power, feature);
    joined_contains(a, b, feature);
    joined_contains(a + b, c, feature);
    joined_contains(a + b + c, d, feature);
    joined_contains(a + b + c + d, e, feature);
    joined_places(a, b, 0, 1, 2);
    joined_places(a + b, c, 0, 2, 3);
    joined_places(a + b + c, d, 0, 3, 4);
    joined_places(a + b + c + d, e, 0, 4, 5);
}

/// Where a feature is enabled, startup keeps a copy of the archive first and
/// applies every enabled feature after it; otherwise it does nothing.
pub proof fn startup_goes_by_the_config(s: State)
    ensures
        ({
            let works = s.startup();
            let set = crate::dns::resolved(s.cfg.dns_provider, s.latency);
            let on = s.cfg.tcp || s.cfg.dns || s.cfg.multimedia || s.cfg.mtu is Some
                || s.cfg.power;
            &&& !on ==> works.len() == 0
            &&& on ==> works.len() > 0 && works[0] == Deed::Snapshot
            &&& works.contains(Deed::ApplyTcp) <==> s.cfg.tcp
            &&& works.contains(Deed::ApplyDns(set)) <==> s.cfg.dns
            &&& works.contains(Deed::ApplyThrottling) <==> s.cfg.multimedia
            &&& works.contains(Deed::ApplyPower) <==> s.cfg.power
            &&& forall|target: u32| #[trigger]
                works.contains(Deed::ApplyMtu(target)) <==> s.cfg.mtu == Some(target)
        }),
{
    enabled_features_go_by_the_config(s.cfg, Feature::Tcp);
    enabled_features_go_by_the_config(s.cfg, Feature::Dns);
    enabled_features_go_by_the_config(s.cfg, Feature::Multimedia);
    enabled_features_go_by_the_config(s.cfg, Feature::Power);
    startup_has(s, Feature::Tcp);
    startup_has(s, Feature::Dns);
    startup_has(s, Feature::Multimedia);
    startup_has(s, Feature::Power);
    assert forall|target: u32| #[trigger] s.startup().contains(Deed::ApplyMtu(target)) == (
    s.cfg.mtu == Some(target)) by {
        enabled_features_go_by_the_config(s.cfg, Feature::Mtu(target));
        startup_has(s, Feature::Mtu(target));
    }
}

proof fn startup_has(s: State, feature: Feature)
    ensures
        s.startup().contains(app::deed_for(feature, s.resolvers())) <==> enabled_of(
            s.cfg,
        ).contains(feature),
{
    let works = s.startup();
    let list = enabled_of(s.cfg);
    let set = s.resolvers();
    let deed = app::deed_for(feature, set);
    if list.contains(feature) {
        let i = choose|i: int| 0 <= i < list.len() && list[i] == feature;
        assert(works[i + 1] == deed);
    }
    if works.contains(deed) {
        let k = choose|k: int| 0 <= k < works.len() && works[k] == deed;
        assert(k > 0);
        assert(works[k] == app::deed_for(list[k - 1], set));
        assert(list[k - 1] == feature);
    }
}

/// Startup applies the features in their order.
pub proof fn startup_keeps_the_order(s: State, i: int)
    requires
        0 <= i < enabled_of(s.cfg).len(),
    ensures
        s.startup().len() == enabled_of(s.cfg).len() + 1,
        ({
            let set = crate::dns::resolved(s.cfg.dns_provider, s.latency);
            s.startup()[i + 1] == (match enabled_of(s.cfg)[i] {
                Feature::Tcp => Deed::ApplyTcp,
                Feature::Dns => Deed::ApplyDns(set),
                Feature::Multimedia => Deed::ApplyThrottling,
                Feature::Mtu(target) => Deed::ApplyMtu(target),
                Feature::Power => Deed::ApplyPower,
            })
        }),
{
}

/// Self-heal applies an enabled feature again exactly when its readings are not
/// those of the target state.
pub proof fn healing_goes_by_the_fields(s: State)
    ensures
        ({
            let works = s.drifted();
            let set = crate::dns::resolved(s.cfg.dns_provider, s.latency);
            &&& works.contains(Deed::ApplyTcp) <==> s.cfg.tcp && (!s.tcp.global_ok || (
            s.tcp.ifaces_total != 0 && s.tcp.ifaces_ok != s.tcp.ifaces_total))
            &&& works.contains(Deed::ApplyDns(set)) <==> s.cfg.dns && ((s.dns.total != 0
                && s.dns.aligned != s.dns.total) || (s.active_dns matches Some(active)
                && active.provider != set.provider))
            &&& works.contains(Deed::ApplyThrottling) <==> s.cfg.multimedia && !s.throttling
            &&& works.contains(Deed::ApplyPower) <==> s.cfg.power && !s.power_ok
            &&& forall|target: u32| #[trigger]
                works.contains(Deed::ApplyMtu(target)) <==> s.cfg.mtu == Some(target) && !s.mtu_ok
        }),
{
    app::healing_is_exact(s);
}

/// Self-heal, too, begins with the TCP parameters and ends with the power bits.
pub proof fn healing_keeps_the_order(s: State)
    ensures
        s.drifted().contains(Deed::ApplyTcp) ==> s.drifted()[0] == Deed::ApplyTcp,
        s.drifted().contains(Deed::ApplyPower) ==> s.drifted().last() == Deed::ApplyPower,
{
    app::healing_is_exact(s);
}

/// Reverting everything reverts all five groups, the MTU first, the resolvers
/// being those in use.
pub proof fn reverting_everything_is_complete(s: State)
    ensures
        s.undoing().len() == 5,
        s.undoing()[0] == Deed::RevertMtu,
        s.undoing()[1] == Deed::RevertTcp,
        s.undoing()[2] == Deed::RevertDns(s.active_dns),
        s.undoing()[3] == Deed::RevertThrottling,
        s.undoing()[4] == Deed::RevertPower,
{
}

// ---------------------------------------------------------------------------
// Outcomes
// ---------------------------------------------------------------------------

/// A failure is told under the name of its group.
pub proof fn failures_name_their_group(deed: Deed, error: Seq<char>)
    ensures
        trouble(deed, error) == (match deed {
            Deed::Snapshot => "archive"@,
            Deed::ApplyTcp => "tcp"@,
            Deed::RevertTcp => "tcp"@,
            Deed::ApplyDns(_) => "dns"@,
            Deed::RevertDns(_) => "dns"@,
            Deed::ApplyThrottling => "throttling"@,
            Deed::RevertThrottling => "throttling"@,
            Deed::ApplyMtu(_) => "mtu"@,
            Deed::RevertMtu => "mtu"@,
            Deed::ApplyPower => "power"@,
            Deed::RevertPower => "power"@,
            Deed::Nothing => "dns"@,
        }) + ": "@ + error,
{
}

/// After a round of works the last error is gone exactly when all succeeded, and
/// a single failure is told as it is.
pub proof fn rounds_tell_their_failures(
    s: State,
    works: Seq<Deed>,
    results: Seq<Result<(), Seq<char>>>,
)
    requires
        works.len() == results.len(),
    ensures
        s.settled(works, results).last_error is None <==> forall|i: int|
            0 <= i < results.len() ==> #[trigger] results[i] is Ok,
        works.len() == 1 && results[0] is Err ==> s.settled(works, results).last_error == Some(
            trouble(works[0], results[0]->Err_0),
        ),
{
    troubles_tell_of_a_failure(works, results);
    if works.len() == 1 && results[0] is Err {
        assert(works.drop_last() =~= Seq::<Deed>::empty());
        assert(troubles(works.drop_last(), results.drop_last()).len() == 0);
        assert(troubles(works, results) =~= seq![trouble(works[0], results[0]->Err_0)]);
    }
}

proof fn troubles_tell_of_a_failure(works: Seq<Deed>, results: Seq<Result<(), Seq<char>>>)
    requires
        works.len() == results.len(),
    ensures
        troubles(works, results).len() == 0 <==> forall|i: int|
            0 <= i < results.len() ==> #[trigger] results[i] is Ok,
    decreases works.len(),
{
    if works.len() > 0 {
        let front = results.drop_last();
        troubles_tell_of_a_failure(works.drop_last(), front);
        assert(results[results.len() - 1] == results.last());
        assert forall|i: int| 0 <= i < front.len() implies front[i] == #[trigger] results[i] by {}
        if forall|i: int| 0 <= i < front.len() ==> #[trigger] front[i] is Ok {
            assert forall|i: int| 0 <= i < front.len() implies #[trigger] results[i] is Ok by {
                assert(front[i] is Ok);
            }
        }
    }
}

/// The resolvers in use are those that were applied last with success; no other
/// work changes them.
pub proof fn applied_resolvers_are_in_use(
    s: State,
    deed: Deed,
    result: Result<(), Seq<char>>,
    saved: Result<(), Seq<char>>,
    tuned: Option<crate::tcp::TcpStatus>,
)
    ensures
        ({
            let kept = s.active_dns;
            let used = match deed {
                Deed::ApplyDns(set) => if result is Ok {
                    Some(set)
                } else {
                    kept
                },
                _ => kept,
            };
            &&& s.switched(deed, result, saved).active_dns == used
            &&& s.started(deed, result, tuned).active_dns == used
            &&& s.settled(seq![deed], seq![result]).active_dns == used
        }),
        saved matches Err(e) ==> s.switched(deed, result, saved).last_error == Some(
            "save config: "@ + e,
        ),
        saved is Ok && result is Ok ==> s.switched(deed, result, saved).last_error is None,
        saved is Ok && result is Err ==> s.switched(deed, result, saved).last_error == Some(
            trouble(deed, result->Err_0),
        ),
        result is Ok ==> s.started(deed, result, tuned).last_error == s.last_error,
        result matches Err(e) ==> s.started(deed, result, tuned).last_error == Some(
            trouble(deed, e),
        ),
        result is Ok && tuned is Some ==> s.started(deed, result, tuned).tcp == tuned->0,
        result is Err || tuned is None ==> s.started(deed, result, tuned).tcp == s.tcp,
{
    let works = seq![deed];
    let results = seq![result];
    assert(works.drop_last() =~= Seq::<Deed>::empty());
    assert(all_adopted(s.active_dns, works.drop_last(), results.drop_last()) == s.active_dns);
}

// ---------------------------------------------------------------------------
// The state of the machine
// ---------------------------------------------------------------------------

/// The overall word is `PENDING` exactly when, without an error, an enabled
/// feature is not in its target state by its own readings.
pub proof fn pending_goes_by_each_feature(s: State, seen: Seen, all: Seq<Adapter>)
    requires
        s.last_error is None,
    ensures
        s.overall(seen, all).0 == "PENDING"@ <==> {
            ||| s.cfg.tcp && !(s.tcp.global_ok && (s.tcp.ifaces_total == 0 || s.tcp.ifaces_ok
                == s.tcp.ifaces_total))
            ||| s.cfg.dns && !(s.dns.total == 0 || s.dns.aligned == s.dns.total)
            ||| s.cfg.multimedia && !s.throttling
            ||| s.cfg.power && !s.power_ok
            ||| s.cfg.mtu is Some && !crate::mtu::target_met(seen, physical_of(all), s.cfg.mtu)
        },
        s.overall(seen, all).0 == "READY"@ <==> !(s.cfg.tcp || s.cfg.dns || s.cfg.multimedia
            || s.cfg.mtu is Some || s.cfg.power),
{
    app::words_tell_the_state(s, seen, all);
}

/// The overall word has the colour of its meaning: red for an error, green where
/// everything enabled is in place, yellow otherwise.
pub proof fn words_have_their_colours(s: State, seen: Seen, all: Seq<Adapter>)
    ensures
        ({
            let (word, colour) = s.overall(seen, all);
            &&& s.last_error is Some ==> word == "ERROR"@ && colour == "\x1b[31m"@
            &&& word == "PENDING"@ || word == "READY"@ ==> colour == "\x1b[33m"@
            &&& word == "PROTECTED"@ || word == "ACTIVE"@ ==> colour == "\x1b[32m"@
        }),
{
    app::words_tell_the_state(s, seen, all);
}

/// A look at the machine takes over every reading, and nothing else changes.
pub proof fn looking_takes_over_the_readings(
    s: State,
    seen: Seen,
    all: Seq<Adapter>,
    nics: Seq<NicNode>,
    connections: TcpConnections,
    sample: (u64, Seq<Row>),
    wlan: Seq<Link>,
)
    requires
        all.len() <= usize::MAX,
    ensures
        ({
            let next = s.refreshed(seen, all, nics, connections, sample, wlan);
            &&& next.throttling <==> seen.value(
                "SOFTWARE\\Microsoft\\Windows NT\\CurrentVersion\\Multimedia\\SystemProfile"@,
                "NetworkThrottlingIndex"@,
            ) == Ok::<Option<u32>, Seq<char>>(Some(0xFFFF_FFFFu32))
            &&& next.power_ok <==> forall|i: int|
                0 <= i < nics.len() ==> ((#[trigger] nics[i]).value matches Some(v) && has_bit(
                    v,
                    0x10,
                ))
            &&& next.physical == physical_of(all)
            &&& next.active_ifaces == active_of(all).len()
            &&& next.tcp == crate::tcp::status_of(seen, physical_of(all))
            &&& next.dns == crate::dns::status_of(
                active_of(all),
                crate::dns::resolved(s.cfg.dns_provider, s.latency),
            )
            &&& next.mtu_ok == crate::mtu::target_met(seen, physical_of(all), s.cfg.mtu)
            &&& next.connections == connections
            &&& next.wlan == wlan
            &&& next.traffic_prev == Some(sample)
            &&& next.cfg == s.cfg
            &&& next.last_error == s.last_error
            &&& next.active_dns == s.active_dns
            &&& next.latency == s.latency
        }),
{
    crate::laws::tweaks::power_status_is_exact(nics);
    active_is_shorter(all);
}

proof fn active_is_shorter(all: Seq<Adapter>)
    ensures
        active_of(all).len() <= all.len(),
    decreases all.len(),
{
    reveal(Seq::filter);
    if all.len() > 0 {
        active_is_shorter(all.drop_last());
    }
}

/// Transfers are measured over a second at least: a window that is shorter, or
/// has no beginning, gives none.
pub proof fn glances_last_a_second(prev: Option<(u64, Seq<Row>)>, now: (u64, Seq<Row>))
    ensures
        prev is None ==> glance_at(prev, now) is None,
        prev matches Some((at, rows)) ==> {
            &&& now.0 < at + 1_000_000_000 ==> glance_at(prev, now) is None
            &&& now.0 >= at + 1_000_000_000 ==> glance_at(prev, now) == Some(
                ((now.0 - at) as u64, transfers_of(rows, now.1)),
            )
        },
{
}

// ---------------------------------------------------------------------------
// The event loop
// ---------------------------------------------------------------------------

/// A tick is due every quarter of a second; with it, a round of self-heal every
/// five seconds and a redraw every second. What is due counts from now on.
pub proof fn schedule_keeps_its_times(schedule: Schedule, now: u64)
    ensures
        schedule.due_at(now).tick <==> now >= schedule.last_tick + 250,
        schedule.due_at(now).heal <==> now >= schedule.last_tick + 250 && now
            >= schedule.last_heal + 5_000,
        schedule.due_at(now).render <==> now >= schedule.last_tick + 250 && now
            >= schedule.last_render + 1_000,
        schedule.after(now).last_tick == if schedule.due_at(now).tick {
            now
        } else {
            schedule.last_tick
        },
        schedule.after(now).last_heal == if schedule.due_at(now).heal {
            now
        } else {
            schedule.last_heal
        },
        schedule.after(now).last_render == if schedule.due_at(now).render {
            now
        } else {
            schedule.last_render
        },
{
}

/// A notice is up for three seconds.
pub proof fn notices_last_three_seconds(at: u64, now: u64)
    ensures
        advanced(at, now) >= app::FLASH_MS <==> now >= at + 3_000,
{
}

/// A notice is taken down three seconds after it came up, and not before.
pub proof fn notices_go_after_three_seconds(text: Seq<char>, at: u64, now: u64)
    ensures
        now < at + 3_000 ==> app::still_up(Some((text, at)), now) == Some((text, at)),
        now >= at + 3_000 ==> app::still_up(Some((text, at)), now) is None,
        app::still_up(None, now) is None,
{
}

/// The menu starts without a reading, an error or a notice, with the question
/// closed and no resolvers in use.
pub proof fn menu_starts_empty(cfg: Config, archive: crate::config::Saved)
    ensures
        ({
            let s = app::fresh(cfg, archive);
            &&& s.cfg == cfg
            &&& s.archive == archive
            &&& s.last_error is None
            &&& s.flash is None
            &&& !s.confirming_quit
            &&& !s.quit
            &&& !s.quit_removes
            &&& s.active_dns is None
            &&& !s.detail
            &&& !s.show_log
            &&& s.latency is None
            &&& s.traffic_prev is None
            &&& s.physical.len() == 0
            &&& s.transfers.len() == 0
            &&& s.wlan.len() == 0
        }),
{
}

/// A config that could not be saved is told, and a success keeps the error that
/// is shown.
pub proof fn unsaved_configs_are_told(s: State, error: Seq<char>)
    ensures
        s.saved(Ok(())) == s,
        s.saved(Err(error)) == (State { last_error: Some("save config: "@ + error), ..s }),
{
}

/// An autostart entry that could not be changed is told, and a success takes the
/// error down.
pub proof fn autostart_failures_are_told(s: State, error: Seq<char>)
    ensures
        s.started_with_windows(Ok(())) == (State { last_error: None, ..s }),
        s.started_with_windows(Err(error)) == (State {
            last_error: Some("autostart: "@ + error),
            ..s
        }),
{
}

/// A restore point puts up a notice, and a failure is told; neither touches the
/// other.
pub proof fn restore_points_are_told(s: State, error: Seq<char>, now: u64)
    ensures
        s.secured(Ok(()), now) == (State { flash: Some(("restore point created"@, now)), ..s }),
        s.secured(Err(error), now) == (State {
            last_error: Some("restore point: "@ + error),
            ..s
        }),
{
}

} // verus!
