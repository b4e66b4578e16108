//! What the DNS feature picks, reports and does.

use vstd::prelude::*;

use crate::config::{Backup, DnsProvider, Saved};
use crate::dns;
use crate::dns::{
    applying, resolved, restore_job, restore_jobs, status_of, switch_job, switching, ResolverSet,
    Stage, Switching, Task,
};
use crate::interfaces::{active_of, physical_of, Adapter};
use crate::laws::links::nameable;
use crate::ops::{Act, Rep};
use crate::probe::Measured;
use crate::text::decimal;

verus! {

// ---------------------------------------------------------------------------
// Which set is used
// ---------------------------------------------------------------------------

/// The two sets, by their addresses.
pub proof fn sets_have_these_addresses(latency: Option<Measured>)
    ensures
        ({
            let set = resolved(DnsProvider::Cloudflare, latency);
            &&& set.provider == DnsProvider::Cloudflare
            &&& set.primary == "1.1.1.1"@
            &&& set.secondary == "1.0.0.1"@
            &&& set.primary_v6 == "2606:4700:4700::1111"@
            &&& set.secondary_v6 == "2606:4700:4700::1001"@
            &&& set.doh_template == "https://cloudflare-dns.com/dns-query"@
        }),
        ({
            let set = resolved(DnsProvider::Google, latency);
            &&& set.provider == DnsProvider::Google
            &&& set.primary == "8.8.8.8"@
            &&& set.secondary == "8.8.4.4"@
            &&& set.primary_v6 == "2001:4860:4860::8888"@
            &&& set.secondary_v6 == "2001:4860:4860::8844"@
            &&& set.doh_template == "https://dns.google/dns-query"@
        }),
        ({
            let set = resolved(DnsProvider::Auto, latency);
            ||| set == resolved(DnsProvider::Cloudflare, latency)
            ||| set == resolved(DnsProvider::Google, latency)
        }),
{
}

/// Where both DNS resolution times were measured, `auto` is Google exactly when
/// its time is the shorter one, whatever the round-trip times are.
pub proof fn auto_goes_by_the_resolution_times(m: Measured, c: u32, g: u32)
    requires
        m.cf_dns_ms == Some(c),
        m.google_dns_ms == Some(g),
    ensures
        resolved(DnsProvider::Auto, Some(m)).provider == DnsProvider::Google <==> g < c,
        resolved(DnsProvider::Auto, Some(m)).provider == DnsProvider::Cloudflare <==> c <= g,
{
}

/// An endpoint whose resolution time is missing is judged by the round-trip time
/// of its last answered probe; one with neither never wins over one with a time.
pub proof fn auto_falls_back_on_the_round_trips(m: Measured, latency: Option<Measured>)
    requires
        latency == Some(m),
    ensures
        ({
            let auto = resolved(DnsProvider::Auto, latency).provider;
            &&& m.cf_dns_ms is None && m.google_dns_ms is None ==> {
                &&& m.cloudflare.last is Some && m.google.last is Some ==> (auto
                    == DnsProvider::Google <==> m.google.last->0.rtt_ms
                    < m.cloudflare.last->0.rtt_ms)
                &&& m.cloudflare.last is None && m.google.last is Some ==> auto
                    == DnsProvider::Google
                &&& m.google.last is None ==> auto == DnsProvider::Cloudflare
            }
            &&& m.cf_dns_ms is Some && m.google_dns_ms is None ==> {
                &&& m.google.last is Some ==> (auto == DnsProvider::Google
                    <==> m.google.last->0.rtt_ms < m.cf_dns_ms->0)
                &&& m.google.last is None ==> auto == DnsProvider::Cloudflare
            }
            &&& m.cf_dns_ms is None && m.google_dns_ms is Some ==> {
                &&& m.cloudflare.last is Some ==> (auto == DnsProvider::Google
                    <==> m.google_dns_ms->0 < m.cloudflare.last->0.rtt_ms)
                &&& m.cloudflare.last is None ==> auto == DnsProvider::Google
            }
            &&& auto == DnsProvider::Google || auto == DnsProvider::Cloudflare
        }),
        resolved(DnsProvider::Auto, None).provider == DnsProvider::Cloudflare,
{
}

/// A faster Cloudflare answer never turns `auto` to Google, and a slower one
/// never turns it away.
pub proof fn auto_is_monotonic(m: Measured, better: Measured, c: u32, b: u32)
    requires
        m.cf_dns_ms == Some(c),
        better.cf_dns_ms == Some(b),
        b <= c,
        m.google_dns_ms == better.google_dns_ms,
        m.google == better.google,
        resolved(DnsProvider::Auto, Some(m)).provider == DnsProvider::Cloudflare,
    ensures
        resolved(DnsProvider::Auto, Some(better)).provider == DnsProvider::Cloudflare,
{
}

// ---------------------------------------------------------------------------
// Which adapters count
// ---------------------------------------------------------------------------

/// Both resolvers are among the IPv4 servers of the adapter.
pub open spec fn has_both(a: Adapter, primary: Seq<char>, secondary: Seq<char>) -> bool {
    &&& exists|i: int| 0 <= i < a.dns.len() && #[trigger] a.dns[i] == primary
    &&& exists|i: int| 0 <= i < a.dns.len() && #[trigger] a.dns[i] == secondary
}

/// Every active adapter is real and up, in the order of the adapters, and every
/// adapter that is both is active.
pub proof fn active_adapters_are_up(all: Seq<Adapter>, a: Adapter)
    ensures
        active_of(Seq::empty()).len() == 0,
        physical_of(Seq::empty()).len() == 0,
        active_of(all.push(a)) == if a.up && a.if_type != 24 && a.if_type != 131 {
            active_of(all).push(a)
        } else {
            active_of(all)
        },
        physical_of(all.push(a)) == if a.if_type != 24 && a.if_type != 131 {
            physical_of(all).push(a)
        } else {
            physical_of(all)
        },
{
    reveal(Seq::filter);
    assert(all.push(a).drop_last() =~= all);
}

/// A status counts every adapter, and as aligned exactly one that has both
/// resolvers among two or more servers.
pub proof fn dns_status_counts_each_adapter(ifaces: Seq<Adapter>, a: Adapter, set: ResolverSet)
    requires
        ifaces.len() < usize::MAX,
    ensures
        status_of(ifaces.push(a), set).total == status_of(ifaces, set).total + 1,
        status_of(ifaces.push(a), set).aligned == status_of(ifaces, set).aligned + if a.dns.len()
            >= 2 && has_both(a, set.primary, set.secondary) {
            1int
        } else {
            0int
        },
        status_of(Seq::empty(), set).total == 0,
        status_of(Seq::empty(), set).aligned == 0,
{
    reveal(Seq::filter);
    assert(ifaces.push(a).drop_last() =~= ifaces);
    counts_are_bounded(ifaces, set);
    both_is_contained(a, set);
}

proof fn both_is_contained(a: Adapter, set: ResolverSet)
    ensures
        dns::uses(a, set) <==> a.dns.len() >= 2 && has_both(a, set.primary, set.secondary),
{
    if has_both(a, set.primary, set.secondary) {
        assert(a.dns.contains(set.primary) && a.dns.contains(set.secondary));
    }
    if dns::uses(a, set) {
        let i = choose|i: int| 0 <= i < a.dns.len() && a.dns[i] == set.primary;
        let j = choose|j: int| 0 <= j < a.dns.len() && a.dns[j] == set.secondary;
        assert(a.dns[i] == set.primary && a.dns[j] == set.secondary);
    }
}

proof fn counts_are_bounded(ifaces: Seq<Adapter>, set: ResolverSet)
    ensures
        ifaces.filter(|a: Adapter| dns::uses(a, set)).len() <= ifaces.len(),
    decreases ifaces.len(),
{
    reveal(Seq::filter);
    if ifaces.len() > 0 {
        counts_are_bounded(ifaces.drop_last(), set);
    }
}

/// The DNS state is aligned exactly when every active adapter has both
/// resolvers: one that lacks either is never passed over.
pub proof fn dns_alignment_is_exact(ifaces: Seq<Adapter>, set: ResolverSet)
    requires
        ifaces.len() <= usize::MAX,
    ensures
        status_of(ifaces, set).is_aligned() <==> forall|i: int|
            0 <= i < ifaces.len() ==> (#[trigger] ifaces[i]).dns.len() >= 2 && has_both(
                ifaces[i],
                set.primary,
                set.secondary,
            ),
        status_of(ifaces, set).aligned <= status_of(ifaces, set).total == ifaces.len(),
    decreases ifaces.len(),
{
    if ifaces.len() == 0 {
        assert(ifaces =~= Seq::<Adapter>::empty());
        dns_status_counts_each_adapter(ifaces, arbitrary::<Adapter>(), set);
    } else {
        let front = ifaces.drop_last();
        dns_alignment_is_exact(front, set);
        dns_status_counts_each_adapter(front, ifaces.last(), set);
        assert(front.push(ifaces.last()) =~= ifaces);
        assert(ifaces[ifaces.len() - 1] == ifaces.last());
        assert forall|i: int| 0 <= i < front.len() implies front[i] == #[trigger] ifaces[i] by {}
    }
}

// ---------------------------------------------------------------------------
// What a switch does
// ---------------------------------------------------------------------------

/// The argument that names an adapter to `netsh interface`.
pub open spec fn name_tag(name: Seq<char>) -> Seq<char> {
    "name"@ + "=\""@ + name + "\""@
}

/// The argument that names an adapter to `netsh dns`.
pub open spec fn interface_tag(name: Seq<char>) -> Seq<char> {
    "interface"@ + "=\""@ + name + "\""@
}

/// A switch gives an adapter the primary resolver first, and after that the
/// secondary one and both IPv6 resolvers; both IPv4 resolvers are mapped to the
/// template of the set. An adapter without a name to go by gets no command.
pub proof fn switch_commands_are_these(a: Adapter, set: ResolverSet)
    ensures
        ({
            let job = switch_job(a, set);
            let name = name_tag(a.friendly);
            let iface = interface_tag(a.friendly);
            &&& job.label == a.friendly
            &&& job.primary == set.primary
            &&& job.secondary == set.secondary
            &&& nameable(a.friendly) <==> job.plan is Ok
            &&& nameable(a.friendly) ==> (job.plan matches Ok(plan) && {
                &&& plan.required == seq![
                    seq!["interface"@, "ip"@, "set"@, "dns"@, name, "static"@, set.primary],
                ]
                &&& plan.optional == seq![
                    seq![
                        "interface"@,
                        "ip"@,
                        "add"@,
                        "dns"@,
                        name,
                        set.secondary,
                        "index="@ + decimal(2),
                    ],
                    seq!["interface"@, "ipv6"@, "set"@, "dns"@, name, "static"@, set.primary_v6],
                    seq![
                        "interface"@,
                        "ipv6"@,
                        "add"@,
                        "dns"@,
                        name,
                        set.secondary_v6,
                        "index="@ + decimal(2),
                    ],
                ]
            })
            &&& nameable(a.friendly) ==> job.encryption == seq![
                seq![
                    "dns"@,
                    "add"@,
                    "encryption"@,
                    "server="@ + set.primary,
                    "dohtemplate="@ + set.doh_template,
                    iface,
                ],
                seq![
                    "dns"@,
                    "add"@,
                    "encryption"@,
                    "server="@ + set.secondary,
                    "dohtemplate="@ + set.doh_template,
                    iface,
                ],
            ]
            &&& !nameable(a.friendly) ==> job.encryption.len() == 0
        }),
{
    let job = switch_job(a, set);
    let name = name_tag(a.friendly);
    if nameable(a.friendly) {
        let plan = job.plan->Ok_0;
        assert(plan.required =~= seq![
            seq!["interface"@, "ip"@, "set"@, "dns"@, name, "static"@, set.primary],
        ]);
        assert(plan.optional =~= seq![
            seq![
                "interface"@,
                "ip"@,
                "add"@,
                "dns"@,
                name,
                set.secondary,
                "index="@ + decimal(2),
            ],
            seq!["interface"@, "ipv6"@, "set"@, "dns"@, name, "static"@, set.primary_v6],
            seq![
                "interface"@,
                "ipv6"@,
                "add"@,
                "dns"@,
                name,
                set.secondary_v6,
                "index="@ + decimal(2),
            ],
        ]);
    }
}

/// The adapters that a switch is about: in order, and exactly those that lack a
/// resolver.
proof fn unset_lack_a_resolver(ifaces: Seq<Adapter>, set: ResolverSet)
    ensures
        forall|i: int|
            0 <= i < ifaces.len() && !((#[trigger] ifaces[i]).dns.len() >= 2 && has_both(
                ifaces[i],
                set.primary,
                set.secondary,
            )) ==> dns::unset(ifaces, set).contains(ifaces[i]),
        forall|j: int|
            0 <= j < dns::unset(ifaces, set).len() ==> ifaces.contains(
                #[trigger] dns::unset(ifaces, set)[j],
            ) && !(dns::unset(ifaces, set)[j].dns.len() >= 2 && has_both(
                dns::unset(ifaces, set)[j],
                set.primary,
                set.secondary,
            )),
    decreases ifaces.len(),
{
    reveal(Seq::filter);
    if ifaces.len() > 0 {
        let front = ifaces.drop_last();
        unset_lack_a_resolver(front, set);
        let before = dns::unset(front, set);
        let after = dns::unset(ifaces, set);
        both_is_contained(ifaces.last(), set);
        assert forall|i: int|
            0 <= i < ifaces.len() && !((#[trigger] ifaces[i]).dns.len() >= 2 && has_both(
                ifaces[i],
                set.primary,
                set.secondary,
            )) implies after.contains(ifaces[i]) by {
            if i < front.len() {
                assert(front[i] == ifaces[i]);
                assert(before.contains(ifaces[i]));
                let j = choose|j: int| 0 <= j < before.len() && before[j] == ifaces[i];
                assert(after[j] == ifaces[i]);
            } else {
                assert(after[after.len() - 1] == ifaces[i]);
            }
        }
        assert forall|j: int| 0 <= j < after.len() implies ifaces.contains(#[trigger] after[j])
            && !(after[j].dns.len() >= 2 && has_both(after[j], set.primary, set.secondary)) by {
            if j < before.len() {
                assert(after[j] == before[j]);
                assert(front.contains(before[j]));
                let i = choose|i: int| 0 <= i < front.len() && front[i] == before[j];
                assert(ifaces[i] == after[j]);
            } else {
                assert(ifaces[ifaces.len() - 1] == after[j]);
            }
        }
    }
}

/// Entering a job changes neither the jobs nor, unless the run restores, the
/// archive.
proof fn entering_keeps(run: Switching, k: int)
    requires
        0 <= k,
    ensures
        run.enter(k).jobs == run.jobs,
        run.enter(k).restoring == run.restoring,
        !run.restoring ==> run.enter(k).archive == run.archive,
        run.enter(k).doh == run.doh,
    decreases run.jobs.len() - k,
{
    if k < run.jobs.len() {
        if let Err(e) = run.jobs[k].plan {
            entering_keeps(Switching { outcomes: run.outcomes.push(Err(e)), ..run }, k + 1);
        }
    }
}

/// An adapter that lacks the primary or the secondary resolver always gets a
/// job, and no adapter that has both gets one.
pub proof fn lacking_adapters_are_switched(
    archive: Saved,
    set: ResolverSet,
    ifaces: Seq<Adapter>,
    doh: Option<bool>,
)
    ensures
        ({
            let jobs = applying(archive, set, ifaces, doh).jobs;
            &&& forall|i: int|
                0 <= i < ifaces.len() && !has_both(
                    #[trigger] ifaces[i],
                    set.primary,
                    set.secondary,
                ) ==> jobs.contains(switch_job(ifaces[i], set))
            &&& forall|j: int|
                0 <= j < jobs.len() ==> exists|i: int|
                    0 <= i < ifaces.len() && #[trigger] jobs[j] == switch_job(
                        #[trigger] ifaces[i],
                        set,
                    ) && !(ifaces[i].dns.len() >= 2 && has_both(
                        ifaces[i],
                        set.primary,
                        set.secondary,
                    ))
            &&& jobs.len() <= ifaces.len()
        }),
        applying(archive, set, ifaces, doh).archive.values == archive.values,
{
    unset_lack_a_resolver(ifaces, set);
    let targets = dns::unset(ifaces, set);
    let start = dns::switch_jobs(targets, set);
    let run = applying(archive, set, ifaces, doh);
    let dns_states = dns::all_ensured(archive.dns, targets);
    entering_keeps(
        Switching {
            archive: Saved { values: archive.values, dns: dns_states },
            jobs: start,
            restoring: false,
            known: archive.dns.len(),
            doh,
            job: 0,
            stage: Stage::Record,
            refused: false,
            outcomes: Seq::empty(),
            result: None,
        },
        0,
    );
    assert(run.jobs == start);
    unset_is_shorter(ifaces, set);
    assert forall|i: int|
        0 <= i < ifaces.len() && !has_both(
            #[trigger] ifaces[i],
            set.primary,
            set.secondary,
        ) implies run.jobs.contains(switch_job(ifaces[i], set)) by {
        assert(targets.contains(ifaces[i]));
        let j = choose|j: int| 0 <= j < targets.len() && targets[j] == ifaces[i];
        assert(run.jobs[j] == switch_job(ifaces[i], set));
    }
    assert forall|j: int| 0 <= j < run.jobs.len() implies exists|i: int|
        0 <= i < ifaces.len() && #[trigger] run.jobs[j] == switch_job(#[trigger] ifaces[i], set)
            && !(ifaces[i].dns.len() >= 2 && has_both(ifaces[i], set.primary, set.secondary)) by {
        assert(ifaces.contains(targets[j]));
        let i = choose|i: int| 0 <= i < ifaces.len() && ifaces[i] == targets[j];
        assert(run.jobs[j] == switch_job(ifaces[i], set));
    }
}

proof fn unset_is_shorter(ifaces: Seq<Adapter>, set: ResolverSet)
    ensures
        dns::unset(ifaces, set).len() <= ifaces.len(),
    decreases ifaces.len(),
{
    reveal(Seq::filter);
    if ifaces.len() > 0 {
        unset_is_shorter(ifaces.drop_last(), set);
    }
}

/// Recording adapters with names of their own adds each as it is.
proof fn recorded_as_they_are(states: Seq<Backup>, targets: Seq<Adapter>, j: int)
    requires
        0 <= j < targets.len(),
        forall|p: int|
            0 <= p < states.len() ==> (#[trigger] states[p]).interface != targets[j].friendly,
        forall|p: int|
            0 <= p < targets.len() && (#[trigger] targets[p]).friendly == targets[j].friendly
                ==> targets[p] == targets[j],
    ensures
        dns::all_ensured(states, targets).contains(
            Backup {
                interface: targets[j].friendly,
                dhcp: targets[j].dhcp,
                servers: targets[j].dns,
                servers6: targets[j].dns6,
            },
        ),
    decreases targets.len(),
{
    let front = targets.drop_last();
    let before = dns::all_ensured(states, front);
    let after = dns::all_ensured(states, targets);
    let a = targets[j];
    let backup = Backup {
        interface: a.friendly,
        dhcp: a.dhcp,
        servers: a.dns,
        servers6: a.dns6,
    };
    let met = exists|p: int| 0 <= p < front.len() && (#[trigger] front[p]).friendly == a.friendly;
    if met {
        let p = choose|p: int|
            0 <= p < front.len() && (#[trigger] front[p]).friendly == a.friendly;
        assert(front[p] == targets[p]);
        assert forall|q: int|
            0 <= q < front.len() && (#[trigger] front[q]).friendly
                == front[p].friendly implies front[q] == front[p] by {
            assert(front[q] == targets[q]);
        }
        recorded_as_they_are(states, front, p);
        let k = choose|k: int| 0 <= k < before.len() && before[k] == backup;
        assert(after[k] == backup);
    } else {
        if j < front.len() {
            assert(front[j].friendly == a.friendly);
        }
        names_come_from(states, front, a.friendly);
        assert(!crate::config::dns_recorded(before, a.friendly));
        assert(after[after.len() - 1] == backup);
    }
}

/// A name that was neither recorded nor is among the adapters is not recorded.
proof fn names_come_from(states: Seq<Backup>, targets: Seq<Adapter>, name: Seq<char>)
    requires
        forall|p: int| 0 <= p < states.len() ==> (#[trigger] states[p]).interface != name,
        forall|p: int| 0 <= p < targets.len() ==> (#[trigger] targets[p]).friendly != name,
    ensures
        forall|p: int|
            0 <= p < dns::all_ensured(states, targets).len() ==> (#[trigger] dns::all_ensured(
                states,
                targets,
            )[p]).interface != name,
    decreases targets.len(),
{
    if targets.len() > 0 {
        let front = targets.drop_last();
        assert forall|p: int| 0 <= p < front.len() implies (#[trigger] front[p]).friendly
            != name by {
            assert(front[p] == targets[p]);
        }
        names_come_from(states, front, name);
        assert(targets[targets.len() - 1].friendly != name);
        let before = dns::all_ensured(states, front);
        let after = dns::all_ensured(states, targets);
        assert forall|p: int| 0 <= p < after.len() implies (#[trigger] after[p]).interface
            != name by {
            if p < before.len() {
                assert(after[p] == before[p]);
            }
        }
    }
}

/// An adapter that is about to be switched and was not archived before is
/// archived as it is: where its servers come from, and both lists in order.
pub proof fn switched_adapters_are_archived(
    archive: Saved,
    set: ResolverSet,
    ifaces: Seq<Adapter>,
    doh: Option<bool>,
    i: int,
)
    requires
        0 <= i < ifaces.len(),
        !has_both(ifaces[i], set.primary, set.secondary),
        forall|p: int|
            0 <= p < archive.dns.len() ==> (#[trigger] archive.dns[p]).interface
                != ifaces[i].friendly,
        forall|p: int|
            0 <= p < ifaces.len() && (#[trigger] ifaces[p]).friendly == ifaces[i].friendly
                ==> ifaces[p] == ifaces[i],
    ensures
        applying(archive, set, ifaces, doh).archive.dns.contains(
            Backup {
                interface: ifaces[i].friendly,
                dhcp: ifaces[i].dhcp,
                servers: ifaces[i].dns,
                servers6: ifaces[i].dns6,
            },
        ),
        applying(archive, set, ifaces, doh).pending() == Some(Act::SaveArchive),
{
    let targets = dns::unset(ifaces, set);
    unset_lack_a_resolver(ifaces, set);
    assert(targets.contains(ifaces[i]));
    let j = choose|j: int| 0 <= j < targets.len() && targets[j] == ifaces[i];
    assert forall|p: int|
        0 <= p < targets.len() && (#[trigger] targets[p]).friendly
            == targets[j].friendly implies targets[p] == targets[j] by {
        assert(ifaces.contains(targets[p]));
        let q = choose|q: int| 0 <= q < ifaces.len() && ifaces[q] == targets[p];
        assert(ifaces[q].friendly == ifaces[i].friendly);
    }
    recorded_as_they_are(archive.dns, targets, j);
    let after = dns::all_ensured(archive.dns, targets);
    dns::switch_archives_first(archive.dns, targets);
    if after.len() == archive.dns.len() {
        assert(after =~= archive.dns);
        let k = choose|k: int|
            0 <= k < after.len() && after[k] == (Backup {
                interface: ifaces[i].friendly,
                dhcp: ifaces[i].dhcp,
                servers: ifaces[i].dns,
                servers6: ifaces[i].dns6,
            });
        assert(archive.dns[k].interface == ifaces[i].friendly);
    }
}

// ---------------------------------------------------------------------------
// What a restore does
// ---------------------------------------------------------------------------

/// The commands that bring one address family of an adapter back: one that asks
/// for DHCP, or the servers in order, each at its place.
pub open spec fn server_commands(
    context: Seq<char>,
    name: Seq<char>,
    dhcp: bool,
    servers: Seq<Seq<char>>,
) -> Seq<Seq<Seq<char>>> {
    if dhcp || servers.len() == 0 {
        seq![seq!["interface"@, context, "set"@, "dns"@, name, "dhcp"@]]
    } else {
        Seq::new(
            servers.len(),
            |i: int|
                if i == 0 {
                    seq!["interface"@, context, "set"@, "dns"@, name, "static"@, servers[0]]
                } else {
                    seq![
                        "interface"@,
                        context,
                        "add"@,
                        "dns"@,
                        name,
                        servers[i],
                        "index="@ + decimal((i + 1) as nat),
                    ]
                },
        )
    }
}

/// A restore gives a present adapter its archived IPv4 servers, or DHCP, and its
/// archived IPv6 servers, or DHCP; the mappings of a set that was in use are
/// removed. An adapter that is gone or has no name to go by gets no command.
pub proof fn restore_commands_are_these(
    backup: Backup,
    ifaces: Seq<Adapter>,
    set: Option<ResolverSet>,
)
    ensures
        ({
            let job = restore_job(backup, ifaces, set);
            let name = name_tag(backup.interface);
            let iface = interface_tag(backup.interface);
            let present = exists|i: int|
                0 <= i < ifaces.len() && (#[trigger] ifaces[i]).friendly == backup.interface;
            &&& job.label == backup.interface
            &&& present && nameable(backup.interface) <==> job.plan is Ok
            &&& present && nameable(backup.interface) ==> (job.plan matches Ok(plan) && {
                &&& plan.required == server_commands("ip"@, name, backup.dhcp, backup.servers)
                &&& plan.optional == server_commands("ipv6"@, name, false, backup.servers6)
            })
            &&& !present ==> job.plan == Err::<dns::Commands, Seq<char>>(
                "adapter no longer present"@,
            )
            &&& nameable(backup.interface) && set is Some ==> job.encryption == seq![
                seq!["dns"@, "delete"@, "encryption"@, "server="@ + set->0.primary, iface],
                seq!["dns"@, "delete"@, "encryption"@, "server="@ + set->0.secondary, iface],
            ]
            &&& !(nameable(backup.interface) && set is Some) ==> job.encryption.len() == 0
        }),
{
    let job = restore_job(backup, ifaces, set);
    let name = name_tag(backup.interface);
    let present = exists|i: int|
        0 <= i < ifaces.len() && (#[trigger] ifaces[i]).friendly == backup.interface;
    if present && nameable(backup.interface) {
        let plan = job.plan->Ok_0;
        let first = server_commands("ip"@, name, backup.dhcp, backup.servers);
        let second = server_commands("ipv6"@, name, false, backup.servers6);
        assert(plan.required.len() == first.len());
        assert forall|i: int| 0 <= i < first.len() implies plan.required[i] == first[i] by {
            assert(plan.required[i] =~= first[i]);
        }
        assert(plan.required =~= first);
        assert forall|i: int| 0 <= i < second.len() implies plan.optional[i] == second[i] by {
            assert(plan.optional[i] =~= second[i]);
        }
        assert(plan.optional =~= second);
    }
}

// ---------------------------------------------------------------------------
// What a run has done
// ---------------------------------------------------------------------------

/// A run that started in the state `first`, as far as it has come.
pub open spec fn switched_by(first: Switching, runs: Seq<Switching>, replies: Seq<Rep>) -> bool {
    &&& runs.len() == replies.len() + 1
    &&& runs[0] == first
    &&& forall|k: int|
        0 <= k < replies.len() ==> {
            &&& runs[k].pending() matches Some(action) && match action {
                Act::Netsh { .. } => #[trigger] replies[k] is Output,
                _ => replies[k] is Done,
            }
            &&& runs[k + 1] == runs[k].advance(replies[k])
        }
}

/// Required command `c` of job `j` was run before answer `n`, and succeeded.
pub open spec fn was_run(
    runs: Seq<Switching>,
    replies: Seq<Rep>,
    n: int,
    command: Seq<Seq<char>>,
) -> bool {
    exists|k: int|
        0 <= k < n && #[trigger] runs[k].pending() == Some(Act::Netsh { args: command })
            && replies[k] matches Rep::Output(Ok(_))
}

spec fn job_was_run(runs: Seq<Switching>, replies: Seq<Rep>, n: int, job: Task, count: int) -> bool {
    forall|c: int|
        0 <= c < count ==> was_run(runs, replies, n, #[trigger] (job.plan->Ok_0).required[c])
}

proof fn entering_fails_the_skipped(run: Switching, k: int)
    requires
        0 <= k <= run.jobs.len(),
        run.jobs.len() <= usize::MAX,
        run.outcomes.len() == k,
        run.result is None,
    ensures
        ({
            let next = run.enter(k);
            &&& next.stage !is Finished ==> next.result is None
            &&& next.jobs == run.jobs
            &&& next.restoring == run.restoring
            &&& next.outcomes.len() >= k
            &&& forall|j: int| 0 <= j < k ==> next.outcomes[j] == #[trigger] run.outcomes[j]
            &&& forall|j: int| k <= j < next.outcomes.len() ==> #[trigger] next.outcomes[j] is Err
            &&& match next.stage {
                Stage::Required(i) => i == 0 && next.job == next.outcomes.len() && next.job
                    < next.jobs.len(),
                Stage::Save => next.outcomes.len() == next.jobs.len(),
                Stage::Finished => next.outcomes.len() == next.jobs.len() && next.result == Some(
                    next.verdict(),
                ),
                _ => false,
            }
        }),
    decreases run.jobs.len() - k,
{
    if k < run.jobs.len() {
        if let Err(e) = run.jobs[k].plan {
            let failed = Switching { outcomes: run.outcomes.push(Err(e)), ..run };
            entering_fails_the_skipped(failed, k + 1);
            let next = failed.enter(k + 1);
            assert(next.outcomes[k] == failed.outcomes[k]);
            assert forall|j: int| 0 <= j < k implies next.outcomes[j]
                == #[trigger] run.outcomes[j] by {
                assert(next.outcomes[j] == failed.outcomes[j]);
            }
        }
    }
}

proof fn later_is_run(
    runs: Seq<Switching>,
    replies: Seq<Rep>,
    n: int,
    job: Task,
    count: int,
)
    requires
        job_was_run(runs, replies, n, job, count),
    ensures
        job_was_run(runs, replies, n + 1, job, count),
{
    assert forall|c: int| 0 <= c < count implies was_run(
        runs,
        replies,
        n + 1,
        #[trigger] (job.plan->Ok_0).required[c],
    ) by {
        let command = (job.plan->Ok_0).required[c];
        assert(was_run(runs, replies, n, command));
        let k = choose|k: int|
            0 <= k < n && #[trigger] runs[k].pending() == Some(Act::Netsh { args: command })
                && replies[k] matches Rep::Output(Ok(_));
        assert(runs[k].pending() == Some(Act::Netsh { args: command }));
    }
}

/// How many required commands of the present job have succeeded.
spec fn required_done(run: Switching) -> int {
    match run.stage {
        Stage::Required(i) => i as int,
        Stage::Optional(_) | Stage::Probe | Stage::Encrypt(_) => (
        run.jobs[run.job as int].plan->Ok_0).required.len() as int,
        _ => 0,
    }
}

spec fn sound_history(first: Switching, runs: Seq<Switching>, replies: Seq<Rep>, n: int) -> bool {
    let run = runs[n];
    &&& run.jobs == first.jobs
    &&& run.restoring == first.restoring
    &&& run.jobs.len() <= usize::MAX
    &&& dns::jobs_fit(run.jobs)
    &&& run.outcomes.len() <= run.jobs.len()
    &&& forall|j: int|
        0 <= j < run.outcomes.len() && #[trigger] run.outcomes[j] is Ok ==> job_was_run(
            runs,
            replies,
            n,
            run.jobs[j],
            (run.jobs[j].plan->Ok_0).required.len() as int,
        )
    &&& run.running() ==> run.job < run.jobs.len() && run.outcomes.len() == run.job && job_was_run(
        runs,
        replies,
        n,
        run.jobs[run.job as int],
        required_done(run),
    )
    &&& run.stage matches Stage::Required(i) ==> i < (
    run.jobs[run.job as int].plan->Ok_0).required.len()
    &&& run.stage !is Finished ==> run.result is None
    &&& run.running() ==> run.jobs[run.job as int].plan is Ok
    &&& run.stage is Record ==> run.outcomes.len() == 0
    &&& run.stage is Save ==> run.outcomes.len() == run.jobs.len()
    &&& run.result matches Some(Ok(_)) ==> run.outcomes.len() == run.jobs.len() && run.result
        == Some(run.verdict())
}

proof fn entered_is_sound(
    first: Switching,
    before: Switching,
    runs: Seq<Switching>,
    replies: Seq<Rep>,
    n: int,
    k: int,
)
    requires
        0 <= n < runs.len(),
        0 <= k <= before.jobs.len() <= usize::MAX,
        before.jobs == first.jobs,
        before.restoring == first.restoring,
        before.outcomes.len() == k,
        before.result is None,
        dns::jobs_fit(before.jobs),
        runs[n] == before.enter(k),
        forall|j: int|
            0 <= j < k && #[trigger] before.outcomes[j] is Ok ==> job_was_run(
                runs,
                replies,
                n,
                before.jobs[j],
                (before.jobs[j].plan->Ok_0).required.len() as int,
            ),
    ensures
        sound_history(first, runs, replies, n),
{
    entering_fails_the_skipped(before, k);
    entered_has_a_plan(before, k);
    let run = runs[n];
    assert forall|j: int| 0 <= j < run.outcomes.len() && #[trigger] run.outcomes[j] is Ok implies
        job_was_run(
        runs,
        replies,
        n,
        run.jobs[j],
        (run.jobs[j].plan->Ok_0).required.len() as int,
    ) by {
        assert(j < k);
        assert(before.outcomes[j] is Ok);
    }
    if run.stage is Required {
        assert(dns::task_fits(run.jobs[run.job as int]));
    }
}

proof fn entered_has_a_plan(run: Switching, k: int)
    requires
        0 <= k,
    ensures
        k < run.jobs.len() <= usize::MAX && run.enter(k).stage is Required ==> run.enter(
            k,
        ).jobs[run.enter(k).job as int].plan is Ok,
    decreases run.jobs.len() - k,
{
    if k < run.jobs.len() {
        if let Err(e) = run.jobs[k].plan {
            let failed = Switching { outcomes: run.outcomes.push(Err(e)), ..run };
            entered_has_a_plan(failed, k + 1);
            if !(k + 1 < run.jobs.len()) {
                assert(failed.enter(k + 1) == failed.close());
            }
        }
    }
}

/// The state at answer `n` when the present job ended.
proof fn ended_is_sound(
    first: Switching,
    before: Switching,
    runs: Seq<Switching>,
    replies: Seq<Rep>,
    n: int,
    outcome: Result<(), Seq<char>>,
)
    requires
        0 < n < runs.len(),
        before.jobs == first.jobs,
        before.restoring == first.restoring,
        before.result is None,
        dns::jobs_fit(before.jobs),
        before.job < before.jobs.len() <= usize::MAX,
        before.outcomes.len() == before.job,
        runs[n] == before.end_job(outcome),
        forall|j: int|
            0 <= j < before.job && #[trigger] before.outcomes[j] is Ok ==> job_was_run(
                runs,
                replies,
                n,
                before.jobs[j],
                (before.jobs[j].plan->Ok_0).required.len() as int,
            ),
        outcome is Ok ==> job_was_run(
            runs,
            replies,
            n,
            before.jobs[before.job as int],
            (before.jobs[before.job as int].plan->Ok_0).required.len() as int,
        ),
    ensures
        sound_history(first, runs, replies, n),
{
    let noted = Switching { outcomes: before.outcomes.push(outcome), ..before };
    assert forall|j: int| 0 <= j < before.job + 1 && #[trigger] noted.outcomes[j] is Ok implies
        job_was_run(
        runs,
        replies,
        n,
        noted.jobs[j],
        (noted.jobs[j].plan->Ok_0).required.len() as int,
    ) by {
        if j < before.job {
            assert(before.outcomes[j] is Ok);
        }
    }
    entered_is_sound(first, noted, runs, replies, n, before.job + 1);
}

#[verifier::rlimit(60)]
proof fn switching_history(first: Switching, runs: Seq<Switching>, replies: Seq<Rep>, n: int)
    requires
        switched_by(first, runs, replies),
        sound_history(first, runs, replies, 0),
        0 <= n < runs.len(),
    ensures
        sound_history(first, runs, replies, n),
    decreases n,
{
    if n > 0 {
        switching_history(first, runs, replies, n - 1);
        let reply = replies[n - 1];
        let run = runs[n - 1];
        assert(runs[(n - 1) + 1] == run.advance(reply));
        assert forall|j: int| 0 <= j < run.outcomes.len() && #[trigger] run.outcomes[j] is Ok implies
            job_was_run(
            runs,
            replies,
            n,
            run.jobs[j],
            (run.jobs[j].plan->Ok_0).required.len() as int,
        ) by {
            later_is_run(
                runs,
                replies,
                n - 1,
                run.jobs[j],
                (run.jobs[j].plan->Ok_0).required.len() as int,
            );
        }
        let job = run.jobs[run.job as int];
        let all = (job.plan->Ok_0).required.len() as int;
        if run.running() {
            later_is_run(runs, replies, n - 1, job, required_done(run));
        }
        match (run.stage, reply) {
            (Stage::Record, Rep::Done(Ok(_))) => {
                entered_is_sound(first, run, runs, replies, n, 0);
            },
            (Stage::Required(i), Rep::Output(Err(e))) => {
                ended_is_sound(first, run, runs, replies, n, Err(e));
            },
            (Stage::Required(i), Rep::Output(Ok(_))) => {
                assert(was_run(runs, replies, n, (job.plan->Ok_0).required[i as int])) by {
                    assert(runs[n - 1].pending() == Some(
                        Act::Netsh { args: (job.plan->Ok_0).required[i as int] },
                    ));
                }
                assert(job_was_run(runs, replies, n, job, i + 1));
                past_required(first, run, runs, replies, n, 0);
            },
            (Stage::Optional(i), Rep::Output(_)) => {
                past_required(first, run, runs, replies, n, i + 1);
            },
            (Stage::Probe, Rep::Output(answer)) => {
                let known = Switching { doh: Some(dns::doh_available(answer)), ..run };
                past_optional(first, known, runs, replies, n);
            },
            (Stage::Encrypt(i), Rep::Output(answer)) => {
                let tried = Switching { refused: run.refused || answer is Err, ..run };
                past_encrypt(first, tried, runs, replies, n, i + 1);
            },
            _ => {},
        }
    }
}

/// What is known of a run whose present job has had its required commands.
spec fn served(first: Switching, run: Switching, runs: Seq<Switching>, replies: Seq<Rep>, n: int) -> bool {
    &&& run.jobs == first.jobs
    &&& run.restoring == first.restoring
    &&& run.result is None
    &&& dns::jobs_fit(run.jobs)
    &&& run.job < run.jobs.len() <= usize::MAX
    &&& run.jobs[run.job as int].plan is Ok
    &&& run.outcomes.len() == run.job
    &&& forall|j: int|
        0 <= j < run.job && #[trigger] run.outcomes[j] is Ok ==> job_was_run(
            runs,
            replies,
            n,
            run.jobs[j],
            (run.jobs[j].plan->Ok_0).required.len() as int,
        )
    &&& job_was_run(
        runs,
        replies,
        n,
        run.jobs[run.job as int],
        (run.jobs[run.job as int].plan->Ok_0).required.len() as int,
    )
}

proof fn past_encrypt(
    first: Switching,
    run: Switching,
    runs: Seq<Switching>,
    replies: Seq<Rep>,
    n: int,
    i: int,
)
    requires
        0 < n < runs.len(),
        0 <= i,
        served(first, run, runs, replies, n),
        runs[n] == run.at_encrypt(i),
    ensures
        sound_history(first, runs, replies, n),
{
    assert(dns::task_fits(run.jobs[run.job as int]));
    if i >= run.jobs[run.job as int].encryption.len() {
        ended_is_sound(first, run, runs, replies, n, Ok(()));
    }
}

proof fn past_optional(
    first: Switching,
    run: Switching,
    runs: Seq<Switching>,
    replies: Seq<Rep>,
    n: int,
)
    requires
        0 < n < runs.len(),
        served(first, run, runs, replies, n),
        runs[n] == run.at_encryption(),
    ensures
        sound_history(first, runs, replies, n),
{
    if run.jobs[run.job as int].encryption.len() == 0 || run.doh == Some(false) {
        ended_is_sound(first, run, runs, replies, n, Ok(()));
    } else if run.doh == Some(true) {
        past_encrypt(first, run, runs, replies, n, 0);
    }
}

proof fn past_required(
    first: Switching,
    run: Switching,
    runs: Seq<Switching>,
    replies: Seq<Rep>,
    n: int,
    i: int,
)
    requires
        0 < n < runs.len(),
        0 <= i,
        ({
            let count = (run.jobs[run.job as int].plan->Ok_0).required.len();
            match run.stage {
                Stage::Required(c) => i == 0 && c + 1 <= count && sound_step(
                    first,
                    run,
                    runs,
                    replies,
                    n,
                    c + 1,
                ) && runs[n] == if c + 1 < count {
                    Switching { stage: Stage::Required((c + 1) as usize), ..run }
                } else {
                    run.at_optional(0)
                },
                _ => sound_step(first, run, runs, replies, n, count as int) && runs[n]
                    == run.at_optional(i),
            }
        }),
    ensures
        sound_history(first, runs, replies, n),
{
    let count = (run.jobs[run.job as int].plan->Ok_0).required.len();
    assert(dns::task_fits(run.jobs[run.job as int]));
    if runs[n] == run.at_optional(i) && (run.stage matches Stage::Required(c) ==> c + 1 == count) {
        if i >= run.commands().optional.len() {
            past_optional(first, run, runs, replies, n);
        }
    }
}

spec fn sound_step(
    first: Switching,
    run: Switching,
    runs: Seq<Switching>,
    replies: Seq<Rep>,
    n: int,
    count: int,
) -> bool {
    &&& run.jobs == first.jobs
    &&& run.restoring == first.restoring
    &&& run.result is None
    &&& dns::jobs_fit(run.jobs)
    &&& run.job < run.jobs.len() <= usize::MAX
    &&& run.jobs[run.job as int].plan is Ok
    &&& run.outcomes.len() == run.job
    &&& forall|j: int|
        0 <= j < run.job && #[trigger] run.outcomes[j] is Ok ==> job_was_run(
            runs,
            replies,
            n,
            run.jobs[j],
            (run.jobs[j].plan->Ok_0).required.len() as int,
        )
    &&& job_was_run(runs, replies, n, run.jobs[run.job as int], count)
}

/// A run without failures has no failed job.
proof fn no_error_means_all_fine(jobs: Seq<Task>, outcomes: Seq<Result<(), Seq<char>>>)
    requires
        dns::job_errors(jobs, outcomes).len() == 0,
    ensures
        forall|j: int| 0 <= j < outcomes.len() ==> #[trigger] outcomes[j] is Ok,
    decreases outcomes.len(),
{
    if outcomes.len() > 0 {
        let front = outcomes.drop_last();
        no_error_means_all_fine(jobs, front);
        assert forall|j: int| 0 <= j < outcomes.len() implies #[trigger] outcomes[j] is Ok by {
            if j < front.len() {
                assert(front[j] == outcomes[j]);
            } else {
                assert(outcomes[j] == outcomes.last());
            }
        }
    }
}

proof fn successful_run_did_every_job(first: Switching, runs: Seq<Switching>, replies: Seq<Rep>, j: int)
    requires
        switched_by(first, runs, replies),
        sound_history(first, runs, replies, 0),
        runs.last().result matches Some(Ok(_)),
        0 <= j < first.jobs.len(),
    ensures
        job_was_run(
            runs,
            replies,
            replies.len() as int,
            first.jobs[j],
            (first.jobs[j].plan->Ok_0).required.len() as int,
        ),
{
    let n = runs.len() - 1;
    switching_history(first, runs, replies, n);
    no_error_means_all_fine(runs[n].jobs, runs[n].outcomes);
    assert(runs[n].outcomes[j] is Ok);
}

/// A run starts out with nothing claimed that was not done.
proof fn starts_sound(first: Switching, runs: Seq<Switching>, replies: Seq<Rep>, start: Switching)
    requires
        switched_by(first, runs, replies),
        start.jobs.len() <= usize::MAX,
        dns::jobs_fit(start.jobs),
        start.outcomes.len() == 0,
        start.result is None,
        start.stage is Record,
        first == start || first == start.enter(0),
    ensures
        sound_history(first, runs, replies, 0),
        first.jobs == start.jobs,
{
    entering_keeps(start, 0);
    if first == start.enter(0) {
        entered_is_sound(first, Switching { jobs: first.jobs, ..start }, runs, replies, 0, 0);
    }
}

/// A switch that reports success has replaced the IPv4 servers of every adapter
/// that lacked a resolver by the primary one.
pub proof fn successful_switch_reached_every_adapter(
    archive: Saved,
    set: ResolverSet,
    ifaces: Seq<Adapter>,
    doh: Option<bool>,
    runs: Seq<Switching>,
    replies: Seq<Rep>,
    i: int,
)
    requires
        ifaces.len() <= usize::MAX,
        switched_by(applying(archive, set, ifaces, doh), runs, replies),
        runs.last().result matches Some(Ok(_)),
        0 <= i < ifaces.len(),
        !has_both(ifaces[i], set.primary, set.secondary),
    ensures
        nameable(ifaces[i].friendly),
        was_run(
            runs,
            replies,
            replies.len() as int,
            seq![
                "interface"@,
                "ip"@,
                "set"@,
                "dns"@,
                name_tag(ifaces[i].friendly),
                "static"@,
                set.primary,
            ],
        ),
{
    let first = applying(archive, set, ifaces, doh);
    let targets = dns::unset(ifaces, set);
    let start = Switching {
        archive: Saved {
            values: archive.values,
            dns: dns::all_ensured(archive.dns, targets),
        },
        jobs: dns::switch_jobs(targets, set),
        restoring: false,
        known: archive.dns.len(),
        doh,
        job: 0,
        stage: Stage::Record,
        refused: false,
        outcomes: Seq::empty(),
        result: None,
    };
    unset_is_shorter(ifaces, set);
    assert forall|k: int| 0 <= k < start.jobs.len() implies dns::task_fits(
        #[trigger] start.jobs[k],
    ) by {
        switch_commands_are_these(targets[k], set);
    }
    starts_sound(first, runs, replies, start);
    lacking_adapters_are_switched(archive, set, ifaces, doh);
    switch_commands_are_these(ifaces[i], set);
    let task = switch_job(ifaces[i], set);
    assert(first.jobs.contains(task));
    let j = choose|j: int| 0 <= j < first.jobs.len() && first.jobs[j] == task;
    entering_fails_the_skipped(start, 0);
    successful_run_did_every_job(first, runs, replies, j);
    successful_run_had_plans(first, runs, replies, j);
    assert(was_run(runs, replies, replies.len() as int, (task.plan->Ok_0).required[0]));
}

/// A job that succeeded had a plan.
proof fn successful_run_had_plans(first: Switching, runs: Seq<Switching>, replies: Seq<Rep>, j: int)
    requires
        switched_by(first, runs, replies),
        sound_history(first, runs, replies, 0),
        planned_history(first, runs, 0),
        runs.last().result matches Some(Ok(_)),
        0 <= j < first.jobs.len(),
    ensures
        first.jobs[j].plan is Ok,
{
    let n = runs.len() - 1;
    switching_history(first, runs, replies, n);
    planning_history(first, runs, replies, n);
    no_error_means_all_fine(runs[n].jobs, runs[n].outcomes);
    assert(runs[n].outcomes[j] is Ok);
}

spec fn planned_history(first: Switching, runs: Seq<Switching>, n: int) -> bool {
    forall|j: int|
        0 <= j < runs[n].outcomes.len() && #[trigger] runs[n].outcomes[j] is Ok
            ==> first.jobs[j].plan is Ok
}

proof fn planning_history(first: Switching, runs: Seq<Switching>, replies: Seq<Rep>, n: int)
    requires
        switched_by(first, runs, replies),
        sound_history(first, runs, replies, 0),
        planned_history(first, runs, 0),
        0 <= n < runs.len(),
    ensures
        planned_history(first, runs, n),
    decreases n,
{
    if n > 0 {
        planning_history(first, runs, replies, n - 1);
        switching_history(first, runs, replies, n - 1);
        let reply = replies[n - 1];
        let run = runs[n - 1];
        assert(runs[(n - 1) + 1] == run.advance(reply));
        assert(run.running() ==> run.jobs[run.job as int].plan is Ok);
        if run.stage is Record {
            entering_fails_the_skipped(run, 0);
        }
        if run.running() {
            ending_keeps_plans(first, run, Ok(()));
            if let Rep::Output(Err(e)) = reply {
                ending_keeps_plans(first, run, Err(e));
            }
            if let Rep::Output(answer) = reply {
                ending_keeps_plans(
                    first,
                    Switching { doh: Some(dns::doh_available(answer)), ..run },
                    Ok(()),
                );
                ending_keeps_plans(
                    first,
                    Switching { refused: run.refused || answer is Err, ..run },
                    Ok(()),
                );
            }
        }
    }
}

proof fn ending_keeps_plans(first: Switching, run: Switching, outcome: Result<(), Seq<char>>)
    requires
        run.jobs == first.jobs,
        run.job < run.jobs.len() <= usize::MAX,
        run.outcomes.len() == run.job,
        run.result is None,
        run.jobs[run.job as int].plan is Ok,
        forall|j: int|
            0 <= j < run.outcomes.len() && #[trigger] run.outcomes[j] is Ok
                ==> first.jobs[j].plan is Ok,
    ensures
        forall|j: int|
            0 <= j < run.end_job(outcome).outcomes.len() && #[trigger] run.end_job(
                outcome,
            ).outcomes[j] is Ok ==> first.jobs[j].plan is Ok,
{
    let noted = Switching { outcomes: run.outcomes.push(outcome), ..run };
    entering_fails_the_skipped(noted, run.job + 1);
    let next = run.end_job(outcome);
    assert forall|j: int|
        0 <= j < next.outcomes.len() && #[trigger] next.outcomes[j] is Ok implies first.jobs[j].plan is Ok by {
        assert(j < run.job + 1);
        assert(next.outcomes[j] == noted.outcomes[j]);
        if j < run.job {
            assert(run.outcomes[j] is Ok);
        }
    }
}

/// A restore that reports success has run every command that brings the IPv4
/// servers of the archived adapters back.
pub proof fn successful_restore_reached_every_adapter(
    archive: Saved,
    ifaces: Seq<Adapter>,
    set: Option<ResolverSet>,
    doh: Option<bool>,
    runs: Seq<Switching>,
    replies: Seq<Rep>,
    i: int,
    c: int,
)
    requires
        archive.dns.len() <= usize::MAX,
        forall|k: int|
            0 <= k < archive.dns.len() ==> (#[trigger] archive.dns[k]).servers.len() <= usize::MAX
                && archive.dns[k].servers6.len() <= usize::MAX,
        switched_by(
            switching(
                archive,
                restore_jobs(archive.dns, ifaces, set),
                true,
                archive.dns.len(),
                doh,
            ),
            runs,
            replies,
        ),
        runs.last().result matches Some(Ok(_)),
        0 <= i < archive.dns.len(),
        0 <= c < server_commands(
            "ip"@,
            name_tag(archive.dns[i].interface),
            archive.dns[i].dhcp,
            archive.dns[i].servers,
        ).len(),
    ensures
        exists|p: int|
            0 <= p < ifaces.len() && (#[trigger] ifaces[p]).friendly == archive.dns[i].interface,
        was_run(
            runs,
            replies,
            replies.len() as int,
            server_commands(
                "ip"@,
                name_tag(archive.dns[i].interface),
                archive.dns[i].dhcp,
                archive.dns[i].servers,
            )[c],
        ),
{
    let jobs = restore_jobs(archive.dns, ifaces, set);
    let first = switching(archive, jobs, true, archive.dns.len(), doh);
    let start = Switching {
        archive,
        jobs,
        restoring: true,
        known: archive.dns.len(),
        doh,
        job: 0,
        stage: Stage::Record,
        refused: false,
        outcomes: Seq::empty(),
        result: None,
    };
    assert forall|k: int| 0 <= k < jobs.len() implies dns::task_fits(#[trigger] jobs[k]) by {
        restore_commands_are_these(archive.dns[k], ifaces, set);
    }
    starts_sound(first, runs, replies, start);
    restore_commands_are_these(archive.dns[i], ifaces, set);
    entering_fails_the_skipped(start, 0);
    successful_run_did_every_job(first, runs, replies, i);
    successful_run_had_plans(first, runs, replies, i);
    assert(was_run(runs, replies, replies.len() as int, (jobs[i].plan->Ok_0).required[c]));
}

/// DNS-over-HTTPS is taken to be supported exactly when the answer to the
/// question about the commands tells of `encryption`.
pub proof fn encryption_is_tried_where_supported(run: Switching, answer: Result<Seq<char>, Seq<char>>)
    ensures
        run.stage is Probe ==> run.pending() == Some(
            Act::Netsh { args: seq!["dns"@, "add"@, "?"@] },
        ),
        dns::doh_available(answer) <==> (answer matches Ok(text) && exists|i: int|
            0 <= i <= text.len() - 10 && #[trigger] text.subrange(i, i + 10) == "encryption"@),
{
    reveal_strlit("encryption");
    assert("encryption"@.len() == 10);
    if let Ok(text) = answer {
        if dns::doh_available(answer) {
            let i = choose|i: int|
                0 <= i <= text.len() - "encryption"@.len() && #[trigger] text.subrange(
                    i,
                    i + "encryption"@.len(),
                ) == "encryption"@;
            assert(text.subrange(i, i + 10) == "encryption"@);
        }
        if exists|i: int|
            0 <= i <= text.len() - 10 && #[trigger] text.subrange(i, i + 10) == "encryption"@ {
            let i = choose|i: int|
                0 <= i <= text.len() - 10 && #[trigger] text.subrange(i, i + 10)
                    == "encryption"@;
            assert(text.subrange(i, i + "encryption"@.len()) == "encryption"@);
        }
    }
}

/// After a restore an archived configuration stays exactly when its adapter
/// could not be restored.
pub proof fn unrestored_servers_stay(
    saved: Seq<Backup>,
    backup: Backup,
    outcomes: Seq<Result<(), Seq<char>>>,
)
    requires
        outcomes.len() > saved.len(),
    ensures
        dns::kept_backups(Seq::empty(), outcomes).len() == 0,
        outcomes[saved.len() as int] is Err ==> dns::kept_backups(saved.push(backup), outcomes)
            == dns::kept_backups(saved, outcomes).push(backup),
        outcomes[saved.len() as int] is Ok ==> dns::kept_backups(saved.push(backup), outcomes)
            == dns::kept_backups(saved, outcomes),
{
    assert(saved.push(backup).drop_last() =~= saved);
}

} // verus!
