//! DNS optimization.
//!
//! Switches every active physical adapter to a low-latency anycast resolver
//! set: Cloudflare, Google, or whichever of the two is faster right now. The
//! change goes through `netsh`. The previous servers are archived per adapter,
//! so that a revert restores them exactly; where none were recorded, the
//! adapter goes back to DHCP. Where the system supports it, the resolvers are
//! also upgraded to DNS-over-HTTPS, as far as that succeeds.

use vstd::prelude::*;

use crate::config::{
    backup_views, dns_ensured, dns_recorded, Archive, Backup, DnsBackup, DnsProvider, Saved,
};
use crate::interfaces::{active, active_of, adapters, physical, physical_of, Adapter, Interface};
use crate::mtu::{conclude, verdict};
use crate::netsh;
use crate::netsh::quoted_arg;
use crate::ops::{
    outcome_view, pending_view, result_view, result_views, truthful, Act, Action, Registry, Rep,
    Reply,
};
use crate::probe::{Latency, Measured};
use crate::recovery::{dns_covered, on_disk, safe};
use crate::text;
use crate::text::{decimal, list_views, occurs, views};

verus! {

/// IPv4/IPv6 resolver pair plus the DoH endpoint that serves it.
#[derive(Clone, Copy, Debug, PartialEq, Eq)]
pub struct Resolvers {
    /// Which provider this set came from.
    pub provider: DnsProvider,
    /// Primary IPv4 resolver.
    pub primary: &'static str,
    /// Secondary IPv4 resolver.
    pub secondary: &'static str,
    /// Primary IPv6 resolver.
    pub primary_v6: &'static str,
    /// Secondary IPv6 resolver.
    pub secondary_v6: &'static str,
    /// DNS-over-HTTPS endpoint template for the primary/secondary pair.
    pub doh_template: &'static str,
}

/// A [`Resolvers`] over texts.
pub struct ResolverSet {
    pub provider: DnsProvider,
    pub primary: Seq<char>,
    pub secondary: Seq<char>,
    pub primary_v6: Seq<char>,
    pub secondary_v6: Seq<char>,
    pub doh_template: Seq<char>,
}

impl View for Resolvers {
    type V = ResolverSet;

    open spec fn view(&self) -> ResolverSet {
        ResolverSet {
            provider: self.provider,
            primary: self.primary@,
            secondary: self.secondary@,
            primary_v6: self.primary_v6@,
            secondary_v6: self.secondary_v6@,
            doh_template: self.doh_template@,
        }
    }
}

/// An optional resolver set over texts.
pub open spec fn set_view(r: Option<Resolvers>) -> Option<ResolverSet> {
    match r {
        Some(set) => Some(set@),
        None => None,
    }
}

/// Cloudflare anycast resolvers.
pub open spec fn cloudflare_set() -> ResolverSet {
    ResolverSet {
        provider: DnsProvider::Cloudflare,
        primary: "1.1.1.1"@,
        secondary: "1.0.0.1"@,
        primary_v6: "2606:4700:4700::1111"@,
        secondary_v6: "2606:4700:4700::1001"@,
        doh_template: "https://cloudflare-dns.com/dns-query"@,
    }
}

/// Google public resolvers.
pub open spec fn google_set() -> ResolverSet {
    ResolverSet {
        provider: DnsProvider::Google,
        primary: "8.8.8.8"@,
        secondary: "8.8.4.4"@,
        primary_v6: "2001:4860:4860::8888"@,
        secondary_v6: "2001:4860:4860::8844"@,
        doh_template: "https://dns.google/dns-query"@,
    }
}

/// Cloudflare anycast resolvers.
pub fn cloudflare() -> (set: Resolvers)
    ensures
        set@ == cloudflare_set(),
{
    Resolvers {
        provider: DnsProvider::Cloudflare,
        primary: "1.1.1.1",
        secondary: "1.0.0.1",
        primary_v6: "2606:4700:4700::1111",
        secondary_v6: "2606:4700:4700::1001",
        doh_template: "https://cloudflare-dns.com/dns-query",
    }
}

/// Google public resolvers.
pub fn google() -> (set: Resolvers)
    ensures
        set@ == google_set(),
{
    Resolvers {
        provider: DnsProvider::Google,
        primary: "8.8.8.8",
        secondary: "8.8.4.4",
        primary_v6: "2001:4860:4860::8888",
        secondary_v6: "2001:4860:4860::8844",
        doh_template: "https://dns.google/dns-query",
    }
}

/// The time that counts for an endpoint: the real DNS resolution time when
/// measured, the ICMP round-trip time otherwise.
pub open spec fn counted_ms(dns_ms: Option<u32>, rtt_ms: Option<u32>) -> Option<u32> {
    match dns_ms {
        Some(ms) => Some(ms),
        None => rtt_ms,
    }
}

/// True when Google answers and Cloudflare does not, or is slower.
pub open spec fn google_is_faster(m: Measured) -> bool {
    match (counted_ms(m.cf_dns_ms, m.cloudflare.rtt()), counted_ms(m.google_dns_ms, m.google.rtt())) {
        (Some(c), Some(g)) => g < c,
        (None, Some(_)) => true,
        _ => false,
    }
}

/// The resolver set that a provider asks for, given what was measured.
pub open spec fn resolved(provider: DnsProvider, latency: Option<Measured>) -> ResolverSet {
    match provider {
        DnsProvider::Cloudflare => cloudflare_set(),
        DnsProvider::Google => google_set(),
        DnsProvider::Auto => if latency matches Some(m) && google_is_faster(m) {
            google_set()
        } else {
            cloudflare_set()
        },
    }
}

/// Optional measurements over windows.
pub open spec fn latency_view(latency: Option<&Latency>) -> Option<Measured> {
    match latency {
        Some(l) => Some(l@),
        None => None,
    }
}

/// The resolver set `provider` asks for. [`DnsProvider::Auto`] compares the two
/// endpoints and prefers the faster pair; on a tie, and without any
/// measurement, it falls back to Cloudflare.
pub fn resolve_provider(provider: DnsProvider, latency: Option<&Latency>) -> (set: Resolvers)
    ensures
        set@ == resolved(provider, latency_view(latency)),
{
    match provider {
        DnsProvider::Cloudflare => cloudflare(),
        DnsProvider::Google => google(),
        DnsProvider::Auto => match latency {
            None => cloudflare(),
            Some(l) => {
                let cloudflare_ms: Option<u32> = match l.cf_dns_ms {
                    Some(ms) => Some(ms),
                    None => l.cloudflare.rtt_ms(),
                };
                let google_ms: Option<u32> = match l.google_dns_ms {
                    Some(ms) => Some(ms),
                    None => l.google.rtt_ms(),
                };
                let cloudflare_faster = match (cloudflare_ms, google_ms) {
                    (Some(c), Some(g)) => c <= g,
                    (Some(_), None) => true,
                    (None, Some(_)) => false,
                    (None, None) => true,
                };
                if cloudflare_faster {
                    cloudflare()
                } else {
                    google()
                }
            },
        },
    }
}

/// Result of a DNS state scan.
#[derive(Clone, Copy, Debug, PartialEq, Eq, Structural)]
pub struct DnsStatus {
    /// Active interfaces already pointing at the requested resolvers.
    pub aligned: usize,
    /// Active physical interfaces.
    pub total: usize,
}

impl Default for DnsStatus {
    fn default() -> (status: Self)
        ensures
            status == (DnsStatus { aligned: 0, total: 0 }),
    {
        DnsStatus { aligned: 0, total: 0 }
    }
}

impl DnsStatus {
    /// True when there is nothing left to tune.
    pub open spec fn is_aligned(self) -> bool {
        self.total == 0 || self.aligned == self.total
    }

    /// True when there is nothing left to tune.
    pub fn aligned_all(&self) -> (b: bool)
        ensures
            b == self.is_aligned(),
    {
        self.total == 0 || self.aligned == self.total
    }
}

/// True when the adapter uses both resolvers of the set.
pub open spec fn uses(a: Adapter, set: ResolverSet) -> bool {
    a.dns.len() >= 2 && a.dns.contains(set.primary) && a.dns.contains(set.secondary)
}

/// True when the adapter already uses both resolvers of the set.
pub fn is_set(iface: &Interface, resolvers: &Resolvers) -> (b: bool)
    ensures
        b == uses(iface@, resolvers@),
{
    iface.dns.len() >= 2 && text::contains_text(&iface.dns, resolvers.primary)
        && text::contains_text(&iface.dns, resolvers.secondary)
}

/// The status of these active adapters.
pub open spec fn status_of(ifaces: Seq<Adapter>, set: ResolverSet) -> DnsStatus {
    DnsStatus {
        aligned: ifaces.filter(|a: Adapter| uses(a, set)).len() as usize,
        total: ifaces.len() as usize,
    }
}

/// Scans the current DNS state of all active physical adapters.
pub fn status(all: &Vec<Interface>, resolvers: &Resolvers) -> (status: DnsStatus)
    ensures
        status == status_of(active_of(adapters(all@)), resolvers@),
        status.aligned <= status.total,
{
    let ifaces = active(all);
    let ghost shown = adapters(ifaces@);
    let mut aligned: usize = 0;
    let mut i: usize = 0;
    proof {
        assert(shown.take(0) =~= Seq::<Adapter>::empty());
        reveal(Seq::filter);
    }
    while i < ifaces.len()
        invariant
            i <= ifaces@.len(),
            shown == adapters(ifaces@),
            aligned <= i,
            aligned == shown.take(i as int).filter(|a: Adapter| uses(a, resolvers@)).len(),
        decreases ifaces@.len() - i,
    {
        proof {
            assert(shown.take(i + 1).drop_last() =~= shown.take(i as int));
            assert(shown.take(i + 1).last() == ifaces@[i as int]@);
            reveal(Seq::filter);
        }
        if is_set(&ifaces[i], resolvers) {
            aligned = aligned + 1;
        }
        i = i + 1;
    }
    assert(shown.take(shown.len() as int) =~= shown);
    DnsStatus { aligned, total: ifaces.len() }
}

// ---------------------------------------------------------------------------
// Commands
// ---------------------------------------------------------------------------

/// One change of an adapter's DNS servers, for IPv4 or IPv6.
pub enum Cmd {
    /// Obtain the servers from DHCP.
    Dhcp { v6: bool },
    /// Replace the list by this one server.
    Static { v6: bool, server: Seq<char> },
    /// Put a server at this place of the list, counted from one.
    Add { v6: bool, server: Seq<char>, index: nat },
}

/// The `netsh` context of an address family.
pub open spec fn family(v6: bool) -> Seq<char> {
    if v6 {
        "ipv6"@
    } else {
        "ip"@
    }
}

/// The `netsh` arguments of a command on the adapter that `name_arg` names.
pub open spec fn args_of(cmd: Cmd, name_arg: Seq<char>) -> Seq<Seq<char>> {
    match cmd {
        Cmd::Dhcp { v6 } => seq![
            "interface"@,
            family(v6),
            "set"@,
            "dns"@,
            name_arg,
            "dhcp"@,
        ],
        Cmd::Static { v6, server } => seq![
            "interface"@,
            family(v6),
            "set"@,
            "dns"@,
            name_arg,
            "static"@,
            server,
        ],
        Cmd::Add { v6, server, index } => seq![
            "interface"@,
            family(v6),
            "add"@,
            "dns"@,
            name_arg,
            server,
            "index="@ + decimal(index),
        ],
    }
}

/// The arguments of several commands.
pub open spec fn all_args(cmds: Seq<Cmd>, name_arg: Seq<char>) -> Seq<Seq<Seq<char>>> {
    Seq::new(cmds.len(), |i: int| args_of(cmds[i], name_arg))
}

fn family_name(v6: bool) -> (name: String)
    ensures
        name@ == family(v6),
{
    if v6 {
        "ipv6".to_owned()
    } else {
        "ip".to_owned()
    }
}

fn dhcp_args(v6: bool, name_arg: &str) -> (args: Vec<String>)
    ensures
        views(args@) == args_of(Cmd::Dhcp { v6 }, name_arg@),
{
    let mut args: Vec<String> = Vec::new();
    args.push("interface".to_owned());
    args.push(family_name(v6));
    args.push("set".to_owned());
    args.push("dns".to_owned());
    args.push(name_arg.to_owned());
    args.push("dhcp".to_owned());
    assert(views(args@) =~= args_of(Cmd::Dhcp { v6 }, name_arg@));
    args
}

fn static_args(v6: bool, server: &str, name_arg: &str) -> (args: Vec<String>)
    ensures
        views(args@) == args_of(Cmd::Static { v6, server: server@ }, name_arg@),
{
    let mut args: Vec<String> = Vec::new();
    args.push("interface".to_owned());
    args.push(family_name(v6));
    args.push("set".to_owned());
    args.push("dns".to_owned());
    args.push(name_arg.to_owned());
    args.push("static".to_owned());
    args.push(server.to_owned());
    assert(views(args@) =~= args_of(Cmd::Static { v6, server: server@ }, name_arg@));
    args
}

fn add_args(v6: bool, server: &str, index: u64, name_arg: &str) -> (args: Vec<String>)
    ensures
        views(args@) == args_of(
            Cmd::Add { v6, server: server@, index: index as nat },
            name_arg@,
        ),
{
    let number = text::dec(index);
    let mut args: Vec<String> = Vec::new();
    args.push("interface".to_owned());
    args.push(family_name(v6));
    args.push("add".to_owned());
    args.push("dns".to_owned());
    args.push(name_arg.to_owned());
    args.push(server.to_owned());
    args.push("index=".to_owned().concat(number.as_str()));
    assert(views(args@) =~= args_of(
        Cmd::Add { v6, server: server@, index: index as nat },
        name_arg@,
    ));
    args
}

/// The commands that bring one address family to these servers, in order, the
/// first as primary; to DHCP when the adapter had its servers from there, or
/// when there are none.
pub open spec fn servers_plan(v6: bool, dhcp: bool, servers: Seq<Seq<char>>) -> Seq<Cmd> {
    if dhcp || servers.len() == 0 {
        seq![Cmd::Dhcp { v6 }]
    } else {
        Seq::new(
            servers.len(),
            |i: int|
                if i == 0 {
                    Cmd::Static { v6, server: servers[0] }
                } else {
                    Cmd::Add { v6, server: servers[i], index: (i + 1) as nat }
                },
        )
    }
}

fn plan_servers(v6: bool, dhcp: bool, servers: &Vec<String>, name_arg: &str) -> (plan: Vec<
    Vec<String>,
>)
    ensures
        list_views(plan@) == all_args(servers_plan(v6, dhcp, views(servers@)), name_arg@),
        0 < plan@.len() <= usize::MAX,
{
    let mut plan: Vec<Vec<String>> = Vec::new();
    let ghost cmds = servers_plan(v6, dhcp, views(servers@));
    if dhcp || servers.len() == 0 {
        plan.push(dhcp_args(v6, name_arg));
        assert(list_views(plan@) =~= all_args(cmds, name_arg@));
        return plan;
    }
    let count: usize = servers.len();
    plan.push(static_args(v6, servers[0].as_str(), name_arg));
    let mut i: usize = 1;
    while i < servers.len()
        invariant
            1 <= i <= servers@.len(),
            count == servers@.len(),
            plan@.len() == i,
            cmds == servers_plan(v6, dhcp, views(servers@)),
            cmds.len() == servers@.len(),
            !dhcp,
            forall|k: int|
                0 <= k < i ==> views((#[trigger] plan@[k])@) == args_of(cmds[k], name_arg@),
        decreases servers@.len() - i,
    {
        plan.push(add_args(v6, servers[i].as_str(), i as u64 + 1, name_arg));
        assert(cmds[i as int] == (Cmd::Add {
            v6,
            server: servers@[i as int]@,
            index: (i + 1) as nat,
        }));
        i = i + 1;
    }
    assert(list_views(plan@) =~= all_args(cmds, name_arg@));
    plan
}

/// The command that decides a switch: the primary resolver replaces the list.
pub open spec fn switch_required(set: ResolverSet) -> Seq<Cmd> {
    seq![Cmd::Static { v6: false, server: set.primary }]
}

/// The commands that complete a switch, as far as they succeed.
pub open spec fn switch_optional(set: ResolverSet) -> Seq<Cmd> {
    seq![
        Cmd::Add { v6: false, server: set.secondary, index: 2 },
        Cmd::Static { v6: true, server: set.primary_v6 },
        Cmd::Add { v6: true, server: set.secondary_v6, index: 2 },
    ]
}

/// The commands that decide a restore: the IPv4 servers.
pub open spec fn restore_required(backup: Backup) -> Seq<Cmd> {
    servers_plan(false, backup.dhcp, backup.servers)
}

/// The commands that complete a restore, as far as they succeed: the IPv6
/// servers.
pub open spec fn restore_optional(backup: Backup) -> Seq<Cmd> {
    servers_plan(true, false, backup.servers6)
}

/// The arguments that map one resolver to its DNS-over-HTTPS endpoint.
pub open spec fn doh_add(set: ResolverSet, server: Seq<char>, iface_arg: Seq<char>) -> Seq<
    Seq<char>,
> {
    seq![
        "dns"@,
        "add"@,
        "encryption"@,
        "server="@ + server,
        "dohtemplate="@ + set.doh_template,
        iface_arg,
    ]
}

/// The arguments that remove the mapping of one resolver.
pub open spec fn doh_delete(server: Seq<char>, iface_arg: Seq<char>) -> Seq<Seq<char>> {
    seq!["dns"@, "delete"@, "encryption"@, "server="@ + server, iface_arg]
}

/// The arguments that ask which `netsh dns add` commands exist.
pub open spec fn doh_question() -> Seq<Seq<char>> {
    seq!["dns"@, "add"@, "?"@]
}

/// True when the answer to [`doh_question`] shows that mappings can be made.
pub open spec fn doh_available(answer: Result<Seq<char>, Seq<char>>) -> bool {
    answer matches Ok(text) && occurs(text, "encryption"@)
}

fn supports_doh(answer: &Result<String, String>) -> (b: bool)
    ensures
        b == doh_available(crate::ops::text_result_view(*answer)),
{
    match answer {
        Ok(text) => text::contains_part(text.as_str(), "encryption"),
        Err(_) => false,
    }
}

fn doh_add_args(set: &Resolvers, server: &str, iface_arg: &str) -> (args: Vec<String>)
    ensures
        views(args@) == doh_add(set@, server@, iface_arg@),
{
    let mut args: Vec<String> = Vec::new();
    args.push("dns".to_owned());
    args.push("add".to_owned());
    args.push("encryption".to_owned());
    args.push("server=".to_owned().concat(server));
    args.push("dohtemplate=".to_owned().concat(set.doh_template));
    args.push(iface_arg.to_owned());
    assert(views(args@) =~= doh_add(set@, server@, iface_arg@));
    args
}

fn doh_delete_args(server: &str, iface_arg: &str) -> (args: Vec<String>)
    ensures
        views(args@) == doh_delete(server@, iface_arg@),
{
    let mut args: Vec<String> = Vec::new();
    args.push("dns".to_owned());
    args.push("delete".to_owned());
    args.push("encryption".to_owned());
    args.push("server=".to_owned().concat(server));
    args.push(iface_arg.to_owned());
    assert(views(args@) =~= doh_delete(server@, iface_arg@));
    args
}

// ---------------------------------------------------------------------------
// Jobs
// ---------------------------------------------------------------------------

/// The commands for one adapter.
#[derive(Debug)]
pub struct Plan {
    /// The first failure among these ends the job.
    pub required: Vec<Vec<String>>,
    /// These are tried one after the other, whatever they answer.
    pub optional: Vec<Vec<String>>,
}

/// The work on one adapter.
#[derive(Debug)]
pub struct Job {
    /// The adapter, as it is named in messages.
    pub label: String,
    /// The commands, or why there are none.
    pub plan: Result<Plan, String>,
    /// DNS-over-HTTPS commands, tried where the system supports them.
    pub encryption: Vec<Vec<String>>,
    /// The resolvers that these commands are about, for the log.
    pub primary: String,
    pub secondary: String,
}

/// A [`Plan`] over texts.
pub struct Commands {
    pub required: Seq<Seq<Seq<char>>>,
    pub optional: Seq<Seq<Seq<char>>>,
}

/// A [`Job`] over texts.
pub struct Task {
    pub label: Seq<char>,
    pub plan: Result<Commands, Seq<char>>,
    pub encryption: Seq<Seq<Seq<char>>>,
    pub primary: Seq<char>,
    pub secondary: Seq<char>,
}

impl View for Job {
    type V = Task;

    open spec fn view(&self) -> Task {
        Task {
            label: self.label@,
            plan: match self.plan {
                Ok(p) => Ok(
                    Commands {
                        required: list_views(p.required@),
                        optional: list_views(p.optional@),
                    },
                ),
                Err(e) => Err(e@),
            },
            encryption: list_views(self.encryption@),
            primary: self.primary@,
            secondary: self.secondary@,
        }
    }
}

/// Jobs over texts.
pub open spec fn job_views(v: Seq<Job>) -> Seq<Task> {
    Seq::new(v.len(), |i: int| v[i]@)
}

/// The command counts of a job are in range, and its plan has a command that
/// decides it.
pub open spec fn task_fits(task: Task) -> bool {
    &&& task.plan matches Ok(p) ==> {
        &&& 0 < p.required.len() <= usize::MAX
        &&& p.optional.len() <= usize::MAX
    }
    &&& task.encryption.len() <= usize::MAX
}

/// [`task_fits`] for every job.
pub open spec fn jobs_fit(jobs: Seq<Task>) -> bool {
    forall|k: int| 0 <= k < jobs.len() ==> task_fits(#[trigger] jobs[k])
}

/// The job that switches an adapter to a resolver set.
pub open spec fn switch_job(a: Adapter, set: ResolverSet) -> Task {
    Task {
        label: a.friendly,
        plan: match quoted_arg("name"@, a.friendly) {
            Err(e) => Err(e),
            Ok(name_arg) => Ok(
                Commands {
                    required: all_args(switch_required(set), name_arg),
                    optional: all_args(switch_optional(set), name_arg),
                },
            ),
        },
        encryption: match quoted_arg("interface"@, a.friendly) {
            Err(_) => Seq::empty(),
            Ok(arg) => seq![doh_add(set, set.primary, arg), doh_add(set, set.secondary, arg)],
        },
        primary: set.primary,
        secondary: set.secondary,
    }
}

/// The job that restores an archived configuration. A resolver set that was
/// applied has its DNS-over-HTTPS mapping removed.
pub open spec fn restore_job(
    backup: Backup,
    ifaces: Seq<Adapter>,
    set: Option<ResolverSet>,
) -> Task {
    let present = exists|i: int|
        0 <= i < ifaces.len() && (#[trigger] ifaces[i]).friendly == backup.interface;
    Task {
        label: backup.interface,
        plan: if !present {
            Err("adapter no longer present"@)
        } else {
            match quoted_arg("name"@, backup.interface) {
                Err(e) => Err(e),
                Ok(name_arg) => Ok(
                    Commands {
                        required: all_args(restore_required(backup), name_arg),
                        optional: all_args(restore_optional(backup), name_arg),
                    },
                ),
            }
        },
        encryption: match (set, quoted_arg("interface"@, backup.interface)) {
            (Some(r), Ok(arg)) => seq![doh_delete(r.primary, arg), doh_delete(r.secondary, arg)],
            _ => Seq::empty(),
        },
        primary: match set {
            Some(r) => r.primary,
            None => ""@,
        },
        secondary: match set {
            Some(r) => r.secondary,
            None => ""@,
        },
    }
}

fn plan_switch(iface: &Interface, set: &Resolvers) -> (job: Job)
    ensures
        job@ == switch_job(iface@, set@),
        task_fits(job@),
{
    let plan = match netsh::name_arg(iface.friendly.as_str()) {
        Err(e) => Err(e),
        Ok(name_arg) => {
            let mut required: Vec<Vec<String>> = Vec::new();
            required.push(static_args(false, set.primary, name_arg.as_str()));
            let mut optional: Vec<Vec<String>> = Vec::new();
            optional.push(add_args(false, set.secondary, 2, name_arg.as_str()));
            optional.push(static_args(true, set.primary_v6, name_arg.as_str()));
            optional.push(add_args(true, set.secondary_v6, 2, name_arg.as_str()));
            assert(list_views(required@) =~= all_args(switch_required(set@), name_arg@));
            assert(list_views(optional@) =~= all_args(switch_optional(set@), name_arg@));
            Ok(Plan { required, optional })
        },
    };
    let mut encryption: Vec<Vec<String>> = Vec::new();
    if let Ok(arg) = netsh::interface_arg(iface.friendly.as_str()) {
        encryption.push(doh_add_args(set, set.primary, arg.as_str()));
        encryption.push(doh_add_args(set, set.secondary, arg.as_str()));
    }
    let job = Job {
        label: iface.friendly.clone(),
        plan,
        encryption,
        primary: set.primary.to_owned(),
        secondary: set.secondary.to_owned(),
    };
    assert(job@.encryption =~= switch_job(iface@, set@).encryption);
    job
}

fn names_contain(ifaces: &Vec<Interface>, friendly: &str) -> (b: bool)
    ensures
        b == exists|i: int|
            0 <= i < adapters(ifaces@).len() && (#[trigger] adapters(ifaces@)[i]).friendly
                == friendly@,
{
    let ghost shown = adapters(ifaces@);
    let mut i: usize = 0;
    while i < ifaces.len()
        invariant
            i <= ifaces@.len(),
            shown == adapters(ifaces@),
            forall|k: int| 0 <= k < i ==> (#[trigger] shown[k]).friendly != friendly@,
        decreases ifaces@.len() - i,
    {
        assert(shown[i as int] == ifaces@[i as int]@);
        if text::same(ifaces[i].friendly.as_str(), friendly) {
            return true;
        }
        i = i + 1;
    }
    false
}

fn plan_restore(backup: &DnsBackup, ifaces: &Vec<Interface>, set: Option<Resolvers>) -> (job: Job)
    ensures
        job@ == restore_job(backup@, adapters(ifaces@), set_view(set)),
        task_fits(job@),
{
    let plan = if !names_contain(ifaces, backup.interface.as_str()) {
        Err("adapter no longer present".to_owned())
    } else {
        match netsh::name_arg(backup.interface.as_str()) {
            Err(e) => Err(e),
            Ok(name_arg) => Ok(
                Plan {
                    required: plan_servers(
                        false,
                        backup.dhcp,
                        &backup.servers,
                        name_arg.as_str(),
                    ),
                    optional: plan_servers(true, false, &backup.servers6, name_arg.as_str()),
                },
            ),
        }
    };
    let mut encryption: Vec<Vec<String>> = Vec::new();
    if let Some(r) = set {
        if let Ok(arg) = netsh::interface_arg(backup.interface.as_str()) {
            encryption.push(doh_delete_args(r.primary, arg.as_str()));
            encryption.push(doh_delete_args(r.secondary, arg.as_str()));
        }
    }
    let (primary, secondary) = match set {
        Some(r) => (r.primary, r.secondary),
        None => ("", ""),
    };
    let job = Job {
        label: backup.interface.clone(),
        plan,
        encryption,
        primary: primary.to_owned(),
        secondary: secondary.to_owned(),
    };
    assert(job@.encryption =~= restore_job(
        backup@,
        adapters(ifaces@),
        set_view(set),
    ).encryption);
    job
}

// ---------------------------------------------------------------------------
// Runs
// ---------------------------------------------------------------------------

/// What a run does next on its present adapter, or at its end.
#[derive(Clone, Copy, Debug, PartialEq, Eq, Structural)]
pub enum Stage {
    /// Save the archive with its new entries, before the first job.
    Record,
    /// Run the required command with this number.
    Required(usize),
    /// Try the optional command with this number.
    Optional(usize),
    /// Ask whether DNS-over-HTTPS is supported.
    Probe,
    /// Try the DNS-over-HTTPS command with this number.
    Encrypt(usize),
    /// Save the archive without the restored entries.
    Save,
    Finished,
}

/// A run over several adapters: the switch to a resolver set, or the restore of
/// the archived configurations.
#[derive(Debug)]
pub struct Run {
    pub archive: Archive,
    pub jobs: Vec<Job>,
    /// The run restores: job `k` belongs to archived configuration `k`, and
    /// leaves the archive when it succeeds.
    pub restoring: bool,
    /// How many configurations were archived before the run.
    pub known: usize,
    /// Whether DNS-over-HTTPS is supported, once that is known.
    pub doh: Option<bool>,
    /// The present job.
    pub job: usize,
    pub stage: Stage,
    /// A DNS-over-HTTPS command of the present job has failed.
    pub refused: bool,
    /// How the jobs before the present one ended.
    pub outcomes: Vec<Result<(), String>>,
    /// The outcome, once the run has finished.
    pub result: Option<Result<(), String>>,
}

/// A [`Run`] over texts.
#[verifier::ext_equal]
pub struct Switching {
    pub archive: Saved,
    pub jobs: Seq<Task>,
    pub restoring: bool,
    pub known: nat,
    pub doh: Option<bool>,
    pub job: usize,
    pub stage: Stage,
    pub refused: bool,
    pub outcomes: Seq<Result<(), Seq<char>>>,
    pub result: Option<Result<(), Seq<char>>>,
}

impl View for Run {
    type V = Switching;

    open spec fn view(&self) -> Switching {
        Switching {
            archive: self.archive@,
            jobs: job_views(self.jobs@),
            restoring: self.restoring,
            known: self.known as nat,
            doh: self.doh,
            job: self.job,
            stage: self.stage,
            refused: self.refused,
            outcomes: result_views(self.outcomes@),
            result: outcome_view(self.result),
        }
    }
}

/// The messages of the jobs that failed, in order.
pub open spec fn job_errors(jobs: Seq<Task>, outcomes: Seq<Result<(), Seq<char>>>) -> Seq<Seq<char>>
    decreases outcomes.len(),
{
    if outcomes.len() == 0 {
        Seq::empty()
    } else {
        let rest = job_errors(jobs, outcomes.drop_last());
        match outcomes.last() {
            Ok(_) => rest,
            Err(e) => rest.push(jobs[outcomes.len() - 1].label + ": "@ + e),
        }
    }
}

/// How many of the outcomes are failures.
pub open spec fn failures(outcomes: Seq<Result<(), Seq<char>>>) -> nat
    decreases outcomes.len(),
{
    if outcomes.len() == 0 {
        0
    } else {
        failures(outcomes.drop_last()) + if outcomes.last() is Err {
            1nat
        } else {
            0nat
        }
    }
}

/// The archived configurations whose restore failed, in order.
pub open spec fn kept_backups(dns: Seq<Backup>, outcomes: Seq<Result<(), Seq<char>>>) -> Seq<Backup>
    decreases dns.len(),
{
    if dns.len() == 0 {
        Seq::empty()
    } else {
        let rest = kept_backups(dns.drop_last(), outcomes);
        if outcomes[dns.len() - 1] is Err {
            rest.push(dns.last())
        } else {
            rest
        }
    }
}

/// One note, if there is reason for it.
pub open spec fn note_if(due: bool, note: Seq<char>) -> Seq<Seq<char>> {
    if due {
        seq![note]
    } else {
        Seq::empty()
    }
}

impl Switching {
    /// The commands of the present job.
    pub open spec fn commands(self) -> Commands {
        self.jobs[self.job as int].plan->Ok_0
    }

    /// The present job exists and has a plan, the number of the stage is in
    /// range, and every job so far has an outcome.
    pub open spec fn wf(self) -> bool {
        &&& self.jobs.len() <= usize::MAX
        &&& jobs_fit(self.jobs)
        &&& self.running() ==> {
            &&& self.job < self.jobs.len()
            &&& self.jobs[self.job as int].plan is Ok
            &&& self.outcomes.len() == self.job
            &&& self.restoring ==> self.archive.dns.len() == self.jobs.len()
        }
        &&& match self.stage {
            Stage::Required(i) => i < self.commands().required.len(),
            Stage::Optional(i) => i < self.commands().optional.len(),
            Stage::Encrypt(i) => i < self.jobs[self.job as int].encryption.len(),
            _ => true,
        }
        &&& self.stage is Record ==> {
            &&& !self.restoring
            &&& self.outcomes.len() == 0
            &&& self.known <= self.archive.dns.len()
        }
        &&& self.closed() ==> {
            &&& self.outcomes.len() == self.jobs.len()
            &&& self.restoring ==> self.archive.dns.len() == failures(self.outcomes)
        }
        &&& self.stage is Finished <==> self.result is Some
        &&& self.result matches Some(Ok(_)) ==> self.verdict() is Ok
    }

    /// True while commands are run.
    pub open spec fn running(self) -> bool {
        self.stage !is Record && self.stage !is Save && self.stage !is Finished
    }

    /// True once every job has had its turn.
    pub open spec fn closed(self) -> bool {
        self.stage is Save || (self.result matches Some(Ok(_)))
    }

    /// The action that the run waits for.
    pub open spec fn pending(self) -> Option<Act> {
        match self.stage {
            Stage::Required(i) => Some(Act::Netsh { args: self.commands().required[i as int] }),
            Stage::Optional(i) => Some(Act::Netsh { args: self.commands().optional[i as int] }),
            Stage::Probe => Some(Act::Netsh { args: doh_question() }),
            Stage::Encrypt(i) => Some(
                Act::Netsh { args: self.jobs[self.job as int].encryption[i as int] },
            ),
            Stage::Record | Stage::Save => Some(Act::SaveArchive),
            Stage::Finished => None,
        }
    }

    /// What the log is told when `reply` comes in: a switch, whether
    /// DNS-over-HTTPS is supported, which mapping could not be changed, and a
    /// mapping that was made.
    pub open spec fn notes(self, reply: Rep) -> Seq<Seq<char>> {
        let job = self.jobs[self.job as int];
        match (self.stage, reply) {
            (Stage::Required(i), Rep::Output(_)) => note_if(
                i == 0 && !self.restoring,
                "dns: setting "@ + job.label + " to "@ + job.primary,
            ),
            (Stage::Optional(i), Rep::Output(_)) => note_if(
                i + 1 == self.commands().optional.len() && !self.restoring && self.doh == Some(
                    false,
                ),
                "dns: DoH unavailable on this system, skipping"@,
            ),
            (Stage::Probe, Rep::Output(answer)) => note_if(
                true,
                if doh_available(answer) {
                    "dns: DoH supported"@
                } else {
                    "dns: DoH not supported"@
                },
            ) + note_if(
                !doh_available(answer) && !self.restoring,
                "dns: DoH unavailable on this system, skipping"@,
            ),
            (Stage::Encrypt(i), Rep::Output(Err(e))) => note_if(
                true,
                (if self.restoring {
                    "dns: DoH delete "@
                } else {
                    "dns: DoH add "@
                }) + (if i == 0 {
                    job.primary
                } else {
                    job.secondary
                }) + " on "@ + job.label + ": "@ + e,
            ),
            (Stage::Encrypt(i), Rep::Output(Ok(_))) => note_if(
                i + 1 == job.encryption.len() && !self.restoring && !self.refused,
                "dns: DoH enabled for "@ + job.primary + " on "@ + job.label,
            ),
            _ => Seq::empty(),
        }
    }

    /// The state that ends the run.
    pub open spec fn finish(self, result: Result<(), Seq<char>>) -> Switching {
        Switching { stage: Stage::Finished, result: Some(result), ..self }
    }

    /// The outcome once every job has had its turn and the archive is saved.
    pub open spec fn verdict(self) -> Result<(), Seq<char>> {
        verdict(job_errors(self.jobs, self.outcomes))
    }

    /// The state after the last job: restored configurations leave the
    /// archive, and it is saved when it has changed.
    pub open spec fn close(self) -> Switching {
        let kept = if self.restoring {
            kept_backups(self.archive.dns, self.outcomes)
        } else {
            self.archive.dns
        };
        let closed = Switching {
            archive: Saved { values: self.archive.values, dns: kept },
            ..self
        };
        if kept.len() != self.archive.dns.len() {
            Switching { stage: Stage::Save, ..closed }
        } else {
            closed.finish(closed.verdict())
        }
    }

    /// The archive without the entries that the run has added.
    pub open spec fn unrecorded(self) -> Saved {
        Saved { values: self.archive.values, dns: self.archive.dns.take(self.known as int) }
    }

    /// The state in which job `k` is next; a job without a plan fails at once.
    pub open spec fn enter(self, k: int) -> Switching
        decreases self.jobs.len() - k,
    {
        if k >= self.jobs.len() {
            self.close()
        } else {
            match self.jobs[k].plan {
                Err(e) => Switching { outcomes: self.outcomes.push(Err(e)), ..self }.enter(k + 1),
                Ok(_) => Switching {
                    job: k as usize,
                    stage: Stage::Required(0),
                    refused: false,
                    ..self
                },
            }
        }
    }

    /// The state after the present job ended.
    pub open spec fn end_job(self, outcome: Result<(), Seq<char>>) -> Switching {
        Switching { outcomes: self.outcomes.push(outcome), ..self }.enter(self.job + 1)
    }

    /// The state in which DNS-over-HTTPS command `i` is next.
    pub open spec fn at_encrypt(self, i: int) -> Switching {
        if i < self.jobs[self.job as int].encryption.len() {
            Switching { stage: Stage::Encrypt(i as usize), ..self }
        } else {
            self.end_job(Ok(()))
        }
    }

    /// The state once the servers are set: DNS-over-HTTPS comes next, where
    /// there is something to do and the system supports it.
    pub open spec fn at_encryption(self) -> Switching {
        if self.jobs[self.job as int].encryption.len() == 0 {
            self.end_job(Ok(()))
        } else {
            match self.doh {
                None => Switching { stage: Stage::Probe, ..self },
                Some(true) => self.at_encrypt(0),
                Some(false) => self.end_job(Ok(())),
            }
        }
    }

    /// The state in which optional command `i` is next.
    pub open spec fn at_optional(self, i: int) -> Switching {
        if i < self.commands().optional.len() {
            Switching { stage: Stage::Optional(i as usize), ..self }
        } else {
            self.at_encryption()
        }
    }

    /// The state after `reply`; a reply that does not fit changes nothing.
    pub open spec fn advance(self, reply: Rep) -> Switching {
        match (self.stage, reply) {
            (Stage::Record, Rep::Done(Ok(_))) => self.enter(0),
            (Stage::Record, Rep::Done(Err(e))) => Switching {
                archive: self.unrecorded(),
                ..self
            }.finish(Err(e)),
            (Stage::Required(i), Rep::Output(Err(e))) => self.end_job(Err(e)),
            (Stage::Required(i), Rep::Output(Ok(_))) => if i + 1 < self.commands().required.len() {
                Switching { stage: Stage::Required((i + 1) as usize), ..self }
            } else {
                self.at_optional(0)
            },
            (Stage::Optional(i), Rep::Output(_)) => self.at_optional(i + 1),
            (Stage::Probe, Rep::Output(answer)) => Switching {
                doh: Some(doh_available(answer)),
                ..self
            }.at_encryption(),
            (Stage::Encrypt(i), Rep::Output(answer)) => Switching {
                refused: self.refused || answer is Err,
                ..self
            }.at_encrypt(i + 1),
            (Stage::Save, Rep::Done(Err(e))) => self.finish(Err(e)),
            (Stage::Save, Rep::Done(Ok(_))) => self.finish(self.verdict()),
            _ => self,
        }
    }
}

/// The first state of a run over these jobs, `known` being how many
/// configurations were archived before it: new ones are saved first.
pub open spec fn switching(
    archive: Saved,
    jobs: Seq<Task>,
    restoring: bool,
    known: nat,
    doh: Option<bool>,
) -> Switching {
    let run = Switching {
        archive,
        jobs,
        restoring,
        known,
        doh,
        job: 0,
        stage: Stage::Record,
        refused: false,
        outcomes: Seq::empty(),
        result: None,
    };
    if archive.dns.len() != known {
        run
    } else {
        run.enter(0)
    }
}

/// The configuration of an adapter as it is archived.
pub open spec fn backup_of(a: Adapter) -> Backup {
    Backup { interface: a.friendly, dhcp: a.dhcp, servers: a.dns, servers6: a.dns6 }
}

/// The archived configurations after these adapters were recorded.
pub open spec fn all_ensured(dns: Seq<Backup>, targets: Seq<Adapter>) -> Seq<Backup>
    decreases targets.len(),
{
    if targets.len() == 0 {
        dns
    } else {
        dns_ensured(all_ensured(dns, targets.drop_last()), backup_of(targets.last()))
    }
}

/// The active adapters that do not use the set yet, in order.
pub open spec fn unset(ifaces: Seq<Adapter>, set: ResolverSet) -> Seq<Adapter> {
    ifaces.filter(|a: Adapter| !uses(a, set))
}

/// The jobs that switch these adapters.
pub open spec fn switch_jobs(targets: Seq<Adapter>, set: ResolverSet) -> Seq<Task> {
    Seq::new(targets.len(), |i: int| switch_job(targets[i], set))
}

/// The jobs that restore these configurations.
pub open spec fn restore_jobs(
    dns: Seq<Backup>,
    ifaces: Seq<Adapter>,
    set: Option<ResolverSet>,
) -> Seq<Task> {
    Seq::new(dns.len(), |i: int| restore_job(dns[i], ifaces, set))
}

/// The first state of a switch: every adapter that is about to change is
/// archived, and the archive saved first where that is new.
pub open spec fn applying(
    archive: Saved,
    set: ResolverSet,
    ifaces: Seq<Adapter>,
    doh: Option<bool>,
) -> Switching {
    let targets = unset(ifaces, set);
    let dns = all_ensured(archive.dns, targets);
    switching(
        Saved { values: archive.values, dns },
        switch_jobs(targets, set),
        false,
        archive.dns.len(),
        doh,
    )
}

proof fn ensured_grows(dns: Seq<Backup>, targets: Seq<Adapter>)
    ensures
        all_ensured(dns, targets).len() >= dns.len(),
    decreases targets.len(),
{
    if targets.len() > 0 {
        ensured_grows(dns, targets.drop_last());
    }
}

/// Sets the requested resolvers on every active physical adapter that does not
/// use them yet, archiving the previous servers first. `doh` is what is known
/// about DNS-over-HTTPS support.
pub fn apply(
    archive: Archive,
    resolvers: &Resolvers,
    all: &Vec<Interface>,
    doh: Option<bool>,
) -> (run: Run)
    ensures
        run@ == applying(archive@, resolvers@, active_of(adapters(all@)), doh),
        run@.wf(),
{
    let ifaces = active(all);
    let ghost shown = adapters(ifaces@);
    let ghost set = resolvers@;
    let ghost start = archive@;
    let mut archive = archive;
    let mut jobs: Vec<Job> = Vec::new();
    let known: usize = archive.dns.len();
    let mut i: usize = 0;
    proof {
        assert(shown.take(0) =~= Seq::<Adapter>::empty());
        reveal(Seq::filter);
        assert(job_views(jobs@) =~= switch_jobs(unset(shown.take(0), set), set));
    }
    while i < ifaces.len()
        invariant
            i <= ifaces@.len(),
            shown == adapters(ifaces@),
            set == resolvers@,
            archive@ == (Saved {
                values: start.values,
                dns: all_ensured(start.dns, unset(shown.take(i as int), set)),
            }),
            known == start.dns.len(),
            job_views(jobs@) == switch_jobs(unset(shown.take(i as int), set), set),
            jobs_fit(job_views(jobs@)),
        decreases ifaces@.len() - i,
    {
        let iface = &ifaces[i];
        let ghost before = jobs@;
        let ghost done = unset(shown.take(i as int), set);
        let ghost more = unset(shown.take(i + 1), set);
        proof {
            assert(shown.take(i + 1).drop_last() =~= shown.take(i as int));
            assert(shown.take(i + 1).last() == iface@);
            reveal(Seq::filter);
        }
        if !is_set(iface, resolvers) {
            proof {
                assert(more == done.push(iface@));
                assert(more.drop_last() =~= done);
            }
            let _ = archive.dns_ensure(
                iface.friendly.as_str(),
                iface.dhcp,
                text::clone_all(&iface.dns),
                text::clone_all(&iface.dns6),
            );
            let job = plan_switch(iface, resolvers);
            let ghost task = job@;
            jobs.push(job);
            proof {
                assert(job_views(jobs@) =~= job_views(before).push(task));
                assert(switch_jobs(more, set) =~= switch_jobs(done, set).push(task));
            }
        }
        i = i + 1;
    }
    assert(shown.take(shown.len() as int) =~= shown);
    proof {
        ensured_grows(start.dns, unset(shown, set));
    }
    Run::start(archive, jobs, false, known, doh)
}

/// Restores the archived configuration on every adapter it was applied to, and
/// removes the DNS-over-HTTPS mapping of `resolvers` where one is given.
/// Restored entries are drained; adapters that cannot be reached keep theirs.
pub fn revert(
    archive: Archive,
    resolvers: Option<Resolvers>,
    all: &Vec<Interface>,
    doh: Option<bool>,
) -> (run: Run)
    ensures
        run@ == switching(
            archive@,
            restore_jobs(archive@.dns, physical_of(adapters(all@)), set_view(resolvers)),
            true,
            archive@.dns.len(),
            doh,
        ),
        run@.wf(),
{
    let ifaces = physical(all);
    let ghost shown = adapters(ifaces@);
    let mut jobs: Vec<Job> = Vec::new();
    let mut i: usize = 0;
    while i < archive.dns.len()
        invariant
            i <= archive.dns@.len(),
            shown == adapters(ifaces@),
            jobs@.len() == i,
            forall|k: int|
                0 <= k < i ==> (#[trigger] jobs@[k])@ == restore_job(
                    archive.dns@[k]@,
                    shown,
                    set_view(resolvers),
                ),
            jobs_fit(job_views(jobs@)),
        decreases archive.dns@.len() - i,
    {
        let ghost before = jobs@;
        let job = plan_restore(&archive.dns[i], &ifaces, resolvers);
        let ghost task = job@;
        jobs.push(job);
        assert(job_views(jobs@) =~= job_views(before).push(task));
        i = i + 1;
    }
    assert(job_views(jobs@) =~= restore_jobs(archive@.dns, shown, set_view(resolvers)));
    let known: usize = archive.dns.len();
    Run::start(archive, jobs, true, known, doh)
}

impl Run {
    fn start(
        archive: Archive,
        jobs: Vec<Job>,
        restoring: bool,
        known: usize,
        doh: Option<bool>,
    ) -> (run: Run)
        requires
            jobs_fit(job_views(jobs@)),
            restoring ==> archive@.dns.len() == jobs@.len() && known == archive@.dns.len(),
            known <= archive@.dns.len(),
        ensures
            run@ == switching(archive@, job_views(jobs@), restoring, known as nat, doh),
            run@.wf(),
    {
        let count: usize = jobs.len();
        let mut run = Run {
            archive,
            jobs,
            restoring,
            known,
            doh,
            job: 0,
            stage: Stage::Record,
            refused: false,
            outcomes: Vec::new(),
            result: None,
        };
        assert(run@.outcomes =~= Seq::<Result<(), Seq<char>>>::empty());
        assert(run@.jobs.len() == count);
        if run.archive.dns.len() == known {
            run.enter(0);
        }
        run
    }

    /// The action to perform next, `None` once the run has finished.
    pub fn pending(&self) -> (action: Option<Action>)
        requires
            self@.wf(),
        ensures
            pending_view(action) == self@.pending(),
    {
        match self.stage {
            Stage::Required(i) => match &self.jobs[self.job].plan {
                Ok(p) => Some(Action::Netsh { args: text::clone_all(&p.required[i]) }),
                Err(_) => None,
            },
            Stage::Optional(i) => match &self.jobs[self.job].plan {
                Ok(p) => Some(Action::Netsh { args: text::clone_all(&p.optional[i]) }),
                Err(_) => None,
            },
            Stage::Probe => {
                let mut args: Vec<String> = Vec::new();
                args.push("dns".to_owned());
                args.push("add".to_owned());
                args.push("?".to_owned());
                assert(views(args@) =~= doh_question());
                Some(Action::Netsh { args })
            },
            Stage::Encrypt(i) => Some(
                Action::Netsh { args: text::clone_all(&self.jobs[self.job].encryption[i]) },
            ),
            Stage::Record | Stage::Save => Some(Action::SaveArchive),
            Stage::Finished => None,
        }
    }

    /// What the log is told when `reply` comes in.
    pub fn notes(&self, reply: &Reply) -> (notes: Vec<String>)
        requires
            self@.wf(),
        ensures
            views(notes@) == self@.notes(reply@),
    {
        let mut notes: Vec<String> = Vec::new();
        match (self.stage, reply) {
            (Stage::Required(i), Reply::Output(_)) => {
                if i == 0 && !self.restoring {
                    let job = &self.jobs[self.job];
                    notes.push(
                        "dns: setting ".to_owned().concat(job.label.as_str()).concat(
                            " to ",
                        ).concat(job.primary.as_str()),
                    );
                }
            },
            (Stage::Optional(i), Reply::Output(_)) => {
                if let (Ok(p), Some(false), false) = (
                    &self.jobs[self.job].plan,
                    self.doh,
                    self.restoring,
                ) {
                    if i + 1 == p.optional.len() {
                        notes.push("dns: DoH unavailable on this system, skipping".to_owned());
                    }
                }
            },
            (Stage::Probe, Reply::Output(answer)) => {
                let supported = supports_doh(answer);
                if supported {
                    notes.push("dns: DoH supported".to_owned());
                } else {
                    notes.push("dns: DoH not supported".to_owned());
                    if !self.restoring {
                        notes.push("dns: DoH unavailable on this system, skipping".to_owned());
                    }
                }
            },
            (Stage::Encrypt(i), Reply::Output(Err(e))) => {
                let job = &self.jobs[self.job];
                let what = if self.restoring {
                    "dns: DoH delete "
                } else {
                    "dns: DoH add "
                };
                let server = if i == 0 {
                    job.primary.as_str()
                } else {
                    job.secondary.as_str()
                };
                notes.push(
                    what.to_owned().concat(server).concat(" on ").concat(
                        job.label.as_str(),
                    ).concat(": ").concat(e.as_str()),
                );
            },
            (Stage::Encrypt(i), Reply::Output(Ok(_))) => {
                let job = &self.jobs[self.job];
                if i + 1 == job.encryption.len() && !self.restoring && !self.refused {
                    notes.push(
                        "dns: DoH enabled for ".to_owned().concat(job.primary.as_str()).concat(
                            " on ",
                        ).concat(job.label.as_str()),
                    );
                }
            },
            _ => {},
        }
        assert(views(notes@) =~= self@.notes(reply@));
        notes
    }

    fn errors(&self) -> (errors: Vec<String>)
        requires
            self@.outcomes.len() <= self@.jobs.len(),
        ensures
            views(errors@) == job_errors(self@.jobs, self@.outcomes),
    {
        let mut errors: Vec<String> = Vec::new();
        let ghost outcomes = self@.outcomes;
        let mut k: usize = 0;
        proof {
            assert(outcomes.take(0) =~= Seq::<Result<(), Seq<char>>>::empty());
            assert(views(errors@) =~= job_errors(self@.jobs, outcomes.take(0)));
        }
        while k < self.outcomes.len()
            invariant
                k <= self.outcomes@.len() <= self.jobs@.len(),
                outcomes == self@.outcomes,
                views(errors@) == job_errors(self@.jobs, outcomes.take(k as int)),
            decreases self.outcomes@.len() - k,
        {
            let ghost before = errors@;
            proof {
                assert(outcomes.take(k + 1).drop_last() =~= outcomes.take(k as int));
                assert(outcomes.take(k + 1).last() == result_view(self.outcomes@[k as int]));
                assert(self@.jobs[k as int] == self.jobs@[k as int]@);
            }
            if let Err(e) = &self.outcomes[k] {
                let message = self.jobs[k].label.clone().concat(": ").concat(e.as_str());
                let ghost shown = message@;
                errors.push(message);
                assert(views(errors@) =~= views(before).push(shown));
            }
            k = k + 1;
        }
        assert(outcomes.take(outcomes.len() as int) =~= outcomes);
        errors
    }

    fn finish(&mut self, result: Result<(), String>)
        ensures
            final(self)@ == old(self)@.finish(result_view(result)),
    {
        self.stage = Stage::Finished;
        self.result = Some(result);
    }

    fn conclude(&mut self)
        requires
            old(self)@.outcomes.len() <= old(self)@.jobs.len(),
        ensures
            final(self)@ == old(self)@.finish(old(self)@.verdict()),
    {
        let errors = self.errors();
        let result = conclude(&errors);
        self.finish(result);
    }

    fn drain(&self) -> (kept: Vec<DnsBackup>)
        requires
            self@.archive.dns.len() == self@.outcomes.len(),
        ensures
            backup_views(kept@) == kept_backups(self@.archive.dns, self@.outcomes),
    {
        let mut kept: Vec<DnsBackup> = Vec::new();
        let ghost dns = self@.archive.dns;
        let mut k: usize = 0;
        proof {
            assert(dns.take(0) =~= Seq::<Backup>::empty());
            assert(backup_views(kept@) =~= kept_backups(dns.take(0), self@.outcomes));
        }
        while k < self.archive.dns.len()
            invariant
                k <= self.archive.dns@.len(),
                dns == self@.archive.dns,
                dns.len() == self.outcomes@.len(),
                backup_views(kept@) == kept_backups(dns.take(k as int), self@.outcomes),
            decreases self.archive.dns@.len() - k,
        {
            let backup = &self.archive.dns[k];
            let ghost before = kept@;
            proof {
                assert(dns.take(k + 1).drop_last() =~= dns.take(k as int));
                assert(dns.take(k + 1).last() == backup@);
                assert(self@.outcomes[k as int] == result_view(self.outcomes@[k as int]));
            }
            if self.outcomes[k].is_err() {
                kept.push(backup.clone());
                assert(backup_views(kept@) =~= backup_views(before).push(backup@));
            }
            k = k + 1;
        }
        assert(dns.take(dns.len() as int) =~= dns);
        kept
    }

    fn close(&mut self)
        requires
            old(self)@.outcomes.len() == old(self)@.jobs.len(),
            old(self)@.restoring ==> old(self)@.archive.dns.len() == old(self)@.jobs.len(),
            old(self)@.result is None,
        ensures
            final(self)@ == old(self)@.close(),
            final(self)@.restoring ==> final(self)@.archive.dns.len() == failures(
                final(self)@.outcomes,
            ),
            final(self)@.result matches Some(Ok(_)) ==> final(self)@.verdict() is Ok,
    {
        proof {
            if self@.restoring {
                kept_are_the_failures(self@.archive.dns, self@.outcomes);
            }
        }
        let total: usize = self.archive.dns.len();
        if self.restoring {
            self.archive.dns = self.drain();
        }
        if self.archive.dns.len() != total {
            self.stage = Stage::Save;
        } else {
            self.conclude();
        }
        assert(self@ =~= old(self)@.close());
    }

    fn enter(&mut self, k: usize)
        requires
            k <= old(self)@.jobs.len() <= usize::MAX,
            old(self)@.outcomes.len() == k,
            jobs_fit(old(self)@.jobs),
            old(self)@.restoring ==> old(self)@.archive.dns.len() == old(self)@.jobs.len(),
            old(self)@.result is None,
        ensures
            final(self)@ == old(self)@.enter(k as int),
            final(self)@.wf(),
        decreases old(self)@.jobs.len() - k,
    {
        let ghost before = self@;
        if k >= self.jobs.len() {
            self.close();
            return;
        }
        assert(before.jobs[k as int] == self.jobs@[k as int]@);
        let refusal: Option<String> = match &self.jobs[k].plan {
            Err(e) => Some(e.clone()),
            Ok(_) => None,
        };
        match refusal {
            Some(e) => {
                self.outcomes.push(Err(e));
                assert(self@.outcomes =~= before.outcomes.push(Err(e@)));
                self.enter(k + 1);
            },
            None => {
                self.job = k;
                self.stage = Stage::Required(0);
                self.refused = false;
            },
        }
    }

    fn end_job(&mut self, outcome: Result<(), String>)
        requires
            old(self)@.wf(),
            old(self)@.running(),
        ensures
            final(self)@ == old(self)@.end_job(result_view(outcome)),
            final(self)@.wf(),
    {
        let ghost before = self@;
        let ghost shown = result_view(outcome);
        let count: usize = self.jobs.len();
        self.outcomes.push(outcome);
        assert(self@.outcomes =~= before.outcomes.push(shown));
        let next: usize = self.job + 1;
        self.enter(next);
    }

    fn at_encrypt(&mut self, i: usize)
        requires
            old(self)@.wf(),
            old(self)@.running(),
        ensures
            final(self)@ == old(self)@.at_encrypt(i as int),
            final(self)@.wf(),
    {
        if i < self.jobs[self.job].encryption.len() {
            self.stage = Stage::Encrypt(i);
        } else {
            self.end_job(Ok(()));
        }
    }

    fn at_encryption(&mut self)
        requires
            old(self)@.wf(),
            old(self)@.running(),
        ensures
            final(self)@ == old(self)@.at_encryption(),
            final(self)@.wf(),
    {
        if self.jobs[self.job].encryption.len() == 0 {
            self.end_job(Ok(()));
        } else {
            match self.doh {
                None => {
                    self.stage = Stage::Probe;
                },
                Some(true) => self.at_encrypt(0),
                Some(false) => self.end_job(Ok(())),
            }
        }
    }

    fn at_optional(&mut self, i: usize)
        requires
            old(self)@.wf(),
            old(self)@.running(),
        ensures
            final(self)@ == old(self)@.at_optional(i as int),
            final(self)@.wf(),
    {
        let count: usize = match &self.jobs[self.job].plan {
            Ok(p) => p.optional.len(),
            Err(_) => 0,
        };
        if i < count {
            self.stage = Stage::Optional(i);
        } else {
            self.at_encryption();
        }
    }

    /// Takes the answer to the pending action.
    pub fn resume(&mut self, reply: Reply)
        requires
            old(self)@.wf(),
        ensures
            final(self)@ == old(self)@.advance(reply@),
            final(self)@.wf(),
    {
        let ghost before = self@;
        match (self.stage, reply) {
            (Stage::Record, Reply::Done(Ok(_))) => self.enter(0),
            (Stage::Record, Reply::Done(Err(e))) => {
                let known: usize = self.known;
                self.archive.dns_take_back(known);
                self.finish(Err(e));
            },
            (Stage::Required(_), Reply::Output(Err(e))) => self.end_job(Err(e)),
            (Stage::Required(i), Reply::Output(Ok(_))) => {
                let count: usize = match &self.jobs[self.job].plan {
                    Ok(p) => p.required.len(),
                    Err(_) => 0,
                };
                if i + 1 < count {
                    self.stage = Stage::Required(i + 1);
                } else {
                    self.at_optional(0);
                }
            },
            (Stage::Optional(i), Reply::Output(_)) => {
                self.at_optional(i + 1);
            },
            (Stage::Probe, Reply::Output(answer)) => {
                self.doh = Some(supports_doh(&answer));
                self.at_encryption();
            },
            (Stage::Encrypt(i), Reply::Output(answer)) => {
                self.refused = self.refused || answer.is_err();
                self.at_encrypt(i + 1);
            },
            (Stage::Save, Reply::Done(Err(e))) => self.finish(Err(e)),
            (Stage::Save, Reply::Done(Ok(_))) => self.conclude(),
            _ => {},
        }
        assert(self@ =~= before.advance(reply@));
    }
}

proof fn kept_are_the_failures(dns: Seq<Backup>, outcomes: Seq<Result<(), Seq<char>>>)
    requires
        dns.len() == outcomes.len(),
    ensures
        kept_backups(dns, outcomes).len() == failures(outcomes),
{
    kept_are_failures_up_to(dns, outcomes, dns.len() as int);
    assert(dns.take(dns.len() as int) =~= dns);
    assert(outcomes.take(outcomes.len() as int) =~= outcomes);
}

proof fn kept_are_failures_up_to(
    dns: Seq<Backup>,
    outcomes: Seq<Result<(), Seq<char>>>,
    n: int,
)
    requires
        0 <= n <= dns.len() == outcomes.len(),
    ensures
        kept_backups(dns.take(n), outcomes).len() == failures(outcomes.take(n)),
    decreases n,
{
    if n > 0 {
        kept_are_failures_up_to(dns, outcomes, n - 1);
        assert(dns.take(n).drop_last() =~= dns.take(n - 1));
        assert(outcomes.take(n).drop_last() =~= outcomes.take(n - 1));
        assert(outcomes.take(n).last() == outcomes[n - 1]);
    }
}

proof fn errors_are_the_failures(jobs: Seq<Task>, outcomes: Seq<Result<(), Seq<char>>>)
    ensures
        job_errors(jobs, outcomes).len() == failures(outcomes),
    decreases outcomes.len(),
{
    if outcomes.len() > 0 {
        errors_are_the_failures(jobs, outcomes.drop_last());
    }
}

// ---------------------------------------------------------------------------
// What the runs guarantee
// ---------------------------------------------------------------------------

/// How an adapter gets the DNS servers of one address family.
pub enum Source {
    Dhcp,
    Static(Seq<Seq<char>>),
}

/// The DNS configuration of an adapter, IPv4 and IPv6.
pub struct Setting {
    pub v4: Source,
    pub v6: Source,
}

/// What a command does to one address family.
pub open spec fn effect(source: Source, cmd: Cmd) -> Source {
    match cmd {
        Cmd::Dhcp { .. } => Source::Dhcp,
        Cmd::Static { server, .. } => Source::Static(seq![server]),
        Cmd::Add { server, index, .. } => match source {
            Source::Dhcp => Source::Static(seq![server]),
            Source::Static(list) => if 1 <= index <= list.len() {
                Source::Static(list.insert(index - 1, server))
            } else {
                Source::Static(list.push(server))
            },
        },
    }
}

/// What a command does to an adapter.
pub open spec fn perform(setting: Setting, cmd: Cmd) -> Setting {
    let v6 = match cmd {
        Cmd::Dhcp { v6 } => v6,
        Cmd::Static { v6, .. } => v6,
        Cmd::Add { v6, .. } => v6,
    };
    if v6 {
        Setting { v4: setting.v4, v6: effect(setting.v6, cmd) }
    } else {
        Setting { v4: effect(setting.v4, cmd), v6: setting.v6 }
    }
}

/// What several commands do, one after the other.
pub open spec fn perform_all(setting: Setting, cmds: Seq<Cmd>) -> Setting
    decreases cmds.len(),
{
    if cmds.len() == 0 {
        setting
    } else {
        perform(perform_all(setting, cmds.drop_last()), cmds.last())
    }
}

/// The source that an archived list of servers describes.
pub open spec fn source_of(dhcp: bool, servers: Seq<Seq<char>>) -> Source {
    if dhcp || servers.len() == 0 {
        Source::Dhcp
    } else {
        Source::Static(servers)
    }
}

proof fn plan_reaches(setting: Setting, v6: bool, servers: Seq<Seq<char>>, n: int)
    requires
        0 < n <= servers.len(),
    ensures
        perform_all(setting, servers_plan(v6, false, servers).take(n)) == (if v6 {
            Setting { v4: setting.v4, v6: Source::Static(servers.take(n)) }
        } else {
            Setting { v4: Source::Static(servers.take(n)), v6: setting.v6 }
        }),
    decreases n,
{
    let plan = servers_plan(v6, false, servers);
    let part = plan.take(n);
    assert(part.drop_last() =~= plan.take(n - 1));
    assert(part.last() == plan[n - 1]);
    if n == 1 {
        assert(plan.take(0) =~= Seq::<Cmd>::empty());
        assert(perform_all(setting, plan.take(0)) == setting);
        assert(servers.take(1) =~= seq![servers[0]]);
    } else {
        plan_reaches(setting, v6, servers, n - 1);
        assert(servers.take(n - 1).push(servers[n - 1]) =~= servers.take(n));
    }
}

/// The restore commands bring an adapter, whatever its present configuration,
/// back to exactly what was archived: DHCP where it had its servers from there,
/// the same servers in the same order otherwise, for IPv4 and IPv6.
pub proof fn restore_is_exact(setting: Setting, backup: Backup)
    ensures
        perform_all(
            perform_all(setting, restore_required(backup)),
            restore_optional(backup),
        ) == (Setting {
            v4: source_of(backup.dhcp, backup.servers),
            v6: source_of(false, backup.servers6),
        }),
{
    let first = restore_required(backup);
    let second = restore_optional(backup);
    plan_reaches_all(setting, false, backup.dhcp, backup.servers);
    let middle = perform_all(setting, first);
    plan_reaches_all(middle, true, false, backup.servers6);
}

proof fn plan_reaches_all(setting: Setting, v6: bool, dhcp: bool, servers: Seq<Seq<char>>)
    ensures
        perform_all(setting, servers_plan(v6, dhcp, servers)) == (if v6 {
            Setting { v4: setting.v4, v6: source_of(dhcp, servers) }
        } else {
            Setting { v4: source_of(dhcp, servers), v6: setting.v6 }
        }),
{
    let plan = servers_plan(v6, dhcp, servers);
    if dhcp || servers.len() == 0 {
        assert(plan.drop_last() =~= Seq::<Cmd>::empty());
        assert(perform_all(setting, plan.drop_last()) == setting);
    } else {
        plan_reaches(setting, v6, servers, plan.len() as int);
        assert(plan.take(plan.len() as int) =~= plan);
        assert(servers.take(servers.len() as int) =~= servers);
    }
}

/// The switch commands bring an adapter, whatever its present configuration,
/// to the two resolvers of the set, primary first, for IPv4 and IPv6.
pub proof fn switch_is_exact(setting: Setting, set: ResolverSet)
    ensures
        perform_all(perform_all(setting, switch_required(set)), switch_optional(set)) == (Setting {
            v4: Source::Static(seq![set.primary, set.secondary]),
            v6: Source::Static(seq![set.primary_v6, set.secondary_v6]),
        }),
{
    let first = switch_required(set);
    assert(first.drop_last() =~= Seq::<Cmd>::empty());
    let s0 = perform_all(setting, first.drop_last());
    let s1 = perform_all(setting, first);
    assert(s0 == setting && s1 == perform(s0, first.last()));
    let second = switch_optional(set);
    let c2 = second.drop_last();
    let c1 = c2.drop_last();
    assert(c1.drop_last() =~= Seq::<Cmd>::empty());
    assert(c1.last() == second[0] && c2.last() == second[1] && second.last() == second[2]);
    assert(perform_all(s1, c1.drop_last()) == s1);
    let s2 = perform_all(s1, c1);
    let s3 = perform_all(s1, c2);
    let s4 = perform_all(s1, second);
    assert(seq![set.primary].push(set.secondary) =~= seq![set.primary, set.secondary]);
    assert(seq![set.primary_v6].push(set.secondary_v6) =~= seq![
        set.primary_v6,
        set.secondary_v6,
    ]);
}

/// An adapter that a switch has reached is aligned with the set.
pub proof fn switched_adapter_is_set(a: Adapter, set: ResolverSet)
    requires
        a.dns == seq![set.primary, set.secondary],
    ensures
        uses(a, set),
{
    assert(a.dns[0] == set.primary && a.dns[1] == set.secondary);
}

/// A switch archives every adapter that it is about to change, and leaves what
/// was archived before as it is.
pub proof fn switch_archives_first(dns: Seq<Backup>, targets: Seq<Adapter>)
    ensures
        all_ensured(dns, targets).len() >= dns.len(),
        forall|i: int|
            0 <= i < dns.len() ==> #[trigger] all_ensured(dns, targets)[i] == dns[i],
        forall|i: int|
            0 <= i < targets.len() ==> dns_recorded(
                all_ensured(dns, targets),
                (#[trigger] targets[i]).friendly,
            ),
    decreases targets.len(),
{
    if targets.len() > 0 {
        let front = targets.drop_last();
        let before = all_ensured(dns, front);
        let after = all_ensured(dns, targets);
        switch_archives_first(dns, front);
        assert forall|i: int| 0 <= i < targets.len() implies dns_recorded(
            after,
            (#[trigger] targets[i]).friendly,
        ) by {
            if i < front.len() {
                assert(front[i] == targets[i]);
                assert(dns_recorded(before, targets[i].friendly));
                let k = choose|k: int|
                    0 <= k < before.len() && (#[trigger] before[k]).interface
                        == targets[i].friendly;
                assert(after[k] == before[k]);
            } else if !dns_recorded(before, targets[i].friendly) {
                assert(after[before.len() as int].interface == targets[i].friendly);
            }
        }
    }
}

/// A restore that reports success has drained the archived configurations.
pub proof fn successful_restore_drains(run: Switching)
    requires
        run.wf(),
        run.restoring,
        run.result matches Some(Ok(_)),
    ensures
        run.archive.dns.len() == 0,
{
    errors_are_the_failures(run.jobs, run.outcomes);
}

/// A configuration whose restore failed stays archived, and no other does.
pub proof fn failed_restores_stay(
    dns: Seq<Backup>,
    outcomes: Seq<Result<(), Seq<char>>>,
    i: int,
)
    requires
        dns.len() == outcomes.len(),
        0 <= i < dns.len(),
        outcomes[i] is Err,
    ensures
        kept_backups(dns, outcomes).contains(dns[i]),
    decreases dns.len(),
{
    failed_restores_stay_up_to(dns, outcomes, i);
}

proof fn failed_restores_stay_up_to(
    dns: Seq<Backup>,
    outcomes: Seq<Result<(), Seq<char>>>,
    i: int,
)
    requires
        dns.len() <= outcomes.len(),
        0 <= i < dns.len(),
        outcomes[i] is Err,
    ensures
        kept_backups(dns, outcomes).contains(dns[i]),
    decreases dns.len(),
{
    let front = dns.drop_last();
    let rest = kept_backups(front, outcomes);
    let kept = kept_backups(dns, outcomes);
    if i < front.len() {
        failed_restores_stay_up_to(front, outcomes, i);
        let k = choose|k: int| 0 <= k < rest.len() && rest[k] == front[i];
        assert(kept[k] == dns[i]);
    } else {
        assert(kept[kept.len() - 1] == dns[i]);
    }
}

/// How many replies the jobs from `k` on wait for at most.
pub open spec fn work(jobs: Seq<Task>, k: int) -> nat
    decreases jobs.len() - k,
{
    if k >= jobs.len() {
        0
    } else {
        work(jobs, k + 1) + match jobs[k].plan {
            Err(_) => 0,
            Ok(p) => p.required.len() + p.optional.len() + 1 + jobs[k].encryption.len(),
        }
    }
}

impl Switching {
    /// How many replies the run waits for at most.
    pub open spec fn remaining(self) -> int {
        let rest = work(self.jobs, self.job + 1) + 1;
        let enc = self.jobs[self.job as int].encryption.len();
        match self.stage {
            Stage::Record => (work(self.jobs, 0) + 2) as int,
            Stage::Required(i) => self.commands().required.len() - i
                + self.commands().optional.len() + 1 + enc + rest,
            Stage::Optional(i) => self.commands().optional.len() - i + 1 + enc + rest,
            Stage::Probe => (1 + enc + rest) as int,
            Stage::Encrypt(i) => enc - i + rest,
            Stage::Save => 1,
            Stage::Finished => 0,
        }
    }
}

proof fn entering_is_bounded(run: Switching, k: int)
    requires
        0 <= k,
        run.jobs.len() <= usize::MAX,
    ensures
        run.enter(k).remaining() <= work(run.jobs, k) + 1,
        run.enter(k).archive.values == run.archive.values,
    decreases run.jobs.len() - k,
{
    if k < run.jobs.len() {
        if let Err(e) = run.jobs[k].plan {
            entering_is_bounded(
                Switching { outcomes: run.outcomes.push(Err(e)), ..run },
                k + 1,
            );
        }
    }
}

/// Every step brings a run closer to its end, leaves the archived registry
/// values alone, and asks for nothing but `netsh` and a save.
pub proof fn switching_ends(run: Switching, reply: Rep)
    requires
        run.wf(),
        run.pending() is Some,
        reply is Output == run.running(),
        reply is Done == !run.running(),
    ensures
        run.advance(reply).remaining() < run.remaining(),
        run.advance(reply).archive.values == run.archive.values,
        run.pending()->0 is Netsh || run.pending()->0 is SaveArchive,
{
    if run.stage is Record {
        entering_is_bounded(run, 0);
    }
    if run.running() {
        let ok = Switching { outcomes: run.outcomes.push(Ok(())), ..run };
        entering_is_bounded(ok, run.job + 1);
        match (run.stage, reply) {
            (Stage::Required(_), Rep::Output(Err(e))) => {
                entering_is_bounded(
                    Switching { outcomes: run.outcomes.push(Err(e)), ..run },
                    run.job + 1,
                );
            },
            (Stage::Encrypt(_), Rep::Output(answer)) => {
                let told = Switching { refused: run.refused || answer is Err, ..run };
                entering_is_bounded(
                    Switching { outcomes: told.outcomes.push(Ok(())), ..told },
                    run.job + 1,
                );
            },
            (Stage::Probe, Rep::Output(answer)) => {
                let told = Switching { doh: Some(doh_available(answer)), ..run };
                entering_is_bounded(
                    Switching { outcomes: told.outcomes.push(Ok(())), ..told },
                    run.job + 1,
                );
            },
            _ => {},
        }
    }
}

/// What a run keeps with every step, in a machine whose registry was `original`
/// before the first tweak and is `current` now, and whose archive on disk is
/// `disk`: the adapter of every job is archived.
pub open spec fn sound(original: Registry, current: Registry, disk: Saved, run: Switching) -> bool {
    &&& run.wf()
    &&& safe(
        original,
        current,
        disk,
        if run.stage is Record {
            run.unrecorded()
        } else {
            run.archive
        },
    )
    &&& run.stage is Record || run.running() ==> forall|k: int|
        0 <= k < run.jobs.len() ==> dns_recorded(run.archive.dns, (#[trigger] run.jobs[k]).label)
}

/// A switch that starts in a safe machine starts out sound.
pub proof fn applying_starts_sound(
    original: Registry,
    current: Registry,
    disk: Saved,
    archive: Saved,
    set: ResolverSet,
    ifaces: Seq<Adapter>,
    doh: Option<bool>,
)
    requires
        safe(original, current, disk, archive),
        ifaces.len() <= usize::MAX,
    ensures
        sound(original, current, disk, applying(archive, set, ifaces, doh)),
{
    let targets = unset(ifaces, set);
    let dns = all_ensured(archive.dns, targets);
    let jobs = switch_jobs(targets, set);
    switch_archives_first(archive.dns, targets);
    assert forall|k: int| 0 <= k < jobs.len() implies dns_recorded(
        dns,
        (#[trigger] jobs[k]).label,
    ) by {
        assert(dns_recorded(dns, targets[k].friendly));
    }
    assert(dns.take(archive.dns.len() as int) =~= archive.dns);
    assert(targets.len() <= ifaces.len()) by {
        ifaces.lemma_filter_len(|a: Adapter| !uses(a, set));
    }
    let run = Switching {
        archive: Saved { values: archive.values, dns },
        jobs,
        restoring: false,
        known: archive.dns.len(),
        doh,
        job: 0,
        stage: Stage::Record,
        refused: false,
        outcomes: Seq::empty(),
        result: None,
    };
    if dns.len() == archive.dns.len() {
        assert(dns =~= archive.dns);
        entering_is_well_formed(run, 0);
        entering_keeps_the_archive(run, 0);
    }
}

/// Entering a job keeps a run well-formed.
proof fn entering_is_well_formed(run: Switching, k: int)
    requires
        0 <= k <= run.jobs.len() <= usize::MAX,
        run.outcomes.len() == k,
        jobs_fit(run.jobs),
        run.restoring ==> run.archive.dns.len() == run.jobs.len(),
        run.result is None,
    ensures
        run.enter(k).wf(),
    decreases run.jobs.len() - k,
{
    if k < run.jobs.len() {
        if let Err(e) = run.jobs[k].plan {
            entering_is_well_formed(
                Switching { outcomes: run.outcomes.push(Err(e)), ..run },
                k + 1,
            );
        }
    } else if run.restoring {
        kept_are_the_failures(run.archive.dns, run.outcomes);
    }
}

/// Entering a job leaves the jobs alone; the archive is left alone too, unless
/// the run closes.
proof fn entering_keeps_the_archive(run: Switching, k: int)
    requires
        0 <= k,
        run.result is None,
    ensures
        run.enter(k).jobs == run.jobs,
        run.enter(k).restoring == run.restoring,
        run.enter(k).archive.values == run.archive.values,
        run.enter(k).running() || !run.restoring ==> run.enter(k).archive == run.archive,
        run.enter(k).stage !is Record,
    decreases run.jobs.len() - k,
{
    if k < run.jobs.len() {
        if let Err(e) = run.jobs[k].plan {
            entering_keeps_the_archive(
                Switching { outcomes: run.outcomes.push(Err(e)), ..run },
                k + 1,
            );
        }
    }
}

/// What is left after a restore is on disk if everything was before.
proof fn entering_keeps_covered(run: Switching, k: int, disk: Seq<Backup>)
    requires
        0 <= k,
        dns_covered(run.archive.dns, disk),
    ensures
        dns_covered(run.enter(k).archive.dns, disk),
    decreases run.jobs.len() - k,
{
    if k < run.jobs.len() {
        if let Err(e) = run.jobs[k].plan {
            entering_keeps_covered(
                Switching { outcomes: run.outcomes.push(Err(e)), ..run },
                k + 1,
                disk,
            );
        }
    } else if run.restoring {
        kept_are_covered(run.archive.dns, run.outcomes, disk);
    }
}

proof fn kept_are_covered(dns: Seq<Backup>, outcomes: Seq<Result<(), Seq<char>>>, disk: Seq<Backup>)
    requires
        dns_covered(dns, disk),
    ensures
        dns_covered(kept_backups(dns, outcomes), disk),
    decreases dns.len(),
{
    let kept = kept_backups(dns, outcomes);
    if dns.len() > 0 {
        let front = dns.drop_last();
        assert forall|interface: Seq<char>| #[trigger] dns_recorded(
            front,
            interface,
        ) implies dns_recorded(disk, interface) by {
            let i = choose|i: int|
                0 <= i < front.len() && (#[trigger] front[i]).interface == interface;
            assert(dns[i].interface == interface);
            assert(dns_recorded(dns, interface));
        }
        kept_are_covered(front, outcomes, disk);
        let rest = kept_backups(front, outcomes);
        assert forall|interface: Seq<char>| #[trigger] dns_recorded(
            kept,
            interface,
        ) implies dns_recorded(disk, interface) by {
            let i = choose|i: int|
                0 <= i < kept.len() && (#[trigger] kept[i]).interface == interface;
            if i < rest.len() {
                assert(rest[i].interface == interface);
                assert(dns_recorded(rest, interface));
            } else {
                assert(dns[dns.len() - 1].interface == interface);
                assert(dns_recorded(dns, interface));
            }
        }
    }
}

/// A restore that starts in a safe machine starts out sound.
pub proof fn restoring_starts_sound(
    original: Registry,
    current: Registry,
    disk: Saved,
    archive: Saved,
    ifaces: Seq<Adapter>,
    set: Option<ResolverSet>,
    doh: Option<bool>,
)
    requires
        safe(original, current, disk, archive),
        archive.dns.len() <= usize::MAX,
        jobs_fit(restore_jobs(archive.dns, ifaces, set)),
    ensures
        sound(
            original,
            current,
            disk,
            switching(
                archive,
                restore_jobs(archive.dns, ifaces, set),
                true,
                archive.dns.len(),
                doh,
            ),
        ),
{
    let jobs = restore_jobs(archive.dns, ifaces, set);
    assert forall|k: int| 0 <= k < jobs.len() implies dns_recorded(
        archive.dns,
        (#[trigger] jobs[k]).label,
    ) by {
        assert(archive.dns[k].interface == jobs[k].label);
    }
    let run = Switching {
        archive,
        jobs,
        restoring: true,
        known: archive.dns.len(),
        doh,
        job: 0,
        stage: Stage::Record,
        refused: false,
        outcomes: Seq::empty(),
        result: None,
    };
    entering_is_well_formed(run, 0);
    entering_keeps_the_archive(run, 0);
    entering_keeps_covered(run, 0, disk.dns);
}

/// Every step keeps the machine safe, whatever it answers. No command is run on
/// an adapter before its configuration is in the archive on disk.
pub proof fn switching_keeps_recoverable(
    original: Registry,
    before: Registry,
    disk: Saved,
    run: Switching,
    reply: Rep,
    after: Registry,
)
    requires
        sound(original, before, disk, run),
        run.pending() is Some,
        truthful(before, run.pending()->0, reply, after),
    ensures
        after == before,
        run.running() ==> dns_recorded(disk.dns, run.jobs[run.job as int].label),
        sound(
            original,
            after,
            on_disk(disk, run.archive, run.pending()->0, reply),
            run.advance(reply),
        ),
{
    let entered = |told: Switching, outcome: Result<(), Seq<char>>|
        Switching { outcomes: told.outcomes.push(outcome), ..told };
    match (run.stage, reply) {
        (Stage::Record, Rep::Done(Ok(_))) => {
            entering_is_well_formed(run, 0);
            entering_keeps_the_archive(run, 0);
        },
        (Stage::Required(_), Rep::Output(Err(e))) => {
            let ended = entered(run, Err(e));
            entering_is_well_formed(ended, run.job + 1);
            entering_keeps_the_archive(ended, run.job + 1);
            entering_keeps_covered(ended, run.job + 1, disk.dns);
        },
        (Stage::Encrypt(_), Rep::Output(answer)) => {
            let told = Switching { refused: run.refused || answer is Err, ..run };
            let ended = entered(told, Ok(()));
            entering_is_well_formed(ended, run.job + 1);
            entering_keeps_the_archive(ended, run.job + 1);
            entering_keeps_covered(ended, run.job + 1, disk.dns);
        },
        (Stage::Probe, Rep::Output(answer)) => {
            let told = Switching { doh: Some(doh_available(answer)), ..run };
            let ended = entered(told, Ok(()));
            entering_is_well_formed(ended, run.job + 1);
            entering_keeps_the_archive(ended, run.job + 1);
            entering_keeps_covered(ended, run.job + 1, disk.dns);
        },
        _ => {
            let ended = entered(run, Ok(()));
            if run.running() {
                entering_is_well_formed(ended, run.job + 1);
                entering_keeps_the_archive(ended, run.job + 1);
                entering_keeps_covered(ended, run.job + 1, disk.dns);
            }
        },
    }
}

/// `auto` always names one of the two real sets. It is Google's only when Google
/// answers and Cloudflare does not or is slower: ties and missing measurements
/// go to Cloudflare.
pub proof fn auto_breaks_ties_to_cloudflare(latency: Option<Measured>)
    ensures
        resolved(DnsProvider::Auto, latency) == cloudflare_set() || resolved(
            DnsProvider::Auto,
            latency,
        ) == google_set(),
        latency is None ==> resolved(DnsProvider::Auto, latency) == cloudflare_set(),
        latency matches Some(m) ==> {
            let c = counted_ms(m.cf_dns_ms, m.cloudflare.rtt());
            let g = counted_ms(m.google_dns_ms, m.google.rtt());
            &&& c == g ==> resolved(DnsProvider::Auto, latency) == cloudflare_set()
            &&& g is None ==> resolved(DnsProvider::Auto, latency) == cloudflare_set()
            &&& c is Some && g is Some && c->0 < g->0 ==> resolved(DnsProvider::Auto, latency)
                == cloudflare_set()
            &&& c is Some && g is Some && g->0 < c->0 ==> resolved(DnsProvider::Auto, latency)
                == google_set()
        },
{
}

proof fn none_is_unset(ifaces: Seq<Adapter>, set: ResolverSet)
    requires
        forall|i: int| 0 <= i < ifaces.len() ==> uses(#[trigger] ifaces[i], set),
    ensures
        unset(ifaces, set) == Seq::<Adapter>::empty(),
    decreases ifaces.len(),
{
    reveal(Seq::filter);
    if ifaces.len() > 0 {
        let front = ifaces.drop_last();
        assert forall|i: int| 0 <= i < front.len() implies uses(#[trigger] front[i], set) by {
            assert(front[i] == ifaces[i]);
        }
        none_is_unset(front, set);
    }
}

/// Where every active adapter uses the set already, a switch does nothing: it
/// has succeeded at once, and the archive is what it was.
pub proof fn aligned_adapters_are_left_alone(
    archive: Saved,
    set: ResolverSet,
    ifaces: Seq<Adapter>,
    doh: Option<bool>,
)
    requires
        forall|i: int| 0 <= i < ifaces.len() ==> uses(#[trigger] ifaces[i], set),
    ensures
        applying(archive, set, ifaces, doh).archive == archive,
        applying(archive, set, ifaces, doh).pending() is None,
        applying(archive, set, ifaces, doh).result == Some(Ok::<(), Seq<char>>(())),
{
    none_is_unset(ifaces, set);
    assert(switch_jobs(unset(ifaces, set), set) =~= Seq::<Task>::empty());
}

} // verus!
