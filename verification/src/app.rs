//! The interactive terminal application.
//!
//! A status panel with per-feature toggles bound to single keys. A key press
//! changes the state and may ask for work on the machine; what became of that
//! work is handed back. A timer re-applies what has drifted, and redraws.

use vstd::prelude::*;

use crate::cli;
use crate::cli::{line_views, warning, Line, Shown};
use crate::config::{enabled_of, Archive, Config, DnsProvider, Feature, Saved};
use crate::connections::TcpConnections;
use crate::dns;
use crate::dns::{resolved, set_view, DnsStatus, ResolverSet, Resolvers};
use crate::interfaces;
use crate::interfaces::{active_of, adapters, physical_of, Adapter, Interface};
use crate::mtu;
use crate::mtu::{all_report, target_met};
use crate::ops::{message_view, result_view, result_views};
use crate::paint::{GREEN, RED, YELLOW};
use crate::power;
use crate::power::{all_stay_on, nic_views, Nic, NicNode};
use crate::probe::{Latency, Measured};
use crate::registry::{Seen, Snapshot};
use crate::system;
use crate::tcp;
use crate::tcp::TcpStatus;
use crate::text;
use crate::text::{joined, lower, views};
use crate::traffic;
use crate::traffic::{advanced, transfers_of, Row, Transfer};
use crate::wlan::{link_views, Link, WlanLink};

verus! {

/// The state of the application.
#[derive(Debug)]
pub struct App {
    /// The enabled feature groups.
    pub cfg: Config,
    /// The machine state that the program replaced.
    pub archive: Archive,
    /// Why the last operation failed.
    pub last_error: Option<String>,
    /// A short notice, and the millisecond at which it came up.
    pub flash: Option<(String, u64)>,
    /// State of the TCP tuning.
    pub tcp: TcpStatus,
    /// State of the DNS feature.
    pub dns: DnsStatus,
    /// Whether the network throttling is removed.
    pub throttling: bool,
    /// Whether the MTU tweak is in its target state right now.
    pub mtu_ok: bool,
    /// Whether NICs currently disallow power-down.
    pub power_ok: bool,
    /// The physical adapters.
    pub physical: Vec<Interface>,
    /// How many of them are active.
    pub active_ifaces: usize,
    /// The question whether to quit is open.
    pub confirming_quit: bool,
    /// Quitting reverts every tweak.
    pub quit_removes: bool,
    /// The application is to end.
    pub quit: bool,
    /// Resolver set currently applied, used to align the self-heal checks.
    pub active_dns: Option<Resolvers>,
    /// Per-adapter detail pane open.
    pub detail: bool,
    /// Action log viewer open.
    pub show_log: bool,
    /// Live TCP connection statistics.
    pub connections: TcpConnections,
    /// Previous traffic counter snapshot; transfers derive from its diff.
    pub traffic_prev: Option<traffic::Snapshot>,
    /// What each adapter transferred in the last glance window.
    pub transfers: Vec<Transfer>,
    /// Length of that window in nanoseconds.
    pub glance: u64,
    /// Wi-Fi link diagnostics per wireless interface.
    pub wlan: Vec<WlanLink>,
    /// The freshest latency measurement.
    pub latency: Option<Latency>,
}

/// An [`App`] over texts.
#[verifier::ext_equal]
pub struct State {
    pub cfg: Config,
    pub archive: Saved,
    pub last_error: Option<Seq<char>>,
    pub flash: Option<(Seq<char>, u64)>,
    pub tcp: TcpStatus,
    pub dns: DnsStatus,
    pub throttling: bool,
    pub mtu_ok: bool,
    pub power_ok: bool,
    pub physical: Seq<Adapter>,
    pub active_ifaces: usize,
    pub confirming_quit: bool,
    pub quit_removes: bool,
    pub quit: bool,
    pub active_dns: Option<ResolverSet>,
    pub detail: bool,
    pub show_log: bool,
    pub connections: TcpConnections,
    pub traffic_prev: Option<(u64, Seq<Row>)>,
    pub transfers: Seq<Transfer>,
    pub glance: u64,
    pub wlan: Seq<Link>,
    pub latency: Option<Measured>,
}

/// A notice over texts.
pub open spec fn flash_view(flash: Option<(String, u64)>) -> Option<(Seq<char>, u64)> {
    match flash {
        Some((text, at)) => Some((text@, at)),
        None => None,
    }
}

/// A traffic snapshot as a sequence.
pub open spec fn counters_view(snapshot: Option<traffic::Snapshot>) -> Option<(u64, Seq<Row>)> {
    match snapshot {
        Some(s) => Some((s.taken_at, s.rows@)),
        None => None,
    }
}

/// A measurement over windows.
pub open spec fn measured(latency: Option<Latency>) -> Option<Measured> {
    match latency {
        Some(l) => Some(l@),
        None => None,
    }
}

impl View for App {
    type V = State;

    open spec fn view(&self) -> State {
        State {
            cfg: self.cfg,
            archive: self.archive@,
            last_error: message_view(self.last_error),
            flash: flash_view(self.flash),
            tcp: self.tcp,
            dns: self.dns,
            throttling: self.throttling,
            mtu_ok: self.mtu_ok,
            power_ok: self.power_ok,
            physical: adapters(self.physical@),
            active_ifaces: self.active_ifaces,
            confirming_quit: self.confirming_quit,
            quit_removes: self.quit_removes,
            quit: self.quit,
            active_dns: set_view(self.active_dns),
            detail: self.detail,
            show_log: self.show_log,
            connections: self.connections,
            traffic_prev: counters_view(self.traffic_prev),
            transfers: self.transfers@,
            glance: self.glance,
            wlan: link_views(self.wlan@),
            latency: measured(self.latency),
        }
    }
}

/// Work on one feature group.
#[derive(Clone, Copy, Debug, PartialEq, Eq)]
pub enum Work {
    /// Keep a dated copy of the archive.
    Snapshot,
    ApplyTcp,
    RevertTcp,
    ApplyDns(Resolvers),
    /// Away from the set that was applied, if that is known.
    RevertDns(Option<Resolvers>),
    ApplyThrottling,
    RevertThrottling,
    ApplyMtu(u32),
    RevertMtu,
    ApplyPower,
    RevertPower,
    Nothing,
}

/// A [`Work`] over texts.
pub enum Deed {
    Snapshot,
    ApplyTcp,
    RevertTcp,
    ApplyDns(ResolverSet),
    RevertDns(Option<ResolverSet>),
    ApplyThrottling,
    RevertThrottling,
    ApplyMtu(u32),
    RevertMtu,
    ApplyPower,
    RevertPower,
    Nothing,
}

impl View for Work {
    type V = Deed;

    open spec fn view(&self) -> Deed {
        match *self {
            Work::Snapshot => Deed::Snapshot,
            Work::ApplyTcp => Deed::ApplyTcp,
            Work::RevertTcp => Deed::RevertTcp,
            Work::ApplyDns(set) => Deed::ApplyDns(set@),
            Work::RevertDns(set) => Deed::RevertDns(set_view(set)),
            Work::ApplyThrottling => Deed::ApplyThrottling,
            Work::RevertThrottling => Deed::RevertThrottling,
            Work::ApplyMtu(target) => Deed::ApplyMtu(target),
            Work::RevertMtu => Deed::RevertMtu,
            Work::ApplyPower => Deed::ApplyPower,
            Work::RevertPower => Deed::RevertPower,
            Work::Nothing => Deed::Nothing,
        }
    }
}

/// Works over texts.
pub open spec fn deeds(v: Seq<Work>) -> Seq<Deed> {
    Seq::new(v.len(), |i: int| v[i]@)
}

/// The group that an error message names.
pub open spec fn label_of(deed: Deed) -> Seq<char> {
    match deed {
        Deed::Snapshot => "archive"@,
        Deed::ApplyTcp | Deed::RevertTcp => "tcp"@,
        Deed::ApplyThrottling | Deed::RevertThrottling => "throttling"@,
        Deed::ApplyMtu(_) | Deed::RevertMtu => "mtu"@,
        Deed::ApplyPower | Deed::RevertPower => "power"@,
        Deed::ApplyDns(_) | Deed::RevertDns(_) | Deed::Nothing => "dns"@,
    }
}

/// The message about work that failed.
pub open spec fn trouble(deed: Deed, error: Seq<char>) -> Seq<char> {
    label_of(deed) + ": "@ + error
}

impl Work {
    /// The group that an error message names.
    pub fn label(&self) -> (label: &'static str)
        ensures
            label@ == label_of(self@),
    {
        match self {
            Work::Snapshot => "archive",
            Work::ApplyTcp | Work::RevertTcp => "tcp",
            Work::ApplyThrottling | Work::RevertThrottling => "throttling",
            Work::ApplyMtu(_) | Work::RevertMtu => "mtu",
            Work::ApplyPower | Work::RevertPower => "power",
            Work::ApplyDns(_) | Work::RevertDns(_) | Work::Nothing => "dns",
        }
    }

    fn failed(&self, error: &str) -> (message: String)
        ensures
            message@ == trouble(self@, error@),
    {
        self.label().to_owned().concat(": ").concat(error)
    }
}

/// What a key press asks for.
#[derive(Clone, Copy, Debug, PartialEq, Eq)]
pub enum Request {
    /// Save the config.
    Save,
    /// Save the config, do this work, and refresh.
    Switch(Work),
    /// Start on login from now on, or no longer.
    ToggleAutostart,
    /// Flush the DNS cache.
    FlushDns,
    /// Create a restore point.
    RestorePoint,
}

/// A [`Request`] over texts.
pub enum Ask {
    Save,
    Switch(Deed),
    ToggleAutostart,
    FlushDns,
    RestorePoint,
}

impl View for Request {
    type V = Ask;

    open spec fn view(&self) -> Ask {
        match *self {
            Request::Save => Ask::Save,
            Request::Switch(work) => Ask::Switch(work@),
            Request::ToggleAutostart => Ask::ToggleAutostart,
            Request::FlushDns => Ask::FlushDns,
            Request::RestorePoint => Ask::RestorePoint,
        }
    }
}

/// An optional request over texts.
pub open spec fn request_view(r: Option<Request>) -> Option<Ask> {
    match r {
        Some(request) => Some(request@),
        None => None,
    }
}

// ---------------------------------------------------------------------------
// Cycles
// ---------------------------------------------------------------------------

/// The provider after this one: cloudflare -> google -> auto -> cloudflare.
pub open spec fn provider_after(provider: DnsProvider) -> DnsProvider {
    match provider {
        DnsProvider::Cloudflare => DnsProvider::Google,
        DnsProvider::Google => DnsProvider::Auto,
        DnsProvider::Auto => DnsProvider::Cloudflare,
    }
}

/// Steps the DNS provider forward: cloudflare -> google -> auto -> cloudflare.
pub fn next_provider(provider: DnsProvider) -> (next: DnsProvider)
    ensures
        next == provider_after(provider),
{
    match provider {
        DnsProvider::Cloudflare => DnsProvider::Google,
        DnsProvider::Google => DnsProvider::Auto,
        DnsProvider::Auto => DnsProvider::Cloudflare,
    }
}

/// Presets for the MTU `u` key cycle: off -> 1500 -> 1400 -> off.
pub open spec fn presets() -> Seq<Option<u32>> {
    seq![None, Some(1500u32), Some(1400u32)]
}

/// Presets for the MTU `u` key cycle: off -> 1500 -> 1400 -> off.
pub fn mtu_cycle() -> (cycle: Vec<Option<u32>>)
    ensures
        cycle@ == presets(),
{
    let mut cycle: Vec<Option<u32>> = Vec::new();
    cycle.push(None);
    cycle.push(Some(1500));
    cycle.push(Some(1400));
    assert(cycle@ =~= presets());
    cycle
}

/// Where a value first stands in a cycle; the start, if it is no member.
pub open spec fn place(value: Option<u32>, cycle: Seq<Option<u32>>) -> int {
    if cycle.contains(value) {
        cycle.index_of_first(value).unwrap()
    } else {
        0
    }
}

/// The member of the cycle after this value.
pub open spec fn step(value: Option<u32>, cycle: Seq<Option<u32>>) -> Option<u32> {
    cycle[(place(value, cycle) + 1) % (cycle.len() as int)]
}

fn same_mtu(a: Option<u32>, b: Option<u32>) -> (equal: bool)
    ensures
        equal == (a == b),
{
    match (a, b) {
        (Some(x), Some(y)) => x == y,
        (None, None) => true,
        _ => false,
    }
}

/// Steps `value` through `cycle`, wrapping around at its end. A value that is
/// no member counts as the first.
pub fn next_in_cycle(value: &Option<u32>, cycle: &[Option<u32>]) -> (next: Option<u32>)
    requires
        cycle@.len() > 0,
    ensures
        next == step(*value, cycle@),
{
    let mut at: usize = 0;
    let mut i: usize = 0;
    let mut found: bool = false;
    while i < cycle.len() && !found
        invariant
            i <= cycle@.len(),
            forall|k: int| 0 <= k < i && !found ==> (#[trigger] cycle@[k]) != *value,
            !found ==> at == 0,
            found ==> at < cycle@.len() && cycle@[at as int] == *value && forall|k: int|
                0 <= k < at ==> (#[trigger] cycle@[k]) != *value,
        decreases cycle@.len() - i,
    {
        if same_mtu(cycle[i], *value) {
            at = i;
            found = true;
        }
        i = i + 1;
    }
    proof {
        if found {
            cycle@.index_of_first_ensures(*value);
            let first = cycle@.index_of_first(*value).unwrap();
            assert(cycle@[first] == *value);
            assert(first == at);
        }
    }
    if at + 1 == cycle.len() {
        assert((at + 1) % (cycle@.len() as int) == 0) by (nonlinear_arith)
            requires
                at + 1 == cycle@.len(),
        ;
        cycle[0]
    } else {
        assert((at + 1) % (cycle@.len() as int) == at + 1) by (nonlinear_arith)
            requires
                at + 1 < cycle@.len(),
        ;
        cycle[at + 1]
    }
}

// ---------------------------------------------------------------------------
// Keys
// ---------------------------------------------------------------------------

impl State {
    /// Its measurement has bounded windows.
    pub open spec fn wf(self) -> bool {
        self.latency matches Some(m) ==> m.wf()
    }

    /// The resolver set the DNS feature should use right now.
    pub open spec fn resolvers(self) -> ResolverSet {
        resolved(self.cfg.dns_provider, self.latency)
    }

    /// The state with another config.
    pub open spec fn with(self, cfg: Config) -> State {
        State { cfg, ..self }
    }

    /// The answer to the question whether to quit.
    pub open spec fn answered(self, c: char) -> State {
        if c == 'y' {
            State { quit: true, ..self }
        } else if c == 'n' || c == '\x1b' {
            State { confirming_quit: false, ..self }
        } else {
            self
        }
    }

    /// The state after a key press outside the question, and what it asks for.
    pub open spec fn commanded(self, c: char) -> (State, Option<Ask>) {
        let cfg = self.cfg;
        if c == 't' {
            (
                self.with(Config { tcp: !cfg.tcp, ..cfg }),
                Some(
                    Ask::Switch(
                        if cfg.tcp {
                            Deed::RevertTcp
                        } else {
                            Deed::ApplyTcp
                        },
                    ),
                ),
            )
        } else if c == 'd' {
            if cfg.dns {
                (
                    State { active_dns: None, ..self.with(Config { dns: false, ..cfg }) },
                    Some(Ask::Switch(Deed::RevertDns(self.active_dns))),
                )
            } else {
                (
                    self.with(Config { dns: true, ..cfg }),
                    Some(Ask::Switch(Deed::ApplyDns(self.resolvers()))),
                )
            }
        } else if c == 'm' {
            (
                self.with(Config { multimedia: !cfg.multimedia, ..cfg }),
                Some(
                    Ask::Switch(
                        if cfg.multimedia {
                            Deed::RevertThrottling
                        } else {
                            Deed::ApplyThrottling
                        },
                    ),
                ),
            )
        } else if c == 'u' {
            let next = step(cfg.mtu, presets());
            (
                self.with(Config { mtu: next, ..cfg }),
                Some(
                    Ask::Switch(
                        match next {
                            Some(target) => Deed::ApplyMtu(target),
                            None => Deed::RevertMtu,
                        },
                    ),
                ),
            )
        } else if c == 'p' {
            (
                self.with(Config { power: !cfg.power, ..cfg }),
                Some(
                    Ask::Switch(
                        if cfg.power {
                            Deed::RevertPower
                        } else {
                            Deed::ApplyPower
                        },
                    ),
                ),
            )
        } else if c == 'r' {
            let next = self.with(
                Config { dns_provider: provider_after(cfg.dns_provider), ..cfg },
            );
            (
                next,
                Some(
                    Ask::Switch(
                        if cfg.dns {
                            Deed::ApplyDns(next.resolvers())
                        } else {
                            Deed::Nothing
                        },
                    ),
                ),
            )
        } else if c == 'i' {
            (State { detail: !self.detail, ..self }, None)
        } else if c == 'l' {
            (State { show_log: !self.show_log, ..self }, None)
        } else if c == 'h' {
            (self.with(Config { self_heal: !cfg.self_heal, ..cfg }), Some(Ask::Save))
        } else if c == 'a' {
            (self, Some(Ask::ToggleAutostart))
        } else if c == 'f' {
            (self, Some(Ask::FlushDns))
        } else if c == 's' {
            (self, Some(Ask::RestorePoint))
        } else if c == 'q' {
            (State { quit_removes: false, confirming_quit: true, ..self }, None)
        } else if c == 'x' {
            (State { quit_removes: true, confirming_quit: true, ..self }, None)
        } else {
            (self, None)
        }
    }

    /// The state after a key press, and what it asks for. ASCII case does not
    /// matter.
    pub open spec fn pressed(self, key: char) -> (State, Option<Ask>) {
        if self.confirming_quit {
            (self.answered(lower(key)), None)
        } else {
            self.commanded(lower(key))
        }
    }
}

/// The state of an application that has not looked at the machine yet.
pub open spec fn fresh(cfg: Config, archive: Saved) -> State {
    State {
        cfg,
        archive,
        last_error: None,
        flash: None,
        tcp: TcpStatus { ifaces_ok: 0, ifaces_total: 0, global_ok: false },
        dns: DnsStatus { aligned: 0, total: 0 },
        throttling: false,
        mtu_ok: true,
        power_ok: true,
        physical: Seq::empty(),
        active_ifaces: 0,
        confirming_quit: false,
        quit_removes: false,
        quit: false,
        active_dns: None,
        detail: false,
        show_log: false,
        connections: TcpConnections { total: 0, established: 0, time_wait: 0 },
        traffic_prev: None,
        transfers: Seq::empty(),
        glance: 0,
        wlan: Seq::empty(),
        latency: None,
    }
}

impl App {
    /// Creates the state without touching the machine.
    pub fn base(cfg: Config, archive: Archive) -> (app: App)
        ensures
            app@ == fresh(cfg, archive@),
    {
        let app = App {
            cfg,
            archive,
            last_error: None,
            flash: None,
            tcp: TcpStatus::default(),
            dns: DnsStatus::default(),
            throttling: false,
            mtu_ok: true,
            power_ok: true,
            physical: Vec::new(),
            active_ifaces: 0,
            confirming_quit: false,
            quit_removes: false,
            quit: false,
            active_dns: None,
            detail: false,
            show_log: false,
            connections: TcpConnections::default(),
            traffic_prev: None,
            transfers: Vec::new(),
            glance: 0,
            wlan: Vec::new(),
            latency: None,
        };
        assert(app@ =~= fresh(cfg, archive@));
        app
    }

    /// The resolver set the DNS feature should use right now. For `Auto` the
    /// freshest latency measurement decides; without one Cloudflare wins.
    pub fn resolve_dns(&self) -> (set: Resolvers)
        ensures
            set@ == self@.resolvers(),
    {
        dns::resolve_provider(self.cfg.dns_provider, self.latency.as_ref())
    }

    fn toggle_tcp(&mut self) -> (request: Request)
        ensures
            (final(self)@, Some(request@)) == old(self)@.commanded('t'),
    {
        self.cfg.tcp = !self.cfg.tcp;
        Request::Switch(
            if self.cfg.tcp {
                Work::ApplyTcp
            } else {
                Work::RevertTcp
            },
        )
    }

    fn toggle_dns(&mut self) -> (request: Request)
        ensures
            (final(self)@, Some(request@)) == old(self)@.commanded('d'),
    {
        self.cfg.dns = !self.cfg.dns;
        if self.cfg.dns {
            let resolvers = self.resolve_dns();
            Request::Switch(Work::ApplyDns(resolvers))
        } else {
            let last = self.active_dns;
            self.active_dns = None;
            Request::Switch(Work::RevertDns(last))
        }
    }

    fn toggle_multimedia(&mut self) -> (request: Request)
        ensures
            (final(self)@, Some(request@)) == old(self)@.commanded('m'),
    {
        self.cfg.multimedia = !self.cfg.multimedia;
        Request::Switch(
            if self.cfg.multimedia {
                Work::ApplyThrottling
            } else {
                Work::RevertThrottling
            },
        )
    }

    fn cycle_mtu(&mut self) -> (request: Request)
        ensures
            (final(self)@, Some(request@)) == old(self)@.commanded('u'),
    {
        let cycle = mtu_cycle();
        let next = next_in_cycle(&self.cfg.mtu, cycle.as_slice());
        self.cfg.mtu = next;
        match next {
            Some(target) => Request::Switch(Work::ApplyMtu(target)),
            None => Request::Switch(Work::RevertMtu),
        }
    }

    fn toggle_power(&mut self) -> (request: Request)
        ensures
            (final(self)@, Some(request@)) == old(self)@.commanded('p'),
    {
        self.cfg.power = !self.cfg.power;
        Request::Switch(
            if self.cfg.power {
                Work::ApplyPower
            } else {
                Work::RevertPower
            },
        )
    }

    fn cycle_provider(&mut self) -> (request: Request)
        ensures
            (final(self)@, Some(request@)) == old(self)@.commanded('r'),
    {
        self.cfg.dns_provider = next_provider(self.cfg.dns_provider);
        if self.cfg.dns {
            let resolvers = self.resolve_dns();
            Request::Switch(Work::ApplyDns(resolvers))
        } else {
            Request::Switch(Work::Nothing)
        }
    }

    fn answer(&mut self, c: char)
        ensures
            final(self)@ == old(self)@.answered(c),
    {
        if c == 'y' {
            self.quit = true;
        } else if c == 'n' || c == '\x1b' {
            self.confirming_quit = false;
        }
    }

    fn switch(&mut self, c: char) -> (request: Option<Request>)
        requires
            c == 't' || c == 'd' || c == 'm' || c == 'u' || c == 'p' || c == 'r',
        ensures
            (final(self)@, request_view(request)) == old(self)@.commanded(c),
    {
        if c == 't' {
            Some(self.toggle_tcp())
        } else if c == 'd' {
            Some(self.toggle_dns())
        } else if c == 'm' {
            Some(self.toggle_multimedia())
        } else if c == 'u' {
            Some(self.cycle_mtu())
        } else if c == 'p' {
            Some(self.toggle_power())
        } else {
            Some(self.cycle_provider())
        }
    }

    fn open_pane(&mut self, c: char)
        requires
            c == 'i' || c == 'l' || c == 'h',
        ensures
            final(self)@ == old(self)@.commanded(c).0,
    {
        if c == 'i' {
            self.detail = !self.detail;
        } else if c == 'l' {
            self.show_log = !self.show_log;
        } else {
            self.cfg.self_heal = !self.cfg.self_heal;
        }
    }

    fn ask_to_quit(&mut self, c: char)
        requires
            c == 'q' || c == 'x',
        ensures
            final(self)@ == old(self)@.commanded(c).0,
    {
        self.quit_removes = c == 'x';
        self.confirming_quit = true;
    }

    fn look(&mut self, c: char) -> (request: Option<Request>)
        requires
            c != 't' && c != 'd' && c != 'm' && c != 'u' && c != 'p' && c != 'r',
        ensures
            final(self)@ == old(self)@.commanded(c).0,
            request_view(request) == old(self)@.commanded(c).1,
    {
        if c == 'i' || c == 'l' || c == 'h' {
            self.open_pane(c);
        } else if c == 'q' || c == 'x' {
            self.ask_to_quit(c);
        }
        if c == 'h' {
            Some(Request::Save)
        } else if c == 'a' {
            Some(Request::ToggleAutostart)
        } else if c == 'f' {
            Some(Request::FlushDns)
        } else if c == 's' {
            Some(Request::RestorePoint)
        } else {
            None
        }
    }

    /// Takes in a key press.
    pub fn key(&mut self, key: char) -> (request: Option<Request>)
        ensures
            (final(self)@, request_view(request)) == old(self)@.pressed(key),
    {
        let c = text::to_lower(key);
        if self.confirming_quit {
            self.answer(c);
            None
        } else if c == 't' || c == 'd' || c == 'm' || c == 'u' || c == 'p' || c == 'r' {
            self.switch(c)
        } else {
            self.look(c)
        }
    }
}

// ---------------------------------------------------------------------------
// Work and its outcome
// ---------------------------------------------------------------------------

/// The resolver set in use after this work.
pub open spec fn adopted(
    active: Option<ResolverSet>,
    deed: Deed,
    result: Result<(), Seq<char>>,
) -> Option<ResolverSet> {
    match (deed, result) {
        (Deed::ApplyDns(set), Ok(_)) => Some(set),
        _ => active,
    }
}

/// The resolver set in use after a row of works.
pub open spec fn all_adopted(
    active: Option<ResolverSet>,
    works: Seq<Deed>,
    results: Seq<Result<(), Seq<char>>>,
) -> Option<ResolverSet>
    decreases works.len(),
{
    if works.len() == 0 {
        active
    } else {
        adopted(
            all_adopted(active, works.drop_last(), results.drop_last()),
            works.last(),
            results.last(),
        )
    }
}

/// The messages about the works that failed, in order.
pub open spec fn troubles(works: Seq<Deed>, results: Seq<Result<(), Seq<char>>>) -> Seq<Seq<char>>
    decreases works.len(),
{
    if works.len() == 0 {
        Seq::empty()
    } else {
        let rest = troubles(works.drop_last(), results.drop_last());
        match results.last() {
            Ok(_) => rest,
            Err(e) => rest.push(trouble(works.last(), e)),
        }
    }
}

/// What a feature needs to be applied.
pub open spec fn deed_for(feature: Feature, set: ResolverSet) -> Deed {
    match feature {
        Feature::Tcp => Deed::ApplyTcp,
        Feature::Dns => Deed::ApplyDns(set),
        Feature::Multimedia => Deed::ApplyThrottling,
        Feature::Mtu(target) => Deed::ApplyMtu(target),
        Feature::Power => Deed::ApplyPower,
    }
}

/// What a row of features needs to be applied.
pub open spec fn deeds_for(features: Seq<Feature>, set: ResolverSet) -> Seq<Deed> {
    Seq::new(features.len(), |i: int| deed_for(features[i], set))
}

/// One work, if it is due.
pub open spec fn deed_if(due: bool, deed: Deed) -> Seq<Deed> {
    if due {
        seq![deed]
    } else {
        Seq::empty()
    }
}

impl State {
    /// The state after the work of a key press, and after the config was saved.
    pub open spec fn switched(
        self,
        deed: Deed,
        result: Result<(), Seq<char>>,
        saved: Result<(), Seq<char>>,
    ) -> State {
        State {
            active_dns: adopted(self.active_dns, deed, result),
            last_error: match (saved, result) {
                (Err(e), _) => Some("save config: "@ + e),
                (Ok(_), Err(e)) => Some(trouble(deed, e)),
                (Ok(_), Ok(_)) => None,
            },
            ..self
        }
    }

    /// The state after work at startup.
    pub open spec fn started(
        self,
        deed: Deed,
        result: Result<(), Seq<char>>,
        tuned: Option<TcpStatus>,
    ) -> State {
        State {
            active_dns: adopted(self.active_dns, deed, result),
            tcp: match (result, tuned) {
                (Ok(_), Some(status)) => status,
                _ => self.tcp,
            },
            last_error: match result {
                Ok(_) => self.last_error,
                Err(e) => Some(trouble(deed, e)),
            },
            ..self
        }
    }

    /// The state after a round of works; every failure is told.
    pub open spec fn settled(
        self,
        works: Seq<Deed>,
        results: Seq<Result<(), Seq<char>>>,
    ) -> State {
        let errors = troubles(works, results);
        State {
            active_dns: all_adopted(self.active_dns, works, results),
            last_error: if errors.len() == 0 {
                None
            } else {
                Some(joined(errors, " | "@))
            },
            ..self
        }
    }

    /// What has to be applied at startup: every enabled feature, after a copy
    /// of the archive was kept.
    pub open spec fn startup(self) -> Seq<Deed> {
        let features = enabled_of(self.cfg);
        if features.len() == 0 {
            Seq::empty()
        } else {
            seq![Deed::Snapshot] + deeds_for(features, self.resolvers())
        }
    }

    /// True when the resolvers have to be set again: an adapter lost them, or
    /// another provider has become the faster one.
    pub open spec fn dns_drifted(self) -> bool {
        ||| !self.dns.is_aligned()
        ||| self.active_dns is Some && self.active_dns->0.provider != self.resolvers().provider
    }

    /// The state once the config was saved, or was not.
    pub open spec fn saved(self, outcome: Result<(), Seq<char>>) -> State {
        match outcome {
            Err(e) => State { last_error: Some("save config: "@ + e), ..self },
            Ok(_) => self,
        }
    }

    /// The state once the autostart entry was changed, or was not.
    pub open spec fn started_with_windows(self, outcome: Result<(), Seq<char>>) -> State {
        match outcome {
            Err(e) => State { last_error: Some("autostart: "@ + e), ..self },
            Ok(_) => State { last_error: None, ..self },
        }
    }

    /// The state once a restore point was created, or was not.
    pub open spec fn secured(self, outcome: Result<(), Seq<char>>, now: u64) -> State {
        match outcome {
            Err(e) => State { last_error: Some("restore point: "@ + e), ..self },
            Ok(_) => State { flash: Some(("restore point created"@, now)), ..self },
        }
    }

    /// What has to be applied again: every enabled feature that has drifted.
    pub open spec fn drifted(self) -> Seq<Deed> {
        deed_if(self.cfg.tcp && !self.tcp.is_aligned(), Deed::ApplyTcp) + deed_if(
            self.cfg.dns && self.dns_drifted(),
            Deed::ApplyDns(self.resolvers()),
        ) + deed_if(self.cfg.multimedia && !self.throttling, Deed::ApplyThrottling) + (
        match self.cfg.mtu {
            Some(target) => deed_if(!self.mtu_ok, Deed::ApplyMtu(target)),
            None => Seq::empty(),
        }) + deed_if(self.cfg.power && !self.power_ok, Deed::ApplyPower)
    }

    /// Every group's revert.
    pub open spec fn undoing(self) -> Seq<Deed> {
        seq![
            Deed::RevertMtu,
            Deed::RevertTcp,
            Deed::RevertDns(self.active_dns),
            Deed::RevertThrottling,
            Deed::RevertPower,
        ]
    }
}

fn add_if(works: &mut Vec<Work>, due: bool, work: Work)
    ensures
        deeds(final(works)@) == deeds(old(works)@) + deed_if(due, work@),
{
    let ghost before = works@;
    if due {
        works.push(work);
    }
    assert(deeds(works@) =~= deeds(before) + deed_if(due, work@));
}

impl App {
    fn adopt(&mut self, work: &Work, result: &Result<(), String>)
        ensures
            final(self)@ == (State {
                active_dns: adopted(old(self)@.active_dns, work@, result_view(*result)),
                ..old(self)@
            }),
    {
        if let Work::ApplyDns(set) = work {
            if result.is_ok() {
                self.active_dns = Some(*set);
            }
        }
    }

    /// Takes in whether the config was saved.
    pub fn report_save(&mut self, saved: &Result<(), String>)
        ensures
            final(self)@ == old(self)@.saved(result_view(*saved)),
            final(self)@ == (State {
                last_error: match result_view(*saved) {
                    Err(e) => Some("save config: "@ + e),
                    Ok(_) => old(self)@.last_error,
                },
                ..old(self)@
            }),
    {
        if let Err(e) = saved {
            self.last_error = Some("save config: ".to_owned().concat(e.as_str()));
        }
    }

    fn apply_result(&mut self, work: &Work, result: &Result<(), String>)
        ensures
            final(self)@ == (State {
                last_error: match result_view(*result) {
                    Err(e) => Some(trouble(work@, e)),
                    Ok(_) => None,
                },
                ..old(self)@
            }),
    {
        match result {
            Ok(_) => {
                self.last_error = None;
            },
            Err(e) => {
                self.last_error = Some(work.failed(e.as_str()));
            },
        }
    }

    /// Takes in what became of the work of a key press, and of saving the
    /// config.
    pub fn switched(
        &mut self,
        work: &Work,
        result: &Result<(), String>,
        saved: &Result<(), String>,
    )
        ensures
            final(self)@ == old(self)@.switched(work@, result_view(*result), result_view(*saved)),
    {
        self.adopt(work, result);
        self.apply_result(work, result);
        self.report_save(saved);
    }

    /// Takes in whether the autostart entry was changed.
    pub fn autostart_set(&mut self, result: &Result<(), String>)
        ensures
            final(self)@ == old(self)@.started_with_windows(result_view(*result)),
            final(self)@ == (State {
                last_error: match result_view(*result) {
                    Err(e) => Some("autostart: "@ + e),
                    Ok(_) => None,
                },
                ..old(self)@
            }),
    {
        match result {
            Ok(_) => {
                self.last_error = None;
            },
            Err(e) => {
                self.last_error = Some("autostart: ".to_owned().concat(e.as_str()));
            },
        }
    }

    /// Takes in that the DNS cache was flushed, at this millisecond.
    pub fn flushed(&mut self, now: u64)
        ensures
            final(self)@ == (State { flash: Some(("dns cache flushed"@, now)), ..old(self)@ }),
    {
        self.flash = Some(("dns cache flushed".to_owned(), now));
    }

    /// Takes in whether a restore point was created, at this millisecond.
    pub fn restore_point(&mut self, result: &Result<(), String>, now: u64)
        ensures
            final(self)@ == old(self)@.secured(result_view(*result), now),
            final(self)@ == match result_view(*result) {
                Ok(_) => (State { flash: Some(("restore point created"@, now)), ..old(self)@ }),
                Err(e) => (State { last_error: Some("restore point: "@ + e), ..old(self)@ }),
            },
    {
        match result {
            Ok(_) => {
                self.flash = Some(("restore point created".to_owned(), now));
            },
            Err(e) => {
                self.last_error = Some("restore point: ".to_owned().concat(e.as_str()));
            },
        }
    }

    /// What has to be applied at startup, in order.
    pub fn apply_enabled(&self) -> (works: Vec<Work>)
        ensures
            deeds(works@) == self@.startup(),
    {
        let features = self.cfg.enabled();
        let mut works: Vec<Work> = Vec::new();
        if features.len() == 0 {
            assert(deeds(works@) =~= self@.startup());
            return works;
        }
        let resolvers = self.resolve_dns();
        works.push(Work::Snapshot);
        let mut i: usize = 0;
        while i < features.len()
            invariant
                i <= features@.len(),
                resolvers@ == self@.resolvers(),
                works@.len() == i + 1,
                works@[0]@ == Deed::Snapshot,
                forall|k: int|
                    0 <= k < i ==> (#[trigger] works@[k + 1])@ == deed_for(
                        features@[k],
                        self@.resolvers(),
                    ),
            decreases features@.len() - i,
        {
            let work = match features[i] {
                Feature::Tcp => Work::ApplyTcp,
                Feature::Dns => Work::ApplyDns(resolvers),
                Feature::Multimedia => Work::ApplyThrottling,
                Feature::Mtu(target) => Work::ApplyMtu(target),
                Feature::Power => Work::ApplyPower,
            };
            works.push(work);
            i = i + 1;
        }
        assert forall|k: int| 0 <= k < works@.len() implies deeds(works@)[k]
            == self@.startup()[k] by {
            if k > 0 {
                assert(works@[(k - 1) + 1]@ == deed_for(features@[k - 1], self@.resolvers()));
            }
        }
        assert(deeds(works@) =~= self@.startup());
        works
    }

    /// The state at startup, and what has to be applied first.
    pub fn new(cfg: Config, archive: Archive) -> (started: (App, Vec<Work>))
        ensures
            started.0@ == fresh(cfg, archive@),
            deeds(started.1@) == fresh(cfg, archive@).startup(),
    {
        let app = App::base(cfg, archive);
        let works = app.apply_enabled();
        (app, works)
    }

    /// Takes in what became of one work at startup; tuning the TCP parameters
    /// gives their status too.
    pub fn started(
        &mut self,
        work: &Work,
        result: &Result<(), String>,
        tuned: Option<TcpStatus>,
    )
        ensures
            final(self)@ == old(self)@.started(work@, result_view(*result), tuned),
    {
        self.adopt(work, result);
        match result {
            Ok(_) => {
                if let Some(status) = tuned {
                    self.tcp = status;
                }
            },
            Err(e) => {
                self.last_error = Some(work.failed(e.as_str()));
            },
        }
    }

    /// What has to be applied again because it had drifted when the state was
    /// refreshed last.
    fn overdue(&self) -> (works: Vec<Work>)
        ensures
            deeds(works@) == self@.drifted(),
    {
        let mut works: Vec<Work> = Vec::new();
        assert(deeds(works@) =~= Seq::<Deed>::empty());
        let resolvers = self.resolve_dns();
        let overtaken = match &self.active_dns {
            Some(active) => active.provider != resolvers.provider,
            None => false,
        };
        add_if(&mut works, self.cfg.tcp && !self.tcp.aligned(), Work::ApplyTcp);
        add_if(
            &mut works,
            self.cfg.dns && (overtaken || !self.dns.aligned_all()),
            Work::ApplyDns(resolvers),
        );
        add_if(&mut works, self.cfg.multimedia && !self.throttling, Work::ApplyThrottling);
        if let Some(target) = self.cfg.mtu {
            add_if(&mut works, !self.mtu_ok, Work::ApplyMtu(target));
        }
        add_if(&mut works, self.cfg.power && !self.power_ok, Work::ApplyPower);
        assert(deeds(works@) =~= self@.drifted());
        works
    }

    /// Every group's revert, in order. The autostart entry is removed after
    /// them.
    pub fn revert_all(&self) -> (works: Vec<Work>)
        ensures
            deeds(works@) == self@.undoing(),
    {
        let mut works: Vec<Work> = Vec::new();
        works.push(Work::RevertMtu);
        works.push(Work::RevertTcp);
        works.push(Work::RevertDns(self.active_dns));
        works.push(Work::RevertThrottling);
        works.push(Work::RevertPower);
        assert(deeds(works@) =~= self@.undoing());
        works
    }

    /// Takes in what became of a round of works.
    pub fn settled(&mut self, works: &Vec<Work>, results: &Vec<Result<(), String>>)
        requires
            works@.len() == results@.len(),
        ensures
            final(self)@ == old(self)@.settled(deeds(works@), result_views(results@)),
    {
        let ghost w = deeds(works@);
        let ghost r = result_views(results@);
        let ghost before = self@;
        let mut errors: Vec<String> = Vec::new();
        let mut i: usize = 0;
        assert(views(errors@) =~= troubles(w.take(0), r.take(0)));
        while i < works.len()
            invariant
                i <= works@.len() == results@.len(),
                w == deeds(works@),
                r == result_views(results@),
                views(errors@) == troubles(w.take(i as int), r.take(i as int)),
                self@ == (State {
                    active_dns: all_adopted(
                        before.active_dns,
                        w.take(i as int),
                        r.take(i as int),
                    ),
                    ..before
                }),
            decreases works@.len() - i,
        {
            assert(w.take(i + 1).drop_last() =~= w.take(i as int));
            assert(r.take(i + 1).drop_last() =~= r.take(i as int));
            assert(w.take(i + 1).last() == works@[i as int]@);
            assert(r.take(i + 1).last() == result_view(results@[i as int]));
            self.adopt(&works[i], &results[i]);
            if let Err(e) = &results[i] {
                let ghost so_far = errors@;
                let message = works[i].failed(e.as_str());
                let ghost shown = message@;
                errors.push(message);
                assert(views(errors@) =~= views(so_far).push(shown));
            }
            i = i + 1;
        }
        assert(w.take(w.len() as int) =~= w);
        assert(r.take(r.len() as int) =~= r);
        if errors.len() == 0 {
            self.last_error = None;
        } else {
            self.last_error = Some(text::join(&errors, " | "));
        }
    }
}

// ---------------------------------------------------------------------------
// The state of the machine
// ---------------------------------------------------------------------------

/// The shortest window, in nanoseconds, that transfers are measured over.
pub const GLANCE_NANOS: u64 = 1_000_000_000;

/// A notice that is still up at this millisecond.
pub open spec fn still_up(flash: Option<(Seq<char>, u64)>, now: u64) -> Option<(Seq<char>, u64)> {
    match flash {
        Some((text, at)) => if advanced(at, now) >= FLASH_MS {
            None
        } else {
            Some((text, at))
        },
        None => None,
    }
}

/// The time between two readings of the counters and what was transferred in
/// it, if it is long enough.
pub open spec fn glance_at(prev: Option<(u64, Seq<Row>)>, now: (u64, Seq<Row>)) -> Option<
    (u64, Seq<Transfer>),
> {
    match prev {
        Some((at, rows)) => {
            let nanos = advanced(at, now.0);
            if nanos >= GLANCE_NANOS {
                Some((nanos, transfers_of(rows, now.1)))
            } else {
                None
            }
        },
        None => None,
    }
}

impl State {
    /// True when the MTU target, if there is one, is set everywhere.
    pub open spec fn mtu_set(self, seen: Seen, all: Seq<Adapter>) -> bool {
        target_met(seen, physical_of(all), self.cfg.mtu)
    }

    /// The state after a look at the machine.
    pub open spec fn refreshed(
        self,
        seen: Seen,
        all: Seq<Adapter>,
        nics: Seq<NicNode>,
        connections: TcpConnections,
        sample: (u64, Seq<Row>),
        wlan: Seq<Link>,
    ) -> State {
        let glanced = glance_at(self.traffic_prev, sample);
        State {
            tcp: tcp::status_of(seen, physical_of(all)),
            dns: dns::status_of(active_of(all), self.resolvers()),
            throttling: seen.holds(system::SUBKEY@, system::NAME@, system::UNTHROTTLED),
            mtu_ok: self.mtu_set(seen, all),
            power_ok: all_stay_on(nics),
            physical: physical_of(all),
            active_ifaces: active_of(all).len() as usize,
            connections,
            traffic_prev: Some(sample),
            transfers: match glanced {
                Some((_, transfers)) => transfers,
                None => self.transfers,
            },
            glance: match glanced {
                Some((nanos, _)) => nanos,
                None => self.glance,
            },
            wlan,
            ..self
        }
    }

    /// True when every enabled feature is in its target state.
    pub open spec fn aligned(self, seen: Seen, all: Seq<Adapter>) -> bool {
        &&& self.cfg.tcp ==> self.tcp.is_aligned()
        &&& self.cfg.dns ==> self.dns.is_aligned()
        &&& self.cfg.multimedia ==> self.throttling
        &&& self.mtu_set(seen, all)
        &&& self.cfg.power ==> self.power_ok
    }

    /// True when no feature is enabled.
    pub open spec fn idle(self) -> bool {
        enabled_of(self.cfg).len() == 0
    }

    /// The overall state in a word, and its colour.
    pub open spec fn overall(self, seen: Seen, all: Seq<Adapter>) -> (Seq<char>, Seq<char>) {
        if self.last_error is Some {
            ("ERROR"@, RED@)
        } else if !self.aligned(seen, all) {
            ("PENDING"@, YELLOW@)
        } else if self.idle() {
            ("READY"@, YELLOW@)
        } else if self.cfg.self_heal {
            ("PROTECTED"@, GREEN@)
        } else {
            ("ACTIVE"@, GREEN@)
        }
    }
}

impl App {
    fn take_sample(&mut self, sample: traffic::Snapshot)
        ensures
            ({
                let now = (sample.taken_at, sample.rows@);
                let glanced = glance_at(old(self)@.traffic_prev, now);
                final(self)@ == (State {
                    traffic_prev: Some(now),
                    transfers: match glanced {
                        Some((_, transfers)) => transfers,
                        None => old(self)@.transfers,
                    },
                    glance: match glanced {
                        Some((nanos, _)) => nanos,
                        None => old(self)@.glance,
                    },
                    ..old(self)@
                })
            }),
    {
        if let Some(prev) = &self.traffic_prev {
            let glance: u64 = traffic::elapsed(prev, &sample);
            if glance >= GLANCE_NANOS {
                let transfers = traffic::transfers(prev, &sample);
                self.transfers = transfers;
                self.glance = glance;
            }
        }
        self.traffic_prev = Some(sample);
    }

    /// Takes in the current state of every feature: a snapshot of the registry,
    /// the adapters, the NIC nodes, the connections, the traffic counters and
    /// the Wi-Fi links.
    pub fn refresh(
        &mut self,
        snapshot: &Snapshot,
        all: &Vec<Interface>,
        nics: &Vec<Nic>,
        connections: TcpConnections,
        sample: traffic::Snapshot,
        wlan: Vec<WlanLink>,
    )
        ensures
            final(self)@ == old(self)@.refreshed(
                snapshot@,
                adapters(all@),
                nic_views(nics@),
                connections,
                (sample.taken_at, sample.rows@),
                link_views(wlan@),
            ),
    {
        let resolvers = self.resolve_dns();
        let mtu_ok = mtu::is_met(snapshot, self.cfg.mtu, all);
        let active = interfaces::active(all);
        self.tcp = tcp::status(snapshot, all);
        self.dns = dns::status(all, &resolvers);
        self.throttling = system::status(snapshot);
        self.mtu_ok = mtu_ok;
        self.power_ok = power::status(nics);
        self.physical = interfaces::physical(all);
        assert(adapters(active@).len() == active@.len());
        self.active_ifaces = active.len();
        self.connections = connections;
        self.wlan = wlan;
        self.take_sample(sample);
    }

    /// A round of self-heal: takes in the current state of every feature, and
    /// gives back what has to be applied again because it has drifted. `None`,
    /// and no change, when self-heal is off.
    pub fn heal(
        &mut self,
        snapshot: &Snapshot,
        all: &Vec<Interface>,
        nics: &Vec<Nic>,
        connections: TcpConnections,
        sample: traffic::Snapshot,
        wlan: Vec<WlanLink>,
    ) -> (works: Option<Vec<Work>>)
        ensures
            works is Some <==> old(self)@.cfg.self_heal,
            final(self)@ == if old(self)@.cfg.self_heal {
                old(self)@.refreshed(
                    snapshot@,
                    adapters(all@),
                    nic_views(nics@),
                    connections,
                    (sample.taken_at, sample.rows@),
                    link_views(wlan@),
                )
            } else {
                old(self)@
            },
            works matches Some(list) ==> deeds(list@) == final(self)@.drifted(),
    {
        if !self.cfg.self_heal {
            return None;
        }
        self.refresh(snapshot, all, nics, connections, sample, wlan);
        Some(self.overdue())
    }

    /// True when every enabled feature is in its target state. The MTU is read
    /// anew.
    pub fn all_aligned(&self, snapshot: &Snapshot, all: &Vec<Interface>) -> (b: bool)
        ensures
            b == self@.aligned(snapshot@, adapters(all@)),
    {
        (!self.cfg.tcp || self.tcp.aligned()) && (!self.cfg.dns || self.dns.aligned_all()) && (
        !self.cfg.multimedia || self.throttling) && mtu::is_met(snapshot, self.cfg.mtu, all) && (
        !self.cfg.power || self.power_ok)
    }

    /// The overall state in a word, and its colour.
    pub fn overall_state(&self, snapshot: &Snapshot, all: &Vec<Interface>) -> (state: (
        &'static str,
        &'static str,
    ))
        ensures
            (state.0@, state.1@) == self@.overall(snapshot@, adapters(all@)),
    {
        if self.last_error.is_some() {
            ("ERROR", RED)
        } else if !self.all_aligned(snapshot, all) {
            ("PENDING", YELLOW)
        } else if self.cfg.enabled().len() == 0 {
            ("READY", YELLOW)
        } else if self.cfg.self_heal {
            ("PROTECTED", GREEN)
        } else {
            ("ACTIVE", GREEN)
        }
    }

    /// Takes a notice down three seconds after it came up.
    pub fn expire_flash(&mut self, now: u64)
        ensures
            final(self)@ == (State { flash: still_up(old(self)@.flash, now), ..old(self)@ }),
            final(self)@ == (State {
                flash: match old(self)@.flash {
                    Some((text, at)) => if advanced(at, now) >= FLASH_MS {
                        None
                    } else {
                        Some((text, at))
                    },
                    None => None,
                },
                ..old(self)@
            }),
    {
        let expired = match &self.flash {
            Some((_, at)) => now.saturating_sub(*at) >= FLASH_MS,
            None => false,
        };
        if expired {
            self.flash = None;
        }
    }
}

// ---------------------------------------------------------------------------
// The event loop
// ---------------------------------------------------------------------------

/// How long a notice stays up, in milliseconds.
pub const FLASH_MS: u64 = 3_000;

/// Milliseconds between two ticks.
pub const TICK_MS: u64 = 250;

/// Milliseconds between two rounds of self-heal.
pub const HEAL_MS: u64 = 5_000;

/// Milliseconds between two redraws.
pub const RENDER_MS: u64 = 1_000;

/// When the parts of the event loop ran last, in milliseconds.
#[derive(Clone, Copy, Debug, PartialEq, Eq, Structural)]
pub struct Schedule {
    pub last_tick: u64,
    pub last_heal: u64,
    pub last_render: u64,
}

/// Which parts of the event loop are due.
#[derive(Clone, Copy, Debug, PartialEq, Eq, Structural)]
pub struct Due {
    pub tick: bool,
    pub heal: bool,
    pub render: bool,
}

impl Schedule {
    /// What is due at this millisecond. Healing and redrawing wait for a tick.
    pub open spec fn due_at(self, now: u64) -> Due {
        let tick = advanced(self.last_tick, now) >= TICK_MS;
        Due {
            tick,
            heal: tick && advanced(self.last_heal, now) >= HEAL_MS,
            render: tick && advanced(self.last_render, now) >= RENDER_MS,
        }
    }

    /// The schedule once what is due at this millisecond runs.
    pub open spec fn after(self, now: u64) -> Schedule {
        let due = self.due_at(now);
        Schedule {
            last_tick: if due.tick {
                now
            } else {
                self.last_tick
            },
            last_heal: if due.heal {
                now
            } else {
                self.last_heal
            },
            last_render: if due.render {
                now
            } else {
                self.last_render
            },
        }
    }

    /// A schedule that starts at this millisecond.
    pub fn start(now: u64) -> (schedule: Schedule)
        ensures
            schedule == (Schedule { last_tick: now, last_heal: now, last_render: now }),
    {
        Schedule { last_tick: now, last_heal: now, last_render: now }
    }

    /// Tells what is due at this millisecond, and notes that it runs.
    pub fn due(&mut self, now: u64) -> (due: Due)
        ensures
            due == old(self).due_at(now),
            *final(self) == old(self).after(now),
    {
        let tick = now.saturating_sub(self.last_tick) >= TICK_MS;
        let heal = tick && now.saturating_sub(self.last_heal) >= HEAL_MS;
        let render = tick && now.saturating_sub(self.last_render) >= RENDER_MS;
        if tick {
            self.last_tick = now;
        }
        if heal {
            self.last_heal = now;
        }
        if render {
            self.last_render = now;
        }
        Due { tick, heal, render }
    }
}

/// What is said once where the menu cannot be drawn.
pub const BANNER: &'static str =
    "stabilizatores running, tweaks active. close this window or press q to stop.";

/// The window title.
pub fn title() -> (title: String)
    ensures
        title@ == "stabilizatores "@ + crate::VERSION@,
{
    "stabilizatores ".to_owned().concat(crate::VERSION)
}

impl App {
    /// The last lines before the application ends.
    pub fn farewell(&self) -> (lines: Vec<Line>)
        ensures
            line_views(lines@) == if self@.quit_removes {
                seq![Shown::Out("\ntweaks removed, system restored."@)] + (
                match self@.last_error {
                    Some(e) => seq![Shown::Out(warning(e))],
                    None => Seq::empty(),
                }) + seq![Shown::Out("press enter to close..."@)]
            } else {
                seq![
                    Shown::Out("\nbye, tweaks kept."@),
                    Shown::Out("press enter to close..."@),
                ]
            },
    {
        let mut lines: Vec<Line> = Vec::new();
        if self.quit_removes {
            lines.push(Line::Out("\ntweaks removed, system restored.".to_owned()));
            if let Some(e) = &self.last_error {
                lines.push(Line::Out(cli::warning_text(e.as_str())));
            }
        } else {
            lines.push(Line::Out("\nbye, tweaks kept.".to_owned()));
        }
        lines.push(Line::Out("press enter to close...".to_owned()));
        assert(line_views(lines@) =~= if self@.quit_removes {
            seq![Shown::Out("\ntweaks removed, system restored."@)] + (match self@.last_error {
                Some(e) => seq![Shown::Out(warning(e))],
                None => Seq::empty(),
            }) + seq![Shown::Out("press enter to close..."@)]
        } else {
            seq![Shown::Out("\nbye, tweaks kept."@), Shown::Out("press enter to close..."@)]
        });
        lines
    }
}

// ---------------------------------------------------------------------------
// Laws
// ---------------------------------------------------------------------------

/// Three steps of the provider cycle lead back.
pub proof fn provider_cycle_wraps(provider: DnsProvider)
    ensures
        provider_after(provider_after(provider_after(provider))) == provider,
{
}

/// The MTU cycle goes from off to 1500, to 1400, and back to off.
pub proof fn mtu_cycle_wraps(mtu: Option<u32>)
    requires
        presets().contains(mtu),
    ensures
        step(None, presets()) == Some(1500u32),
        step(Some(1500u32), presets()) == Some(1400u32),
        step(Some(1400u32), presets()) == None::<u32>,
        step(step(step(mtu, presets()), presets()), presets()) == mtu,
{
    let cycle = presets();
    assert(cycle[0] == None::<u32> && cycle[1] == Some(1500u32) && cycle[2] == Some(1400u32));
    cycle.index_of_first_ensures(cycle[0]);
    cycle.index_of_first_ensures(cycle[1]);
    cycle.index_of_first_ensures(cycle[2]);
    let i = choose|i: int| 0 <= i < cycle.len() && cycle[i] == mtu;
    assert(mtu == cycle[0] || mtu == cycle[1] || mtu == cycle[2]);
}

/// The toggle keys undo themselves, but for the memory of the resolvers in use:
/// switching the DNS feature off forgets it.
#[verifier::rlimit(40)]
pub proof fn toggles_undo_themselves(s: State)
    requires
        !s.confirming_quit,
    ensures
        s.pressed('t').0.pressed('t').0 == s,
        s.pressed('d').0.pressed('d').0 == (State { active_dns: None, ..s }),
        s.pressed('m').0.pressed('m').0 == s,
        s.pressed('p').0.pressed('p').0 == s,
        s.pressed('h').0.pressed('h').0 == s,
        s.pressed('i').0.pressed('i').0 == s,
        s.pressed('l').0.pressed('l').0 == s,
{
    assert(s.pressed('t').0.pressed('t').0.cfg == s.cfg);
    assert(s.pressed('d').0.pressed('d').0.cfg == s.cfg);
    assert(s.pressed('m').0.pressed('m').0.cfg == s.cfg);
    assert(s.pressed('p').0.pressed('p').0.cfg == s.cfg);
    assert(s.pressed('h').0.pressed('h').0.cfg == s.cfg);
    assert(s.pressed('i').0.pressed('i').0.cfg == s.cfg);
    assert(s.pressed('l').0.pressed('l').0.cfg == s.cfg);
}

/// The case of a letter does not matter.
pub proof fn case_does_not_matter(s: State, a: char, b: char)
    requires
        lower(a) == lower(b),
    ensures
        s.pressed(a) == s.pressed(b),
{
}

/// Quitting takes two key presses: only `y`, in answer to the question, ends the
/// application.
pub proof fn quitting_needs_an_answer(s: State, key: char)
    requires
        !s.quit,
    ensures
        s.pressed(key).0.quit <==> s.confirming_quit && lower(key) == 'y',
{
}

/// Without an enabled feature, everything is aligned, whatever the machine
/// looks like.
pub proof fn disabled_features_are_aligned(s: State, seen: Seen, all: Seq<Adapter>)
    requires
        s.idle(),
    ensures
        s.aligned(seen, all),
        s.drifted().len() == 0,
        s.startup().len() == 0,
{
}

/// The word of the overall state tells: `ERROR` that the last operation failed,
/// `PENDING` that an enabled feature is not in its target state, `PROTECTED`
/// and `ACTIVE` that all are, with self-heal on or off, and `READY` that none is
/// enabled.
pub proof fn words_tell_the_state(s: State, seen: Seen, all: Seq<Adapter>)
    ensures
        s.overall(seen, all).0 == "ERROR"@ <==> s.last_error is Some,
        s.overall(seen, all).0 == "PENDING"@ <==> s.last_error is None && !s.aligned(seen, all),
        s.overall(seen, all).0 == "READY"@ <==> s.last_error is None && s.idle(),
        s.overall(seen, all).0 == "PROTECTED"@ <==> s.last_error is None && s.aligned(seen, all)
            && !s.idle() && s.cfg.self_heal,
        s.overall(seen, all).0 == "ACTIVE"@ <==> s.last_error is None && s.aligned(seen, all)
            && !s.idle() && !s.cfg.self_heal,
{
    reveal_strlit("ERROR");
    reveal_strlit("PENDING");
    reveal_strlit("READY");
    reveal_strlit("PROTECTED");
    reveal_strlit("ACTIVE");
    assert("ERROR"@[0] == 'E' && "READY"@[0] == 'R');
    assert("ERROR"@.len() == 5 && "READY"@.len() == 5 && "PENDING"@.len() == 7);
    assert("PROTECTED"@.len() == 9 && "ACTIVE"@.len() == 6);
    if s.idle() {
        disabled_features_are_aligned(s, seen, all);
    }
}

/// Self-heal applies a feature again exactly when it is enabled and has drifted.
pub proof fn healing_is_exact(s: State)
    ensures
        s.drifted().contains(Deed::ApplyTcp) <==> s.cfg.tcp && !s.tcp.is_aligned(),
        s.drifted().contains(Deed::ApplyDns(s.resolvers())) <==> s.cfg.dns && s.dns_drifted(),
        s.drifted().contains(Deed::ApplyThrottling) <==> s.cfg.multimedia && !s.throttling,
        s.drifted().contains(Deed::ApplyPower) <==> s.cfg.power && !s.power_ok,
        forall|target: u32|
            #[trigger] s.drifted().contains(Deed::ApplyMtu(target)) <==> s.cfg.mtu == Some(target)
                && !s.mtu_ok,
        s.drifted().len() <= 5,
{
    let a = deed_if(s.cfg.tcp && !s.tcp.is_aligned(), Deed::ApplyTcp);
    let b = deed_if(s.cfg.dns && s.dns_drifted(), Deed::ApplyDns(s.resolvers()));
    let c = deed_if(s.cfg.multimedia && !s.throttling, Deed::ApplyThrottling);
    let d = match s.cfg.mtu {
        Some(target) => deed_if(!s.mtu_ok, Deed::ApplyMtu(target)),
        None => Seq::empty(),
    };
    let e = deed_if(s.cfg.power && !s.power_ok, Deed::ApplyPower);
    assert(s.drifted() == a + b + c + d + e);
    assert forall|x: Deed| (#[trigger] s.drifted().contains(x)) == (a.contains(x) || b.contains(x)
        || c.contains(x) || d.contains(x) || e.contains(x)) by {
        split(a + b + c + d, e, x);
        split(a + b + c, d, x);
        split(a + b, c, x);
        split(a, b, x);
    }
    single(s.cfg.tcp && !s.tcp.is_aligned(), Deed::ApplyTcp);
    single(s.cfg.dns && s.dns_drifted(), Deed::ApplyDns(s.resolvers()));
    single(s.cfg.multimedia && !s.throttling, Deed::ApplyThrottling);
    single(s.cfg.power && !s.power_ok, Deed::ApplyPower);
    match s.cfg.mtu {
        Some(target) => {
            single(!s.mtu_ok, Deed::ApplyMtu(target));
        },
        None => {},
    }
}

/// A round of self-heal goes by what was read in that round, whatever the state
/// was before: a feature is applied again exactly when it is enabled and the
/// readings show that it is not in its target state. The resolvers are also
/// switched when the provider in use has been overtaken.
pub proof fn healing_goes_by_the_readings(
    s: State,
    seen: Seen,
    all: Seq<Adapter>,
    nics: Seq<NicNode>,
    connections: TcpConnections,
    sample: (u64, Seq<Row>),
    wlan: Seq<Link>,
)
    ensures
        ({
            let works = s.refreshed(seen, all, nics, connections, sample, wlan).drifted();
            &&& works.contains(Deed::ApplyTcp) <==> s.cfg.tcp && !tcp::status_of(
                seen,
                physical_of(all),
            ).is_aligned()
            &&& works.contains(Deed::ApplyDns(s.resolvers())) <==> s.cfg.dns && (!dns::status_of(
                active_of(all),
                s.resolvers(),
            ).is_aligned() || (s.active_dns matches Some(set) && set.provider
                != s.resolvers().provider))
            &&& works.contains(Deed::ApplyThrottling) <==> s.cfg.multimedia && !seen.holds(
                system::SUBKEY@,
                system::NAME@,
                system::UNTHROTTLED,
            )
            &&& works.contains(Deed::ApplyPower) <==> s.cfg.power && !all_stay_on(nics)
            &&& forall|target: u32| #[trigger]
                works.contains(Deed::ApplyMtu(target)) <==> s.cfg.mtu == Some(target)
                    && !all_report(seen, physical_of(all), target)
        }),
{
    healing_is_exact(s.refreshed(seen, all, nics, connections, sample, wlan));
}

proof fn split(front: Seq<Deed>, back: Seq<Deed>, x: Deed)
    ensures
        (front + back).contains(x) == (front.contains(x) || back.contains(x)),
{
    let whole = front + back;
    if front.contains(x) {
        let i = choose|i: int| 0 <= i < front.len() && front[i] == x;
        assert(whole[i] == x);
    }
    if back.contains(x) {
        let i = choose|i: int| 0 <= i < back.len() && back[i] == x;
        assert(whole[front.len() + i] == x);
    }
    if whole.contains(x) {
        let i = choose|i: int| 0 <= i < whole.len() && whole[i] == x;
        if i < front.len() {
            assert(front[i] == x);
        } else {
            assert(back[i - front.len()] == x);
        }
    }
}

proof fn single(due: bool, deed: Deed)
    ensures
        forall|x: Deed| (#[trigger] deed_if(due, deed).contains(x)) == (due && x == deed),
{
    assert(due ==> deed_if(due, deed)[0] == deed);
}

/// Where every enabled feature is in its target state and the resolvers in use
/// are the ones to use, self-heal applies nothing.
pub proof fn aligned_needs_no_healing(s: State, seen: Seen, all: Seq<Adapter>)
    requires
        s.aligned(seen, all),
        s.mtu_ok == s.mtu_set(seen, all),
        s.active_dns matches Some(active) ==> active.provider == s.resolvers().provider,
    ensures
        s.drifted().len() == 0,
{
}

/// Startup applies exactly the enabled features, in their order, and keeps a
/// copy of the archive before the first of them.
pub proof fn startup_applies_every_feature(s: State, i: int)
    requires
        0 <= i < enabled_of(s.cfg).len(),
    ensures
        s.startup().len() == enabled_of(s.cfg).len() + 1,
        s.startup()[0] == Deed::Snapshot,
        s.startup()[i + 1] == deed_for(enabled_of(s.cfg)[i], s.resolvers()),
{
}

/// Two rounds of self-heal are at least five seconds apart, two redraws at least
/// one second.
pub proof fn rounds_are_spaced(schedule: Schedule, now: u64, later: u64)
    ensures
        schedule.due_at(now).heal && schedule.after(now).due_at(later).heal ==> later >= now
            + HEAL_MS,
        schedule.due_at(now).render && schedule.after(now).due_at(later).render ==> later >= now
            + RENDER_MS,
{
}

/// A tick that comes late enough after a round of self-heal starts the next.
pub proof fn healing_goes_on(schedule: Schedule, now: u64)
    requires
        schedule.last_tick + TICK_MS <= now,
        schedule.last_heal + HEAL_MS <= now,
    ensures
        schedule.due_at(now).heal,
{
}

} // verus!
