//! The text of the menu.
//!
//! Every redraw clears the screen and writes the status panel, the keys, and
//! the panes that are open. The texts of measured rates are handed in.

use vstd::prelude::*;

use crate::app::{App, State};
use crate::cli::{ratio, ratio_text};
use crate::config::{Config, DnsProvider};
use crate::connections::TcpConnections;
use crate::dns::{latency_view, DnsStatus, ResolverSet, Resolvers};
use crate::interfaces::{adapters, Adapter, Interface};
use crate::paint::{
    cyan, dim, green, in_cyan, in_dim, in_green, in_yellow, yellow, BOLD, CYAN, DIM, GREEN, RESET,
};
use crate::probe::{losses, Endpoint, Latency, Measured, Window};
use crate::registry::{Seen, Snapshot};
use crate::tcp::TcpStatus;
use crate::text;
use crate::text::{decimal, equal_ignoring_case, joined, signed_decimal, views};
use crate::wlan;
use crate::wlan::{link_views, signal_text, Link, WlanLink};

verus! {

/// Clears the screen and goes to its first place.
pub const CLEAR: &'static str = "\x1b[2J\x1b[H";

/// The line above and below the keys.
pub const RULE: &'static str = "  -------------------------------------------------\n";

/// The texts of measured rates.
#[derive(Debug)]
pub struct Rates {
    /// The index of an adapter, and its download and upload rate.
    pub traffic: Vec<(u32, String, String)>,
    /// The receive and transmit rate of each Wi-Fi link, in their order.
    pub links: Vec<(String, String)>,
}

/// The [`Rates`] over texts.
pub struct RateTexts {
    pub traffic: Seq<(u32, Seq<char>, Seq<char>)>,
    pub links: Seq<(Seq<char>, Seq<char>)>,
}

impl View for Rates {
    type V = RateTexts;

    open spec fn view(&self) -> RateTexts {
        RateTexts {
            traffic: Seq::new(
                self.traffic@.len(),
                |i: int| (self.traffic@[i].0, self.traffic@[i].1@, self.traffic@[i].2@),
            ),
            links: Seq::new(
                self.links@.len(),
                |i: int| (self.links@[i].0@, self.links@[i].1@),
            ),
        }
    }
}

// ---------------------------------------------------------------------------
// Labels
// ---------------------------------------------------------------------------

/// A ticked or an empty box.
pub open spec fn box_text(on: bool) -> Seq<char> {
    if on {
        in_green("[x]"@)
    } else {
        in_dim("[ ]"@)
    }
}

/// A ticked or an empty box.
pub fn check(on: bool) -> (s: String)
    ensures
        s@ == box_text(on),
{
    if on {
        green("[x]")
    } else {
        dim("[ ]")
    }
}

/// The name of a provider.
pub open spec fn provider_name(provider: DnsProvider) -> Seq<char> {
    match provider {
        DnsProvider::Cloudflare => "cloudflare"@,
        DnsProvider::Google => "google"@,
        DnsProvider::Auto => "auto"@,
    }
}

/// The name of a provider.
pub fn provider_label(provider: DnsProvider) -> (label: &'static str)
    ensures
        label@ == provider_name(provider),
{
    match provider {
        DnsProvider::Cloudflare => "cloudflare",
        DnsProvider::Google => "google",
        DnsProvider::Auto => "auto",
    }
}

/// An MTU target, or `off`.
pub open spec fn mtu_name(mtu: Option<u32>) -> Seq<char> {
    match mtu {
        Some(target) => decimal(target as nat),
        None => "off"@,
    }
}

/// An MTU target, or `off`.
pub fn mtu_label(mtu: Option<u32>) -> (label: String)
    ensures
        label@ == mtu_name(mtu),
{
    match mtu {
        Some(target) => text::dec(target as u64),
        None => "off".to_owned(),
    }
}

// ---------------------------------------------------------------------------
// Latency
// ---------------------------------------------------------------------------

/// The round-trip time of an endpoint, and its jitter.
pub open spec fn rtt_text(w: Window) -> Seq<char> {
    match w.rtt() {
        Some(rtt) => if rtt > 0 {
            in_green(decimal(rtt as nat) + " ms"@) + (match w.jitter() {
                Some(jitter) => " "@ + in_dim("\u{b1}"@ + decimal(jitter as nat)),
                None => ""@,
            })
        } else {
            in_dim("n/a"@)
        },
        None => in_dim("n/a"@),
    }
}

/// The share of lost probes, if there were any probes.
pub open spec fn loss_text(w: Window) -> Seq<char> {
    if w.history.len() > 0 {
        " "@ + in_dim(
            decimal(losses(w.history) * 100 / w.history.len()) + "%"@,
        )
    } else {
        ""@
    }
}

/// The sparkline, if it shows anything.
pub open spec fn spark_text(w: Window) -> Seq<char> {
    if w.line().len() > 0 {
        " "@ + in_cyan(w.line())
    } else {
        ""@
    }
}

/// What is known of one endpoint.
pub open spec fn endpoint_text(w: Window, label: Seq<char>) -> Seq<char> {
    in_dim(label) + " "@ + rtt_text(w) + loss_text(w) + spark_text(w)
}

/// What is known of both endpoints.
pub open spec fn latency_text(latency: Option<Measured>) -> Seq<char> {
    match latency {
        Some(m) => endpoint_text(m.cloudflare, "cloudflare"@) + "   "@ + endpoint_text(
            m.google,
            "google"@,
        ),
        None => in_dim("measuring..."@),
    }
}

fn rtt_part(endpoint: &Endpoint) -> (s: String)
    ensures
        s@ == rtt_text(endpoint@),
{
    match endpoint.rtt_ms() {
        Some(rtt) => {
            if rtt > 0 {
                let number = text::dec(rtt as u64).concat(" ms");
                let shown = green(number.as_str());
                let jitter = match endpoint.jitter_ms() {
                    Some(ms) => {
                        let spread = "\u{b1}".to_owned().concat(text::dec(ms as u64).as_str());
                        " ".to_owned().concat(dim(spread.as_str()).as_str())
                    },
                    None => "".to_owned(),
                };
                shown.concat(jitter.as_str())
            } else {
                dim("n/a")
            }
        },
        None => dim("n/a"),
    }
}

fn loss_part(endpoint: &Endpoint) -> (s: String)
    requires
        endpoint@.wf(),
    ensures
        s@ == loss_text(endpoint@),
{
    let total: u32 = endpoint.total();
    if total > 0 {
        let share: u32 = endpoint.loss() * 100 / total;
        let percent = text::dec(share as u64).concat("%");
        " ".to_owned().concat(dim(percent.as_str()).as_str())
    } else {
        "".to_owned()
    }
}

fn one(endpoint: &Endpoint, label: &str) -> (s: String)
    requires
        endpoint@.wf(),
    ensures
        s@ == endpoint_text(endpoint@, label@),
{
    let rtt = rtt_part(endpoint);
    let loss = loss_part(endpoint);
    let sparkline = endpoint.sparkline();
    let spark = if sparkline.as_str().unicode_len() > 0 {
        " ".to_owned().concat(cyan(sparkline.as_str()).as_str())
    } else {
        "".to_owned()
    };
    dim(label).concat(" ").concat(rtt.as_str()).concat(loss.as_str()).concat(spark.as_str())
}

/// What is known of the latency of both endpoints.
pub fn latency_line(latency: Option<&Latency>) -> (line: String)
    requires
        latency_view(latency) matches Some(m) ==> m.wf(),
    ensures
        line@ == latency_text(latency_view(latency)),
{
    match latency {
        Some(l) => {
            let cloudflare = one(&l.cloudflare, "cloudflare");
            let google = one(&l.google, "google");
            cloudflare.concat("   ").concat(google.as_str())
        },
        None => dim("measuring..."),
    }
}

/// A resolution time.
pub open spec fn resolution_text(ms: Option<u32>) -> Seq<char> {
    match ms {
        Some(n) => in_green(decimal(n as nat) + " ms"@),
        None => in_dim("n/a"@),
    }
}

/// The row about the DNS resolution times, if there are any.
pub open spec fn resolution_row(latency: Option<Measured>) -> Seq<char> {
    match latency {
        Some(m) => if m.cf_dns_ms is None && m.google_dns_ms is None {
            ""@
        } else {
            "  "@ + in_dim("resolution"@) + " 1.1.1.1 "@ + resolution_text(m.cf_dns_ms)
                + "   8.8.8.8 "@ + resolution_text(m.google_dns_ms) + "\n"@
        },
        None => ""@,
    }
}

fn resolution(ms: Option<u32>) -> (s: String)
    ensures
        s@ == resolution_text(ms),
{
    match ms {
        Some(n) => {
            let number = text::dec(n as u64).concat(" ms");
            green(number.as_str())
        },
        None => dim("n/a"),
    }
}

/// The row about the DNS resolution times, if there are any.
pub fn dns_probe_line(latency: Option<&Latency>) -> (row: String)
    ensures
        row@ == resolution_row(latency_view(latency)),
{
    match latency {
        Some(l) => {
            if l.cf_dns_ms.is_none() && l.google_dns_ms.is_none() {
                return "".to_owned();
            }
            let label = dim("resolution");
            let cloudflare = resolution(l.cf_dns_ms);
            let google = resolution(l.google_dns_ms);
            "  ".to_owned().concat(label.as_str()).concat(" 1.1.1.1 ").concat(
                cloudflare.as_str(),
            ).concat("   8.8.8.8 ").concat(google.as_str()).concat("\n")
        },
        None => "".to_owned(),
    }
}

// ---------------------------------------------------------------------------
// The status panel
// ---------------------------------------------------------------------------

/// The name that an adapter goes by: its friendly name, else its description,
/// else its GUID.
pub open spec fn name_of(a: Adapter) -> Seq<char> {
    if a.friendly.len() > 0 {
        a.friendly
    } else if a.description.len() > 0 {
        a.description
    } else {
        a.guid
    }
}

fn name(iface: &Interface) -> (s: &str)
    ensures
        s@ == name_of(iface@),
{
    if iface.friendly.as_str().unicode_len() > 0 {
        iface.friendly.as_str()
    } else if iface.description.as_str().unicode_len() > 0 {
        iface.description.as_str()
    } else {
        iface.guid.as_str()
    }
}

/// An adapter in the status panel.
pub open spec fn adapter_label(a: Adapter) -> Seq<char> {
    in_cyan(name_of(a)) + if a.mtu > 0 {
        in_dim(" (MTU "@ + decimal(a.mtu as nat) + ")"@)
    } else {
        ""@
    }
}

/// Adapters in the status panel.
pub open spec fn adapter_labels(v: Seq<Adapter>) -> Seq<Seq<char>> {
    Seq::new(v.len(), |i: int| adapter_label(v[i]))
}

/// How many adapters the status panel names.
pub const NAMED: usize = 4;

/// The first adapters of a list.
pub open spec fn named(v: Seq<Adapter>) -> Seq<Adapter> {
    if v.len() > NAMED {
        v.take(NAMED as int)
    } else {
        v
    }
}

/// The row that names the first adapters, if there are any.
pub open spec fn adapters_row(v: Seq<Adapter>) -> Seq<char> {
    if v.len() == 0 {
        ""@
    } else {
        "  "@ + in_dim("adapters"@) + "    "@ + joined(adapter_labels(named(v)), "  "@) + "\n"@
    }
}

fn adapters_line(physical: &Vec<Interface>) -> (s: String)
    ensures
        s@ == adapters_row(adapters(physical@)),
{
    if physical.len() == 0 {
        return "".to_owned();
    }
    let ghost shown = named(adapters(physical@));
    let count: usize = if physical.len() > NAMED {
        NAMED
    } else {
        physical.len()
    };
    let mut labels: Vec<String> = Vec::new();
    let mut i: usize = 0;
    while i < count
        invariant
            i <= count <= physical@.len(),
            count == shown.len(),
            shown == named(adapters(physical@)),
            labels@.len() == i,
            forall|k: int| 0 <= k < i ==> (#[trigger] labels@[k])@ == adapter_label(shown[k]),
        decreases count - i,
    {
        let iface = &physical[i];
        let mtu = if iface.mtu > 0 {
            let size = " (MTU ".to_owned().concat(text::dec(iface.mtu as u64).as_str()).concat(")");
            dim(size.as_str())
        } else {
            "".to_owned()
        };
        labels.push(cyan(name(iface)).concat(mtu.as_str()));
        assert(shown[i as int] == iface@);
        i = i + 1;
    }
    assert(views(labels@) =~= adapter_labels(shown));
    let label = dim("adapters");
    let list = text::join(&labels, "  ");
    "  ".to_owned().concat(label.as_str()).concat("    ").concat(list.as_str()).concat("\n")
}

/// The title, and the overall state with its colour.
pub open spec fn head_rows(word: Seq<char>, color: Seq<char>) -> Seq<char> {
    CLEAR@ + BOLD@ + CYAN@ + "  STABILIZATORES"@ + RESET@ + "  "@ + in_dim("v"@ + crate::VERSION@)
        + "\n"@ + RULE@ + "  "@ + in_dim("status"@) + "      "@ + color + BOLD@ + word + RESET@
        + "\n"@
}

fn head(word: &str, color: &str) -> (s: String)
    ensures
        s@ == head_rows(word@, color@),
{
    let version = "v".to_owned().concat(crate::VERSION);
    let shown = dim(version.as_str());
    let status = dim("status");
    CLEAR.to_owned().concat(BOLD).concat(CYAN).concat("  STABILIZATORES").concat(RESET).concat(
        "  ",
    ).concat(shown.as_str()).concat("\n").concat(RULE).concat("  ").concat(
        status.as_str(),
    ).concat("      ").concat(color).concat(BOLD).concat(word).concat(RESET).concat("\n")
}

/// The row that counts the adapters.
pub open spec fn interfaces_row(physical: nat, active: nat) -> Seq<char> {
    "  "@ + in_dim("interfaces"@) + "  "@ + decimal(physical) + " physical, "@ + decimal(active)
        + " active\n"@
}

fn interfaces_line(physical: usize, active: usize) -> (s: String)
    ensures
        s@ == interfaces_row(physical as nat, active as nat),
{
    let label = dim("interfaces");
    let a = text::dec(physical as u64);
    let b = text::dec(active as u64);
    "  ".to_owned().concat(label.as_str()).concat("  ").concat(a.as_str()).concat(
        " physical, ",
    ).concat(b.as_str()).concat(" active\n")
}

/// The state of the TCP tuning in words.
pub open spec fn tcp_words(on: bool, s: TcpStatus) -> Seq<char> {
    let counts = ratio_text(s.ifaces_ok, s.ifaces_total) + " ifaces"@;
    if !on {
        in_dim("tuning off"@)
    } else if s.is_aligned() {
        in_green("tuned "@ + counts)
    } else {
        in_yellow("restoring "@ + counts)
    }
}

/// The row about the TCP tuning.
pub open spec fn tcp_row(on: bool, s: TcpStatus) -> Seq<char> {
    "  "@ + in_dim("tcp"@) + "         "@ + box_text(on) + "  "@ + tcp_words(on, s) + "  global "@
        + (if on && s.global_ok {
        GREEN@
    } else {
        DIM@
    }) + BOLD@ + (if on && s.global_ok {
        "[x]"@
    } else {
        "[ ]"@
    }) + RESET@ + "\n"@
}

fn tcp_line(on: bool, s: &TcpStatus) -> (r: String)
    ensures
        r@ == tcp_row(on, *s),
{
    let counts = ratio(s.ifaces_ok, s.ifaces_total).concat(" ifaces");
    let words = if !on {
        dim("tuning off")
    } else if s.aligned() {
        green("tuned ".to_owned().concat(counts.as_str()).as_str())
    } else {
        yellow("restoring ".to_owned().concat(counts.as_str()).as_str())
    };
    let color = if on && s.global_ok {
        GREEN
    } else {
        DIM
    };
    let mark = if on && s.global_ok {
        "[x]"
    } else {
        "[ ]"
    };
    let label = dim("tcp");
    let tick = check(on);
    "  ".to_owned().concat(label.as_str()).concat("         ").concat(tick.as_str()).concat(
        "  ",
    ).concat(words.as_str()).concat("  global ").concat(color).concat(BOLD).concat(mark).concat(
        RESET,
    ).concat("\n")
}

/// The state of the DNS feature in words.
pub open spec fn dns_words(on: bool, s: DnsStatus) -> Seq<char> {
    let counts = ratio_text(s.aligned, s.total) + " aligned"@;
    if !on {
        in_dim("off"@)
    } else if s.is_aligned() {
        in_green(counts)
    } else {
        in_yellow(counts)
    }
}

/// The row about the DNS feature.
pub open spec fn dns_row(on: bool, s: DnsStatus, set: ResolverSet) -> Seq<char> {
    "  "@ + in_dim("dns"@) + "         "@ + box_text(on) + "  "@ + provider_name(set.provider)
        + " "@ + dns_words(on, s) + "   "@ + in_dim("("@) + in_cyan(set.primary) + " / "@ + in_cyan(
        set.secondary,
    ) + in_dim(")"@) + "\n"@
}

fn dns_line(on: bool, s: &DnsStatus, set: &Resolvers) -> (r: String)
    ensures
        r@ == dns_row(on, *s, set@),
{
    let counts = ratio(s.aligned, s.total).concat(" aligned");
    let words = if !on {
        dim("off")
    } else if s.aligned_all() {
        green(counts.as_str())
    } else {
        yellow(counts.as_str())
    };
    let label = dim("dns");
    let tick = check(on);
    let open = dim("(");
    let close = dim(")");
    let primary = cyan(set.primary);
    let secondary = cyan(set.secondary);
    "  ".to_owned().concat(label.as_str()).concat("         ").concat(tick.as_str()).concat(
        "  ",
    ).concat(provider_label(set.provider)).concat(" ").concat(words.as_str()).concat("   ").concat(
        open.as_str(),
    ).concat(primary.as_str()).concat(" / ").concat(secondary.as_str()).concat(
        close.as_str(),
    ).concat("\n")
}

/// A feature that is left alone, done or pending.
pub open spec fn feature_words(on: bool, done: bool, text: Seq<char>) -> Seq<char> {
    if !on {
        in_dim("left as is"@)
    } else if done {
        in_green(text)
    } else {
        in_yellow("pending"@)
    }
}

fn words(on: bool, done: bool, text: &str) -> (s: String)
    ensures
        s@ == feature_words(on, done, text@),
{
    if !on {
        dim("left as is")
    } else if done {
        green(text)
    } else {
        yellow("pending")
    }
}

/// The state of the MTU feature in words.
pub open spec fn mtu_words(mtu: Option<u32>, done: bool) -> Seq<char> {
    match mtu {
        None => in_dim("off"@),
        Some(target) => if done {
            in_green(decimal(target as nat) + " set"@)
        } else {
            in_yellow(decimal(target as nat) + " pending"@)
        },
    }
}

fn mtu_state(mtu: Option<u32>, done: bool) -> (s: String)
    ensures
        s@ == mtu_words(mtu, done),
{
    match mtu {
        None => dim("off"),
        Some(target) => {
            let number = text::dec(target as u64);
            if done {
                green(number.concat(" set").as_str())
            } else {
                yellow(number.concat(" pending").as_str())
            }
        },
    }
}

/// The rows about throttling, MTU and power-down.
pub open spec fn feature_rows(s: State) -> Seq<char> {
    "  "@ + in_dim("throttling"@) + "  "@ + box_text(s.cfg.multimedia) + "  "@ + feature_words(
        s.cfg.multimedia,
        s.throttling,
        "removed"@,
    ) + "\n"@ + "  "@ + in_dim("mtu"@) + "         "@ + box_text(s.cfg.mtu is Some) + "  "@
        + mtu_words(s.cfg.mtu, s.mtu_ok) + "\n"@ + "  "@ + in_dim("power"@) + "       "@ + box_text(
        s.cfg.power,
    ) + "  "@ + feature_words(s.cfg.power, s.power_ok, "no power-down"@) + "\n"@
}

fn feature_lines(app: &App) -> (s: String)
    ensures
        s@ == feature_rows(app@),
{
    let throttling = dim("throttling");
    let mtu = dim("mtu");
    let power = dim("power");
    let a = check(app.cfg.multimedia);
    let b = check(app.cfg.mtu.is_some());
    let c = check(app.cfg.power);
    let x = words(app.cfg.multimedia, app.throttling, "removed");
    let y = mtu_state(app.cfg.mtu, app.mtu_ok);
    let z = words(app.cfg.power, app.power_ok, "no power-down");
    "  ".to_owned().concat(throttling.as_str()).concat("  ").concat(a.as_str()).concat("  ").concat(
        x.as_str(),
    ).concat("\n").concat("  ").concat(mtu.as_str()).concat("         ").concat(b.as_str()).concat(
        "  ",
    ).concat(y.as_str()).concat("\n").concat("  ").concat(power.as_str()).concat("       ").concat(
        c.as_str(),
    ).concat("  ").concat(z.as_str()).concat("\n")
}

/// The rows about latency and resolution times.
pub open spec fn latency_rows(latency: Option<Measured>) -> Seq<char> {
    "  "@ + in_dim("latency"@) + "     "@ + latency_text(latency) + "\n"@ + resolution_row(latency)
}

fn latency_lines(latency: Option<&Latency>) -> (s: String)
    requires
        latency_view(latency) matches Some(m) ==> m.wf(),
    ensures
        s@ == latency_rows(latency_view(latency)),
{
    let label = dim("latency");
    let line = latency_line(latency);
    let resolution = dns_probe_line(latency);
    "  ".to_owned().concat(label.as_str()).concat("     ").concat(line.as_str()).concat(
        "\n",
    ).concat(resolution.as_str())
}

/// The row about the TCP connections.
pub open spec fn connections_row(c: TcpConnections) -> Seq<char> {
    "  "@ + in_dim("connections"@) + " "@ + decimal(c.total as nat) + " total  "@ + decimal(
        c.established as nat,
    ) + " est  "@ + decimal(c.time_wait as nat) + " tw\n"@
}

fn connections_line(c: &TcpConnections) -> (s: String)
    ensures
        s@ == connections_row(*c),
{
    let label = dim("connections");
    let total = text::dec(c.total as u64);
    let established = text::dec(c.established as u64);
    let time_wait = text::dec(c.time_wait as u64);
    "  ".to_owned().concat(label.as_str()).concat(" ").concat(total.as_str()).concat(
        " total  ",
    ).concat(established.as_str()).concat(" est  ").concat(time_wait.as_str()).concat(" tw\n")
}

// ---------------------------------------------------------------------------
// Wi-Fi
// ---------------------------------------------------------------------------

/// The first connected link from number `i` on.
pub open spec fn connected_from(links: Seq<Link>, i: int) -> Option<int>
    decreases links.len() - i,
{
    if i < 0 || i >= links.len() {
        None
    } else if links[i].connected {
        Some(i)
    } else {
        connected_from(links, i + 1)
    }
}

/// The first link of this adapter from number `i` on.
pub open spec fn link_from(links: Seq<Link>, guid: Seq<char>, i: int) -> Option<int>
    decreases links.len() - i,
{
    if i < 0 || i >= links.len() {
        None
    } else if equal_ignoring_case(links[i].guid, guid) {
        Some(i)
    } else {
        link_from(links, guid, i + 1)
    }
}

fn find_connected(links: &Vec<WlanLink>) -> (found: Option<usize>)
    ensures
        match found {
            Some(i) => i < links@.len() && connected_from(link_views(links@), 0) == Some(i as int),
            None => connected_from(link_views(links@), 0) is None,
        },
{
    let ghost shown = link_views(links@);
    let mut i: usize = 0;
    while i < links.len()
        invariant
            i <= links@.len() == shown.len(),
            shown == link_views(links@),
            connected_from(shown, 0) == connected_from(shown, i as int),
        decreases links@.len() - i,
    {
        assert(shown[i as int] == links@[i as int]@);
        if links[i].connected {
            return Some(i);
        }
        i = i + 1;
    }
    None
}

fn find_link(links: &Vec<WlanLink>, guid: &str) -> (found: Option<usize>)
    ensures
        match found {
            Some(i) => i < links@.len() && link_from(link_views(links@), guid@, 0) == Some(
                i as int,
            ),
            None => link_from(link_views(links@), guid@, 0) is None,
        },
{
    let ghost shown = link_views(links@);
    let mut i: usize = 0;
    while i < links.len()
        invariant
            i <= links@.len() == shown.len(),
            shown == link_views(links@),
            link_from(shown, guid@, 0) == link_from(shown, guid@, i as int),
        decreases links@.len() - i,
    {
        assert(shown[i as int] == links@[i as int]@);
        if text::same_ignoring_case(links[i].guid.as_str(), guid) {
            return Some(i);
        }
        i = i + 1;
    }
    None
}

/// The channel of a link and its signal strength, as far as they are known.
pub open spec fn radio_text(link: Link) -> Seq<char> {
    "ch "@ + (match link.channel {
        Some(ch) => decimal(ch as nat),
        None => "?"@,
    }) + (match link.rssi_dbm {
        Some(rssi) => "  "@ + signed_decimal(rssi as int) + " dBm"@,
        None => ""@,
    })
}

fn radio(link: &WlanLink) -> (s: String)
    ensures
        s@ == radio_text(link@),
{
    let channel = match link.channel {
        Some(ch) => text::dec(ch as u64),
        None => "?".to_owned(),
    };
    let strength = match link.rssi_dbm {
        Some(rssi) => "  ".to_owned().concat(text::signed_dec(rssi).as_str()).concat(" dBm"),
        None => "".to_owned(),
    };
    "ch ".to_owned().concat(channel.as_str()).concat(strength.as_str())
}

/// The row about the first connected Wi-Fi link, if there is one.
pub open spec fn wifi_row(links: Seq<Link>, rates: Seq<(Seq<char>, Seq<char>)>) -> Seq<char> {
    match connected_from(links, 0) {
        Some(i) => "  "@ + in_dim("wi-fi"@) + "      "@ + links[i].ssid + "  "@ + signal_text(
            links[i].signal_quality,
        ) + "  "@ + radio_text(links[i]) + "  "@ + rates[i].0 + " / "@ + rates[i].1 + "\n"@,
        None => ""@,
    }
}

fn wifi_line(links: &Vec<WlanLink>, rates: &Rates) -> (s: String)
    requires
        rates.links@.len() == links@.len(),
    ensures
        s@ == wifi_row(link_views(links@), rates@.links),
{
    match find_connected(links) {
        Some(i) => {
            let link = &links[i];
            let label = dim("wi-fi");
            let bar = wlan::signal_bar(link.signal_quality);
            let air = radio(link);
            "  ".to_owned().concat(label.as_str()).concat("      ").concat(
                link.ssid.as_str(),
            ).concat("  ").concat(bar.as_str()).concat("  ").concat(air.as_str()).concat(
                "  ",
            ).concat(rates.links[i].0.as_str()).concat(" / ").concat(
                rates.links[i].1.as_str(),
            ).concat("\n")
        },
        None => "".to_owned(),
    }
}

// ---------------------------------------------------------------------------
// Messages and keys
// ---------------------------------------------------------------------------

/// The rows about the last error and the notice, as far as there are any.
pub open spec fn message_rows(s: State) -> Seq<char> {
    (match s.last_error {
        Some(e) => "  "@ + in_yellow("error"@) + "       "@ + e + "\n"@,
        None => ""@,
    }) + (match s.flash {
        Some((text, _)) => "  "@ + in_green(text) + "\n"@,
        None => ""@,
    })
}

fn message_lines(app: &App) -> (s: String)
    ensures
        s@ == message_rows(app@),
{
    let error = match &app.last_error {
        Some(e) => "  ".to_owned().concat(yellow("error").as_str()).concat("       ").concat(
            e.as_str(),
        ).concat("\n"),
        None => "".to_owned(),
    };
    let flash = match &app.flash {
        Some((notice, _)) => "  ".to_owned().concat(green(notice.as_str()).as_str()).concat("\n"),
        None => "".to_owned(),
    };
    error.concat(flash.as_str())
}

/// A key and what it does.
pub open spec fn key_text(key: Seq<char>, action: Seq<char>) -> Seq<char> {
    in_dim(key) + " "@ + action
}

fn key_part(key: &str, action: &str) -> (s: String)
    ensures
        s@ == key_text(key@, action@),
{
    dim(key).concat(" ").concat(action)
}

/// A key that switches something on and off.
pub open spec fn switch_text(key: Seq<char>, action: Seq<char>, on: bool) -> Seq<char> {
    key_text(key, action + " "@ + box_text(on))
}

fn switch_part(key: &str, action: &str, on: bool) -> (s: String)
    ensures
        s@ == switch_text(key@, action@, on),
{
    let tick = check(on);
    let what = action.to_owned().concat(" ").concat(tick.as_str());
    key_part(key, what.as_str())
}

/// Four entries in a row.
pub open spec fn key_row(a: Seq<char>, b: Seq<char>, c: Seq<char>, d: Seq<char>) -> Seq<char> {
    "  "@ + a + "    "@ + b + "    "@ + c + "    "@ + d + "\n"@
}

fn key_line(a: &str, b: &str, c: &str, d: &str) -> (s: String)
    ensures
        s@ == key_row(a@, b@, c@, d@),
{
    "  ".to_owned().concat(a).concat("    ").concat(b).concat("    ").concat(c).concat(
        "    ",
    ).concat(d).concat("\n")
}

/// The rows about the keys.
pub open spec fn key_rows(cfg: Config, autostart: bool) -> Seq<char> {
    key_row(
        switch_text("t"@, "tcp"@, cfg.tcp),
        switch_text("d"@, "dns"@, cfg.dns),
        switch_text("m"@, "throttling"@, cfg.multimedia),
        switch_text("h"@, "self-heal"@, cfg.self_heal),
    ) + key_row(
        key_text("r"@, "dns "@ + provider_name(cfg.dns_provider)),
        key_text("u"@, "mtu "@ + mtu_name(cfg.mtu)),
        switch_text("p"@, "power"@, cfg.power),
        key_text("s"@, "restore point"@),
    ) + key_row(
        switch_text("a"@, "autostart"@, autostart),
        key_text("f"@, "flush dns"@),
        key_text("i"@, "details"@),
        key_text("l"@, "log"@),
    ) + ("  "@ + key_text("q"@, "quit"@) + "    "@ + key_text("x"@, "revert + quit"@) + "\n"@)
}

fn key_lines(cfg: &Config, autostart: bool) -> (s: String)
    ensures
        s@ == key_rows(*cfg, autostart),
{
    let first = key_line(
        switch_part("t", "tcp", cfg.tcp).as_str(),
        switch_part("d", "dns", cfg.dns).as_str(),
        switch_part("m", "throttling", cfg.multimedia).as_str(),
        switch_part("h", "self-heal", cfg.self_heal).as_str(),
    );
    let provider = "dns ".to_owned().concat(provider_label(cfg.dns_provider));
    let size = "mtu ".to_owned().concat(mtu_label(cfg.mtu).as_str());
    let second = key_line(
        key_part("r", provider.as_str()).as_str(),
        key_part("u", size.as_str()).as_str(),
        switch_part("p", "power", cfg.power).as_str(),
        key_part("s", "restore point").as_str(),
    );
    let third = key_line(
        switch_part("a", "autostart", autostart).as_str(),
        key_part("f", "flush dns").as_str(),
        key_part("i", "details").as_str(),
        key_part("l", "log").as_str(),
    );
    let quit = key_part("q", "quit");
    let remove = key_part("x", "revert + quit");
    let last = "  ".to_owned().concat(quit.as_str()).concat("    ").concat(
        remove.as_str(),
    ).concat("\n");
    first.concat(second.as_str()).concat(third.as_str()).concat(last.as_str())
}

/// The question whether to quit, if it is open.
pub open spec fn question_row(s: State) -> Seq<char> {
    if s.confirming_quit {
        "  "@ + in_yellow(
            if s.quit_removes {
                "revert every tweak and exit? (y/n)"@
            } else {
                "exit and keep tweaks? (y/n)"@
            },
        ) + "\n"@
    } else {
        ""@
    }
}

fn question_line(app: &App) -> (s: String)
    ensures
        s@ == question_row(app@),
{
    if app.confirming_quit {
        let question = if app.quit_removes {
            "revert every tweak and exit? (y/n)"
        } else {
            "exit and keep tweaks? (y/n)"
        };
        "  ".to_owned().concat(yellow(question).as_str()).concat("\n")
    } else {
        "".to_owned()
    }
}

// ---------------------------------------------------------------------------
// The action log
// ---------------------------------------------------------------------------

/// How many lines of the action log are shown.
pub const LOG_LINES: usize = 12;

/// One row per line of the action log.
pub open spec fn log_rows(lines: Seq<Seq<char>>) -> Seq<char>
    decreases lines.len(),
{
    if lines.len() == 0 {
        Seq::empty()
    } else {
        log_rows(lines.drop_last()) + ("  "@ + in_dim(">"@) + " "@ + lines.last() + "\n"@)
    }
}

/// The action log.
pub open spec fn log_pane(lines: Seq<Seq<char>>) -> Seq<char> {
    "  "@ + CYAN@ + BOLD@ + "action log"@ + RESET@ + in_dim(" (last 12)"@) + "\n"@ + if lines.len()
        == 0 {
        "  "@ + in_dim("nothing logged yet"@) + "\n"@
    } else {
        log_rows(lines)
    }
}

/// The last lines of the action log.
pub fn render_log(lines: &Vec<String>) -> (pane: String)
    ensures
        pane@ == log_pane(views(lines@)),
{
    let ghost all = views(lines@);
    let limit = dim(" (last 12)");
    let title = "  ".to_owned().concat(CYAN).concat(BOLD).concat("action log").concat(RESET).concat(
        limit.as_str(),
    ).concat("\n");
    if lines.len() == 0 {
        let nothing = "  ".to_owned().concat(dim("nothing logged yet").as_str()).concat("\n");
        return title.concat(nothing.as_str());
    }
    let mut rows = String::new();
    let mut i: usize = 0;
    assert(all.take(0) =~= Seq::<Seq<char>>::empty());
    while i < lines.len()
        invariant
            i <= lines@.len(),
            all == views(lines@),
            rows@ == log_rows(all.take(i as int)),
        decreases lines@.len() - i,
    {
        assert(all.take(i + 1).drop_last() =~= all.take(i as int));
        let arrow = dim(">");
        let row = "  ".to_owned().concat(arrow.as_str()).concat(" ").concat(
            lines[i].as_str(),
        ).concat("\n");
        rows = rows.concat(row.as_str());
        i = i + 1;
    }
    assert(all.take(all.len() as int) =~= all);
    title.concat(rows.as_str())
}

// ---------------------------------------------------------------------------
// Adapter details
// ---------------------------------------------------------------------------

/// One flag, if it is known.
pub open spec fn flag_if(known: bool, flag: Seq<char>) -> Seq<Seq<char>> {
    if known {
        seq![flag]
    } else {
        Seq::empty()
    }
}

/// The flags of an adapter.
pub open spec fn flags_of(a: Adapter) -> Seq<Seq<char>> {
    seq![
        if a.up {
            "up"@
        } else {
            "down"@
        },
        if a.dhcp {
            "dhcp"@
        } else {
            "static"@
        },
    ] + flag_if(a.mtu > 0, "mtu "@ + decimal(a.mtu as nat)) + flag_if(a.mac.len() > 0, a.mac)
}

fn flags(iface: &Interface) -> (list: Vec<String>)
    ensures
        views(list@) == flags_of(iface@),
{
    let mut list: Vec<String> = Vec::new();
    list.push(
        if iface.up {
            "up".to_owned()
        } else {
            "down".to_owned()
        },
    );
    list.push(
        if iface.dhcp {
            "dhcp".to_owned()
        } else {
            "static".to_owned()
        },
    );
    if iface.mtu > 0 {
        list.push("mtu ".to_owned().concat(text::dec(iface.mtu as u64).as_str()));
    }
    if iface.mac.as_str().unicode_len() > 0 {
        list.push(iface.mac.clone());
    }
    assert(views(list@) =~= flags_of(iface@));
    list
}

/// The rates of an adapter from number `i` of the list on.
pub open spec fn rates_from(
    list: Seq<(u32, Seq<char>, Seq<char>)>,
    index: u32,
    i: int,
) -> Option<int>
    decreases list.len() - i,
{
    if i < 0 || i >= list.len() {
        None
    } else if list[i].0 == index {
        Some(i)
    } else {
        rates_from(list, index, i + 1)
    }
}

/// The row about the traffic of an adapter, if it is measured.
pub open spec fn traffic_row(index: u32, list: Seq<(u32, Seq<char>, Seq<char>)>) -> Seq<char> {
    match rates_from(list, index, 0) {
        Some(i) => "    "@ + in_dim("traffic"@) + "    "@ + "\u{2193}"@ + list[i].1 + "  "@
            + "\u{2191}"@ + list[i].2 + "\n"@,
        None => ""@,
    }
}

fn traffic_line(index: u32, rates: &Rates) -> (s: String)
    ensures
        s@ == traffic_row(index, rates@.traffic),
{
    let ghost shown = rates@.traffic;
    let mut i: usize = 0;
    while i < rates.traffic.len()
        invariant
            i <= rates.traffic@.len() == shown.len(),
            shown == rates@.traffic,
            rates_from(shown, index, 0) == rates_from(shown, index, i as int),
        decreases rates.traffic@.len() - i,
    {
        assert(shown[i as int].0 == rates.traffic@[i as int].0);
        if rates.traffic[i].0 == index {
            let label = dim("traffic");
            return "    ".to_owned().concat(label.as_str()).concat("    ").concat(
                "\u{2193}",
            ).concat(rates.traffic[i].1.as_str()).concat("  ").concat("\u{2191}").concat(
                rates.traffic[i].2.as_str(),
            ).concat("\n");
        }
        i = i + 1;
    }
    "".to_owned()
}

/// The row about the Wi-Fi link of an adapter, if it has one.
pub open spec fn link_row(
    guid: Seq<char>,
    links: Seq<Link>,
    rates: Seq<(Seq<char>, Seq<char>)>,
) -> Seq<char> {
    match link_from(links, guid, 0) {
        Some(i) => "    "@ + in_dim("wi-fi"@) + "     "@ + links[i].ssid + (if links[i].bssid.len()
            > 0 {
            "  "@ + links[i].bssid
        } else {
            ""@
        }) + "  "@ + signal_text(links[i].signal_quality) + "  "@ + radio_text(links[i]) + "  rx "@
            + rates[i].0 + "  tx "@ + rates[i].1 + "\n"@,
        None => ""@,
    }
}

fn link_line(guid: &str, links: &Vec<WlanLink>, rates: &Rates) -> (s: String)
    requires
        rates.links@.len() == links@.len(),
    ensures
        s@ == link_row(guid@, link_views(links@), rates@.links),
{
    match find_link(links, guid) {
        Some(i) => {
            let link = &links[i];
            let label = dim("wi-fi");
            let station = if link.bssid.as_str().unicode_len() > 0 {
                "  ".to_owned().concat(link.bssid.as_str())
            } else {
                "".to_owned()
            };
            let bar = wlan::signal_bar(link.signal_quality);
            let air = radio(link);
            "    ".to_owned().concat(label.as_str()).concat("     ").concat(
                link.ssid.as_str(),
            ).concat(station.as_str()).concat("  ").concat(bar.as_str()).concat("  ").concat(
                air.as_str(),
            ).concat("  rx ").concat(rates.links[i].0.as_str()).concat("  tx ").concat(
                rates.links[i].1.as_str(),
            ).concat("\n")
        },
        None => "".to_owned(),
    }
}

/// The row about a list of addresses, if it is not empty. `gap` aligns it.
pub open spec fn list_row(label: Seq<char>, gap: Seq<char>, list: Seq<Seq<char>>) -> Seq<char> {
    if list.len() == 0 {
        ""@
    } else {
        "    "@ + in_dim(label) + gap + joined(list, ", "@) + "\n"@
    }
}

fn list_line(label: &str, gap: &str, list: &Vec<String>) -> (s: String)
    ensures
        s@ == list_row(label@, gap@, views(list@)),
{
    if list.len() == 0 {
        return "".to_owned();
    }
    let shown = dim(label);
    let items = text::join(list, ", ");
    "    ".to_owned().concat(shown.as_str()).concat(gap).concat(items.as_str()).concat("\n")
}

/// The paragraph about one adapter.
pub open spec fn paragraph(a: Adapter, links: Seq<Link>, rates: RateTexts) -> Seq<char> {
    "  "@ + in_cyan(name_of(a)) + "\n"@ + "    "@ + a.description + " "@ + joined(
        flags_of(a),
        "  "@,
    ) + "\n"@ + traffic_row(a.index, rates.traffic) + link_row(a.guid, links, rates.links)
        + list_row("ip"@, "       "@, a.ips) + list_row("gateway"@, "   "@, a.gateways) + list_row(
        "dns"@,
        "       "@,
        a.dns,
    ) + list_row("dns6"@, "      "@, a.dns6)
}

/// One paragraph per adapter.
pub open spec fn detail_pane(v: Seq<Adapter>, links: Seq<Link>, rates: RateTexts) -> Seq<char>
    decreases v.len(),
{
    if v.len() == 0 {
        Seq::empty()
    } else {
        detail_pane(v.drop_last(), links, rates) + paragraph(v.last(), links, rates)
    }
}

fn adapter_paragraph(iface: &Interface, links: &Vec<WlanLink>, rates: &Rates) -> (s: String)
    requires
        rates.links@.len() == links@.len(),
    ensures
        s@ == paragraph(iface@, link_views(links@), rates@),
{
    let title = cyan(name(iface));
    let known = text::join(&flags(iface), "  ");
    let traffic = traffic_line(iface.index, rates);
    let link = link_line(iface.guid.as_str(), links, rates);
    let ips = list_line("ip", "       ", &iface.ips);
    let gateways = list_line("gateway", "   ", &iface.gateways);
    let dns = list_line("dns", "       ", &iface.dns);
    let dns6 = list_line("dns6", "      ", &iface.dns6);
    "  ".to_owned().concat(title.as_str()).concat("\n").concat("    ").concat(
        iface.description.as_str(),
    ).concat(" ").concat(known.as_str()).concat("\n").concat(traffic.as_str()).concat(
        link.as_str(),
    ).concat(ips.as_str()).concat(gateways.as_str()).concat(dns.as_str()).concat(dns6.as_str())
}

/// One paragraph per adapter. `rates` has the rates of each Wi-Fi link.
pub fn render_detail(physical: &Vec<Interface>, links: &Vec<WlanLink>, rates: &Rates) -> (pane:
    String)
    requires
        rates.links@.len() == links@.len(),
    ensures
        pane@ == detail_pane(adapters(physical@), link_views(links@), rates@),
{
    let ghost all = adapters(physical@);
    let mut pane = String::new();
    let mut i: usize = 0;
    assert(all.take(0) =~= Seq::<Adapter>::empty());
    while i < physical.len()
        invariant
            i <= physical@.len(),
            rates.links@.len() == links@.len(),
            all == adapters(physical@),
            pane@ == detail_pane(all.take(i as int), link_views(links@), rates@),
        decreases physical@.len() - i,
    {
        assert(all.take(i + 1).drop_last() =~= all.take(i as int));
        assert(all.take(i + 1).last() == physical@[i as int]@);
        let part = adapter_paragraph(&physical[i], links, rates);
        pane = pane.concat(part.as_str());
        i = i + 1;
    }
    assert(all.take(all.len() as int) =~= all);
    pane
}

// ---------------------------------------------------------------------------
// The whole screen
// ---------------------------------------------------------------------------

/// The whole menu.
pub open spec fn screen_of(
    s: State,
    seen: Seen,
    all: Seq<Adapter>,
    rates: RateTexts,
    autostart: bool,
    log: Seq<Seq<char>>,
) -> Seq<char> {
    let state = s.overall(seen, all);
    head_rows(state.0, state.1) + interfaces_row(s.physical.len(), s.active_ifaces as nat)
        + adapters_row(s.physical) + tcp_row(s.cfg.tcp, s.tcp) + dns_row(
        s.cfg.dns,
        s.dns,
        s.resolvers(),
    ) + feature_rows(s) + latency_rows(s.latency) + connections_row(s.connections) + wifi_row(
        s.wlan,
        rates.links,
    ) + message_rows(s) + RULE@ + key_rows(s.cfg, autostart) + (if s.detail {
        detail_pane(s.physical, s.wlan, rates)
    } else {
        ""@
    }) + (if s.show_log {
        log_pane(log)
    } else {
        ""@
    }) + question_row(s)
}

impl App {
    /// The whole menu, nothing where the terminal cannot draw it. `snapshot` and
    /// `all` are the state of the machine right now, `rates` has the rates of
    /// each Wi-Fi link, and `log` the last lines of the action log.
    pub fn render(
        &self,
        vt: bool,
        snapshot: &Snapshot,
        all: &Vec<Interface>,
        rates: &Rates,
        autostart: bool,
        log: &Vec<String>,
    ) -> (screen: String)
        requires
            self@.wf(),
            rates.links@.len() == self.wlan@.len(),
        ensures
            screen@ == if vt {
                screen_of(self@, snapshot@, adapters(all@), rates@, autostart, views(log@))
            } else {
                ""@
            },
    {
        if !vt {
            return "".to_owned();
        }
        let (word, color) = self.overall_state(snapshot, all);
        let resolvers = self.resolve_dns();
        let detail = if self.detail {
            render_detail(&self.physical, &self.wlan, rates)
        } else {
            "".to_owned()
        };
        let pane = if self.show_log {
            render_log(log)
        } else {
            "".to_owned()
        };
        head(word, color).concat(
            interfaces_line(self.physical.len(), self.active_ifaces).as_str(),
        ).concat(adapters_line(&self.physical).as_str()).concat(
            tcp_line(self.cfg.tcp, &self.tcp).as_str(),
        ).concat(dns_line(self.cfg.dns, &self.dns, &resolvers).as_str()).concat(
            feature_lines(self).as_str(),
        ).concat(latency_lines(self.latency.as_ref()).as_str()).concat(
            connections_line(&self.connections).as_str(),
        ).concat(wifi_line(&self.wlan, rates).as_str()).concat(
            message_lines(self).as_str(),
        ).concat(RULE).concat(key_lines(&self.cfg, autostart).as_str()).concat(
            detail.as_str(),
        ).concat(pane.as_str()).concat(question_line(self).as_str())
    }
}

} // verus!
