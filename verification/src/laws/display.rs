//! What the menu and the diagnostic report show.

use vstd::prelude::*;

use crate::app::State;
use crate::config::{Config, DnsProvider};
use crate::connections::TcpConnections;
use crate::dns::{DnsStatus, ResolverSet};
use crate::interfaces::{adapters, Adapter};
use crate::laws::commands::{coloured, colours_are_these};
use crate::probe::{losses, Measured, Window};
use crate::registry::Seen;
use crate::report::{members, report_tree, Report, Tree};
use crate::screen;
use crate::tcp::TcpStatus;
use crate::text::{decimal, joined, signed_decimal};
use crate::wlan::{link_views, signal_text, Link};

verus! {

/// Dimmed text.
pub open spec fn dimmed(text: Seq<char>) -> Seq<char> {
    coloured("2"@, text)
}

/// Green text.
pub open spec fn greened(text: Seq<char>) -> Seq<char> {
    coloured("32"@, text)
}

/// Yellow text.
pub open spec fn yellowed(text: Seq<char>) -> Seq<char> {
    coloured("33"@, text)
}

/// Cyan text.
pub open spec fn cyaned(text: Seq<char>) -> Seq<char> {
    coloured("36"@, text)
}

proof fn all_colours()
    ensures
        forall|s: Seq<char>| #[trigger] dimmed(s) == crate::paint::in_dim(s),
        forall|s: Seq<char>| #[trigger] greened(s) == crate::paint::in_green(s),
        forall|s: Seq<char>| #[trigger] yellowed(s) == crate::paint::in_yellow(s),
        forall|s: Seq<char>| #[trigger] cyaned(s) == crate::paint::in_cyan(s),
{
    assert forall|s: Seq<char>| #[trigger] dimmed(s) == crate::paint::in_dim(s) by {
        colours_are_these(s);
    }
    assert forall|s: Seq<char>| #[trigger] greened(s) == crate::paint::in_green(s) by {
        colours_are_these(s);
    }
    assert forall|s: Seq<char>| #[trigger] yellowed(s) == crate::paint::in_yellow(s) by {
        colours_are_these(s);
    }
    assert forall|s: Seq<char>| #[trigger] cyaned(s) == crate::paint::in_cyan(s) by {
        colours_are_these(s);
    }
}

/// A ticked box, or an empty one.
pub open spec fn tick(on: bool) -> Seq<char> {
    if on {
        greened("[x]"@)
    } else {
        dimmed("[ ]"@)
    }
}

// ---------------------------------------------------------------------------
// The status panel
// ---------------------------------------------------------------------------

/// The row about the TCP tuning is ticked while the feature is on, and says
/// `tuned` exactly when the machine-wide values and every counted adapter are.
pub proof fn tcp_row_goes_by_the_status(on: bool, s: TcpStatus)
    ensures
        ({
            let counts = decimal(s.ifaces_ok as nat) + "/"@ + decimal(s.ifaces_total as nat)
                + " ifaces"@;
            let done = s.global_ok && (s.ifaces_total == 0 || s.ifaces_ok == s.ifaces_total);
            let words = if !on {
                dimmed("tuning off"@)
            } else if done {
                greened("tuned "@ + counts)
            } else {
                yellowed("restoring "@ + counts)
            };
            let marked = on && s.global_ok;
            screen::tcp_row(on, s) == "  "@ + dimmed("tcp"@) + "         "@ + tick(on) + "  "@ + words
                + "  global "@ + (if marked {
                "\x1b[32m"@
            } else {
                "\x1b[2m"@
            }) + "\x1b[1m"@ + (if marked {
                "[x]"@
            } else {
                "[ ]"@
            }) + "\x1b[0m"@ + "\n"@
        }),
{
    all_colours();
}

/// The row about the resolvers names the provider and both addresses, and is
/// green exactly when every active adapter is aligned.
pub proof fn dns_row_goes_by_the_status(on: bool, s: DnsStatus, set: ResolverSet)
    ensures
        ({
            let counts = decimal(s.aligned as nat) + "/"@ + decimal(s.total as nat) + " aligned"@;
            let words = if !on {
                dimmed("off"@)
            } else if s.total == 0 || s.aligned == s.total {
                greened(counts)
            } else {
                yellowed(counts)
            };
            let provider = match set.provider {
                DnsProvider::Cloudflare => "cloudflare"@,
                DnsProvider::Google => "google"@,
                DnsProvider::Auto => "auto"@,
            };
            screen::dns_row(on, s, set) == "  "@ + dimmed("dns"@) + "         "@ + tick(on) + "  "@
                + provider + " "@ + words + "   "@ + dimmed("("@) + cyaned(set.primary) + " / "@
                + cyaned(set.secondary) + dimmed(")"@) + "\n"@
        }),
{
    all_colours();
}

/// The rows about throttling, MTU and power-down tell off from done and done
/// from pending.
pub proof fn feature_rows_go_by_the_state(s: State)
    ensures
        ({
            let throttling = if !s.cfg.multimedia {
                dimmed("left as is"@)
            } else if s.throttling {
                greened("removed"@)
            } else {
                yellowed("pending"@)
            };
            let mtu = match s.cfg.mtu {
                None => dimmed("off"@),
                Some(target) => if s.mtu_ok {
                    greened(decimal(target as nat) + " set"@)
                } else {
                    yellowed(decimal(target as nat) + " pending"@)
                },
            };
            let power = if !s.cfg.power {
                dimmed("left as is"@)
            } else if s.power_ok {
                greened("no power-down"@)
            } else {
                yellowed("pending"@)
            };
            screen::feature_rows(s) == "  "@ + dimmed("throttling"@) + "  "@ + tick(
                s.cfg.multimedia,
            ) + "  "@ + throttling + "\n"@ + "  "@ + dimmed("mtu"@) + "         "@ + tick(
                s.cfg.mtu is Some,
            ) + "  "@ + mtu + "\n"@ + "  "@ + dimmed("power"@) + "       "@ + tick(s.cfg.power)
                + "  "@ + power + "\n"@
        }),
{
    all_colours();
}

/// An adapter goes by its friendly name, else by its description, else by its
/// GUID; a known MTU is added. Four adapters are named at most, the first ones.
pub proof fn adapters_go_by_their_names(v: Seq<Adapter>, a: Adapter)
    ensures
        a.friendly.len() > 0 ==> screen::name_of(a) == a.friendly,
        a.friendly.len() == 0 && a.description.len() > 0 ==> screen::name_of(a) == a.description,
        a.friendly.len() == 0 && a.description.len() == 0 ==> screen::name_of(a) == a.guid,
        a.mtu == 0 ==> screen::adapter_label(a) == cyaned(screen::name_of(a)) + ""@,
        a.mtu > 0 ==> screen::adapter_label(a) == cyaned(screen::name_of(a)) + dimmed(
            " (MTU "@ + decimal(a.mtu as nat) + ")"@,
        ),
        v.len() <= 4 ==> screen::named(v) == v,
        v.len() > 4 ==> screen::named(v) == v.subrange(0, 4),
        v.len() == 0 ==> screen::adapters_row(v) == ""@,
        v.len() > 0 ==> screen::adapters_row(v) == "  "@ + dimmed("adapters"@) + "    "@ + joined(
            screen::adapter_labels(screen::named(v)),
            "  "@,
        ) + "\n"@,
{
    all_colours();
    if v.len() > 4 {
        assert(v.take(4) =~= v.subrange(0, 4));
    }
}

/// An endpoint shows the round-trip time of its last answer with the jitter, the
/// share of lost probes in percent, and the sparkline; without an answer, `n/a`.
pub proof fn endpoints_show_their_window(w: Window, label: Seq<char>)
    ensures
        ({
            let time = match w.last {
                Some(s) => if s.rtt_ms > 0 {
                    greened(decimal(s.rtt_ms as nat) + " ms"@) + (match w.jitter() {
                        Some(j) => " "@ + dimmed("\u{b1}"@ + decimal(j as nat)),
                        None => ""@,
                    })
                } else {
                    dimmed("n/a"@)
                },
                None => dimmed("n/a"@),
            };
            let share = if w.history.len() > 0 {
                " "@ + dimmed(decimal(losses(w.history) * 100 / w.history.len()) + "%"@)
            } else {
                ""@
            };
            let spark = if w.history.len() > 0 {
                " "@ + cyaned(w.line())
            } else {
                ""@
            };
            screen::endpoint_text(w, label) == dimmed(label) + " "@ + time + share + spark
        }),
{
    all_colours();
}

/// The resolution times are shown with their addresses as soon as one of them is
/// known.
pub proof fn resolution_row_shows_both_times(latency: Option<Measured>)
    ensures
        latency is None ==> screen::resolution_row(latency) == ""@,
        latency matches Some(m) ==> {
            let time = |ms: Option<u32>|
                match ms {
                    Some(n) => greened(decimal(n as nat) + " ms"@),
                    None => dimmed("n/a"@),
                };
            screen::resolution_row(latency) == if m.cf_dns_ms is Some || m.google_dns_ms is Some {
                "  "@ + dimmed("resolution"@) + " 1.1.1.1 "@ + time(m.cf_dns_ms) + "   8.8.8.8 "@
                    + time(m.google_dns_ms) + "\n"@
            } else {
                ""@
            }
        },
{
    all_colours();
}

/// The connections are shown with their total, the established ones and those
/// that wait.
pub proof fn connections_row_shows_the_counts(c: TcpConnections)
    ensures
        screen::connections_row(c) == "  "@ + dimmed("connections"@) + " "@ + decimal(
            c.total as nat,
        ) + " total  "@ + decimal(c.established as nat) + " est  "@ + decimal(c.time_wait as nat)
            + " tw\n"@,
{
    all_colours();
}

/// The Wi-Fi row is about the first link that is connected; without one there is
/// no row.
pub proof fn wifi_row_is_about_the_first_link(
    links: Seq<Link>,
    rates: Seq<(Seq<char>, Seq<char>)>,
    k: int,
)
    requires
        0 <= k <= links.len(),
        forall|i: int| 0 <= i < k ==> !(#[trigger] links[i]).connected,
        k < links.len() ==> links[k].connected,
    ensures
        k == links.len() ==> screen::wifi_row(links, rates) == ""@,
        k < links.len() ==> {
            let link = links[k];
            let channel = match link.channel {
                Some(ch) => decimal(ch as nat),
                None => "?"@,
            };
            let strength = match link.rssi_dbm {
                Some(rssi) => "  "@ + signed_decimal(rssi as int) + " dBm"@,
                None => ""@,
            };
            screen::wifi_row(links, rates) == "  "@ + dimmed("wi-fi"@) + "      "@ + link.ssid + "  "@
                + signal_text(link.signal_quality) + "  "@ + ("ch "@ + channel + strength) + "  "@
                + rates[k].0 + " / "@ + rates[k].1 + "\n"@
        },
{
    all_colours();
    first_connected(links, 0, k);
}

proof fn first_connected(links: Seq<Link>, from: int, k: int)
    requires
        0 <= from <= k <= links.len(),
        forall|i: int| 0 <= i < k ==> !(#[trigger] links[i]).connected,
        k < links.len() ==> links[k].connected,
    ensures
        screen::connected_from(links, from) == if k < links.len() {
            Some(k)
        } else {
            None
        },
    decreases k - from,
{
    if from < k {
        assert(!links[from].connected);
        first_connected(links, from + 1, k);
    }
}

/// The last error and the notice are shown while there are any, and the question
/// says whether quitting keeps the tweaks.
pub proof fn messages_are_shown(s: State)
    ensures
        screen::message_rows(s) == (match s.last_error {
            Some(e) => "  "@ + yellowed("error"@) + "       "@ + e + "\n"@,
            None => ""@,
        }) + (match s.flash {
            Some((text, _)) => "  "@ + greened(text) + "\n"@,
            None => ""@,
        }),
        !s.confirming_quit ==> screen::question_row(s) == ""@,
        s.confirming_quit && s.quit_removes ==> screen::question_row(s) == "  "@ + yellowed(
            "revert every tweak and exit? (y/n)"@,
        ) + "\n"@,
        s.confirming_quit && !s.quit_removes ==> screen::question_row(s) == "  "@ + yellowed(
            "exit and keep tweaks? (y/n)"@,
        ) + "\n"@,
{
    all_colours();
}

/// Each switch of the menu is ticked exactly while its feature is on.
pub proof fn switches_are_ticked(cfg: Config, autostart: bool)
    ensures
        ({
            let switch = |key: Seq<char>, word: Seq<char>, on: bool|
                dimmed(key) + " "@ + (word + " "@ + tick(on));
            let provider = match cfg.dns_provider {
                DnsProvider::Cloudflare => "cloudflare"@,
                DnsProvider::Google => "google"@,
                DnsProvider::Auto => "auto"@,
            };
            let mtu = match cfg.mtu {
                Some(target) => decimal(target as nat),
                None => "off"@,
            };
            screen::key_rows(cfg, autostart) == ("  "@ + switch("t"@, "tcp"@, cfg.tcp) + "    "@
                + switch("d"@, "dns"@, cfg.dns) + "    "@ + switch(
                "m"@,
                "throttling"@,
                cfg.multimedia,
            ) + "    "@ + switch("h"@, "self-heal"@, cfg.self_heal) + "\n"@) + ("  "@ + (dimmed(
                "r"@,
            ) + " "@ + ("dns "@ + provider)) + "    "@ + (dimmed("u"@) + " "@ + ("mtu "@ + mtu))
                + "    "@ + switch("p"@, "power"@, cfg.power) + "    "@ + (dimmed("s"@) + " "@
                + "restore point"@) + "\n"@) + ("  "@ + switch("a"@, "autostart"@, autostart)
                + "    "@ + (dimmed("f"@) + " "@ + "flush dns"@) + "    "@ + (dimmed("i"@) + " "@
                + "details"@) + "    "@ + (dimmed("l"@) + " "@ + "log"@) + "\n"@) + ("  "@ + (
            dimmed("q"@) + " "@ + "quit"@) + "    "@ + (dimmed("x"@) + " "@ + "revert + quit"@)
                + "\n"@)
        }),
{
    all_colours();
}

/// The rows above the panes, in order.
pub open spec fn upper_rows(
    s: State,
    seen: Seen,
    all: Seq<Adapter>,
    rates: screen::RateTexts,
    autostart: bool,
) -> Seq<char> {
    screen::head_rows(s.overall(seen, all).0, s.overall(seen, all).1) + screen::interfaces_row(
        s.physical.len(),
        s.active_ifaces as nat,
    ) + screen::adapters_row(s.physical) + screen::tcp_row(s.cfg.tcp, s.tcp) + screen::dns_row(
        s.cfg.dns,
        s.dns,
        crate::dns::resolved(s.cfg.dns_provider, s.latency),
    ) + screen::feature_rows(s) + screen::latency_rows(s.latency) + screen::connections_row(
        s.connections,
    ) + screen::wifi_row(s.wlan, rates.links) + screen::message_rows(s) + screen::RULE@
        + screen::key_rows(s.cfg, autostart)
}

/// The screen shows the rows, each pane exactly while it is open, and the
/// question last.
pub proof fn panes_are_drawn_while_open(
    s: State,
    seen: Seen,
    all: Seq<Adapter>,
    rates: screen::RateTexts,
    autostart: bool,
    log: Seq<Seq<char>>,
)
    ensures
        ({
            let whole = screen::screen_of(s, seen, all, rates, autostart, log);
            let rows = upper_rows(s, seen, all, rates, autostart);
            let details = screen::detail_pane(s.physical, s.wlan, rates);
            let question = screen::question_row(s);
            &&& !s.detail && !s.show_log ==> whole == rows + question
            &&& s.detail && !s.show_log ==> whole == rows + details + question
            &&& !s.detail && s.show_log ==> whole == rows + screen::log_pane(log) + question
            &&& s.detail && s.show_log ==> whole == rows + details + screen::log_pane(log)
                + question
        }),
        screen::LOG_LINES == 12,
{
    reveal_strlit("");
    let rows = upper_rows(s, seen, all, rates, autostart);
    let details = screen::detail_pane(s.physical, s.wlan, rates);
    let question = screen::question_row(s);
    let first = if s.detail {
        details
    } else {
        ""@
    };
    let second = if s.show_log {
        screen::log_pane(log)
    } else {
        ""@
    };
    assert(screen::screen_of(s, seen, all, rates, autostart, log) == rows + first + second
        + question);
    nothing_adds_nothing(rows, first);
    nothing_adds_nothing(rows + first, second);
}

proof fn nothing_adds_nothing(front: Seq<char>, back: Seq<char>)
    ensures
        back.len() == 0 ==> front + back == front,
{
    if back.len() == 0 {
        assert(front + back =~= front);
    }
}

// ---------------------------------------------------------------------------
// The details and the log
// ---------------------------------------------------------------------------

/// Each line of the log has its row, and each adapter its paragraph, in order.
pub proof fn panes_show_everything(
    lines: Seq<Seq<char>>,
    line: Seq<char>,
    v: Seq<Adapter>,
    a: Adapter,
    links: Seq<Link>,
    rates: screen::RateTexts,
)
    ensures
        screen::log_rows(Seq::empty()).len() == 0,
        screen::log_rows(lines.push(line)) == screen::log_rows(lines) + ("  "@ + dimmed(">"@)
            + " "@ + line + "\n"@),
        screen::detail_pane(Seq::empty(), links, rates).len() == 0,
        screen::detail_pane(v.push(a), links, rates) == screen::detail_pane(v, links, rates)
            + screen::paragraph(a, links, rates),
{
    all_colours();
    assert(lines.push(line).drop_last() =~= lines);
    assert(v.push(a).drop_last() =~= v);
}

/// An adapter's flags say whether its link is up, where its configuration comes
/// from, its MTU where it is known, and its hardware address where it has one.
pub proof fn flags_say_what_is_known(a: Adapter)
    ensures
        ({
            let flags = screen::flags_of(a);
            &&& flags.len() >= 2
            &&& flags[0] == if a.up {
                "up"@
            } else {
                "down"@
            }
            &&& flags[1] == if a.dhcp {
                "dhcp"@
            } else {
                "static"@
            }
            &&& a.mtu > 0 ==> flags[2] == "mtu "@ + decimal(a.mtu as nat)
            &&& a.mac.len() > 0 ==> flags.last() == a.mac
            &&& flags.len() == 2 + (if a.mtu > 0 {
                1int
            } else {
                0int
            }) + (if a.mac.len() > 0 {
                1int
            } else {
                0int
            })
        }),
{
}

/// The title carries the version, and the status row the overall word in its
/// colour.
pub proof fn head_shows_the_state(word: Seq<char>, colour: Seq<char>, physical: nat, active: nat)
    ensures
        screen::head_rows(word, colour) == screen::CLEAR@ + "\x1b[1m"@ + "\x1b[36m"@
            + "  STABILIZATORES"@ + "\x1b[0m"@ + "  "@ + dimmed("v"@ + crate::VERSION@) + "\n"@
            + screen::RULE@ + "  "@ + dimmed("status"@) + "      "@ + colour + "\x1b[1m"@ + word
            + "\x1b[0m"@ + "\n"@,
        screen::interfaces_row(physical, active) == "  "@ + dimmed("interfaces"@) + "  "@ + decimal(
            physical,
        ) + " physical, "@ + decimal(active) + " active\n"@,
{
    all_colours();
}

/// Both endpoints are shown side by side; before the first measurement, that it
/// is under way.
pub proof fn latency_shows_both_endpoints(latency: Option<Measured>)
    ensures
        screen::latency_rows(latency) == "  "@ + dimmed("latency"@) + "     "@ + (match latency {
            Some(m) => screen::endpoint_text(m.cloudflare, "cloudflare"@) + "   "@
                + screen::endpoint_text(m.google, "google"@),
            None => dimmed("measuring..."@),
        }) + "\n"@ + screen::resolution_row(latency),
{
    all_colours();
}

/// The log pane says so when there is nothing in the log.
pub proof fn log_pane_has_a_title(lines: Seq<Seq<char>>)
    ensures
        ({
            let title = "  "@ + "\x1b[36m"@ + "\x1b[1m"@ + "action log"@ + "\x1b[0m"@ + dimmed(
                " (last 12)"@,
            ) + "\n"@;
            &&& lines.len() == 0 ==> screen::log_pane(lines) == title + ("  "@ + dimmed(
                "nothing logged yet"@,
            ) + "\n"@)
            &&& lines.len() > 0 ==> screen::log_pane(lines) == title + screen::log_rows(lines)
        }),
{
    all_colours();
}

/// An adapter's traffic is that of the first rates with its index, the received
/// ones first; without rates there is no row.
pub proof fn traffic_row_shows_the_rates(
    index: u32,
    list: Seq<(u32, Seq<char>, Seq<char>)>,
    k: int,
)
    requires
        0 <= k <= list.len(),
        forall|i: int| 0 <= i < k ==> (#[trigger] list[i]).0 != index,
        k < list.len() ==> list[k].0 == index,
    ensures
        k == list.len() ==> screen::traffic_row(index, list) == ""@,
        k < list.len() ==> screen::traffic_row(index, list) == "    "@ + dimmed("traffic"@)
            + "    "@ + "\u{2193}"@ + list[k].1 + "  "@ + "\u{2191}"@ + list[k].2 + "\n"@,
{
    all_colours();
    first_rates(index, list, 0, k);
}

proof fn first_rates(index: u32, list: Seq<(u32, Seq<char>, Seq<char>)>, from: int, k: int)
    requires
        0 <= from <= k <= list.len(),
        forall|i: int| 0 <= i < k ==> (#[trigger] list[i]).0 != index,
        k < list.len() ==> list[k].0 == index,
    ensures
        screen::rates_from(list, index, from) == if k < list.len() {
            Some(k)
        } else {
            None
        },
    decreases k - from,
{
    if from < k {
        assert(list[from].0 != index);
        first_rates(index, list, from + 1, k);
    }
}

/// An adapter's Wi-Fi link is the first with its GUID, whatever the case.
pub proof fn link_row_shows_the_link(
    guid: Seq<char>,
    links: Seq<Link>,
    rates: Seq<(Seq<char>, Seq<char>)>,
    k: int,
)
    requires
        0 <= k <= links.len(),
        forall|i: int|
            0 <= i < k ==> !crate::text::equal_ignoring_case((#[trigger] links[i]).guid, guid),
        k < links.len() ==> crate::text::equal_ignoring_case(links[k].guid, guid),
    ensures
        k == links.len() ==> screen::link_row(guid, links, rates) == ""@,
        k < links.len() ==> {
            let link = links[k];
            let station = if link.bssid.len() > 0 {
                "  "@ + link.bssid
            } else {
                ""@
            };
            screen::link_row(guid, links, rates) == "    "@ + dimmed("wi-fi"@) + "     "@ + link.ssid
                + station + "  "@ + signal_text(link.signal_quality) + "  "@ + screen::radio_text(
                link,
            ) + "  rx "@ + rates[k].0 + "  tx "@ + rates[k].1 + "\n"@
        },
{
    all_colours();
    first_link(guid, links, 0, k);
}

proof fn first_link(guid: Seq<char>, links: Seq<Link>, from: int, k: int)
    requires
        0 <= from <= k <= links.len(),
        forall|i: int|
            0 <= i < k ==> !crate::text::equal_ignoring_case((#[trigger] links[i]).guid, guid),
        k < links.len() ==> crate::text::equal_ignoring_case(links[k].guid, guid),
    ensures
        screen::link_from(links, guid, from) == if k < links.len() {
            Some(k)
        } else {
            None
        },
    decreases k - from,
{
    if from < k {
        assert(!crate::text::equal_ignoring_case(links[from].guid, guid));
        first_link(guid, links, from + 1, k);
    }
}

/// A paragraph names the adapter and shows its flags, its traffic, its link, and
/// its addresses, gateways and servers, as far as there are any.
pub proof fn paragraphs_show_the_adapter(a: Adapter, links: Seq<Link>, rates: screen::RateTexts)
    ensures
        ({
            let row = |label: Seq<char>, gap: Seq<char>, list: Seq<Seq<char>>|
                if list.len() == 0 {
                    ""@
                } else {
                    "    "@ + dimmed(label) + gap + joined(list, ", "@) + "\n"@
                };
            screen::paragraph(a, links, rates) == "  "@ + cyaned(screen::name_of(a)) + "\n"@
                + "    "@ + a.description + " "@ + joined(screen::flags_of(a), "  "@) + "\n"@
                + screen::traffic_row(a.index, rates.traffic) + screen::link_row(
                a.guid,
                links,
                rates.links,
            ) + row("ip"@, "       "@, a.ips) + row("gateway"@, "   "@, a.gateways) + row(
                "dns"@,
                "       "@,
                a.dns,
            ) + row("dns6"@, "      "@, a.dns6)
        }),
{
    all_colours();
}

// ---------------------------------------------------------------------------
// The report
// ---------------------------------------------------------------------------

/// The member of a list of pairs is the last one with its key.
proof fn last_pair_counts(list: Seq<(Seq<char>, Tree)>, i: int)
    requires
        0 <= i < list.len(),
        forall|j: int| i < j < list.len() ==> (#[trigger] list[j]).0 != list[i].0,
    ensures
        members(list).dom().contains(list[i].0),
        members(list)[list[i].0] == list[i].1,
    decreases list.len(),
{
    if i < list.len() - 1 {
        let front = list.drop_last();
        assert(front[i] == list[i]);
        assert forall|j: int| i < j < front.len() implies (#[trigger] front[j]).0
            != front[i].0 by {
            assert(front[j] == list[j]);
        }
        last_pair_counts(front, i);
        assert(list[list.len() - 1].0 != list[i].0);
    }
}

/// The value of an object's member.
pub open spec fn member(object: Tree, key: Seq<char>, value: Tree) -> bool {
    object matches Tree::Members(m) && m.dom().contains(key) && m[key] == value
}

proof fn pair_is_member(list: Seq<(Seq<char>, Tree)>, i: int)
    requires
        0 <= i < list.len(),
        forall|j: int| i < j < list.len() ==> (#[trigger] list[j]).0 != list[i].0,
    ensures
        member(Tree::Members(members(list)), list[i].0, list[i].1),
{
    last_pair_counts(list, i);
}

/// The report shows every switch of the config under its name.
pub proof fn report_shows_the_config(cfg: Config)
    ensures
        ({
            let shown = crate::report::config_tree(cfg);
            &&& member(shown, "tcp"@, Tree::Bool(cfg.tcp))
            &&& member(shown, "dns"@, Tree::Bool(cfg.dns))
            &&& member(shown, "multimedia"@, Tree::Bool(cfg.multimedia))
            &&& member(shown, "self_heal"@, Tree::Bool(cfg.self_heal))
            &&& member(shown, "dns_provider"@, Tree::Text(crate::cli::provider_text(cfg.dns_provider)))
            &&& cfg.mtu matches Some(mtu) ==> member(shown, "mtu"@, Tree::Number(mtu as int))
            &&& cfg.mtu is None ==> member(shown, "mtu"@, Tree::Null)
            &&& member(shown, "power"@, Tree::Bool(cfg.power))
        }),
{
    let list = seq![
        ("tcp"@, Tree::Bool(cfg.tcp)),
        ("dns"@, Tree::Bool(cfg.dns)),
        ("multimedia"@, Tree::Bool(cfg.multimedia)),
        ("self_heal"@, Tree::Bool(cfg.self_heal)),
        ("dns_provider"@, Tree::Text(crate::cli::provider_text(cfg.dns_provider))),
        ("mtu"@, crate::report::optional_number(cfg.mtu)),
        ("power"@, Tree::Bool(cfg.power)),
    ];
    reveal_strlit("tcp");
    reveal_strlit("dns");
    reveal_strlit("multimedia");
    reveal_strlit("self_heal");
    reveal_strlit("dns_provider");
    reveal_strlit("mtu");
    reveal_strlit("power");
    assert("tcp"@.len() == 3 && "tcp"@[0] == 't');
    assert("dns"@.len() == 3 && "dns"@[0] == 'd');
    assert("multimedia"@.len() == 10);
    assert("self_heal"@.len() == 9);
    assert("dns_provider"@.len() == 12);
    assert("mtu"@.len() == 3 && "mtu"@[0] == 'm');
    assert("power"@.len() == 5);
    pair_is_member(list, 0);
    pair_is_member(list, 1);
    pair_is_member(list, 2);
    pair_is_member(list, 3);
    pair_is_member(list, 4);
    pair_is_member(list, 5);
    pair_is_member(list, 6);
}

/// The report shows the counts and the state of the TCP tuning, the resolvers and
/// the connections under their names.
pub proof fn report_shows_the_parts(
    s: TcpStatus,
    r: ResolverSet,
    c: TcpConnections,
    values: usize,
    backups: usize,
)
    ensures
        ({
            let shown = crate::report::tcp_tree(s);
            &&& member(shown, "global_ok"@, Tree::Bool(s.global_ok))
            &&& member(shown, "ifaces_ok"@, Tree::Number(s.ifaces_ok as int))
            &&& member(shown, "ifaces_total"@, Tree::Number(s.ifaces_total as int))
        }),
        ({
            let shown = crate::report::dns_tree(r);
            &&& member(shown, "provider"@, Tree::Text(crate::cli::provider_text(r.provider)))
            &&& member(shown, "primary"@, Tree::Text(r.primary))
            &&& member(shown, "secondary"@, Tree::Text(r.secondary))
        }),
        ({
            let shown = crate::report::connections_tree(c);
            &&& member(shown, "total"@, Tree::Number(c.total as int))
            &&& member(shown, "established"@, Tree::Number(c.established as int))
            &&& member(shown, "time_wait"@, Tree::Number(c.time_wait as int))
        }),
        ({
            let shown = crate::report::archive_tree(values, backups);
            &&& member(shown, "registry_values"@, Tree::Number(values as int))
            &&& member(shown, "dns_backups"@, Tree::Number(backups as int))
        }),
{
    reveal_strlit("global_ok");
    reveal_strlit("ifaces_ok");
    reveal_strlit("ifaces_total");
    assert("global_ok"@.len() == 9 && "global_ok"@[0] == 'g');
    assert("ifaces_ok"@.len() == 9 && "ifaces_ok"@[0] == 'i');
    assert("ifaces_total"@.len() == 12);
    let tcp = seq![
        ("global_ok"@, Tree::Bool(s.global_ok)),
        ("ifaces_ok"@, Tree::Number(s.ifaces_ok as int)),
        ("ifaces_total"@, Tree::Number(s.ifaces_total as int)),
    ];
    pair_is_member(tcp, 0);
    pair_is_member(tcp, 1);
    pair_is_member(tcp, 2);
    reveal_strlit("provider");
    reveal_strlit("primary");
    reveal_strlit("secondary");
    assert("provider"@.len() == 8);
    assert("primary"@.len() == 7);
    assert("secondary"@.len() == 9);
    let dns = seq![
        ("provider"@, Tree::Text(crate::cli::provider_text(r.provider))),
        ("primary"@, Tree::Text(r.primary)),
        ("secondary"@, Tree::Text(r.secondary)),
    ];
    pair_is_member(dns, 0);
    pair_is_member(dns, 1);
    pair_is_member(dns, 2);
    reveal_strlit("total");
    reveal_strlit("established");
    reveal_strlit("time_wait");
    assert("total"@.len() == 5);
    assert("established"@.len() == 11);
    assert("time_wait"@.len() == 9);
    let connections = seq![
        ("total"@, Tree::Number(c.total as int)),
        ("established"@, Tree::Number(c.established as int)),
        ("time_wait"@, Tree::Number(c.time_wait as int)),
    ];
    pair_is_member(connections, 0);
    pair_is_member(connections, 1);
    pair_is_member(connections, 2);
    reveal_strlit("registry_values");
    reveal_strlit("dns_backups");
    assert("registry_values"@.len() == 15);
    assert("dns_backups"@.len() == 11);
    let archive = seq![
        ("registry_values"@, Tree::Number(values as int)),
        ("dns_backups"@, Tree::Number(backups as int)),
    ];
    pair_is_member(archive, 0);
    pair_is_member(archive, 1);
}

/// The report shows every adapter with its names, its state and its addresses.
pub proof fn report_shows_the_adapters(a: Adapter)
    ensures
        ({
            let shown = crate::report::adapter_tree(a);
            &&& member(shown, "friendly"@, Tree::Text(a.friendly))
            &&& member(shown, "guid"@, Tree::Text(a.guid))
            &&& member(shown, "up"@, Tree::Bool(a.up))
            &&& member(shown, "dhcp"@, Tree::Bool(a.dhcp))
            &&& member(shown, "mtu"@, Tree::Number(a.mtu as int))
            &&& member(shown, "dns"@, crate::report::text_list(a.dns))
            &&& member(shown, "dns6"@, crate::report::text_list(a.dns6))
            &&& member(shown, "ips"@, crate::report::text_list(a.ips))
            &&& member(shown, "gateways"@, crate::report::text_list(a.gateways))
        }),
{
    let list = seq![
        ("friendly"@, Tree::Text(a.friendly)),
        ("guid"@, Tree::Text(a.guid)),
        ("up"@, Tree::Bool(a.up)),
        ("dhcp"@, Tree::Bool(a.dhcp)),
        ("mtu"@, Tree::Number(a.mtu as int)),
        ("dns"@, crate::report::text_list(a.dns)),
        ("dns6"@, crate::report::text_list(a.dns6)),
        ("ips"@, crate::report::text_list(a.ips)),
        ("gateways"@, crate::report::text_list(a.gateways)),
    ];
    reveal_strlit("friendly");
    reveal_strlit("guid");
    reveal_strlit("up");
    reveal_strlit("dhcp");
    reveal_strlit("mtu");
    reveal_strlit("dns");
    reveal_strlit("dns6");
    reveal_strlit("ips");
    reveal_strlit("gateways");
    assert("friendly"@.len() == 8 && "friendly"@[0] == 'f');
    assert("guid"@.len() == 4 && "guid"@[0] == 'g');
    assert("up"@.len() == 2);
    assert("dhcp"@.len() == 4 && "dhcp"@[0] == 'd' && "dhcp"@[1] == 'h');
    assert("mtu"@.len() == 3 && "mtu"@[0] == 'm');
    assert("dns"@.len() == 3 && "dns"@[0] == 'd');
    assert("dns6"@.len() == 4 && "dns6"@[0] == 'd' && "dns6"@[1] == 'n');
    assert("ips"@.len() == 3 && "ips"@[0] == 'i');
    assert("gateways"@.len() == 8 && "gateways"@[0] == 'g');
    pair_is_member(list, 0);
    pair_is_member(list, 1);
    pair_is_member(list, 2);
    pair_is_member(list, 3);
    pair_is_member(list, 4);
    pair_is_member(list, 5);
    pair_is_member(list, 6);
    pair_is_member(list, 7);
    pair_is_member(list, 8);
}

/// The report shows every Wi-Fi link with its network, its radio and its rates.
pub proof fn report_shows_the_links(l: Link)
    ensures
        ({
            let shown = crate::report::link_tree(l);
            &&& member(shown, "guid"@, Tree::Text(l.guid))
            &&& member(shown, "ssid"@, Tree::Text(l.ssid))
            &&& member(shown, "bssid"@, Tree::Text(l.bssid))
            &&& member(shown, "signal_quality"@, Tree::Number(l.signal_quality as int))
            &&& l.rssi_dbm matches Some(v) ==> member(shown, "rssi_dbm"@, Tree::Number(v as int))
            &&& l.rssi_dbm is None ==> member(shown, "rssi_dbm"@, Tree::Null)
            &&& l.channel matches Some(v) ==> member(shown, "channel"@, Tree::Number(v as int))
            &&& l.channel is None ==> member(shown, "channel"@, Tree::Null)
            &&& member(shown, "rx_kbps"@, Tree::Number(l.rx_kbps as int))
            &&& member(shown, "tx_kbps"@, Tree::Number(l.tx_kbps as int))
        }),
{
    let list = seq![
        ("guid"@, Tree::Text(l.guid)),
        ("ssid"@, Tree::Text(l.ssid)),
        ("bssid"@, Tree::Text(l.bssid)),
        ("signal_quality"@, Tree::Number(l.signal_quality as int)),
        ("rssi_dbm"@, crate::report::optional_integer(l.rssi_dbm)),
        ("channel"@, crate::report::optional_number(l.channel)),
        ("rx_kbps"@, Tree::Number(l.rx_kbps as int)),
        ("tx_kbps"@, Tree::Number(l.tx_kbps as int)),
    ];
    reveal_strlit("guid");
    reveal_strlit("ssid");
    reveal_strlit("bssid");
    reveal_strlit("signal_quality");
    reveal_strlit("rssi_dbm");
    reveal_strlit("channel");
    reveal_strlit("rx_kbps");
    reveal_strlit("tx_kbps");
    assert("guid"@.len() == 4 && "guid"@[0] == 'g');
    assert("ssid"@.len() == 4 && "ssid"@[0] == 's');
    assert("bssid"@.len() == 5);
    assert("signal_quality"@.len() == 14);
    assert("rssi_dbm"@.len() == 8);
    assert("channel"@.len() == 7 && "channel"@[0] == 'c');
    assert("rx_kbps"@.len() == 7 && "rx_kbps"@[0] == 'r');
    assert("tx_kbps"@.len() == 7 && "tx_kbps"@[0] == 't');
    pair_is_member(list, 0);
    pair_is_member(list, 1);
    pair_is_member(list, 2);
    pair_is_member(list, 3);
    pair_is_member(list, 4);
    pair_is_member(list, 5);
    pair_is_member(list, 6);
    pair_is_member(list, 7);
}

/// The report as a whole: the program and its version, the time, and each part
/// under its name.
#[verifier::rlimit(60)]
pub proof fn report_shows_everything(r: Report, traffic: Seq<Tree>)
    ensures
        ({
            let shown = report_tree(r, traffic);
            let ifaces = adapters(r.interfaces@);
            let links = link_views(r.wlan@);
            &&& member(shown, "program"@, Tree::Text("stabilizatores"@))
            &&& member(shown, "version"@, Tree::Text(crate::VERSION@))
            &&& member(shown, "time"@, Tree::Text(r.time@))
            &&& member(shown, "config"@, crate::report::config_tree(r.config))
            &&& member(
                shown,
                "archive"@,
                crate::report::archive_tree(r.registry_values, r.dns_backups),
            )
            &&& member(shown, "tcp"@, crate::report::tcp_tree(r.tcp))
            &&& member(shown, "dns"@, crate::report::dns_tree(r.resolvers@))
            &&& member(shown, "throttling_removed"@, Tree::Bool(r.throttling_removed))
            &&& member(shown, "mtu_aligned"@, Tree::Bool(r.mtu_aligned))
            &&& member(shown, "power_no_power_down"@, Tree::Bool(r.power_no_power_down))
            &&& member(shown, "connections"@, crate::report::connections_tree(r.connections))
            &&& member(
                shown,
                "interfaces"@,
                Tree::List(
                    Seq::new(ifaces.len(), |i: int| crate::report::adapter_tree(ifaces[i])),
                ),
            )
            &&& member(
                shown,
                "wlan"@,
                Tree::List(Seq::new(links.len(), |i: int| crate::report::link_tree(links[i]))),
            )
            &&& member(shown, "traffic"@, Tree::List(traffic))
            &&& r.latency_ms matches Some(ms) ==> member(
                shown,
                "latency_ms"@,
                Tree::Number(ms as int),
            )
            &&& r.latency_ms is None ==> member(shown, "latency_ms"@, Tree::Null)
        }),
{
    let ifaces = adapters(r.interfaces@);
    let links = link_views(r.wlan@);
    let list = seq![
        ("program"@, Tree::Text("stabilizatores"@)),
        ("version"@, Tree::Text(crate::VERSION@)),
        ("time"@, Tree::Text(r.time@)),
        ("config"@, crate::report::config_tree(r.config)),
        ("archive"@, crate::report::archive_tree(r.registry_values, r.dns_backups)),
        ("tcp"@, crate::report::tcp_tree(r.tcp)),
        ("dns"@, crate::report::dns_tree(r.resolvers@)),
        ("throttling_removed"@, Tree::Bool(r.throttling_removed)),
        ("mtu_aligned"@, Tree::Bool(r.mtu_aligned)),
        ("power_no_power_down"@, Tree::Bool(r.power_no_power_down)),
        ("connections"@, crate::report::connections_tree(r.connections)),
        (
            "interfaces"@,
            Tree::List(Seq::new(ifaces.len(), |i: int| crate::report::adapter_tree(ifaces[i]))),
        ),
        ("wlan"@, Tree::List(Seq::new(links.len(), |i: int| crate::report::link_tree(links[i])))),
        ("traffic"@, Tree::List(traffic)),
        ("latency_ms"@, crate::report::optional_number(r.latency_ms)),
    ];
    reveal_strlit("program");
    reveal_strlit("version");
    reveal_strlit("time");
    reveal_strlit("config");
    reveal_strlit("archive");
    reveal_strlit("tcp");
    reveal_strlit("dns");
    reveal_strlit("throttling_removed");
    reveal_strlit("mtu_aligned");
    reveal_strlit("power_no_power_down");
    reveal_strlit("connections");
    reveal_strlit("interfaces");
    reveal_strlit("wlan");
    reveal_strlit("traffic");
    reveal_strlit("latency_ms");
    assert("program"@.len() == 7 && "program"@[0] == 'p');
    assert("version"@.len() == 7 && "version"@[0] == 'v');
    assert("time"@.len() == 4 && "time"@[0] == 't');
    assert("config"@.len() == 6);
    assert("archive"@.len() == 7 && "archive"@[0] == 'a');
    assert("tcp"@.len() == 3 && "tcp"@[0] == 't');
    assert("dns"@.len() == 3 && "dns"@[0] == 'd');
    assert("throttling_removed"@.len() == 18);
    assert("mtu_aligned"@.len() == 11 && "mtu_aligned"@[0] == 'm');
    assert("power_no_power_down"@.len() == 19);
    assert("connections"@.len() == 11 && "connections"@[0] == 'c');
    assert("interfaces"@.len() == 10 && "interfaces"@[0] == 'i');
    assert("wlan"@.len() == 4 && "wlan"@[0] == 'w');
    assert("traffic"@.len() == 7 && "traffic"@[0] == 't');
    assert("latency_ms"@.len() == 10 && "latency_ms"@[0] == 'l');
    pair_is_member(list, 0);
    pair_is_member(list, 1);
    pair_is_member(list, 2);
    pair_is_member(list, 3);
    pair_is_member(list, 4);
    pair_is_member(list, 5);
    pair_is_member(list, 6);
    pair_is_member(list, 7);
    pair_is_member(list, 8);
    pair_is_member(list, 9);
    pair_is_member(list, 10);
    pair_is_member(list, 11);
    pair_is_member(list, 12);
    pair_is_member(list, 13);
    pair_is_member(list, 14);
    assert(report_tree(r, traffic) == Tree::Members(members(list)));
}

} // verus!
