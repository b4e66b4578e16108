//! The host's network adapters.
//!
//! TCP tuning needs an adapter's GUID, DNS switching its friendly name; an
//! [`Interface`] carries both, plus the current DNS server list and MTU.

use vstd::prelude::*;

use crate::text;
use crate::text::{decimal, hex_lower, joined, views};
use crate::wlan::{hex_bytes, hex_pairs};

verus! {

/// `IF_TYPE_SOFTWARE_LOOPBACK`.
pub const IF_TYPE_LOOPBACK: u32 = 24;

/// `IF_TYPE_TUNNEL` (IPv6 transition tunnels such as Teredo / 6to4).
pub const IF_TYPE_TUNNEL: u32 = 131;

/// A single network adapter.
#[derive(Debug)]
pub struct Interface {
    /// `{GUID}` string, the registry key suffix under the Tcpip Interfaces node.
    pub guid: String,
    /// Numeric interface index.
    pub index: u32,
    /// Display name used by `netsh`, e.g. "Wi-Fi".
    pub friendly: String,
    /// Hardware description, e.g. "Intel(R) Wi-Fi 6 AX201".
    pub description: String,
    /// Adapter MTU in bytes (0 when unknown).
    pub mtu: u32,
    /// `IF_TYPE_*` constant.
    pub if_type: u32,
    /// Link is up.
    pub up: bool,
    /// The adapter obtains its configuration (DNS among it) from DHCP.
    pub dhcp: bool,
    /// Current IPv4 DNS servers, primary first.
    pub dns: Vec<String>,
    /// Current IPv6 DNS servers, primary first.
    pub dns6: Vec<String>,
    /// Currently assigned IPv4 and IPv6 addresses.
    pub ips: Vec<String>,
    /// Currently configured IPv4 and IPv6 gateways.
    pub gateways: Vec<String>,
    /// Hardware address as `AA-BB-CC-DD-EE-FF`, empty when none is reported.
    pub mac: String,
}

/// An [`Interface`] over texts.
pub struct Adapter {
    pub guid: Seq<char>,
    pub index: u32,
    pub friendly: Seq<char>,
    pub description: Seq<char>,
    pub mtu: u32,
    pub if_type: u32,
    pub up: bool,
    pub dhcp: bool,
    pub dns: Seq<Seq<char>>,
    pub dns6: Seq<Seq<char>>,
    pub ips: Seq<Seq<char>>,
    pub gateways: Seq<Seq<char>>,
    pub mac: Seq<char>,
}

impl View for Interface {
    type V = Adapter;

    open spec fn view(&self) -> Adapter {
        Adapter {
            guid: self.guid@,
            index: self.index,
            friendly: self.friendly@,
            description: self.description@,
            mtu: self.mtu,
            if_type: self.if_type,
            up: self.up,
            dhcp: self.dhcp,
            dns: views(self.dns@),
            dns6: views(self.dns6@),
            ips: views(self.ips@),
            gateways: views(self.gateways@),
            mac: self.mac@,
        }
    }
}

impl Clone for Interface {
    fn clone(&self) -> (copy: Self)
        ensures
            copy@ == self@,
    {
        Interface {
            guid: self.guid.clone(),
            index: self.index,
            friendly: self.friendly.clone(),
            description: self.description.clone(),
            mtu: self.mtu,
            if_type: self.if_type,
            up: self.up,
            dhcp: self.dhcp,
            dns: text::clone_all(&self.dns),
            dns6: text::clone_all(&self.dns6),
            ips: text::clone_all(&self.ips),
            gateways: text::clone_all(&self.gateways),
            mac: self.mac.clone(),
        }
    }
}

/// Adapters over texts.
pub open spec fn adapters(v: Seq<Interface>) -> Seq<Adapter> {
    Seq::new(v.len(), |i: int| v[i]@)
}

/// True of every interface type but loopback and tunnel.
pub open spec fn physical_type(if_type: u32) -> bool {
    if_type != IF_TYPE_LOOPBACK && if_type != IF_TYPE_TUNNEL
}

/// The adapters that are neither loopback nor tunnel, in order.
pub open spec fn physical_of(all: Seq<Adapter>) -> Seq<Adapter> {
    all.filter(|a: Adapter| physical_type(a.if_type))
}

/// The physical adapters whose link is up, in order.
pub open spec fn active_of(all: Seq<Adapter>) -> Seq<Adapter> {
    all.filter(|a: Adapter| physical_type(a.if_type) && a.up)
}

impl Interface {
    /// Virtual or loopback adapters cannot be meaningfully tuned.
    pub fn is_physical(&self) -> (b: bool)
        ensures
            b == physical_type(self@.if_type),
    {
        self.if_type != IF_TYPE_LOOPBACK && self.if_type != IF_TYPE_TUNNEL
    }
}

/// Real adapters only (no loopback, no tunnel), regardless of link state.
pub fn physical(all: &Vec<Interface>) -> (kept: Vec<Interface>)
    ensures
        adapters(kept@) == physical_of(adapters(all@)),
{
    let mut kept: Vec<Interface> = Vec::new();
    let mut i: usize = 0;
    let ghost shown = adapters(all@);
    proof {
        assert(shown.take(0) =~= Seq::<Adapter>::empty());
        assert(adapters(kept@) =~= physical_of(shown.take(0)));
    }
    while i < all.len()
        invariant
            i <= all@.len(),
            shown == adapters(all@),
            adapters(kept@) == physical_of(shown.take(i as int)),
        decreases all@.len() - i,
    {
        let ghost before = kept@;
        proof {
            assert(shown.take(i + 1).drop_last() =~= shown.take(i as int));
            assert(shown.take(i + 1).last() == all@[i as int]@);
            reveal(Seq::filter);
        }
        if all[i].is_physical() {
            kept.push(all[i].clone());
            assert(adapters(kept@) =~= adapters(before).push(all@[i as int]@));
        }
        i = i + 1;
    }
    assert(shown.take(shown.len() as int) =~= shown);
    kept
}

/// Real adapters with an established connection.
pub fn active(all: &Vec<Interface>) -> (kept: Vec<Interface>)
    ensures
        adapters(kept@) == active_of(adapters(all@)),
{
    let mut kept: Vec<Interface> = Vec::new();
    let mut i: usize = 0;
    let ghost shown = adapters(all@);
    proof {
        assert(shown.take(0) =~= Seq::<Adapter>::empty());
        assert(adapters(kept@) =~= active_of(shown.take(0)));
    }
    while i < all.len()
        invariant
            i <= all@.len(),
            shown == adapters(all@),
            adapters(kept@) == active_of(shown.take(i as int)),
        decreases all@.len() - i,
    {
        let ghost before = kept@;
        proof {
            assert(shown.take(i + 1).drop_last() =~= shown.take(i as int));
            assert(shown.take(i + 1).last() == all@[i as int]@);
            reveal(Seq::filter);
        }
        if all[i].is_physical() && all[i].up {
            kept.push(all[i].clone());
            assert(adapters(kept@) =~= adapters(before).push(all@[i as int]@));
        }
        i = i + 1;
    }
    assert(shown.take(shown.len() as int) =~= shown);
    kept
}

// ---------------------------------------------------------------------------
// Addresses
// ---------------------------------------------------------------------------

/// The hardware address of an adapter: its first `length` bytes.
pub fn read_mac(bytes: &[u8; 8], length: u32) -> (mac: String)
    ensures
        mac@ == joined(
            hex_bytes(
                bytes@.take(
                    if length < 8 {
                        length as int
                    } else {
                        8
                    },
                ),
            ),
            "-"@,
        ),
{
    let count: usize = if length < 8 {
        length as usize
    } else {
        8
    };
    let pairs = hex_pairs(bytes.as_slice(), count);
    text::join(&pairs, "-")
}

/// The address family of IPv4.
pub const AF_INET: u16 = 2;

/// The address family of IPv6.
pub const AF_INET6: u16 = 23;

/// Four bytes as dotted decimal numbers.
pub open spec fn ipv4_text(b: Seq<u8>) -> Seq<char> {
    decimal(b[0] as nat) + "."@ + decimal(b[1] as nat) + "."@ + decimal(b[2] as nat) + "."@
        + decimal(b[3] as nat)
}

/// Four bytes as dotted decimal numbers.
fn ipv4(a: u8, b: u8, c: u8, d: u8) -> (s: String)
    ensures
        s@ == ipv4_text(seq![a, b, c, d]),
{
    let x = text::dec(a as u64);
    let y = text::dec(b as u64);
    let z = text::dec(c as u64);
    let w = text::dec(d as u64);
    x.concat(".").concat(y.as_str()).concat(".").concat(z.as_str()).concat(".").concat(w.as_str())
}

/// The eight groups of an IPv6 address.
pub open spec fn groups(b: Seq<u8>) -> Seq<u16> {
    Seq::new(8, |i: int| (b[2 * i] * 256 + b[2 * i + 1]) as u16)
}

/// Groups in hexadecimal, with colons in between.
pub open spec fn group_texts(g: Seq<u16>) -> Seq<Seq<char>> {
    Seq::new(g.len(), |i: int| hex_lower(g[i] as nat))
}

/// Groups in hexadecimal, with colons in between.
pub open spec fn colon_text(g: Seq<u16>) -> Seq<char> {
    joined(group_texts(g), ":"@)
}

/// True when the `len` groups from `start` on are all zero.
pub open spec fn zeros(g: Seq<u16>, start: int, len: int) -> bool {
    &&& 0 <= start
    &&& 0 <= len
    &&& start + len <= g.len()
    &&& forall|i: int| start <= i < start + len ==> #[trigger] g[i] == 0
}

/// The run of zeros that ends right before group `n`.
pub open spec fn run_before(g: Seq<u16>, n: int) -> int
    decreases n,
{
    if n <= 0 || g[n - 1] != 0 {
        0
    } else {
        run_before(g, n - 1) + 1
    }
}

/// The first longest run of zeros among the first `n` groups: its start and
/// its length.
pub open spec fn longest_run(g: Seq<u16>, n: int) -> (int, int)
    decreases n,
{
    if n <= 0 {
        (0, 0)
    } else {
        let best = longest_run(g, n - 1);
        let here = run_before(g, n);
        if here > best.1 {
            (n - here, here)
        } else {
            best
        }
    }
}

/// True of an IPv4-mapped address.
pub open spec fn is_mapped(g: Seq<u16>) -> bool {
    g[0] == 0 && g[1] == 0 && g[2] == 0 && g[3] == 0 && g[4] == 0 && g[5] == 0xFFFF
}

/// The canonical text of an IPv6 address: the first longest run of two or more
/// zero groups is shortened, and the last four bytes of a mapped IPv4 address
/// are written in dotted form.
pub open spec fn ipv6_text(b: Seq<u8>) -> Seq<char> {
    let g = groups(b);
    let run = longest_run(g, 8);
    if is_mapped(g) {
        "::ffff:"@ + ipv4_text(b.skip(12))
    } else if run.1 > 1 {
        colon_text(g.take(run.0)) + "::"@ + colon_text(g.skip(run.0 + run.1))
    } else {
        colon_text(g)
    }
}

/// The run that is shortened is a run of zeros, no other run is longer, and no
/// run of the same length starts earlier.
pub proof fn longest_run_is_longest(g: Seq<u16>, n: int, start: int, len: int)
    requires
        0 <= n <= g.len(),
        zeros(g, start, len),
        len > 0,
        start + len <= n,
    ensures
        zeros(g, longest_run(g, n).0, longest_run(g, n).1),
        longest_run(g, n).1 >= len,
        longest_run(g, n).1 == len ==> longest_run(g, n).0 <= start,
    decreases n,
{
    run_is_zeros(g, n);
    best_is_zeros(g, n);
    if start + len <= n - 1 {
        longest_run_is_longest(g, n - 1, start, len);
    } else {
        assert(start + len == n);
        run_reaches_back(g, n, len);
        if longest_run(g, n - 1).1 >= run_before(g, n) {
            best_is_zeros(g, n - 1);
        }
    }
}

proof fn run_is_zeros(g: Seq<u16>, n: int)
    requires
        0 <= n <= g.len(),
    ensures
        zeros(g, n - run_before(g, n), run_before(g, n)),
    decreases n,
{
    if n > 0 && g[n - 1] == 0 {
        run_is_zeros(g, n - 1);
    }
}

/// The run that is shortened is a run of zeros among the first groups.
pub proof fn best_is_zeros(g: Seq<u16>, n: int)
    requires
        0 <= n <= g.len(),
    ensures
        zeros(g, longest_run(g, n).0, longest_run(g, n).1),
        longest_run(g, n).0 + longest_run(g, n).1 <= n,
    decreases n,
{
    if n > 0 {
        best_is_zeros(g, n - 1);
        run_is_zeros(g, n);
    }
}

proof fn run_reaches_back(g: Seq<u16>, n: int, len: int)
    requires
        0 <= len <= n <= g.len(),
        forall|i: int| n - len <= i < n ==> #[trigger] g[i] == 0,
    ensures
        run_before(g, n) >= len,
    decreases len,
{
    if len > 0 {
        assert(g[n - 1] == 0);
        run_reaches_back(g, n - 1, len - 1);
    } else {
        run_is_zeros(g, n);
    }
}

fn colons(g: &Vec<u16>, from: usize, to: usize) -> (s: String)
    requires
        from <= to <= g@.len(),
    ensures
        s@ == colon_text(g@.subrange(from as int, to as int)),
{
    let mut parts: Vec<String> = Vec::new();
    let mut i: usize = from;
    while i < to
        invariant
            from <= i <= to <= g@.len(),
            parts@.len() == i - from,
            forall|k: int|
                0 <= k < i - from ==> (#[trigger] parts@[k])@ == hex_lower(g@[from + k] as nat),
        decreases to - i,
    {
        parts.push(text::hex_small(g[i] as u64));
        i = i + 1;
    }
    assert(views(parts@) =~= group_texts(g@.subrange(from as int, to as int)));
    text::join(&parts, ":")
}

fn ipv6(bytes: &[u8], offset: usize) -> (s: String)
    requires
        offset + 16 <= bytes@.len(),
    ensures
        s@ == ipv6_text(bytes@.subrange(offset as int, offset + 16)),
{
    let length: usize = bytes.len();
    let ghost b = bytes@.subrange(offset as int, offset + 16);
    let mut g: Vec<u16> = Vec::new();
    let mut i: usize = 0;
    while i < 8
        invariant
            i <= 8,
            length == bytes@.len(),
            offset + 16 <= length,
            b == bytes@.subrange(offset as int, offset + 16),
            g@ == groups(b).take(i as int),
        decreases 8 - i,
    {
        let high: u16 = bytes[offset + 2 * i] as u16;
        let low: u16 = bytes[offset + 2 * i + 1] as u16;
        g.push(high * 256 + low);
        proof {
            assert(high == b[2 * i] && low == b[2 * i + 1]);
            assert(g@ =~= groups(b).take(i + 1));
        }
        i = i + 1;
    }
    assert(g@ =~= groups(b));
    if g[0] == 0 && g[1] == 0 && g[2] == 0 && g[3] == 0 && g[4] == 0 && g[5] == 0xFFFF {
        let tail = ipv4(
            bytes[offset + 12],
            bytes[offset + 13],
            bytes[offset + 14],
            bytes[offset + 15],
        );
        assert(b.skip(12) =~= seq![b[12], b[13], b[14], b[15]]);
        return "::ffff:".to_owned().concat(tail.as_str());
    }
    let mut best_start: usize = 0;
    let mut best_len: usize = 0;
    let mut run: usize = 0;
    let mut n: usize = 0;
    while n < 8
        invariant
            n <= 8,
            g@.len() == 8,
            run == run_before(g@, n as int),
            run <= n,
            best_start + best_len <= n,
            longest_run(g@, n as int) == (best_start as int, best_len as int),
        decreases 8 - n,
    {
        if g[n] == 0 {
            run = run + 1;
        } else {
            run = 0;
        }
        n = n + 1;
        if run > best_len {
            best_start = n - run;
            best_len = run;
        }
    }
    if best_len > 1 {
        let head = colons(&g, 0, best_start);
        let tail = colons(&g, best_start + best_len, 8);
        proof {
            assert(g@.subrange(0, best_start as int) =~= g@.take(best_start as int));
            assert(g@.subrange(best_start + best_len, 8) =~= g@.skip(best_start + best_len));
        }
        head.concat("::").concat(tail.as_str())
    } else {
        assert(g@.subrange(0, 8) =~= g@);
        colons(&g, 0, 8)
    }
}

/// The family and the text of a socket address: a 16-bit family, lowest byte
/// first, and the address behind the port (and the flow information of IPv6).
/// There is none in a buffer that is too short, or of another family.
pub open spec fn sockaddr_text(bytes: Seq<u8>) -> Option<(u16, Seq<char>)> {
    if bytes.len() < 2 {
        None
    } else {
        let family = bytes[0] + bytes[1] * 256;
        if family == AF_INET && bytes.len() >= 8 {
            Some((AF_INET, ipv4_text(bytes.subrange(4, 8))))
        } else if family == AF_INET6 && bytes.len() >= 24 {
            Some((AF_INET6, ipv6_text(bytes.subrange(8, 24))))
        } else {
            None
        }
    }
}

/// Formats a socket address as a numeric IP address. Every byte that is read
/// lies within the buffer.
pub fn format_sockaddr(bytes: &[u8]) -> (formatted: Option<(u16, String)>)
    ensures
        match formatted {
            Some((family, text)) => sockaddr_text(bytes@) == Some((family, text@)),
            None => sockaddr_text(bytes@) is None,
        },
{
    if bytes.len() < 2 {
        return None;
    }
    let family: u32 = bytes[0] as u32 + (bytes[1] as u32) * 256;
    if family == AF_INET as u32 && bytes.len() >= 8 {
        let text = ipv4(bytes[4], bytes[5], bytes[6], bytes[7]);
        assert(bytes@.subrange(4, 8) =~= seq![bytes@[4], bytes@[5], bytes@[6], bytes@[7]]);
        Some((AF_INET, text))
    } else if family == AF_INET6 as u32 && bytes.len() >= 24 {
        let text = ipv6(bytes, 8);
        Some((AF_INET6, text))
    } else {
        None
    }
}

/// The addresses of one family among these, in order.
pub open spec fn of_family(list: Seq<Seq<u8>>, family: u16) -> Seq<Seq<char>>
    decreases list.len(),
{
    if list.len() == 0 {
        Seq::empty()
    } else {
        let rest = of_family(list.drop_last(), family);
        match sockaddr_text(list.last()) {
            Some((f, text)) => if f == family {
                rest.push(text)
            } else {
                rest
            },
            None => rest,
        }
    }
}

/// All addresses among these, in order.
pub open spec fn all_addresses(list: Seq<Seq<u8>>) -> Seq<Seq<char>>
    decreases list.len(),
{
    if list.len() == 0 {
        Seq::empty()
    } else {
        let rest = all_addresses(list.drop_last());
        match sockaddr_text(list.last()) {
            Some((_, text)) => rest.push(text),
            None => rest,
        }
    }
}

/// Byte buffers as sequences.
pub open spec fn buffer_views(v: Seq<Vec<u8>>) -> Seq<Seq<u8>> {
    Seq::new(v.len(), |i: int| v[i]@)
}

/// Splits the DNS servers of an adapter into IPv4 and IPv6.
pub fn read_dns_servers(list: &Vec<Vec<u8>>) -> (servers: (Vec<String>, Vec<String>))
    ensures
        views(servers.0@) == of_family(buffer_views(list@), AF_INET),
        views(servers.1@) == of_family(buffer_views(list@), AF_INET6),
{
    let mut v4: Vec<String> = Vec::new();
    let mut v6: Vec<String> = Vec::new();
    let ghost all = buffer_views(list@);
    let mut i: usize = 0;
    proof {
        assert(all.take(0) =~= Seq::<Seq<u8>>::empty());
        assert(views(v4@) =~= of_family(all.take(0), AF_INET));
        assert(views(v6@) =~= of_family(all.take(0), AF_INET6));
    }
    while i < list.len()
        invariant
            i <= list@.len(),
            all == buffer_views(list@),
            views(v4@) == of_family(all.take(i as int), AF_INET),
            views(v6@) == of_family(all.take(i as int), AF_INET6),
        decreases list@.len() - i,
    {
        let ghost before4 = v4@;
        let ghost before6 = v6@;
        proof {
            assert(all.take(i + 1).drop_last() =~= all.take(i as int));
            assert(all.take(i + 1).last() == list@[i as int]@);
        }
        if let Some((family, text)) = format_sockaddr(list[i].as_slice()) {
            let ghost shown = text@;
            if family == AF_INET {
                v4.push(text);
                assert(views(v4@) =~= views(before4).push(shown));
            } else if family == AF_INET6 {
                v6.push(text);
                assert(views(v6@) =~= views(before6).push(shown));
            }
        }
        i = i + 1;
    }
    assert(all.take(all.len() as int) =~= all);
    (v4, v6)
}

/// Formats the addresses of a list, leaving out what is none.
pub fn read_addresses(list: &Vec<Vec<u8>>) -> (addresses: Vec<String>)
    ensures
        views(addresses@) == all_addresses(buffer_views(list@)),
{
    let mut addresses: Vec<String> = Vec::new();
    let ghost all = buffer_views(list@);
    let mut i: usize = 0;
    proof {
        assert(all.take(0) =~= Seq::<Seq<u8>>::empty());
        assert(views(addresses@) =~= all_addresses(all.take(0)));
    }
    while i < list.len()
        invariant
            i <= list@.len(),
            all == buffer_views(list@),
            views(addresses@) == all_addresses(all.take(i as int)),
        decreases list@.len() - i,
    {
        let ghost before = addresses@;
        proof {
            assert(all.take(i + 1).drop_last() =~= all.take(i as int));
            assert(all.take(i + 1).last() == list@[i as int]@);
        }
        if let Some((_, text)) = format_sockaddr(list[i].as_slice()) {
            let ghost shown = text@;
            addresses.push(text);
            assert(views(addresses@) =~= views(before).push(shown));
        }
        i = i + 1;
    }
    assert(all.take(all.len() as int) =~= all);
    addresses
}

} // verus!
