//! Wi-Fi link diagnostics.

use vstd::prelude::*;

use crate::text;
use crate::text::{decimal, hex_upper, joined, pad_left, trimmed_end, utf8_lossy, views};
use crate::utf16;
use crate::utf16::terminated;

verus! {

/// One wireless interface at a glance.
#[derive(Debug)]
pub struct WlanLink {
    /// Interface GUID string; matches the adapter GUID.
    pub guid: String,
    /// Driver description.
    pub description: String,
    /// Whether the interface currently has an association.
    pub connected: bool,
    /// The connected network's SSID (empty when disconnected).
    pub ssid: String,
    /// BSSID of the access point, `AA:BB:CC:DD:EE:FF`.
    pub bssid: String,
    /// Link quality 0..=100 as reported by the driver.
    pub signal_quality: u32,
    /// Signal strength in dBm when the driver reports it.
    pub rssi_dbm: Option<i32>,
    /// Current radio channel when known.
    pub channel: Option<u32>,
    /// Receive link rate in kbps (0 when N/A).
    pub rx_kbps: u32,
    /// Transmit link rate in kbps (0 when N/A).
    pub tx_kbps: u32,
}

/// A [`WlanLink`] over texts.
pub struct Link {
    pub guid: Seq<char>,
    pub description: Seq<char>,
    pub connected: bool,
    pub ssid: Seq<char>,
    pub bssid: Seq<char>,
    pub signal_quality: u32,
    pub rssi_dbm: Option<i32>,
    pub channel: Option<u32>,
    pub rx_kbps: u32,
    pub tx_kbps: u32,
}

impl View for WlanLink {
    type V = Link;

    open spec fn view(&self) -> Link {
        Link {
            guid: self.guid@,
            description: self.description@,
            connected: self.connected,
            ssid: self.ssid@,
            bssid: self.bssid@,
            signal_quality: self.signal_quality,
            rssi_dbm: self.rssi_dbm,
            channel: self.channel,
            rx_kbps: self.rx_kbps,
            tx_kbps: self.tx_kbps,
        }
    }
}

/// Links over texts.
pub open spec fn link_views(v: Seq<WlanLink>) -> Seq<Link> {
    Seq::new(v.len(), |i: int| v[i]@)
}

/// A GUID in its four parts.
#[derive(Clone, Copy, Debug, PartialEq, Eq)]
pub struct Guid {
    pub data1: u32,
    pub data2: u16,
    pub data3: u16,
    pub data4: [u8; 8],
}

/// A byte as two hexadecimal digits.
pub open spec fn hex_byte(b: u8) -> Seq<char> {
    pad_left(hex_upper(b as nat), 2, '0')
}

/// Bytes as pairs of hexadecimal digits.
pub open spec fn hex_bytes(bytes: Seq<u8>) -> Seq<Seq<char>> {
    Seq::new(bytes.len(), |i: int| hex_byte(bytes[i]))
}

/// The first `length` bytes as pairs of hexadecimal digits.
pub fn hex_pairs(bytes: &[u8], length: usize) -> (pairs: Vec<String>)
    requires
        length <= bytes@.len(),
    ensures
        views(pairs@) == hex_bytes(bytes@.take(length as int)),
{
    let mut pairs: Vec<String> = Vec::new();
    let mut i: usize = 0;
    while i < length
        invariant
            i <= length <= bytes@.len(),
            pairs@.len() == i,
            forall|k: int| 0 <= k < i ==> (#[trigger] pairs@[k])@ == hex_byte(bytes@[k]),
        decreases length - i,
    {
        pairs.push(text::hex_caps(bytes[i] as u64, 2));
        i = i + 1;
    }
    assert(views(pairs@) =~= hex_bytes(bytes@.take(length as int)));
    pairs
}

/// A BSSID as `AA:BB:CC:DD:EE:FF`.
pub fn mac_text(bytes: &[u8; 6]) -> (mac: String)
    ensures
        mac@ == joined(hex_bytes(bytes@), ":"@),
{
    let pairs = hex_pairs(bytes.as_slice(), 6);
    assert(bytes@.take(6) =~= bytes@);
    text::join(&pairs, ":")
}

/// A GUID as `{XXXXXXXX-XXXX-XXXX-XXXX-XXXXXXXXXXXX}`.
pub open spec fn guid_text(g: Guid) -> Seq<char> {
    "{"@ + pad_left(hex_upper(g.data1 as nat), 8, '0') + "-"@ + pad_left(
        hex_upper(g.data2 as nat),
        4,
        '0',
    ) + "-"@ + pad_left(hex_upper(g.data3 as nat), 4, '0') + "-"@ + hex_byte(g.data4@[0])
        + hex_byte(g.data4@[1]) + "-"@ + hex_byte(g.data4@[2]) + hex_byte(g.data4@[3]) + hex_byte(
        g.data4@[4],
    ) + hex_byte(g.data4@[5]) + hex_byte(g.data4@[6]) + hex_byte(g.data4@[7]) + "}"@
}

/// A GUID as `{XXXXXXXX-XXXX-XXXX-XXXX-XXXXXXXXXXXX}`.
pub fn format_guid(guid: &Guid) -> (s: String)
    ensures
        s@ == guid_text(*guid),
{
    let a = text::hex_caps(guid.data1 as u64, 8);
    let b = text::hex_caps(guid.data2 as u64, 4);
    let c = text::hex_caps(guid.data3 as u64, 4);
    let d0 = text::hex_caps(guid.data4[0] as u64, 2);
    let d1 = text::hex_caps(guid.data4[1] as u64, 2);
    let d2 = text::hex_caps(guid.data4[2] as u64, 2);
    let d3 = text::hex_caps(guid.data4[3] as u64, 2);
    let d4 = text::hex_caps(guid.data4[4] as u64, 2);
    let d5 = text::hex_caps(guid.data4[5] as u64, 2);
    let d6 = text::hex_caps(guid.data4[6] as u64, 2);
    let d7 = text::hex_caps(guid.data4[7] as u64, 2);
    "{".to_owned().concat(a.as_str()).concat("-").concat(b.as_str()).concat("-").concat(
        c.as_str(),
    ).concat("-").concat(d0.as_str()).concat(d1.as_str()).concat("-").concat(d2.as_str()).concat(
        d3.as_str(),
    ).concat(d4.as_str()).concat(d5.as_str()).concat(d6.as_str()).concat(d7.as_str()).concat("}")
}

/// The text of a NUL-terminated buffer, without the whitespace at its end.
pub fn utf16_trim(text: &[u16]) -> (s: String)
    ensures
        s@ == trimmed_end(terminated(text@)),
{
    let whole = utf16::decode_terminated(text);
    text::trim_end(whole.as_str())
}

/// The text of an SSID: as many bytes of the buffer as the SSID has.
pub fn ssid_text(length: u32, bytes: &[u8]) -> (s: String)
    ensures
        s@ == utf8_lossy(
            bytes@.take(
                if (length as int) < bytes@.len() {
                    length as int
                } else {
                    bytes@.len() as int
                },
            ),
        ),
{
    let end: usize = if (length as usize) < bytes.len() {
        length as usize
    } else {
        bytes.len()
    };
    let part = vstd::slice::slice_subrange(bytes, 0, end);
    assert(part@ =~= bytes@.take(end as int));
    text::from_utf8_lossy(part)
}

/// The number in the first four bytes, lowest byte first.
pub open spec fn le_number(b: Seq<u8>) -> int {
    b[0] + b[1] * 0x100 + b[2] * 0x1_0000 + b[3] * 0x100_0000
}

/// An unsigned answer of the driver: its first four bytes, if it has as many.
pub fn query_u32(data: &Option<Vec<u8>>) -> (n: Option<u32>)
    ensures
        n is Some <==> *data is Some && (*data)->0@.len() >= 4,
        n matches Some(v) ==> v == le_number((*data)->0@),
{
    match data {
        Some(b) => if b.len() >= 4 {
            Some(
                b[0] as u32 + (b[1] as u32) * 0x100 + (b[2] as u32) * 0x1_0000 + (b[3] as u32)
                    * 0x100_0000,
            )
        } else {
            None
        },
        None => None,
    }
}

/// A signed answer of the driver, in two's complement.
pub fn query_i32(data: &Option<Vec<u8>>) -> (n: Option<i32>)
    ensures
        n is Some <==> *data is Some && (*data)->0@.len() >= 4,
        n matches Some(v) ==> v == (if le_number((*data)->0@) < 0x8000_0000 {
            le_number((*data)->0@)
        } else {
            le_number((*data)->0@) - 0x1_0000_0000
        }),
{
    match query_u32(data) {
        Some(u) => if u < 0x8000_0000 {
            Some(u as i32)
        } else {
            Some((u as i64 - 0x1_0000_0000) as i32)
        },
        None => None,
    }
}

/// The current association of a wireless interface.
#[derive(Debug)]
pub struct Association {
    pub connected: bool,
    pub ssid: String,
    pub bssid: String,
    pub signal_quality: u32,
    pub rx_kbps: u32,
    pub tx_kbps: u32,
}

/// Puts together what was found out about a wireless interface. Without an
/// association the interface state alone says whether it is connected.
pub fn poll_interface(
    guid: String,
    description: String,
    state_connected: bool,
    association: Option<Association>,
    rssi_dbm: Option<i32>,
    channel: Option<u32>,
) -> (link: WlanLink)
    ensures
        link@ == (match association {
            Some(a) => Link {
                guid: guid@,
                description: description@,
                connected: a.connected,
                ssid: a.ssid@,
                bssid: a.bssid@,
                signal_quality: a.signal_quality,
                rssi_dbm,
                channel,
                rx_kbps: a.rx_kbps,
                tx_kbps: a.tx_kbps,
            },
            None => Link {
                guid: guid@,
                description: description@,
                connected: state_connected,
                ssid: Seq::empty(),
                bssid: Seq::empty(),
                signal_quality: 0,
                rssi_dbm,
                channel,
                rx_kbps: 0,
                tx_kbps: 0,
            },
        }),
{
    match association {
        Some(a) => WlanLink {
            guid,
            description,
            connected: a.connected,
            ssid: a.ssid,
            bssid: a.bssid,
            signal_quality: a.signal_quality,
            rssi_dbm,
            channel,
            rx_kbps: a.rx_kbps,
            tx_kbps: a.tx_kbps,
        },
        None => WlanLink {
            guid,
            description,
            connected: state_connected,
            ssid: String::new(),
            bssid: String::new(),
            signal_quality: 0,
            rssi_dbm,
            channel,
            rx_kbps: 0,
            tx_kbps: 0,
        },
    }
}

/// The signal strength as a percentage, right-aligned in three places.
pub open spec fn signal_text(quality: u32) -> Seq<char> {
    pad_left(decimal(quality as nat), 3, ' ') + "%"@
}

/// Renders the signal strength as a plain percentage.
pub fn signal_bar(quality: u32) -> (s: String)
    ensures
        s@ == signal_text(quality),
{
    let number = text::dec(quality as u64);
    let padded = text::pad(number.as_str(), 3, ' ');
    padded.concat("%")
}

} // verus!
