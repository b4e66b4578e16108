//! Adapters, connections, traffic and Wi-Fi.

use stabilizatores::connections::count_rows;
use stabilizatores::interfaces::{
    active, format_sockaddr, physical, read_addresses, read_dns_servers, read_mac, Interface,
    AF_INET, AF_INET6, IF_TYPE_LOOPBACK, IF_TYPE_TUNNEL,
};
use stabilizatores::traffic::{
    elapsed, read, sample, transfers, Entry, Row, Snapshot, Transfer,
};
use stabilizatores::wlan::{
    format_guid, mac_text, poll_interface, query_i32, query_u32, signal_bar, ssid_text, utf16_trim,
    Association, Guid,
};
use windows_sys::Win32::NetworkManagement::IpHelper::{
    MIB_TCPROW_OWNER_PID, MIB_TCP_STATE_ESTAB, MIB_TCP_STATE_TIME_WAIT,
};

#[test]
fn loopback_is_not_physical() {
    let iface = Interface {
        guid: "{00000000-0000-0000-0000-000000000000}".into(),
        index: 1,
        friendly: "Loopback".into(),
        description: String::new(),
        mtu: 1500,
        if_type: IF_TYPE_LOOPBACK,
        up: true,
        dhcp: false,
        dns: vec!["127.0.0.1".into()],
        dns6: vec!["::1".into()],
        ips: vec!["127.0.0.1".into(), "::1".into()],
        gateways: vec![],
        mac: "00-00-00-00-00-00".into(),
    };
    assert!(!iface.is_physical());
}

#[test]
fn ethernet_is_physical() {
    let iface = Interface {
        guid: "{11111111-1111-1111-1111-111111111111}".into(),
        index: 2,
        friendly: "Ethernet".into(),
        description: String::new(),
        mtu: 1500,
        if_type: 6, // IF_TYPE_ETHERNET_CSMACD
        up: false,
        dhcp: true,
        dns: vec![],
        dns6: vec![],
        ips: vec![],
        gateways: vec![],
        mac: String::new(),
    };
    assert!(iface.is_physical());
}

#[test]
fn format_ipv4_sockaddr() {
    let mut raw = [0u8; 16];
    raw[0] = 2; // AF_INET low byte
    raw[4] = 1;
    raw[5] = 1;
    raw[6] = 1;
    raw[7] = 1;
    let (family, formatted) = format_sockaddr(&raw).unwrap();
    assert_eq!(family, AF_INET);
    assert_eq!(formatted, "1.1.1.1");
}

fn ipv6(address: [u8; 16]) -> Vec<u8> {
    let mut raw = vec![0u8; 28];
    raw[0] = 23;
    raw[8..24].copy_from_slice(&address);
    raw
}

#[test]
fn format_ipv6_sockaddr() {
    let mut raw = [0u8; 28];
    raw[0] = 23; // AF_INET6 low byte
    raw[8] = 0x26;
    raw[9] = 0x06;
    raw[10] = 0x47;
    raw[11] = 0x00;
    raw[12] = 0x47;
    raw[13] = 0x00;
    raw[14] = 0x00;
    raw[15] = 0x00;
    raw[16] = 0x00;
    raw[17] = 0x00;
    raw[18] = 0x00;
    raw[19] = 0x00;
    raw[20] = 0x00;
    raw[21] = 0x00;
    raw[22] = 0x11;
    raw[23] = 0x11;
    let (family, formatted) = format_sockaddr(&raw).unwrap();
    assert_eq!(family, AF_INET6);
    assert_eq!(formatted, "2606:4700:4700::1111");
}

#[test]
fn format_sockaddr_rejects_short_buffer() {
    let raw = [0u8; 4];
    assert_eq!(format_sockaddr(&raw), None);
}

#[test]
fn ipv6_texts_are_compressed() {
    let text = |address: [u8; 16]| format_sockaddr(&ipv6(address)).unwrap().1;
    assert_eq!(text([0; 16]), "::");
    assert_eq!(
        text([0, 0, 0, 0, 0, 0, 0, 0, 0, 0, 0, 0, 0, 0, 0, 1]),
        "::1"
    );
    assert_eq!(
        text([0xfe, 0x80, 0, 0, 0, 0, 0, 0, 0, 0, 0, 1, 0, 0, 0, 0]),
        "fe80::1:0:0"
    );
    assert_eq!(
        text([0x20, 1, 0xd, 0xb8, 0, 0, 0, 1, 0, 1, 0, 1, 0, 1, 0, 1]),
        "2001:db8:0:1:1:1:1:1"
    );
    assert_eq!(
        text([0, 0, 0, 0, 0, 0, 0, 0, 0, 0, 0xff, 0xff, 10, 0, 0, 7]),
        "::ffff:10.0.0.7"
    );
    assert_eq!(
        text([0, 1, 0, 0, 0, 0, 0, 2, 0, 0, 0, 0, 0, 0, 0, 3]),
        "1:0:0:2::3"
    );
}

#[test]
fn servers_are_split_by_family() {
    let mut four = vec![0u8; 16];
    four[0] = 2;
    four[4] = 9;
    four[5] = 9;
    four[6] = 9;
    four[7] = 9;
    let six = ipv6([0, 0, 0, 0, 0, 0, 0, 0, 0, 0, 0, 0, 0, 0, 0, 1]);
    let unknown = vec![7u8; 28];
    let list = vec![six.clone(), four.clone(), unknown];
    let (servers, servers6) = read_dns_servers(&list);
    assert_eq!(servers, vec!["9.9.9.9".to_string()]);
    assert_eq!(servers6, vec!["::1".to_string()]);
    assert_eq!(
        read_addresses(&list),
        vec!["::1".to_string(), "9.9.9.9".to_string()]
    );
}

#[test]
fn hardware_addresses_use_dashes() {
    let bytes = [0, 0x1A, 0x2B, 0x3C, 0x4D, 0x5E, 0, 0];
    assert_eq!(read_mac(&bytes, 6), "00-1A-2B-3C-4D-5E");
    assert_eq!(read_mac(&bytes, 0), "");
}

fn iface(name: &str, if_type: u32, up: bool) -> Interface {
    Interface {
        guid: name.into(),
        index: 1,
        friendly: name.into(),
        description: String::new(),
        mtu: 0,
        if_type,
        up,
        dhcp: true,
        dns: vec![],
        dns6: vec![],
        ips: vec![],
        gateways: vec![],
        mac: String::new(),
    }
}

#[test]
fn active_adapters_are_physical_and_up() {
    let all = vec![
        iface("a", 6, true),
        iface("loop", IF_TYPE_LOOPBACK, true),
        iface("b", 71, false),
        iface("tunnel", IF_TYPE_TUNNEL, true),
    ];
    let names = |list: Vec<Interface>| {
        list.into_iter()
            .map(|iface| iface.friendly)
            .collect::<Vec<_>>()
    };
    assert_eq!(names(physical(&all)), vec!["a".to_string(), "b".to_string()]);
    assert_eq!(names(active(&all)), vec!["a".to_string()]);
}

#[test]
fn counts_states() {
    let row = |state: u32| MIB_TCPROW_OWNER_PID {
        dwState: state,
        dwLocalAddr: 0,
        dwLocalPort: 1,
        dwRemoteAddr: 0,
        dwRemotePort: 2,
        dwOwningPid: 0,
    };
    let rows = [
        row(MIB_TCP_STATE_ESTAB as u32),
        row(MIB_TCP_STATE_TIME_WAIT as u32),
        row(2),
    ];
    let states = rows.iter().map(|row| row.dwState).collect::<Vec<_>>();
    let status = count_rows(&states);
    assert_eq!(status.total, 3);
    assert_eq!(status.established, 1);
    assert_eq!(status.time_wait, 1);
}

#[test]
fn rate_requires_matching_indexes() {
    let before = Snapshot {
        taken_at: 0,
        rows: vec![Row {
            index: 1,
            in_octets: 1000,
            out_octets: 500,
        }],
    };
    let after = Snapshot {
        taken_at: 2_000_000_000,
        rows: vec![
            Row {
                index: 1,
                in_octets: 3_000,
                out_octets: 900,
            },
            Row {
                index: 9,
                in_octets: 0,
                out_octets: 0,
            },
        ],
    };
    let list = transfers(&before, &after);
    let seconds = elapsed(&before, &after) as f64 / 1e9;
    assert_eq!(list.len(), 1, "index 9 has no baseline");
    assert_eq!(list[0].index, 1);
    let down = list[0].down as f64 / seconds;
    let up = list[0].up as f64 / seconds;
    assert!(
        (down - 1000.0).abs() < 100.0,
        "down about 2000 B / 2 s, got {down}"
    );
    assert!((up - 200.0).abs() < 20.0, "up about 400 B / 2 s, got {up}");
}

#[test]
fn counters_never_run_backwards() {
    let before = sample(
        5,
        vec![Row {
            index: 3,
            in_octets: 100,
            out_octets: 100,
        }],
    );
    let after = sample(
        6,
        vec![Row {
            index: 3,
            in_octets: 40,
            out_octets: 160,
        }],
    );
    assert_eq!(
        transfers(&before, &after),
        vec![Transfer {
            index: 3,
            down: 0,
            up: 60
        }]
    );
    assert_eq!(transfers(&after, &before), vec![], "no time has passed");
}

#[test]
fn counters_of_virtual_adapters_are_left_out() {
    let row = |index| Row {
        index,
        in_octets: 1,
        out_octets: 2,
    };
    let entries = vec![
        Entry {
            if_type: 6,
            row: row(1),
        },
        Entry {
            if_type: IF_TYPE_LOOPBACK,
            row: row(2),
        },
        Entry {
            if_type: 71,
            row: row(3),
        },
    ];
    assert_eq!(read(&entries), vec![row(1), row(3)]);
}

#[test]
fn formats_mac_address() {
    assert_eq!(
        mac_text(&[0x00, 0x11, 0x22, 0x33, 0x44, 0x55]),
        "00:11:22:33:44:55"
    );
}

#[test]
fn formats_guid() {
    let guid = windows_sys::core::GUID {
        data1: 0x00112233,
        data2: 0x4455,
        data3: 0x6677,
        data4: [0x88, 0x99, 0xAA, 0xBB, 0xCC, 0xDD, 0xEE, 0xFF],
    };
    let guid = Guid {
        data1: guid.data1,
        data2: guid.data2,
        data3: guid.data3,
        data4: guid.data4,
    };
    assert_eq!(format_guid(&guid), "{00112233-4455-6677-8899-AABBCCDDEEFF}");
}

#[test]
fn signal_bar_bounds() {
    assert!(signal_bar(0).ends_with("0%"));
    assert!(signal_bar(100).ends_with("100%"));
    assert!(signal_bar(1000).ends_with("1000%"), "never panics");
}

#[test]
fn trims_null_terminated_utf16() {
    let mut text = [0u16; 256];
    let bytes = "Wireless".encode_utf16().collect::<Vec<_>>();
    text[..bytes.len()].copy_from_slice(&bytes);
    assert_eq!(utf16_trim(&text), "Wireless");
}

#[test]
fn ssids_may_hold_any_bytes() {
    assert_eq!(ssid_text(4, b"home\0\0\0\0"), "home");
    assert_eq!(ssid_text(3, &[b'a', 0xff, b'b', 0]), "a\u{fffd}b");
    assert_eq!(ssid_text(0, b"xx"), "");
}

#[test]
fn driver_numbers_are_little_endian() {
    assert_eq!(query_u32(&Some(vec![6, 0, 0, 0])), Some(6));
    assert_eq!(query_u32(&Some(vec![6, 0])), None);
    assert_eq!(query_u32(&None), None);
    assert_eq!(query_i32(&Some(vec![0xC4, 0xFF, 0xFF, 0xFF])), Some(-60));
}

#[test]
fn links_without_association_are_empty() {
    let link = poll_interface("{g}".into(), "card".into(), true, None, Some(-50), Some(6));
    assert!(link.connected);
    assert_eq!(link.ssid, "");
    assert_eq!((link.rssi_dbm, link.channel), (Some(-50), Some(6)));

    let association = Association {
        connected: true,
        ssid: "home".into(),
        bssid: "00:11:22:33:44:55".into(),
        signal_quality: 80,
        rx_kbps: 1000,
        tx_kbps: 2000,
    };
    let link = poll_interface("{g}".into(), "card".into(), false, Some(association), None, None);
    assert!(link.connected);
    assert_eq!(link.ssid, "home");
    assert_eq!(link.signal_quality, 80);
}
