//! The diagnostic report.

use stabilizatores::config::{Config, DnsProvider};
use stabilizatores::connections::TcpConnections;
use stabilizatores::dns::google;
use stabilizatores::interfaces::Interface;
use stabilizatores::report::{collect_report, end_line, report_bytes, report_file, Report};
use stabilizatores::tcp::TcpStatus;
use stabilizatores::wlan::WlanLink;

fn report() -> Report {
    Report {
        time: "2024-05-06 07:08:09".into(),
        config: Config {
            tcp: true,
            dns: true,
            multimedia: false,
            self_heal: true,
            dns_provider: DnsProvider::Google,
            mtu: Some(1400),
            power: false,
        },
        registry_values: 5,
        dns_backups: 1,
        tcp: TcpStatus {
            ifaces_ok: 1,
            ifaces_total: 2,
            global_ok: true,
        },
        resolvers: google(),
        throttling_removed: true,
        mtu_aligned: false,
        power_no_power_down: true,
        connections: TcpConnections {
            total: 9,
            established: 4,
            time_wait: 2,
        },
        interfaces: vec![Interface {
            guid: "{a}".into(),
            index: 3,
            friendly: "Wi-Fi \"5\"".into(),
            description: String::new(),
            mtu: 1500,
            if_type: 71,
            up: true,
            dhcp: false,
            dns: vec!["8.8.8.8".into()],
            dns6: vec![],
            ips: vec![],
            gateways: vec![],
            mac: String::new(),
        }],
        wlan: vec![WlanLink {
            guid: "{a}".into(),
            description: String::new(),
            connected: true,
            ssid: "h\u{e9}".into(),
            bssid: "00:11:22:33:44:55".into(),
            signal_quality: 70,
            rssi_dbm: Some(-61),
            channel: None,
            rx_kbps: 100,
            tx_kbps: 200,
        }],
        latency_ms: Some(12),
    }
}

#[test]
fn a_report_is_one_json_object() {
    let value = collect_report(&report(), vec![]);
    assert_eq!(value["program"].as_str(), Some("stabilizatores"));
    assert_eq!(value["version"].as_str(), Some("0.3.0"));
    assert_eq!(value["config"]["dns_provider"].as_str(), Some("google"));
    assert_eq!(value["config"]["mtu"].as_u64(), Some(1400));
    assert_eq!(value["archive"]["registry_values"].as_u64(), Some(5));
    assert_eq!(value["tcp"]["ifaces_total"].as_u64(), Some(2));
    assert_eq!(value["dns"]["primary"].as_str(), Some("8.8.8.8"));
    assert_eq!(value["throttling_removed"].as_bool(), Some(true));
    assert_eq!(value["mtu_aligned"].as_bool(), Some(false));
    assert_eq!(value["connections"]["established"].as_u64(), Some(4));
    assert_eq!(
        value["interfaces"][0]["friendly"].as_str(),
        Some("Wi-Fi \"5\"")
    );
    assert_eq!(value["interfaces"][0]["dns"][0].as_str(), Some("8.8.8.8"));
    assert_eq!(value["wlan"][0]["rssi_dbm"].as_i64(), Some(-61));
    assert!(value["wlan"][0]["channel"].is_null());
}

#[test]
fn rates_are_handed_through() {
    let rate = serde_json::Value::from(1.5);
    let value = collect_report(&report(), vec![rate.clone()]);
    assert_eq!(value["traffic"][0], rate);
}

#[test]
fn report_bytes_are_pretty_json_with_a_line_end() {
    let bytes = report_bytes(&report(), vec![]).expect("the report is serialized");
    assert_eq!(bytes.last(), Some(&b'\n'));
    let text = String::from_utf8(bytes).expect("utf-8");
    assert!(text.starts_with("{\n  \""), "indented by two spaces");
    let back: serde_json::Value = serde_json::from_str(&text).expect("valid json");
    assert_eq!(back, collect_report(&report(), vec![]));
}

#[test]
fn failures_pass_the_line_end_by() {
    assert_eq!(end_line(Ok(vec![b'x'])), Ok(vec![b'x', b'\n']));
    assert_eq!(end_line(Err("no".into())), Err("no".to_string()));
}

#[test]
fn reports_are_named_by_their_stamp() {
    assert_eq!(report_file("20240506-070809"), "report-20240506-070809.json");
}
