//! Latency windows and the DNS probe.

use stabilizatores::probe::{
    cloudflare, destination, dns_query, google, is_reply, ping, Endpoint, Latency, Sample, HISTORY,
    IP_SUCCESS,
};

fn answered(rtt_ms: u32) -> Option<Sample> {
    Some(Sample { rtt_ms, status: 0 })
}

#[test]
fn uses_network_byte_order_destination() {
    assert_eq!(u32::from_be_bytes([1, 1, 1, 1]), 0x0101_0101);
    assert_eq!(u32::from_be_bytes([8, 8, 8, 8]), 0x0808_0808);
    assert_eq!(destination([1, 1, 1, 1]), 0x0101_0101);
    assert_eq!(destination([8, 8, 8, 8]), 0x0808_0808);
}

#[test]
fn constants_are_valid_ipv4() {
    assert!(cloudflare()[0] < 224 && google()[0] < 224);
}

#[test]
fn window_counts_loss_and_jitter() {
    let mut endpoint = Endpoint::default();
    endpoint.record(Some(Sample {
        rtt_ms: 10,
        status: 0,
    }));
    endpoint.record(Some(Sample {
        rtt_ms: 20,
        status: 0,
    }));
    endpoint.record(None);
    endpoint.record(Some(Sample {
        rtt_ms: 15,
        status: 0,
    }));
    assert_eq!(endpoint.total(), 4);
    assert_eq!(endpoint.loss(), 1);
    assert_eq!(endpoint.jitter_ms(), Some(10));
    assert_eq!(endpoint.rtt_ms(), Some(15));
}

#[test]
fn empty_window_has_no_stats() {
    let endpoint = Endpoint::default();
    assert_eq!(endpoint.rtt_ms(), None);
    assert_eq!(endpoint.jitter_ms(), None);
    assert_eq!(endpoint.loss(), 0);
    assert_eq!(endpoint.total(), 0);
    assert_eq!(endpoint.sparkline(), "");
}

#[test]
fn window_is_bounded() {
    let mut endpoint = Endpoint::default();
    for index in 0..(HISTORY + 10) {
        endpoint.record(Some(Sample {
            rtt_ms: index as u32,
            status: 0,
        }));
    }
    assert_eq!(endpoint.total(), HISTORY as u32);
    assert_eq!(endpoint.sparkline().chars().count(), HISTORY);
}

#[test]
fn sparkline_has_seven_levels_and_spaces_for_loss() {
    let mut endpoint = Endpoint::default();
    endpoint.record(Some(Sample {
        rtt_ms: 1,
        status: 0,
    }));
    endpoint.record(None);
    endpoint.record(Some(Sample {
        rtt_ms: 50,
        status: 0,
    }));
    let line = endpoint.sparkline();
    let mut chars = line.chars();
    let first = chars.next();
    assert_eq!(chars.next(), Some(' '), "lost probe renders blank");
    let last = chars.next();
    assert_ne!(first, last);
}

#[test]
fn dns_packet_marks_transaction_id() {
    let mut packet = Vec::new();
    packet.extend_from_slice(&0xBEEF_u16.to_be_bytes());
    assert_eq!(packet, vec![0xBE, 0xEF]);
    assert_eq!(dns_query()[..2], packet[..]);
}

#[test]
fn dns_query_is_a_well_formed_question() {
    let packet = dns_query();
    assert_eq!(packet[2..12], [1, 0, 0, 1, 0, 0, 0, 0, 0, 0]);
    let mut at = 12;
    let mut labels = Vec::new();
    while packet[at] != 0 {
        let length = packet[at] as usize;
        labels.push(String::from_utf8(packet[at + 1..at + 1 + length].to_vec()).unwrap());
        at += 1 + length;
    }
    assert!(labels.len() >= 2);
    assert_eq!(packet[at + 1..], [0, 1, 0, 1], "an A record, IN class");
}

#[test]
fn replies_carry_the_transaction_id() {
    let mut reply = dns_query();
    reply[2] = 0x81;
    assert!(is_reply(&reply));
    reply[0] = 0;
    assert!(!is_reply(&reply));
    assert!(!is_reply(&[0xBE]));
}

#[test]
fn pings_count_only_when_answered() {
    assert_eq!(ping(1, 9, IP_SUCCESS), answered(9));
    assert_eq!(ping(0, 9, IP_SUCCESS), None);
    assert_eq!(ping(1, 9, 11010), None);
}

#[test]
fn a_lost_probe_keeps_the_last_sample() {
    let mut endpoint = Endpoint::with_rtt(Some(12));
    endpoint.record(None);
    assert_eq!(endpoint.rtt_ms(), Some(12));
    assert_eq!(endpoint.loss(), 1);
}

#[test]
fn a_full_window_slides() {
    let mut endpoint = Endpoint::default();
    endpoint.record(None);
    for _ in 0..HISTORY {
        endpoint.record(answered(5));
    }
    assert_eq!(endpoint.loss(), 0);
    assert_eq!(endpoint.jitter_ms(), Some(0));
}

#[test]
fn observing_feeds_both_endpoints() {
    let mut latency = Latency::default();
    latency.observe(answered(4), None, Some(7), None);
    latency.observe(answered(6), answered(9), None, Some(8));
    assert_eq!(latency.cloudflare.total(), 2);
    assert_eq!(latency.cloudflare.rtt_ms(), Some(6));
    assert_eq!(latency.google.loss(), 1);
    assert_eq!((latency.cf_dns_ms, latency.google_dns_ms), (None, Some(8)));
    let copy = latency.clone();
    assert_eq!(copy.google.rtt_ms(), Some(9));
}
