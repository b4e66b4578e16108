//! What the measurements and the readings of the adapters say.

use vstd::prelude::*;

use crate::connections::{in_state, STATE_ESTABLISHED, STATE_TIME_WAIT};
use crate::interfaces::{
    all_addresses, ipv4_text, ipv6_text, of_family, sockaddr_text, AF_INET, AF_INET6,
};
use crate::probe::{
    answers_query, extremes_bound_the_answers, fastest, losses, query_bytes, slowest, Sample,
    Window,
};
use crate::text::{decimal, hex_lower, hex_upper, joined, pad_left};
use crate::traffic::{physical_rows, row_of, transfers_of, Entry, Row, Transfer};
use crate::wlan::{hex_byte, le_number, signal_text};

verus! {

// ---------------------------------------------------------------------------
// Latency
// ---------------------------------------------------------------------------

/// A window keeps the last 60 outcomes in order, and the last answered probe.
pub proof fn window_keeps_the_last_sixty(w: Window, sample: Option<Sample>)
    ensures
        ({
            let next = w.with(sample);
            let outcome = match sample {
                Some(s) => Some(s.rtt_ms),
                None => None,
            };
            let all = w.history.push(outcome);
            &&& next.history == if all.len() <= 60 {
                all
            } else {
                all.subrange(all.len() - 60, all.len() as int)
            }
            &&& sample is Some ==> next.last == sample
            &&& sample is None ==> next.last == w.last
        }),
        w.rtt() == match w.last {
            Some(s) => Some(s.rtt_ms),
            None => None,
        },
{
    let all = w.history.push(
        match sample {
            Some(s) => Some(s.rtt_ms),
            None => None,
        },
    );
    if all.len() > 60 {
        assert(all.skip(all.len() - 60) =~= all.subrange(all.len() - 60, all.len() as int));
    }
}

/// Every outcome without an answer is a loss, and only that.
pub proof fn losses_are_counted(history: Seq<Option<u32>>, outcome: Option<u32>)
    ensures
        losses(Seq::empty()) == 0,
        losses(history.push(outcome)) == losses(history) + if outcome is None {
            1int
        } else {
            0int
        },
{
    assert(history.push(outcome).drop_last() =~= history);
}

/// The jitter is the difference of two answers of the window that no answer lies
/// outside of; there is none where every probe was lost.
pub proof fn jitter_spans_the_answers(w: Window)
    ensures
        w.jitter() is None <==> forall|i: int|
            0 <= i < w.history.len() ==> (#[trigger] w.history[i]) is None,
        w.jitter() matches Some(j) ==> exists|slow: u32, fast: u32|
            {
                &&& #[trigger] w.history.contains(Some(slow))
                &&& #[trigger] w.history.contains(Some(fast))
                &&& j == slow - fast
                &&& forall|i: int|
                    0 <= i < w.history.len() ==> ((#[trigger] w.history[i]) matches Some(v) ==> fast
                        <= v <= slow)
            },
{
    extremes_bound_the_answers(w.history);
    if let (Some(slow), Some(fast)) = (slowest(w.history), fastest(w.history)) {
        assert(w.history.contains(Some(slow)) && w.history.contains(Some(fast)));
        let i = choose|i: int| 0 <= i < w.history.len() && w.history[i] == Some(slow);
        assert(fast <= slow);
    }
}

/// Where the scale of a sparkline ends: the longest round-trip time of the
/// window, but never below 50.
pub open spec fn ends_at(w: Window, end: u32) -> bool {
    &&& end >= 50
    &&& end == 50 || w.history.contains(Some(end))
    &&& forall|i: int|
        0 <= i < w.history.len() ==> ((#[trigger] w.history[i]) matches Some(v) ==> v <= end)
}

proof fn scale_is_the_end(w: Window)
    ensures
        ends_at(w, crate::probe::scale(w.history)),
        forall|end: u32| #[trigger] ends_at(w, end) ==> end == crate::probe::scale(w.history),
{
    extremes_bound_the_answers(w.history);
    let scale = crate::probe::scale(w.history);
    assert(ends_at(w, scale)) by {
        if let Some(m) = slowest(w.history) {
            assert(w.history.contains(Some(m)));
        } else {
            assert forall|i: int| 0 <= i < w.history.len() implies ((
            #[trigger] w.history[i]) matches Some(v) ==> v <= scale) by {}
        }
    }
    assert forall|end: u32| #[trigger] ends_at(w, end) implies end == scale by {
        if end > 50 {
            let i = choose|i: int| 0 <= i < w.history.len() && w.history[i] == Some(end);
            assert(w.history[i] == Some(end));
        }
        if scale > 50 {
            assert(w.history.contains(Some(scale)));
            let i = choose|i: int| 0 <= i < w.history.len() && w.history[i] == Some(scale);
            assert(w.history[i] == Some(scale));
        }
    }
}

/// A sparkline has six steps from zero to the end of its scale: the lowest bar
/// below the first step, one bar more for each step that an answer reaches, the
/// full bar at the end, and a blank for a lost probe.
pub proof fn sparkline_has_six_steps(w: Window, end: u32, i: int, v: u32)
    requires
        ends_at(w, end),
        0 <= i < w.history.len(),
    ensures
        w.line().len() == w.history.len(),
        w.history[i] is None ==> w.line()[i] == ' ',
        w.history[i] == Some(v) ==> {
            &&& 6 * v < end ==> w.line()[i] == '\u{2581}'
            &&& end <= 6 * v < 2 * end ==> w.line()[i] == '\u{2582}'
            &&& 2 * end <= 6 * v < 3 * end ==> w.line()[i] == '\u{2583}'
            &&& 3 * end <= 6 * v < 4 * end ==> w.line()[i] == '\u{2584}'
            &&& 4 * end <= 6 * v < 5 * end ==> w.line()[i] == '\u{2585}'
            &&& 5 * end <= 6 * v < 6 * end ==> w.line()[i] == '\u{2586}'
            &&& v == end ==> w.line()[i] == '\u{2588}'
            &&& v <= end
        },
{
    scale_is_the_end(w);
    assert(end == crate::probe::scale(w.history));
    if w.history[i] == Some(v) {
        let e = end as int;
        let x = v as int * 6;
        let q = x / e;
        assert(0 * e <= x < 1 * e ==> q == 0) by (nonlinear_arith)
            requires
                e > 0,
                x >= 0,
                q == x / e,
        ;
        assert(1 * e <= x < 2 * e ==> q == 1) by (nonlinear_arith)
            requires
                e > 0,
                x >= 0,
                q == x / e,
        ;
        assert(2 * e <= x < 3 * e ==> q == 2) by (nonlinear_arith)
            requires
                e > 0,
                x >= 0,
                q == x / e,
        ;
        assert(3 * e <= x < 4 * e ==> q == 3) by (nonlinear_arith)
            requires
                e > 0,
                x >= 0,
                q == x / e,
        ;
        assert(4 * e <= x < 5 * e ==> q == 4) by (nonlinear_arith)
            requires
                e > 0,
                x >= 0,
                q == x / e,
        ;
        assert(5 * e <= x < 6 * e ==> q == 5) by (nonlinear_arith)
            requires
                e > 0,
                x >= 0,
                q == x / e,
        ;
        assert(x == 6 * e ==> q == 6) by (nonlinear_arith)
            requires
                e > 0,
                q == x / e,
        ;
    }
}

/// The question of the probe is a DNS message about the name
/// `stabilizatores.probe`: its number, recursion desired, one question of type A
/// and class IN. What answers it has the same number and a whole header.
pub proof fn question_is_a_dns_message(received: Seq<u8>)
    ensures
        query_bytes().len() == 38,
        query_bytes().take(12) == seq![0xBEu8, 0xEFu8, 1u8, 0, 0, 1, 0, 0, 0, 0, 0, 0],
        query_bytes()[12] == 14,
        query_bytes().subrange(13, 27) == seq![
            's' as u8,
            't' as u8,
            'a' as u8,
            'b' as u8,
            'i' as u8,
            'l' as u8,
            'i' as u8,
            'z' as u8,
            'a' as u8,
            't' as u8,
            'o' as u8,
            'r' as u8,
            'e' as u8,
            's' as u8,
        ],
        query_bytes()[27] == 5,
        query_bytes().subrange(28, 33) == seq![
            'p' as u8,
            'r' as u8,
            'o' as u8,
            'b' as u8,
            'e' as u8,
        ],
        query_bytes().skip(33) == seq![0u8, 0, 1, 0, 1],
        answers_query(received) <==> received.len() >= 12 && received[0] == query_bytes()[0]
            && received[1] == query_bytes()[1],
{
    reveal_strlit("stabilizatores");
    reveal_strlit("probe");
    let q = query_bytes();
    assert("stabilizatores"@.len() == 14 && "probe"@.len() == 5);
    assert(q.len() == 38);
    assert(q.take(12) =~= crate::probe::query_header());
    assert(q.skip(33) =~= crate::probe::query_tail());
    assert(q.subrange(13, 27) =~= crate::probe::ascii("stabilizatores"@));
    assert(q.subrange(28, 33) =~= crate::probe::ascii("probe"@));
}

// ---------------------------------------------------------------------------
// Traffic and connections
// ---------------------------------------------------------------------------

/// Each adapter that has counters in both readings has moved the difference of
/// its counters, or nothing where a counter went back; one that is gone is left
/// out.
pub proof fn transfers_are_differences(before: Seq<Row>, row: Row, after: Seq<Row>, k: int)
    requires
        0 <= k <= after.len(),
        k < after.len() ==> after[k].index == row.index,
        forall|j: int| 0 <= j < k ==> (#[trigger] after[j]).index != row.index,
    ensures
        transfers_of(Seq::empty(), after).len() == 0,
        k == after.len() ==> transfers_of(before.push(row), after) == transfers_of(before, after),
        k < after.len() ==> transfers_of(before.push(row), after) == transfers_of(
            before,
            after,
        ).push(
            Transfer {
                index: row.index,
                down: if after[k].in_octets >= row.in_octets {
                    (after[k].in_octets - row.in_octets) as u64
                } else {
                    0
                },
                up: if after[k].out_octets >= row.out_octets {
                    (after[k].out_octets - row.out_octets) as u64
                } else {
                    0
                },
            },
        ),
{
    first_row_is_found(after, row.index, k);
    assert(before.push(row).drop_last() =~= before);
}

proof fn first_row_is_found(rows: Seq<Row>, index: u32, k: int)
    requires
        0 <= k <= rows.len(),
        k < rows.len() ==> rows[k].index == index,
        forall|j: int| 0 <= j < k ==> (#[trigger] rows[j]).index != index,
    ensures
        row_of(rows, index) == if k < rows.len() {
            Some(rows[k])
        } else {
            None
        },
    decreases rows.len(),
{
    if k > 0 {
        let rest = rows.skip(1);
        assert(rows[0].index != index);
        assert forall|j: int| 0 <= j < k - 1 implies (#[trigger] rest[j]).index != index by {
            assert(rest[j] == rows[j + 1]);
        }
        first_row_is_found(rest, index, k - 1);
    }
}

/// The counters of every real adapter are kept, in order, and no others.
pub proof fn counters_are_those_of_real_adapters(entries: Seq<Entry>, e: Entry)
    ensures
        physical_rows(Seq::empty()).len() == 0,
        physical_rows(entries.push(e)) == if e.if_type != 24 && e.if_type != 131 {
            physical_rows(entries).push(e.row)
        } else {
            physical_rows(entries)
        },
{
    reveal(Seq::filter);
    assert(entries.push(e).drop_last() =~= entries);
    let kept = entries.filter(|e: Entry| crate::interfaces::physical_type(e.if_type));
    assert(kept.push(e).map_values(|e: Entry| e.row) =~= kept.map_values(|e: Entry| e.row).push(
        e.row,
    ));
}

/// A connection in state 5 is established, one in state 11 waits out its time,
/// and every other counts in the total alone.
pub proof fn connections_are_counted_by_state(states: Seq<u32>, state: u32)
    ensures
        in_state(Seq::empty(), STATE_ESTABLISHED) == 0,
        in_state(Seq::empty(), STATE_TIME_WAIT) == 0,
        in_state(states.push(state), STATE_ESTABLISHED) == in_state(states, STATE_ESTABLISHED)
            + if state == 5 {
            1int
        } else {
            0int
        },
        in_state(states.push(state), STATE_TIME_WAIT) == in_state(states, STATE_TIME_WAIT)
            + if state == 11 {
            1int
        } else {
            0int
        },
{
    reveal(Seq::filter);
    assert(states.push(state).drop_last() =~= states);
}

// ---------------------------------------------------------------------------
// Addresses
// ---------------------------------------------------------------------------

/// An IPv4 address is four decimal numbers with dots in between.
pub proof fn ipv4_is_dotted(a: u8, b: u8, c: u8, d: u8)
    ensures
        ipv4_text(seq![a, b, c, d]) == joined(
            seq![
                decimal(a as nat),
                decimal(b as nat),
                decimal(c as nat),
                decimal(d as nat),
            ],
            "."@,
        ),
{
    let list = seq![
        decimal(a as nat),
        decimal(b as nat),
        decimal(c as nat),
        decimal(d as nat),
    ];
    let l3 = list.drop_last();
    let l2 = l3.drop_last();
    let l1 = l2.drop_last();
    assert(l1.len() == 1 && l1[0] == list[0]);
    assert(joined(l1, "."@) == list[0]);
    assert(l2.last() == list[1] && l3.last() == list[2] && list.last() == list[3]);
    assert(joined(l2, "."@) == list[0] + "."@ + list[1]);
    assert(joined(l3, "."@) == list[0] + "."@ + list[1] + "."@ + list[2]);
}

/// Group `i` of an IPv6 address: two bytes, the higher one first.
pub open spec fn group_at(b: Seq<u8>, i: int) -> int {
    b[2 * i] * 256 + b[2 * i + 1]
}

/// The groups from `from` to `to` in lower-case hexadecimal, with colons in
/// between.
pub open spec fn groups_text(b: Seq<u8>, from: int, to: int) -> Seq<char> {
    joined(Seq::new((to - from) as nat, |i: int| hex_lower(group_at(b, from + i) as nat)), ":"@)
}

/// The groups from `start` on are zero, `len` of them.
pub open spec fn zero_run(b: Seq<u8>, start: int, len: int) -> bool {
    0 <= start && 0 <= len && start + len <= 8 && forall|i: int|
        start <= i < start + len ==> #[trigger] group_at(b, i) == 0
}

proof fn zeros_are_zero_runs(b: Seq<u8>, start: int, len: int)
    requires
        b.len() == 16,
    ensures
        crate::interfaces::zeros(crate::interfaces::groups(b), start, len) <==> zero_run(
            b,
            start,
            len,
        ),
{
    let g = crate::interfaces::groups(b);
    assert forall|i: int| 0 <= i < 8 implies #[trigger] g[i] == group_at(b, i) by {}
    if crate::interfaces::zeros(g, start, len) {
        assert forall|i: int| start <= i < start + len implies #[trigger] group_at(b, i) == 0 by {
            assert(g[i] == 0);
        }
    }
    if zero_run(b, start, len) {
        assert forall|i: int| start <= i < start + len implies #[trigger] g[i] == 0 by {
            assert(group_at(b, i) == 0);
        }
    }
}

/// An IPv6 address is written in groups; its first longest run of two or more
/// zero groups is left out, and an IPv4 address that it stands for is dotted.
pub proof fn ipv6_is_shortened(b: Seq<u8>, start: int, len: int)
    requires
        b.len() == 16,
        zero_run(b, start, len),
        forall|s: int, l: int| #[trigger] zero_run(b, s, l) ==> l < len || (l == len && (s >= start
            || len == 0)),
        !(group_at(b, 5) == 0xFFFF && zero_run(b, 0, 5)),
    ensures
        len >= 2 ==> ipv6_text(b) == groups_text(b, 0, start) + "::"@ + groups_text(
            b,
            start + len,
            8,
        ),
        len < 2 ==> ipv6_text(b) == groups_text(b, 0, 8),
{
    let g = crate::interfaces::groups(b);
    let run = crate::interfaces::longest_run(g, 8);
    assert forall|i: int| 0 <= i < 8 implies #[trigger] g[i] == group_at(b, i) by {}
    if crate::interfaces::is_mapped(g) {
        assert(g[0] == 0 && g[1] == 0 && g[2] == 0 && g[3] == 0 && g[4] == 0);
        assert(zero_run(b, 0, 5)) by {
            assert forall|i: int| 0 <= i < 5 implies #[trigger] group_at(b, i) == 0 by {
                assert(i == 0 || i == 1 || i == 2 || i == 3 || i == 4);
            }
        }
    }
    zeros_are_zero_runs(b, start, len);
    zeros_are_zero_runs(b, run.0, run.1);
    crate::interfaces::best_is_zeros(g, 8);
    if len > 0 {
        crate::interfaces::longest_run_is_longest(g, 8, start, len);
    }
    assert(zero_run(b, run.0, run.1));
    assert(run.1 == len);
    assert(len > 0 ==> run.0 == start);
    let part = crate::interfaces::group_texts(g);
    assert(part =~= Seq::new(8, |i: int| hex_lower(group_at(b, 0 + i) as nat)));
    if len >= 2 {
        assert(crate::interfaces::group_texts(g.take(start)) =~= Seq::new(
            (start - 0) as nat,
            |i: int| hex_lower(group_at(b, 0 + i) as nat),
        ));
        assert(crate::interfaces::group_texts(g.skip(start + len)) =~= Seq::new(
            (8 - (start + len)) as nat,
            |i: int| hex_lower(group_at(b, start + len + i) as nat),
        ));
    }
}

/// An IPv6 address that stands for an IPv4 address shows it in dotted form.
pub proof fn mapped_ipv6_is_dotted(b: Seq<u8>)
    requires
        b.len() == 16,
        zero_run(b, 0, 5),
        group_at(b, 5) == 0xFFFF,
    ensures
        ipv6_text(b) == "::ffff:"@ + ipv4_text(b.subrange(12, 16)),
{
    let g = crate::interfaces::groups(b);
    assert(group_at(b, 0) == 0 && group_at(b, 1) == 0 && group_at(b, 2) == 0 && group_at(b, 3) == 0
        && group_at(b, 4) == 0);
    assert(crate::interfaces::is_mapped(g));
    assert(b.skip(12) =~= b.subrange(12, 16));
}

/// A socket address of family 2 holds an IPv4 address behind its port, one of
/// family 23 an IPv6 address behind its port and flow information; every other
/// buffer holds none.
pub proof fn socket_addresses_have_their_family(bytes: Seq<u8>)
    ensures
        sockaddr_text(bytes) == if bytes.len() >= 8 && bytes[0] == 2 && bytes[1] == 0 {
            Some((2u16, ipv4_text(bytes.subrange(4, 8))))
        } else if bytes.len() >= 24 && bytes[0] == 23 && bytes[1] == 0 {
            Some((23u16, ipv6_text(bytes.subrange(8, 24))))
        } else {
            None
        },
{
}

/// The servers are split by their family, each list in order; the addresses keep
/// all of them in order, and what is no address is left out.
pub proof fn addresses_are_split_by_family(list: Seq<Seq<u8>>, bytes: Seq<u8>)
    ensures
        of_family(Seq::empty(), AF_INET).len() == 0,
        of_family(Seq::empty(), AF_INET6).len() == 0,
        all_addresses(Seq::empty()).len() == 0,
        match sockaddr_text(bytes) {
            Some((family, text)) => {
                &&& all_addresses(list.push(bytes)) == all_addresses(list).push(text)
                &&& family == 2 ==> of_family(list.push(bytes), AF_INET) == of_family(
                    list,
                    AF_INET,
                ).push(text) && of_family(list.push(bytes), AF_INET6) == of_family(list, AF_INET6)
                &&& family == 23 ==> of_family(list.push(bytes), AF_INET6) == of_family(
                    list,
                    AF_INET6,
                ).push(text) && of_family(list.push(bytes), AF_INET) == of_family(list, AF_INET)
            },
            None => {
                &&& all_addresses(list.push(bytes)) == all_addresses(list)
                &&& of_family(list.push(bytes), AF_INET) == of_family(list, AF_INET)
                &&& of_family(list.push(bytes), AF_INET6) == of_family(list, AF_INET6)
            },
        },
{
    assert(list.push(bytes).drop_last() =~= list);
}

// ---------------------------------------------------------------------------
// Wi-Fi
// ---------------------------------------------------------------------------

/// The upper-case hexadecimal digit of a number below 16.
pub open spec fn digit(d: int) -> char {
    "0123456789ABCDEF"@[d]
}

/// A byte is written as its two hexadecimal digits, the higher one first.
pub proof fn bytes_have_two_digits(b: u8)
    ensures
        hex_byte(b) == seq![digit(b as int / 16), digit(b as int % 16)],
{
    reveal_strlit("0123456789ABCDEF");
    reveal_with_fuel(crate::text::hexadecimal, 3);
    let n = b as nat;
    let all = "0123456789ABCDEF"@;
    assert(all[0] == '0' && all[1] == '1' && all[2] == '2' && all[3] == '3' && all[4] == '4'
        && all[5] == '5' && all[6] == '6' && all[7] == '7' && all[8] == '8' && all[9] == '9'
        && all[10] == 'A' && all[11] == 'B' && all[12] == 'C' && all[13] == 'D' && all[14] == 'E'
        && all[15] == 'F');
    assert forall|d: nat| d < 16 implies #[trigger] crate::text::hex_digit(d, 65) == digit(
        d as int,
    ) by {
        assert(d == 0 || d == 1 || d == 2 || d == 3 || d == 4 || d == 5 || d == 6 || d == 7 || d
            == 8 || d == 9 || d == 10 || d == 11 || d == 12 || d == 13 || d == 14 || d == 15);
    }
    if n < 16 {
        assert(hex_upper(n) =~= seq![digit(n as int)]);
        assert(hex_byte(b) =~= seq![digit(0), digit(n as int)]);
    } else {
        assert(n / 16 < 16);
        assert(hex_upper(n) =~= seq![digit(n as int / 16), digit(n as int % 16)]);
    }
}

/// A number in four bytes counts the lowest byte first.
pub proof fn numbers_are_little_endian(b: Seq<u8>)
    requires
        b.len() >= 4,
    ensures
        le_number(b) == b[0] + 256 * (b[1] + 256 * (b[2] + 256 * b[3])),
{
}

/// A signal strength of up to 100 takes four characters: its number, aligned to
/// the right, and the sign.
pub proof fn signals_are_aligned(quality: u32)
    ensures
        quality < 10 ==> signal_text(quality) == "  "@ + decimal(quality as nat) + "%"@,
        10 <= quality < 100 ==> signal_text(quality) == " "@ + decimal(quality as nat) + "%"@,
        100 <= quality ==> signal_text(quality) == decimal(quality as nat) + "%"@,
{
    reveal_strlit("  ");
    reveal_strlit(" ");
    reveal_with_fuel(decimal, 4);
    let n = quality as nat;
    if quality < 10 {
        assert(decimal(n).len() == 1);
        assert(pad_left(decimal(n), 3, ' ') =~= "  "@ + decimal(n));
    } else if quality < 100 {
        assert(decimal(n).len() == 2);
        assert(pad_left(decimal(n), 3, ' ') =~= " "@ + decimal(n));
    } else {
        assert(decimal(n / 10).len() >= 2);
        assert(decimal(n).len() >= 3);
    }
}

/// An echo may take a second, a DNS reply a fifth more, and the rounds are three
/// seconds apart; only an echo with status zero is an answer.
pub proof fn probes_keep_their_times(status: u32)
    ensures
        crate::probe::PROBE_TIMEOUT_MS == 1000,
        crate::probe::DNS_TIMEOUT_MS == 1200,
        crate::probe::PROBE_INTERVAL_MS == 3000,
        status == crate::probe::IP_SUCCESS <==> status == 0,
        crate::probe::PROBE_PAYLOAD@ == "stabilizatores"@,
{
}

/// An echo is answered exactly when a reply came with status zero.
pub proof fn echoes_need_a_reply(replies: u32, rtt_ms: u32, status: u32)
    ensures
        replies > 0 && status == 0 ==> crate::probe::echoed(replies, rtt_ms, status) == Some(
            Sample { rtt_ms, status: 0 },
        ),
        replies == 0 || status != 0 ==> crate::probe::echoed(replies, rtt_ms, status) is None,
{
}

/// The number of an address counts its first byte highest.
pub proof fn addresses_count_from_the_first_byte(b: Seq<u8>)
    requires
        b.len() == 4,
    ensures
        crate::probe::address_number(b) == ((b[0] * 256 + b[1]) * 256 + b[2]) * 256 + b[3],
{
}

/// Without time in between nothing was transferred.
pub proof fn transfers_take_time(before: (u64, Seq<Row>), after: (u64, Seq<Row>))
    ensures
        after.0 <= before.0 ==> crate::traffic::moved(before, after).len() == 0,
        after.0 > before.0 ==> crate::traffic::moved(before, after) == transfers_of(
            before.1,
            after.1,
        ),
{
}

/// An endpoint that was never probed has neither outcomes nor a time.
pub proof fn unprobed_endpoints_know_nothing(sample: Sample)
    ensures
        crate::probe::unprobed().history.len() == 0,
        crate::probe::unprobed().rtt() is None,
        crate::probe::unprobed().jitter() is None,
        crate::probe::unprobed().with(Some(sample)).rtt() == Some(sample.rtt_ms),
{
}

} // verus!
