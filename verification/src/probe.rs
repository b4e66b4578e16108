//! Latency measurements.
//!
//! Each endpoint keeps a sliding window of the last probes. The window feeds
//! the latest round-trip time, the peak-to-peak jitter of the answered probes,
//! the number of lost probes, and the sparkline that the menu draws.

use std::collections::VecDeque;

use vstd::prelude::*;

use crate::text;

verus! {

/// Result of a single ICMP probe.
#[derive(Clone, Copy, Debug, PartialEq, Eq, Structural)]
pub struct Sample {
    /// Round-trip time in milliseconds.
    pub rtt_ms: u32,
    /// IP status code returned by the stack, 0 on success.
    pub status: u32,
}

/// How many probe outcomes each endpoint remembers.
pub const HISTORY: usize = 60;

/// Sliding-window statistics of one endpoint.
#[derive(Debug)]
pub struct Endpoint {
    /// Most recent successful sample.
    pub last: Option<Sample>,
    /// The last [`HISTORY`] probe outcomes, oldest first. `None` is a lost probe.
    pub history: VecDeque<Option<u32>>,
}

/// An [`Endpoint`] as a sequence of outcomes.
pub struct Window {
    pub last: Option<Sample>,
    pub history: Seq<Option<u32>>,
}

impl View for Endpoint {
    type V = Window;

    open spec fn view(&self) -> Window {
        Window { last: self.last, history: self.history@ }
    }
}

/// The last [`HISTORY`] outcomes.
pub open spec fn trimmed_window(history: Seq<Option<u32>>) -> Seq<Option<u32>> {
    if history.len() > HISTORY {
        history.skip(history.len() - HISTORY)
    } else {
        history
    }
}

/// How many of the outcomes are losses.
pub open spec fn losses(history: Seq<Option<u32>>) -> nat
    decreases history.len(),
{
    if history.len() == 0 {
        0
    } else {
        losses(history.drop_last()) + if history.last() is None {
            1nat
        } else {
            0nat
        }
    }
}

/// The longest round-trip time of the answered probes.
pub open spec fn slowest(history: Seq<Option<u32>>) -> Option<u32>
    decreases history.len(),
{
    if history.len() == 0 {
        None
    } else {
        match (slowest(history.drop_last()), history.last()) {
            (Some(a), Some(b)) => Some(
                if a >= b {
                    a
                } else {
                    b
                },
            ),
            (Some(a), None) => Some(a),
            (None, last) => last,
        }
    }
}

/// The shortest round-trip time of the answered probes.
pub open spec fn fastest(history: Seq<Option<u32>>) -> Option<u32>
    decreases history.len(),
{
    if history.len() == 0 {
        None
    } else {
        match (fastest(history.drop_last()), history.last()) {
            (Some(a), Some(b)) => Some(
                if a <= b {
                    a
                } else {
                    b
                },
            ),
            (Some(a), None) => Some(a),
            (None, last) => last,
        }
    }
}

/// True when no probe was answered.
pub open spec fn all_lost(history: Seq<Option<u32>>) -> bool {
    forall|i: int| 0 <= i < history.len() ==> (#[trigger] history[i]) is None
}

/// Where the scale of the sparkline ends: at the slowest answer, but not below
/// 50.
pub open spec fn scale(history: Seq<Option<u32>>) -> u32 {
    match slowest(history) {
        Some(m) => if m > 50 {
            m
        } else {
            50
        },
        None => 50,
    }
}

/// The seven brightness levels of a sparkline. U+2587 is left out because
/// several console fonts render it as a box.
pub open spec fn level_char(level: int) -> char {
    if level <= 0 {
        '\u{2581}'
    } else if level == 1 {
        '\u{2582}'
    } else if level == 2 {
        '\u{2583}'
    } else if level == 3 {
        '\u{2584}'
    } else if level == 4 {
        '\u{2585}'
    } else if level == 5 {
        '\u{2586}'
    } else {
        '\u{2588}'
    }
}

/// The character of one outcome on a scale that ends at `scale`.
pub open spec fn spark(outcome: Option<u32>, scale: u32) -> char {
    match outcome {
        None => ' ',
        Some(rtt) => level_char((rtt as int * 6) / (scale as int)),
    }
}

/// One character per outcome.
pub open spec fn sparks(history: Seq<Option<u32>>, scale: u32) -> Seq<char> {
    Seq::new(history.len(), |i: int| spark(history[i], scale))
}

impl Window {
    /// The window holds at most [`HISTORY`] outcomes.
    pub open spec fn wf(self) -> bool {
        self.history.len() <= HISTORY
    }

    /// The window after one more outcome.
    pub open spec fn with(self, sample: Option<Sample>) -> Window {
        Window {
            last: match sample {
                Some(s) => Some(s),
                None => self.last,
            },
            history: trimmed_window(
                self.history.push(
                    match sample {
                        Some(s) => Some(s.rtt_ms),
                        None => None,
                    },
                ),
            ),
        }
    }

    /// The round-trip time of the most recent successful probe.
    pub open spec fn rtt(self) -> Option<u32> {
        match self.last {
            Some(s) => Some(s.rtt_ms),
            None => None,
        }
    }

    /// The spread between the slowest and the fastest answer.
    pub open spec fn jitter(self) -> Option<u32> {
        match (slowest(self.history), fastest(self.history)) {
            (Some(slow), Some(fast)) => Some((slow - fast) as u32),
            _ => None,
        }
    }

    /// The sparkline of the window.
    pub open spec fn line(self) -> Seq<char> {
        sparks(self.history, scale(self.history))
    }
}

/// An endpoint that was never probed.
pub open spec fn unprobed() -> Window {
    Window { last: None, history: Seq::empty() }
}

impl Default for Endpoint {
    fn default() -> (endpoint: Self)
        ensures
            endpoint@ == unprobed(),
    {
        Endpoint { last: None, history: VecDeque::new() }
    }
}

impl Clone for Endpoint {
    fn clone(&self) -> (copy: Self)
        ensures
            copy@ == self@,
    {
        let mut history: VecDeque<Option<u32>> = VecDeque::new();
        let mut i: usize = 0;
        while i < self.history.len()
            invariant
                i <= self.history@.len(),
                history@ == self.history@.take(i as int),
            decreases self.history@.len() - i,
        {
            history.push_back(self.history[i]);
            i = i + 1;
        }
        assert(history@ =~= self.history@);
        Endpoint { last: self.last, history }
    }
}

impl Endpoint {
    /// An endpoint whose only probe answered in `rtt_ms`.
    pub fn with_rtt(rtt_ms: Option<u32>) -> (endpoint: Endpoint)
        ensures
            endpoint@ == unprobed().with(
                match rtt_ms {
                    Some(rtt_ms) => Some(Sample { rtt_ms, status: 0 }),
                    None => None,
                },
            ),
            endpoint@.wf(),
    {
        let mut endpoint = Endpoint::default();
        let sample = match rtt_ms {
            Some(rtt_ms) => Some(Sample { rtt_ms, status: 0 }),
            None => None,
        };
        endpoint.record(sample);
        endpoint
    }

    /// Stores one probe outcome and keeps the window bounded.
    pub fn record(&mut self, sample: Option<Sample>)
        ensures
            final(self)@ == old(self)@.with(sample),
            final(self)@.wf(),
    {
        if let Some(s) = sample {
            self.last = Some(s);
        }
        let outcome: Option<u32> = match sample {
            Some(s) => Some(s.rtt_ms),
            None => None,
        };
        self.history.push_back(outcome);
        let ghost grown = self.history@;
        while self.history.len() > HISTORY
            invariant
                self.history@.len() <= grown.len(),
                self.history@ == grown.skip(grown.len() - self.history@.len()),
                grown.len() > HISTORY ==> self.history@.len() >= HISTORY,
                grown.len() <= HISTORY ==> self.history@ == grown,
                self.last == old(self)@.with(sample).last,
            decreases self.history@.len(),
        {
            let ghost before = self.history@;
            let _ = self.history.pop_front();
            assert(self.history@ =~= before.skip(1));
            assert(self.history@ =~= grown.skip(grown.len() - self.history@.len()));
        }
    }

    /// RTT of the most recent successful probe.
    pub fn rtt_ms(&self) -> (rtt: Option<u32>)
        ensures
            rtt == self@.rtt(),
    {
        match self.last {
            Some(s) => Some(s.rtt_ms),
            None => None,
        }
    }

    /// Failed probes in the window.
    pub fn loss(&self) -> (count: u32)
        requires
            self@.wf(),
        ensures
            count == losses(self@.history),
            count <= self@.history.len(),
    {
        let mut count: u32 = 0;
        let mut i: usize = 0;
        assert(self.history@.take(0) =~= Seq::<Option<u32>>::empty());
        while i < self.history.len()
            invariant
                i <= self.history@.len() <= HISTORY,
                count <= i,
                count == losses(self.history@.take(i as int)),
            decreases self.history@.len() - i,
        {
            assert(self.history@.take(i + 1).drop_last() =~= self.history@.take(i as int));
            if self.history[i].is_none() {
                count = count + 1;
            }
            i = i + 1;
        }
        assert(self.history@.take(self.history@.len() as int) =~= self.history@);
        count
    }

    /// Total probes in the window.
    pub fn total(&self) -> (count: u32)
        requires
            self@.wf(),
        ensures
            count == self@.history.len(),
    {
        self.history.len() as u32
    }

    /// The slowest and the fastest answer of the window.
    fn extremes(&self) -> (found: Option<(u32, u32)>)
        ensures
            match found {
                None => slowest(self@.history) is None && fastest(self@.history) is None,
                Some((slow, fast)) => slowest(self@.history) == Some(slow) && fastest(
                    self@.history,
                ) == Some(fast) && fast <= slow,
            },
    {
        let mut found: Option<(u32, u32)> = None;
        let mut i: usize = 0;
        assert(self.history@.take(0) =~= Seq::<Option<u32>>::empty());
        while i < self.history.len()
            invariant
                i <= self.history@.len(),
                match found {
                    None => slowest(self.history@.take(i as int)) is None && fastest(
                        self.history@.take(i as int),
                    ) is None,
                    Some((slow, fast)) => slowest(self.history@.take(i as int)) == Some(slow)
                        && fastest(self.history@.take(i as int)) == Some(fast) && fast <= slow,
                },
            decreases self.history@.len() - i,
        {
            let ghost more = self.history@.take(i + 1);
            let outcome: Option<u32> = self.history[i];
            proof {
                assert(more.drop_last() =~= self.history@.take(i as int));
                assert(more.last() == outcome);
            }
            if let Some(v) = outcome {
                found = match found {
                    None => Some((v, v)),
                    Some((slow, fast)) => Some(
                        (
                            if v > slow {
                                v
                            } else {
                                slow
                            },
                            if v < fast {
                                v
                            } else {
                                fast
                            },
                        ),
                    ),
                };
            }
            i = i + 1;
        }
        assert(self.history@.take(self.history@.len() as int) =~= self.history@);
        found
    }

    /// Peak-to-peak jitter (greatest minus smallest) of the answered probes.
    pub fn jitter_ms(&self) -> (jitter: Option<u32>)
        ensures
            jitter == self@.jitter(),
    {
        match self.extremes() {
            None => None,
            Some((slow, fast)) => Some(slow - fast),
        }
    }

    /// One-character-per-probe sparkline: round-trip times mapped to seven
    /// brightness levels, lost probes as spaces. The scale follows the slowest
    /// answer of the window, but never ends below 50 ms.
    pub fn sparkline(&self) -> (line: String)
        ensures
            line@ == self@.line(),
    {
        let end: u32 = match self.extremes() {
            Some((slow, _)) => if slow > 50 {
                slow
            } else {
                50
            },
            None => 50,
        };
        assert(end == scale(self@.history));
        let mut line = String::new();
        let mut i: usize = 0;
        while i < self.history.len()
            invariant
                i <= self.history@.len(),
                end >= 50,
                line@ == sparks(self.history@.take(i as int), end),
            decreases self.history@.len() - i,
        {
            let c: char = match self.history[i] {
                None => ' ',
                Some(rtt) => {
                    let level: u64 = (rtt as u64) * 6 / (end as u64);
                    if level == 0 {
                        '\u{2581}'
                    } else if level == 1 {
                        '\u{2582}'
                    } else if level == 2 {
                        '\u{2583}'
                    } else if level == 3 {
                        '\u{2584}'
                    } else if level == 4 {
                        '\u{2585}'
                    } else if level == 5 {
                        '\u{2586}'
                    } else {
                        '\u{2588}'
                    }
                },
            };
            line.push(c);
            proof {
                assert(c == spark(self.history@[i as int], end));
                assert(line@ =~= sparks(self.history@.take(i + 1), end));
            }
            i = i + 1;
        }
        assert(self.history@.take(self.history@.len() as int) =~= self.history@);
        line
    }
}

/// Latency snapshot for the endpoints the program cares about.
#[derive(Debug)]
pub struct Latency {
    /// Cloudflare 1.1.1.1.
    pub cloudflare: Endpoint,
    /// Google 8.8.8.8.
    pub google: Endpoint,
    /// Latest real DNS resolution time through 1.1.1.1, milliseconds.
    pub cf_dns_ms: Option<u32>,
    /// Latest real DNS resolution time through 8.8.8.8, milliseconds.
    pub google_dns_ms: Option<u32>,
}

/// A [`Latency`] over windows.
pub struct Measured {
    pub cloudflare: Window,
    pub google: Window,
    pub cf_dns_ms: Option<u32>,
    pub google_dns_ms: Option<u32>,
}

impl View for Latency {
    type V = Measured;

    open spec fn view(&self) -> Measured {
        Measured {
            cloudflare: self.cloudflare@,
            google: self.google@,
            cf_dns_ms: self.cf_dns_ms,
            google_dns_ms: self.google_dns_ms,
        }
    }
}

impl Measured {
    /// Both windows are bounded.
    pub open spec fn wf(self) -> bool {
        self.cloudflare.wf() && self.google.wf()
    }
}

impl Default for Latency {
    fn default() -> (latency: Self)
        ensures
            latency@ == (Measured {
                cloudflare: unprobed(),
                google: unprobed(),
                cf_dns_ms: None,
                google_dns_ms: None,
            }),
    {
        Latency {
            cloudflare: Endpoint::default(),
            google: Endpoint::default(),
            cf_dns_ms: None,
            google_dns_ms: None,
        }
    }
}

impl Clone for Latency {
    fn clone(&self) -> (copy: Self)
        ensures
            copy@ == self@,
    {
        Latency {
            cloudflare: self.cloudflare.clone(),
            google: self.google.clone(),
            cf_dns_ms: self.cf_dns_ms,
            google_dns_ms: self.google_dns_ms,
        }
    }
}

impl Latency {
    /// Takes in one round of measurements: the ICMP outcomes join the windows,
    /// the DNS resolution times replace the previous ones.
    pub fn observe(
        &mut self,
        cloudflare: Option<Sample>,
        google: Option<Sample>,
        cf_dns_ms: Option<u32>,
        google_dns_ms: Option<u32>,
    )
        ensures
            final(self)@ == (Measured {
                cloudflare: old(self)@.cloudflare.with(cloudflare),
                google: old(self)@.google.with(google),
                cf_dns_ms,
                google_dns_ms,
            }),
            final(self)@.wf(),
    {
        self.cloudflare.record(cloudflare);
        self.google.record(google);
        self.cf_dns_ms = cf_dns_ms;
        self.google_dns_ms = google_dns_ms;
    }
}

/// The status code of an echo that was answered.
pub const IP_SUCCESS: u32 = 0;

/// How long an echo may take, in milliseconds.
pub const PROBE_TIMEOUT_MS: u32 = 1000;

/// How long a DNS reply may take, in milliseconds.
pub const DNS_TIMEOUT_MS: u64 = 1200;

/// The pause between two rounds of measurements, in milliseconds.
pub const PROBE_INTERVAL_MS: u64 = 3000;

/// What an echo carries.
pub const PROBE_PAYLOAD: &'static str = "stabilizatores";

/// The Cloudflare endpoint.
pub fn cloudflare() -> (address: [u8; 4])
    ensures
        address@ == seq![1u8, 1u8, 1u8, 1u8],
{
    [1, 1, 1, 1]
}

/// The Google endpoint.
pub fn google() -> (address: [u8; 4])
    ensures
        address@ == seq![8u8, 8u8, 8u8, 8u8],
{
    [8, 8, 8, 8]
}

/// An IPv4 address as one number, first byte first.
pub open spec fn address_number(b: Seq<u8>) -> int {
    b[0] * 0x100_0000 + b[1] * 0x1_0000 + b[2] * 0x100 + b[3]
}

/// An IPv4 address as one number, first byte first.
pub fn destination(address: [u8; 4]) -> (number: u32)
    ensures
        number == address_number(address@),
        number == address@[0] * 0x100_0000 + address@[1] * 0x1_0000 + address@[2] * 0x100
            + address@[3],
{
    (address[0] as u32) * 0x100_0000 + (address[1] as u32) * 0x1_0000 + (address[2] as u32) * 0x100
        + (address[3] as u32)
}

/// The outcome of one echo.
pub open spec fn echoed(replies: u32, rtt_ms: u32, status: u32) -> Option<Sample> {
    if replies != 0 && status == IP_SUCCESS {
        Some(Sample { rtt_ms, status })
    } else {
        None
    }
}

/// The outcome of one echo: how many replies came, and the round-trip time and
/// status of the first.
pub fn ping(replies: u32, rtt_ms: u32, status: u32) -> (sample: Option<Sample>)
    ensures
        sample == echoed(replies, rtt_ms, status),
        sample == if replies != 0 && status == IP_SUCCESS {
            Some(Sample { rtt_ms, status })
        } else {
            None
        },
{
    if replies == 0 {
        return None;
    }
    if status == IP_SUCCESS {
        Some(Sample { rtt_ms, status })
    } else {
        None
    }
}

/// The bytes of an ASCII text.
pub open spec fn ascii(s: Seq<char>) -> Seq<u8> {
    Seq::new(s.len(), |i: int| s[i] as u8)
}

/// One label of a domain name: its length, then its characters.
pub open spec fn label(s: Seq<char>) -> Seq<u8> {
    seq![s.len() as u8] + ascii(s)
}

/// The header of the query: the transaction id 0xBEEF, recursion desired, one
/// question.
pub open spec fn query_header() -> Seq<u8> {
    seq![0xBEu8, 0xEFu8, 1u8, 0u8, 0u8, 1u8, 0u8, 0u8, 0u8, 0u8, 0u8, 0u8]
}

/// The end of the question: the root label, then type A and class IN.
pub open spec fn query_tail() -> Seq<u8> {
    seq![0u8, 0u8, 1u8, 0u8, 1u8]
}

/// The probe's question about `stabilizatores.probe`.
pub open spec fn query_bytes() -> Seq<u8> {
    query_header() + label("stabilizatores"@) + label("probe"@) + query_tail()
}

fn push_u16(packet: &mut Vec<u8>, high: u8, low: u8)
    ensures
        final(packet)@ == old(packet)@.push(high).push(low),
{
    packet.push(high);
    packet.push(low);
}

fn push_label(packet: &mut Vec<u8>, name: &str)
    requires
        name@.len() < 64,
    ensures
        final(packet)@ == old(packet)@ + label(name@),
{
    let v = text::chars(name);
    let ghost before = packet@;
    packet.push(v.len() as u8);
    let mut i: usize = 0;
    assert(packet@ =~= before + (seq![v@.len() as u8] + ascii(v@.take(0))));
    while i < v.len()
        invariant
            i <= v@.len(),
            packet@ == before + (seq![v@.len() as u8] + ascii(v@.take(i as int))),
        decreases v@.len() - i,
    {
        packet.push(v[i] as u8);
        assert(ascii(v@.take(i + 1)) =~= ascii(v@.take(i as int)).push(v@[i as int] as u8));
        assert(packet@ =~= before + (seq![v@.len() as u8] + ascii(v@.take(i + 1))));
        i = i + 1;
    }
    assert(v@.take(v@.len() as int) =~= v@);
}

/// The DNS query that measures a resolver.
pub fn dns_query() -> (packet: Vec<u8>)
    ensures
        packet@ == query_bytes(),
{
    let mut packet: Vec<u8> = Vec::new();
    push_u16(&mut packet, 0xBE, 0xEF);
    push_u16(&mut packet, 1, 0);
    push_u16(&mut packet, 0, 1);
    push_u16(&mut packet, 0, 0);
    push_u16(&mut packet, 0, 0);
    push_u16(&mut packet, 0, 0);
    proof {
        assert(packet@ =~= query_header());
        reveal_strlit("stabilizatores");
        reveal_strlit("probe");
    }
    push_label(&mut packet, "stabilizatores");
    push_label(&mut packet, "probe");
    let ghost named = packet@;
    packet.push(0);
    push_u16(&mut packet, 0, 1);
    push_u16(&mut packet, 0, 1);
    assert(packet@ =~= named + query_tail());
    packet
}

/// True when a received packet answers the query: a whole header with its
/// transaction id. Any reply counts, even one without an answer.
pub open spec fn answers_query(received: Seq<u8>) -> bool {
    received.len() >= 12 && received[0] == 0xBE && received[1] == 0xEF
}

/// True when a received packet answers the query.
pub fn is_reply(received: &[u8]) -> (b: bool)
    ensures
        b == answers_query(received@),
{
    received.len() >= 12 && received[0] == 0xBE && received[1] == 0xEF
}

/// The window never grows beyond its bound and always ends in the newest
/// outcome.
pub proof fn window_is_bounded(window: Window, sample: Option<Sample>)
    ensures
        window.with(sample).wf(),
        window.with(sample).history.len() > 0,
        window.with(sample).history.last() == (match sample {
            Some(s) => Some(s.rtt_ms),
            None => None::<u32>,
        }),
{
}

/// A window that is full forgets its oldest outcome and no other.
pub proof fn full_window_slides(window: Window, sample: Option<Sample>, i: int)
    requires
        window.history.len() == HISTORY,
        0 <= i < HISTORY - 1,
    ensures
        window.with(sample).history[i] == window.history[i + 1],
{
}

/// The losses are at most all probes, and are all of them exactly when no
/// probe was answered.
pub proof fn losses_are_bounded(history: Seq<Option<u32>>)
    ensures
        losses(history) <= history.len(),
        losses(history) == history.len() <==> all_lost(history),
    decreases history.len(),
{
    if history.len() > 0 {
        let front = history.drop_last();
        losses_are_bounded(front);
        if all_lost(history) {
            assert forall|i: int| 0 <= i < front.len() implies (#[trigger] front[i]) is None by {
                assert(history[i] == front[i]);
            }
            assert(history[history.len() - 1] is None);
        }
        if losses(history) == history.len() {
            assert forall|i: int| 0 <= i < history.len() implies (#[trigger] history[i]) is None by {
                if i < front.len() {
                    assert(front[i] is None);
                }
            }
        }
    }
}

/// The slowest answer is an answer of the window, and no answer is slower; the
/// fastest likewise. Where every probe was lost there is neither.
pub proof fn extremes_bound_the_answers(history: Seq<Option<u32>>)
    ensures
        slowest(history) is None <==> all_lost(history),
        fastest(history) is None <==> all_lost(history),
        slowest(history) matches Some(m) ==> history.contains(Some(m)),
        fastest(history) matches Some(m) ==> history.contains(Some(m)),
        forall|i: int|
            0 <= i < history.len() ==> ((#[trigger] history[i]) matches Some(v) ==> fastest(
                history,
            )->0 <= v <= slowest(history)->0),
    decreases history.len(),
{
    if history.len() > 0 {
        let front = history.drop_last();
        extremes_bound_the_answers(front);
        assert(history[history.len() - 1] == history.last());
        assert forall|i: int| 0 <= i < history.len() implies ((#[trigger] history[i]) matches Some(
            v,
        ) ==> fastest(history)->0 <= v <= slowest(history)->0) by {
            if i < front.len() {
                assert(front[i] == history[i]);
            }
        }
        if let Some(m) = slowest(history) {
            if slowest(front) == Some(m) {
                let k = choose|k: int| 0 <= k < front.len() && front[k] == Some(m);
                assert(history[k] == Some(m));
            } else {
                assert(history[history.len() - 1] == Some(m));
            }
        }
        if let Some(m) = fastest(history) {
            if fastest(front) == Some(m) {
                let k = choose|k: int| 0 <= k < front.len() && front[k] == Some(m);
                assert(history[k] == Some(m));
            } else {
                assert(history[history.len() - 1] == Some(m));
            }
        }
        if all_lost(history) {
            assert forall|i: int| 0 <= i < front.len() implies (#[trigger] front[i]) is None by {
                assert(history[i] == front[i]);
            }
        }
        if slowest(history) is None {
            assert forall|i: int| 0 <= i < history.len() implies (#[trigger] history[i]) is None by {
                if i < front.len() {
                    assert(front[i] is None);
                }
            }
        }
        if fastest(history) is None {
            assert forall|i: int| 0 <= i < history.len() implies (#[trigger] history[i]) is None by {
                if i < front.len() {
                    assert(front[i] is None);
                }
            }
        }
    }
}

/// A sparkline has one character per probe, blank exactly for a lost one, and
/// an answer at the end of the scale gets the brightest level.
pub proof fn sparkline_shows_every_probe(window: Window, i: int)
    requires
        0 <= i < window.history.len(),
    ensures
        window.line().len() == window.history.len(),
        window.line()[i] == ' ' <==> window.history[i] is None,
        window.history[i] == Some(scale(window.history)) ==> window.line()[i] == '\u{2588}',
{
    let end = scale(window.history);
    if window.history[i] == Some(end) {
        assert((end as int * 6) / (end as int) == 6) by (nonlinear_arith)
            requires
                end >= 50,
        ;
    }
}

} // verus!
