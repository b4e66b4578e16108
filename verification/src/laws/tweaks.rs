//! What the tweaks of the registry leave behind.
//!
//! A run and the machine it works on are followed from the first action to the
//! last: `regs[k]` is the registry and `runs[k]` the run before answer `k`.

use vstd::prelude::*;

use crate::config::Saved;
use crate::interfaces::{physical_of, Adapter};
use crate::mtu;
use crate::ops::{truthful, value_of, Act, Registry, Rep};
use crate::power;
use crate::power::{nics_of, powering, NicNode, Node, Powering};
use crate::registry::Seen;
use crate::system;
use crate::system::Unthrottling;
use crate::tcp;
use crate::tcp::{tuning, Tuning};

verus! {

/// The machine answered an action: truthfully, and a key exists for it exactly
/// when it is readable.
pub open spec fn answered(
    readable: Set<Seq<char>>,
    before: Registry,
    action: Option<Act>,
    reply: Rep,
    after: Registry,
) -> bool {
    &&& action is Some
    &&& truthful(before, action->0, reply, after)
    &&& action->0 matches Act::KeyExists { subkey } ==> reply == Rep::Exists(
        readable.contains(subkey),
    )
}

/// The key with the machine-wide TCP parameters.
pub open spec fn machine_key() -> Seq<char> {
    "SYSTEM\\CurrentControlSet\\Services\\Tcpip\\Parameters"@
}

/// The key with the TCP parameters of the adapter with this GUID.
pub open spec fn adapter_key(guid: Seq<char>) -> Seq<char> {
    "SYSTEM\\CurrentControlSet\\Services\\Tcpip\\Parameters\\Interfaces"@ + "\\"@ + guid
}

/// A real adapter: neither loopback nor tunnel.
pub open spec fn hardware(a: Adapter) -> bool {
    a.if_type != 24 && a.if_type != 131
}

/// Every real adapter is among the physical ones, and no other.
pub proof fn hardware_is_physical(all: Seq<Adapter>)
    ensures
        forall|i: int|
            0 <= i < all.len() && hardware(#[trigger] all[i]) ==> physical_of(all).contains(all[i]),
        forall|j: int|
            0 <= j < physical_of(all).len() ==> hardware(#[trigger] physical_of(all)[j])
                && all.contains(physical_of(all)[j]),
        physical_of(all).len() <= all.len(),
    decreases all.len(),
{
    reveal(Seq::filter);
    if all.len() > 0 {
        let front = all.drop_last();
        hardware_is_physical(front);
        let before = physical_of(front);
        let after = physical_of(all);
        assert forall|i: int| 0 <= i < all.len() && hardware(#[trigger] all[i]) implies after.contains(
            all[i],
        ) by {
            if i < front.len() {
                assert(front[i] == all[i]);
                assert(before.contains(all[i]));
                let j = choose|j: int| 0 <= j < before.len() && before[j] == all[i];
                assert(after[j] == all[i]);
            } else {
                assert(after[after.len() - 1] == all[i]);
            }
        }
        assert forall|j: int| 0 <= j < after.len() implies hardware(#[trigger] after[j])
            && all.contains(after[j]) by {
            if j < before.len() {
                assert(after[j] == before[j]);
                assert(front.contains(before[j]));
                let i = choose|i: int| 0 <= i < front.len() && front[i] == before[j];
                assert(all[i] == after[j]);
            } else {
                assert(all[all.len() - 1] == after[j]);
            }
        }
    }
}

// ---------------------------------------------------------------------------
// TCP
// ---------------------------------------------------------------------------

/// A run that tunes the machine with these adapters, as far as it has come.
pub open spec fn tuned_by(
    archive: Saved,
    all: Seq<Adapter>,
    readable: Set<Seq<char>>,
    regs: Seq<Registry>,
    runs: Seq<Tuning>,
    replies: Seq<Rep>,
) -> bool {
    &&& all.len() <= usize::MAX
    &&& runs.len() == replies.len() + 1
    &&& regs.len() == runs.len()
    &&& runs[0] == tuning(archive, physical_of(all))
    &&& forall|k: int|
        0 <= k < replies.len() ==> {
            &&& answered(readable, regs[k], runs[k].pending(), #[trigger] replies[k], regs[k + 1])
            &&& runs[k + 1] == runs[k].advance(replies[k])
        }
}

proof fn tuning_history(
    archive: Saved,
    all: Seq<Adapter>,
    readable: Set<Seq<char>>,
    regs: Seq<Registry>,
    runs: Seq<Tuning>,
    replies: Seq<Rep>,
    n: int,
)
    requires
        tuned_by(archive, all, readable, regs, runs, replies),
        0 <= n < runs.len(),
    ensures
        runs[n].wf(),
        runs[n].subkeys == tcp::subkeys_of(physical_of(all)),
        tcp::progress(regs[n], readable, runs[n]),
    decreases n,
{
    if n == 0 {
        hardware_is_physical(all);
    } else {
        tuning_history(archive, all, readable, regs, runs, replies, n - 1);
        let reply = replies[n - 1];
        assert(runs[(n - 1) + 1] == runs[n - 1].advance(reply));
        assert(answered(readable, regs[n - 1], runs[n - 1].pending(), reply, regs[(n - 1) + 1]));
        tcp::tuning_makes_progress(regs[n - 1], readable, runs[n - 1], reply, regs[n]);
    }
}

/// After a run that reports success, the machine waits 30 seconds in TIME-WAIT
/// and has its ephemeral ports up to 65534, and every real adapter whose key is
/// readable has Nagle's algorithm off, acknowledges every segment, and delays no
/// acknowledgement.
pub proof fn tuned_machine_holds_the_values(
    archive: Saved,
    all: Seq<Adapter>,
    readable: Set<Seq<char>>,
    regs: Seq<Registry>,
    runs: Seq<Tuning>,
    replies: Seq<Rep>,
)
    requires
        tuned_by(archive, all, readable, regs, runs, replies),
        runs.last().result matches Some(Ok(_)),
    ensures
        value_of(regs.last(), machine_key(), "TcpTimedWaitDelay"@) == Some(30u32),
        value_of(regs.last(), machine_key(), "MaxUserPort"@) == Some(65534u32),
        forall|i: int|
            0 <= i < all.len() && hardware(#[trigger] all[i]) && readable.contains(
                adapter_key(all[i].guid),
            ) ==> {
                let key = adapter_key(all[i].guid);
                &&& value_of(regs.last(), key, "TCPNoDelay"@) == Some(1u32)
                &&& value_of(regs.last(), key, "TcpAckFrequency"@) == Some(1u32)
                &&& value_of(regs.last(), key, "TcpDelAckTicks"@) == Some(0u32)
            },
{
    let n = runs.len() - 1;
    let reg = regs[n];
    tuning_history(archive, all, readable, regs, runs, replies, n);
    tcp::successful_apply_tunes(reg, readable, runs[n]);
    assert(value_of(reg, tcp::GLOBAL_SUBKEY@, tcp::global_values()[0].0) == Some(30u32));
    assert(value_of(reg, tcp::GLOBAL_SUBKEY@, tcp::global_values()[1].0) == Some(65534u32));
    hardware_is_physical(all);
    assert forall|i: int|
        0 <= i < all.len() && hardware(#[trigger] all[i]) && readable.contains(
            adapter_key(all[i].guid),
        ) implies {
        let key = adapter_key(all[i].guid);
        &&& value_of(regs.last(), key, "TCPNoDelay"@) == Some(1u32)
        &&& value_of(regs.last(), key, "TcpAckFrequency"@) == Some(1u32)
        &&& value_of(regs.last(), key, "TcpDelAckTicks"@) == Some(0u32)
    } by {
        let key = adapter_key(all[i].guid);
        assert(physical_of(all).contains(all[i]));
        let j = choose|j: int| 0 <= j < physical_of(all).len() && physical_of(all)[j] == all[i];
        assert(runs[n].subkeys[j] == key);
        assert(tcp::iface_tuned(reg, key));
        assert(value_of(reg, key, tcp::iface_values()[0].0) == Some(1u32));
        assert(value_of(reg, key, tcp::iface_values()[1].0) == Some(1u32));
        assert(value_of(reg, key, tcp::iface_values()[2].0) == Some(0u32));
    }
}

/// Whatever comes back, a run writes nothing but these five values, under the
/// machine-wide key and the keys of real adapters.
pub proof fn tuning_writes_nothing_else(
    archive: Saved,
    all: Seq<Adapter>,
    readable: Set<Seq<char>>,
    regs: Seq<Registry>,
    runs: Seq<Tuning>,
    replies: Seq<Rep>,
    k: int,
    subkey: Seq<char>,
    name: Seq<char>,
    value: u32,
)
    requires
        tuned_by(archive, all, readable, regs, runs, replies),
        0 <= k < runs.len(),
        runs[k].pending() == Some(Act::WriteDword { subkey, name, value }),
    ensures
        (subkey == machine_key() && ((name == "TcpTimedWaitDelay"@ && value == 30) || (name
            == "MaxUserPort"@ && value == 65534))) || (exists|i: int|
            0 <= i < all.len() && hardware(#[trigger] all[i]) && subkey == adapter_key(
                all[i].guid,
            ) && ((name == "TCPNoDelay"@ && value == 1) || (name == "TcpAckFrequency"@ && value
                == 1) || (name == "TcpDelAckTicks"@ && value == 0))),
{
    tuning_history(archive, all, readable, regs, runs, replies, k);
    hardware_is_physical(all);
    let run = runs[k];
    match run.step {
        tcp::Step::GlobalWrite(i) => {
            assert(i == 0 || i == 1);
        },
        tcp::Step::Write(j, i) => {
            let a = physical_of(all)[j as int];
            assert(i == 0 || i == 1 || i == 2);
            assert(hardware(a) && all.contains(a));
            let p = choose|p: int| 0 <= p < all.len() && all[p] == a;
            assert(hardware(all[p]) && subkey == adapter_key(all[p].guid));
        },
        _ => {},
    }
}

/// A status counts an adapter exactly when its key was found, and as tuned
/// exactly when, in addition, its three values were read and are right; the
/// machine-wide values count together.
pub proof fn tcp_status_counts_each_adapter(seen: Seen, ifaces: Seq<Adapter>, a: Adapter)
    requires
        ifaces.len() < usize::MAX,
    ensures
        ({
            let before = tcp::status_of(seen, ifaces);
            let after = tcp::status_of(seen, ifaces.push(a));
            let key = adapter_key(a.guid);
            let found = seen.keys.contains(key);
            let tuned = found && seen.value(key, "TCPNoDelay"@) == Ok::<Option<u32>, Seq<char>>(
                Some(1u32),
            ) && seen.value(key, "TcpAckFrequency"@) == Ok::<Option<u32>, Seq<char>>(Some(1u32))
                && seen.value(key, "TcpDelAckTicks"@) == Ok::<Option<u32>, Seq<char>>(Some(0u32));
            &&& after.ifaces_total == before.ifaces_total + if found {
                1int
            } else {
                0int
            }
            &&& after.ifaces_ok == before.ifaces_ok + if tuned {
                1int
            } else {
                0int
            }
            &&& after.global_ok <==> seen.value(machine_key(), "TcpTimedWaitDelay"@) == Ok::<
                Option<u32>,
                Seq<char>,
            >(Some(30u32)) && seen.value(machine_key(), "MaxUserPort"@) == Ok::<
                Option<u32>,
                Seq<char>,
            >(Some(65534u32))
        }),
        tcp::status_of(seen, Seq::empty()).ifaces_ok == 0,
        tcp::status_of(seen, Seq::empty()).ifaces_total == 0,
{
    reveal(Seq::filter);
    let key = adapter_key(a.guid);
    let keys = tcp::subkeys_of(ifaces);
    let more = tcp::subkeys_of(ifaces.push(a));
    assert(more =~= keys.push(key));
    assert(more.drop_last() =~= keys);
    keys_are_bounded(seen, keys);
    let g = tcp::global_values();
    let v = tcp::iface_values();
    assert(tcp::globals_match(seen) <==> seen.holds(tcp::GLOBAL_SUBKEY@, g[0].0, g[0].1)
        && seen.holds(tcp::GLOBAL_SUBKEY@, g[1].0, g[1].1));
    assert(tcp::iface_matches(seen, key) <==> seen.holds(key, v[0].0, v[0].1) && seen.holds(
        key,
        v[1].0,
        v[1].1,
    ) && seen.holds(key, v[2].0, v[2].1));
    assert(tcp::subkeys_of(Seq::empty()) =~= Seq::<Seq<char>>::empty());
}

proof fn keys_are_bounded(seen: Seen, keys: Seq<Seq<char>>)
    ensures
        tcp::matching(seen, keys) <= keys.len(),
        tcp::applicable(seen, keys) <= keys.len(),
    decreases keys.len(),
{
    reveal(Seq::filter);
    if keys.len() > 0 {
        keys_are_bounded(seen, keys.drop_last());
    }
}

/// The tuning is reported as aligned exactly when the machine-wide values are
/// right and no adapter that was found lacks one of its three values.
pub proof fn tcp_alignment_is_exact(seen: Seen, ifaces: Seq<Adapter>)
    requires
        ifaces.len() <= usize::MAX,
    ensures
        tcp::status_of(seen, ifaces).is_aligned() <==> {
            &&& seen.value(machine_key(), "TcpTimedWaitDelay"@) == Ok::<Option<u32>, Seq<char>>(
                Some(30u32),
            )
            &&& seen.value(machine_key(), "MaxUserPort"@) == Ok::<Option<u32>, Seq<char>>(
                Some(65534u32),
            )
            &&& forall|i: int|
                0 <= i < ifaces.len() && seen.keys.contains(
                    adapter_key((#[trigger] ifaces[i]).guid),
                ) ==> {
                    let key = adapter_key(ifaces[i].guid);
                    &&& seen.value(key, "TCPNoDelay"@) == Ok::<Option<u32>, Seq<char>>(Some(1u32))
                    &&& seen.value(key, "TcpAckFrequency"@) == Ok::<Option<u32>, Seq<char>>(
                        Some(1u32),
                    )
                    &&& seen.value(key, "TcpDelAckTicks"@) == Ok::<Option<u32>, Seq<char>>(
                        Some(0u32),
                    )
                }
        },
        tcp::status_of(seen, ifaces).ifaces_ok <= tcp::status_of(seen, ifaces).ifaces_total,
    decreases ifaces.len(),
{
    if ifaces.len() == 0 {
        assert(ifaces =~= Seq::<Adapter>::empty());
        let a = arbitrary::<Adapter>();
        tcp_status_counts_each_adapter(seen, ifaces, a);
    } else {
        let front = ifaces.drop_last();
        tcp_alignment_is_exact(seen, front);
        tcp_status_counts_each_adapter(seen, front, ifaces.last());
        assert(front.push(ifaces.last()) =~= ifaces);
        assert(ifaces[ifaces.len() - 1] == ifaces.last());
        assert forall|i: int| 0 <= i < front.len() implies front[i] == #[trigger] ifaces[i] by {}
        if front.len() > 0 {
            tcp_status_counts_each_adapter(seen, front.drop_last(), front.last());
            assert(front.drop_last().push(front.last()) =~= front);
        }
    }
}

// ---------------------------------------------------------------------------
// Throttling
// ---------------------------------------------------------------------------

/// The key of the throttling index.
pub open spec fn throttling_key() -> Seq<char> {
    "SOFTWARE\\Microsoft\\Windows NT\\CurrentVersion\\Multimedia\\SystemProfile"@
}

/// A run that removes the throttling, as far as it has come.
pub open spec fn unthrottled_by(
    archive: Saved,
    readable: Set<Seq<char>>,
    regs: Seq<Registry>,
    runs: Seq<Unthrottling>,
    replies: Seq<Rep>,
) -> bool {
    &&& runs.len() == replies.len() + 1
    &&& regs.len() == runs.len()
    &&& runs[0] == (Unthrottling { archive, step: system::Step::Read, result: None })
    &&& forall|k: int|
        0 <= k < replies.len() ==> {
            &&& answered(readable, regs[k], runs[k].pending(), #[trigger] replies[k], regs[k + 1])
            &&& runs[k + 1] == runs[k].advance(replies[k])
        }
}

proof fn unthrottling_history(
    archive: Saved,
    readable: Set<Seq<char>>,
    regs: Seq<Registry>,
    runs: Seq<Unthrottling>,
    replies: Seq<Rep>,
    n: int,
)
    requires
        unthrottled_by(archive, readable, regs, runs, replies),
        0 <= n < runs.len(),
    ensures
        runs[n].result matches Some(Ok(_)) ==> value_of(
            regs[n],
            throttling_key(),
            "NetworkThrottlingIndex"@,
        ) == Some(0xFFFF_FFFFu32),
        runs[n].result is Some <==> runs[n].step is Finished,
    decreases n,
{
    if n > 0 {
        unthrottling_history(archive, readable, regs, runs, replies, n - 1);
        let reply = replies[n - 1];
        assert(runs[(n - 1) + 1] == runs[n - 1].advance(reply));
        assert(answered(readable, regs[n - 1], runs[n - 1].pending(), reply, regs[(n - 1) + 1]));
    }
}

/// After a run that reports success the throttling index has all its 32 bits
/// set, and no run writes anything else.
pub proof fn unthrottled_machine_holds_the_maximum(
    archive: Saved,
    readable: Set<Seq<char>>,
    regs: Seq<Registry>,
    runs: Seq<Unthrottling>,
    replies: Seq<Rep>,
    k: int,
)
    requires
        unthrottled_by(archive, readable, regs, runs, replies),
        0 <= k < runs.len(),
    ensures
        runs.last().result matches Some(Ok(_)) ==> value_of(
            regs.last(),
            throttling_key(),
            "NetworkThrottlingIndex"@,
        ) == Some(0xFFFF_FFFFu32),
        runs[k].pending() matches Some(Act::WriteDword { subkey, name, value }) ==> subkey
            == throttling_key() && name == "NetworkThrottlingIndex"@ && value == 0xFFFF_FFFF,
        runs[k].pending() matches Some(Act::ReadDword { subkey, name }) ==> subkey
            == throttling_key() && name == "NetworkThrottlingIndex"@,
{
    unthrottling_history(archive, readable, regs, runs, replies, runs.len() - 1);
}

/// The throttling counts as removed exactly when the index was read and has all
/// its 32 bits set.
pub proof fn throttling_status_is_exact(seen: Seen)
    ensures
        seen.holds(system::SUBKEY@, system::NAME@, system::UNTHROTTLED) <==> seen.value(
            throttling_key(),
            "NetworkThrottlingIndex"@,
        ) == Ok::<Option<u32>, Seq<char>>(Some(0xFFFF_FFFFu32)),
{
}

// ---------------------------------------------------------------------------
// Power
// ---------------------------------------------------------------------------

/// The key of the driver node with this name.
pub open spec fn driver_key(name: Seq<char>) -> Seq<char> {
    "SYSTEM\\CurrentControlSet\\Control\\Class\\{4d36e972-e325-11ce-bfc1-08002be10318}"@
        + "\\"@ + name
}

/// The bit with this weight is set.
pub open spec fn has_bit(value: u32, weight: u32) -> bool {
    (value / weight) % 2 == 1
}

/// A run that keeps these NICs on, as far as it has come.
pub open spec fn powered_by(
    archive: Saved,
    nics: Seq<NicNode>,
    readable: Set<Seq<char>>,
    regs: Seq<Registry>,
    runs: Seq<Powering>,
    replies: Seq<Rep>,
) -> bool {
    &&& nics.len() <= usize::MAX
    &&& runs.len() == replies.len() + 1
    &&& regs.len() == runs.len()
    &&& runs[0] == powering(archive, nics)
    &&& forall|k: int|
        0 <= k < replies.len() ==> {
            &&& answered(readable, regs[k], runs[k].pending(), #[trigger] replies[k], regs[k + 1])
            &&& runs[k + 1] == runs[k].advance(replies[k])
        }
}

/// A value with the bits of weight 16 and 8 set, and every other bit as in
/// `old_value`.
pub open spec fn kept_on(old_value: u32, value: u32) -> bool {
    &&& has_bit(value, 0x10)
    &&& has_bit(value, 8)
    &&& value / 0x20 == old_value / 0x20
    &&& value % 8 == old_value % 8
}

proof fn bits_are_set(v: u32)
    ensures
        kept_on(v, v | 0x18u32),
        kept_on(0, 0x18u32),
        (v & 0x10u32 != 0) <==> has_bit(v, 0x10),
{
    assert(((v | 0x18u32) / 0x10u32) % 2u32 == 1u32) by (bit_vector);
    assert(((v | 0x18u32) / 8u32) % 2u32 == 1u32) by (bit_vector);
    assert((v | 0x18u32) / 0x20u32 == v / 0x20u32) by (bit_vector);
    assert((v | 0x18u32) % 8u32 == v % 8u32) by (bit_vector);
    assert((v & 0x10u32 != 0u32) <==> (v / 0x10u32) % 2u32 == 1u32) by (bit_vector);
}

/// The value under this key, zero where there is none.
pub open spec fn capabilities(reg: Registry, subkey: Seq<char>) -> u32 {
    match value_of(reg, subkey, "PnPCapabilities"@) {
        Some(v) => v,
        None => 0,
    }
}

proof fn powering_history(
    archive: Saved,
    nics: Seq<NicNode>,
    readable: Set<Seq<char>>,
    regs: Seq<Registry>,
    runs: Seq<Powering>,
    replies: Seq<Rep>,
    n: int,
)
    requires
        powered_by(archive, nics, readable, regs, runs, replies),
        0 <= n < runs.len(),
    ensures
        runs[n].wf(),
        runs[n].nics == nics,
        match runs[n].step {
            power::Step::Save(k, value) | power::Step::Write(k, value) => kept_on(
                capabilities(regs[n], nics[k as int].subkey),
                value,
            ),
            _ => true,
        },
        runs[n].errors.len() == 0 && !(runs[n].result matches Some(Err(_))) ==> forall|k: int|
            0 <= k < runs[n].nics_done() ==> has_bit(
                capabilities(regs[n], (#[trigger] nics[k]).subkey),
                0x10,
            ) && has_bit(capabilities(regs[n], nics[k].subkey), 8),
    decreases n,
{
    if n > 0 {
        powering_history(archive, nics, readable, regs, runs, replies, n - 1);
        let reply = replies[n - 1];
        let run = runs[n - 1];
        let next = runs[n];
        assert(runs[(n - 1) + 1] == run.advance(reply));
        assert(answered(readable, regs[n - 1], run.pending(), reply, regs[(n - 1) + 1]));
        if let power::Step::Read(k) = run.step {
            bits_are_set(capabilities(regs[n - 1], nics[k as int].subkey));
        }
        if next.errors.len() == 0 && !(next.result matches Some(Err(_))) {
            assert(run.errors.len() == 0);
            assert forall|k: int| 0 <= k < next.nics_done() implies has_bit(
                capabilities(regs[n], (#[trigger] nics[k]).subkey),
                0x10,
            ) && has_bit(capabilities(regs[n], nics[k].subkey), 8) by {
                if k < run.nics_done() {
                    assert(has_bit(capabilities(regs[n - 1], nics[k].subkey), 0x10));
                }
            }
        }
    }
}

/// After a run that reports success every NIC has both bits set.
pub proof fn powered_machine_holds_the_bits(
    archive: Saved,
    nics: Seq<NicNode>,
    readable: Set<Seq<char>>,
    regs: Seq<Registry>,
    runs: Seq<Powering>,
    replies: Seq<Rep>,
    k: int,
)
    requires
        powered_by(archive, nics, readable, regs, runs, replies),
        runs.last().result matches Some(Ok(_)),
        0 <= k < nics.len(),
    ensures
        value_of(regs.last(), nics[k].subkey, "PnPCapabilities"@) matches Some(v) && has_bit(
            v,
            0x10,
        ) && has_bit(v, 8),
{
    powering_history(archive, nics, readable, regs, runs, replies, runs.len() - 1);
    assert(has_bit(capabilities(regs.last(), nics[k].subkey), 0x10));
    assert(0u32 / 0x10u32 == 0);
}

/// Whatever comes back, a run writes to the NICs alone, and each write sets the
/// two bits and leaves every other bit of the present value as it is.
pub proof fn powering_writes_two_bits(
    archive: Saved,
    nics: Seq<NicNode>,
    readable: Set<Seq<char>>,
    regs: Seq<Registry>,
    runs: Seq<Powering>,
    replies: Seq<Rep>,
    k: int,
    subkey: Seq<char>,
    name: Seq<char>,
    value: u32,
)
    requires
        powered_by(archive, nics, readable, regs, runs, replies),
        0 <= k < runs.len(),
        runs[k].pending() == Some(Act::WriteDword { subkey, name, value }),
    ensures
        name == "PnPCapabilities"@,
        exists|i: int| 0 <= i < nics.len() && (#[trigger] nics[i]).subkey == subkey,
        kept_on(capabilities(regs[k], subkey), value),
{
    powering_history(archive, nics, readable, regs, runs, replies, k);
    if let power::Step::Write(i, _) = runs[k].step {
        assert(nics[i as int].subkey == subkey);
    }
}

/// A driver node is a NIC exactly when its GUID was read; its key lies under the
/// class of network adapters, and a value that could not be read counts as
/// absent.
pub proof fn nodes_with_a_guid_are_nics(nodes: Seq<Node>, node: Node)
    ensures
        nics_of(Seq::empty()).len() == 0,
        match node.guid {
            Ok(Some(guid)) => {
                let nic = nics_of(nodes.push(node)).last();
                &&& nics_of(nodes.push(node)) == nics_of(nodes).push(nic)
                &&& nic.subkey == driver_key(node.name@)
                &&& nic.guid == guid@
                &&& node.value matches Ok(v) ==> nic.value == v
                &&& node.value is Err ==> nic.value is None
                &&& node.description matches Ok(Some(d)) ==> nic.description == d@
                &&& !(node.description matches Ok(Some(_))) ==> nic.description.len() == 0
            },
            _ => nics_of(nodes.push(node)) == nics_of(nodes),
        },
{
    assert(nodes.push(node).drop_last() =~= nodes);
}

/// The power feature counts as aligned exactly when every NIC has a value with
/// the bit of weight 16.
pub proof fn power_status_is_exact(nics: Seq<NicNode>)
    ensures
        power::all_stay_on(nics) <==> forall|i: int|
            0 <= i < nics.len() ==> ((#[trigger] nics[i]).value matches Some(v) && has_bit(v, 0x10)),
{
    assert forall|i: int| 0 <= i < nics.len() implies power::stays_on((#[trigger] nics[i]).value)
        == (nics[i].value matches Some(v) && has_bit(v, 0x10)) by {
        if let Some(v) = nics[i].value {
            bits_are_set(v);
        }
    }
    if power::all_stay_on(nics) {
        assert forall|i: int| 0 <= i < nics.len() implies ((#[trigger] nics[i]).value matches Some(
            v,
        ) && has_bit(v, 0x10)) by {
            assert(power::stays_on(nics[i].value));
        }
    }
}

// ---------------------------------------------------------------------------
// Questions
// ---------------------------------------------------------------------------

/// A status asks for both machine-wide values, and of each adapter for its key
/// and its three values.
pub proof fn tcp_status_asks_for_every_value(keys: Seq<Seq<char>>, key: Seq<char>)
    ensures
        tcp::questions_for(Seq::empty()) == seq![
            Act::ReadDword { subkey: machine_key(), name: "TcpTimedWaitDelay"@ },
            Act::ReadDword { subkey: machine_key(), name: "MaxUserPort"@ },
        ],
        tcp::questions_for(keys.push(key)) == tcp::questions_for(keys) + seq![
            Act::KeyExists { subkey: key },
            Act::ReadDword { subkey: key, name: "TCPNoDelay"@ },
            Act::ReadDword { subkey: key, name: "TcpAckFrequency"@ },
            Act::ReadDword { subkey: key, name: "TcpDelAckTicks"@ },
        ],
{
    assert(keys.push(key).drop_last() =~= keys);
}

/// The keys that are asked about are those of the adapters, in order.
pub proof fn keys_are_those_of_the_adapters(ifaces: Seq<Adapter>, i: int)
    requires
        0 <= i < ifaces.len(),
    ensures
        tcp::subkeys_of(ifaces).len() == ifaces.len(),
        tcp::subkeys_of(ifaces)[i] == adapter_key(ifaces[i].guid),
{
}

/// A status of the MTU asks of each adapter for its key and its value.
pub proof fn mtu_status_asks_for_every_value(keys: Seq<Seq<char>>, key: Seq<char>)
    ensures
        crate::mtu::questions_for(Seq::empty()).len() == 0,
        crate::mtu::questions_for(keys.push(key)) == crate::mtu::questions_for(keys) + seq![
            Act::KeyExists { subkey: key },
            Act::ReadDword { subkey: key, name: "MTU"@ },
        ],
{
    assert(keys.push(key).drop_last() =~= keys);
}

} // verus!
