//! What the MTU feature leaves behind, in the registry and on the live links.

use vstd::prelude::*;

use crate::config::{of_group, Entry, Saved};
use crate::interfaces::{physical_of, Adapter};
use crate::laws::tweaks::{adapter_key, answered, hardware, hardware_is_physical};
use crate::mtu;
use crate::mtu::{
    all_report, asides_for, last_segment, link_for, links_for, sizing, subkey_gives_guid_back,
    target_met, with_guid, Sizing,
};
use crate::ops::{value_of, Act, Registry, Rep};
use crate::registry::Seen;
use crate::revert::{starting, Phase, Reverting};
use crate::tcp::subkeys_of;
use crate::text::decimal;

verus! {

/// A name that can be handed to `netsh`: not empty, and without a double quote.
pub open spec fn nameable(name: Seq<char>) -> bool {
    name.len() > 0 && !name.contains('"')
}

/// The action that gives the live link of an adapter this MTU: for good, so that
/// it stands in the registry too, or for this session only.
pub open spec fn link_action(
    adapter: Seq<char>,
    subkey: Seq<char>,
    mtu: u32,
    for_good: bool,
) -> Act {
    Act::LiveMtu {
        adapter,
        args: seq![
            "interface"@,
            "ipv4"@,
            "set"@,
            "subinterface"@,
            "name"@ + "=\""@ + adapter + "\""@,
            "mtu="@ + decimal(mtu as nat),
            if for_good {
                "store=persistent"@
            } else {
                "store=active"@
            },
        ],
        subkey,
        value: mtu,
        persistent: for_good,
    }
}

// ---------------------------------------------------------------------------
// Applying
// ---------------------------------------------------------------------------

/// A run that gives the adapters an MTU, as far as it has come.
pub open spec fn sized_by(
    archive: Saved,
    target: u32,
    all: Seq<Adapter>,
    readable: Set<Seq<char>>,
    regs: Seq<Registry>,
    runs: Seq<Sizing>,
    replies: Seq<Rep>,
) -> bool {
    &&& all.len() <= usize::MAX
    &&& runs.len() == replies.len() + 1
    &&& regs.len() == runs.len()
    &&& runs[0] == sizing(archive, target, physical_of(all))
    &&& forall|k: int|
        0 <= k < replies.len() ==> {
            &&& answered(readable, regs[k], runs[k].pending(), #[trigger] replies[k], regs[k + 1])
            &&& runs[k + 1] == runs[k].advance(replies[k])
        }
}

/// The run has given adapter `j` its live MTU before answer `n`.
spec fn link_was_set(runs: Seq<Sizing>, replies: Seq<Rep>, n: int, a: Adapter, target: u32) -> bool {
    exists|k: int|
        0 <= k < n && #[trigger] runs[k].pending() == Some(
            link_action(a.friendly, adapter_key(a.guid), target, true),
        ) && replies[k] matches Rep::Output(Ok(_))
}

proof fn sizing_history(
    archive: Saved,
    target: u32,
    all: Seq<Adapter>,
    readable: Set<Seq<char>>,
    regs: Seq<Registry>,
    runs: Seq<Sizing>,
    replies: Seq<Rep>,
    n: int,
)
    requires
        sized_by(archive, target, all, readable, regs, runs, replies),
        0 <= n < runs.len(),
    ensures
        runs[n].wf(),
        runs[n].target == target,
        runs[n].names == mtu::names_of(physical_of(all)),
        runs[n].subkeys == subkeys_of(physical_of(all)),
        n > 0 ==> 1280 <= target <= 9000,
        mtu::progress(regs[n], readable, runs[n]),
        runs[n].errors.len() == 0 && !(runs[n].result matches Some(Err(_))) ==> forall|j: int|
            0 <= j < runs[n].ifaces_done() && readable.contains(
                adapter_key((#[trigger] physical_of(all)[j]).guid),
            ) ==> link_was_set(runs, replies, n, physical_of(all)[j], target),
    decreases n,
{
    hardware_is_physical(all);
    if n > 0 {
        sizing_history(archive, target, all, readable, regs, runs, replies, n - 1);
        let reply = replies[n - 1];
        let run = runs[n - 1];
        let next = runs[n];
        assert(runs[(n - 1) + 1] == run.advance(reply));
        assert(answered(readable, regs[n - 1], run.pending(), reply, regs[(n - 1) + 1]));
        mtu::sizing_makes_progress(regs[n - 1], readable, run, reply, regs[n]);
        let ifaces = physical_of(all);
        if next.errors.len() == 0 && !(next.result matches Some(Err(_))) {
            assert(run.errors.len() == 0);
            assert forall|j: int|
                0 <= j < next.ifaces_done() && readable.contains(
                    adapter_key((#[trigger] ifaces[j]).guid),
                ) implies link_was_set(runs, replies, n, ifaces[j], target) by {
                assert(run.subkeys[j] == adapter_key(ifaces[j].guid));
                if j < run.ifaces_done() {
                    assert(link_was_set(runs, replies, n - 1, ifaces[j], target));
                    let k = choose|k: int|
                        0 <= k < n - 1 && #[trigger] runs[k].pending() == Some(
                            link_action(
                                ifaces[j].friendly,
                                adapter_key(ifaces[j].guid),
                                target,
                                true,
                            ),
                        ) && replies[k] matches Rep::Output(Ok(_));
                    assert(runs[k].pending() is Some);
                } else {
                    let a = ifaces[j];
                    assert(run.names[j] == a.friendly);
                    assert(run.step matches mtu::Step::Live(i) && i == j);
                    assert(run.pending() == Some(
                        link_action(a.friendly, adapter_key(a.guid), target, true),
                    )) by {
                        assert(run.pending()->0->LiveMtu_args =~= link_action(
                            a.friendly,
                            adapter_key(a.guid),
                            target,
                            true,
                        )->LiveMtu_args);
                    }
                    assert(runs[n - 1].pending() is Some);
                }
            }
        }
    }
}

/// After a run that reports success the MTU is in the range from 1280 to 9000,
/// every real adapter whose key is readable holds it in the registry, and its
/// live link was given it for good.
pub proof fn sized_machine_holds_the_mtu(
    archive: Saved,
    target: u32,
    all: Seq<Adapter>,
    readable: Set<Seq<char>>,
    regs: Seq<Registry>,
    runs: Seq<Sizing>,
    replies: Seq<Rep>,
    i: int,
)
    requires
        sized_by(archive, target, all, readable, regs, runs, replies),
        runs.last().result matches Some(Ok(_)),
        0 <= i < all.len(),
        hardware(all[i]),
        readable.contains(adapter_key(all[i].guid)),
    ensures
        1280 <= target <= 9000,
        value_of(regs.last(), adapter_key(all[i].guid), "MTU"@) == Some(target),
        exists|k: int|
            0 <= k < replies.len() && #[trigger] runs[k].pending() == Some(
                link_action(all[i].friendly, adapter_key(all[i].guid), target, true),
            ) && replies[k] matches Rep::Output(Ok(_)),
{
    let n = runs.len() - 1;
    sizing_history(archive, target, all, readable, regs, runs, replies, n);
    hardware_is_physical(all);
    assert(physical_of(all).contains(all[i]));
    let j = choose|j: int| 0 <= j < physical_of(all).len() && physical_of(all)[j] == all[i];
    assert(runs[n].subkeys[j] == adapter_key(all[i].guid));
    mtu::successful_apply_sets_the_target(regs[n], readable, runs[n], j);
    assert(link_was_set(runs, replies, n, physical_of(all)[j], target));
}

/// An MTU from 1280 to 9000 is tried on every real adapter, one outside is
/// refused with nothing done.
pub proof fn mtu_range_is_exact(archive: Saved, target: u32, all: Seq<Adapter>)
    ensures
        ({
            let run = sizing(archive, target, physical_of(all));
            &&& run.archive == archive
            &&& target < 1280 || target > 9000 ==> run.pending() is None && run.result == Some(
                Err::<(), Seq<char>>(
                    "invalid MTU "@ + decimal(target as nat) + ": expected 1280..=9000"@,
                ),
            )
            &&& 1280 <= target <= 9000 && (exists|i: int|
                0 <= i < all.len() && hardware(#[trigger] all[i])) ==> run.result is None
                && run.pending() == Some(
                Act::KeyExists { subkey: adapter_key(physical_of(all)[0].guid) },
            )
            &&& 1280 <= target <= 9000 && !(exists|i: int|
                0 <= i < all.len() && hardware(#[trigger] all[i])) ==> run.result == Some(
                Ok::<(), Seq<char>>(()),
            )
        }),
{
    hardware_is_physical(all);
    let ifaces = physical_of(all);
    if ifaces.len() > 0 {
        assert(hardware(ifaces[0]) && all.contains(ifaces[0]));
    }
}

/// Whatever comes back, a run writes the target MTU alone, under the key of a
/// real adapter that has a name to go by.
pub proof fn sizing_writes_the_target_only(
    archive: Saved,
    target: u32,
    all: Seq<Adapter>,
    readable: Set<Seq<char>>,
    regs: Seq<Registry>,
    runs: Seq<Sizing>,
    replies: Seq<Rep>,
    k: int,
    subkey: Seq<char>,
    name: Seq<char>,
    value: u32,
)
    requires
        sized_by(archive, target, all, readable, regs, runs, replies),
        0 <= k < runs.len(),
        runs[k].pending() == Some(Act::WriteDword { subkey, name, value }),
    ensures
        name == "MTU"@ && value == target && 1280 <= target <= 9000,
        exists|i: int|
            0 <= i < all.len() && hardware(#[trigger] all[i]) && nameable(all[i].friendly)
                && subkey == adapter_key(all[i].guid),
{
    sizing_history(archive, target, all, readable, regs, runs, replies, k);
    hardware_is_physical(all);
    if let mtu::Step::Write(j) = runs[k].step {
        let a = physical_of(all)[j as int];
        assert(runs[k].names[j as int] == a.friendly);
        assert(all.contains(a));
        let p = choose|p: int| 0 <= p < all.len() && all[p] == a;
        assert(hardware(all[p]) && nameable(all[p].friendly));
    }
}

// ---------------------------------------------------------------------------
// Status
// ---------------------------------------------------------------------------

/// The MTU counts as met exactly when every adapter whose key was found holds
/// it, an absent value standing for 1500, and no live link is known to differ.
pub proof fn mtu_status_is_exact(seen: Seen, ifaces: Seq<Adapter>, target: u32)
    ensures
        target_met(seen, ifaces, None),
        target_met(seen, ifaces, Some(target)) <==> forall|i: int|
            0 <= i < ifaces.len() && seen.keys.contains(
                adapter_key((#[trigger] ifaces[i]).guid),
            ) ==> {
                let held = seen.value(adapter_key(ifaces[i].guid), "MTU"@);
                &&& held == Ok::<Option<u32>, Seq<char>>(Some(target)) || (target == 1500 && held
                    == Ok::<Option<u32>, Seq<char>>(None))
                &&& ifaces[i].mtu == 0 || ifaces[i].mtu == target
            },
{
    assert forall|i: int| 0 <= i < ifaces.len() implies mtu::reports(
        seen,
        #[trigger] ifaces[i],
        target,
    ) == (seen.keys.contains(adapter_key(ifaces[i].guid)) ==> {
        let held = seen.value(adapter_key(ifaces[i].guid), "MTU"@);
        &&& held == Ok::<Option<u32>, Seq<char>>(Some(target)) || (target == 1500 && held == Ok::<
            Option<u32>,
            Seq<char>,
        >(None))
        &&& ifaces[i].mtu == 0 || ifaces[i].mtu == target
    }) by {}
    if all_report(seen, ifaces, target) {
        assert forall|i: int|
            0 <= i < ifaces.len() && seen.keys.contains(
                adapter_key((#[trigger] ifaces[i]).guid),
            ) implies {
            let held = seen.value(adapter_key(ifaces[i].guid), "MTU"@);
            &&& held == Ok::<Option<u32>, Seq<char>>(Some(target)) || (target == 1500 && held
                == Ok::<Option<u32>, Seq<char>>(None))
            &&& ifaces[i].mtu == 0 || ifaces[i].mtu == target
        } by {
            assert(mtu::reports(seen, ifaces[i], target));
        }
    }
}

// ---------------------------------------------------------------------------
// Reverting
// ---------------------------------------------------------------------------

/// The MTU that an archived value stands for: 1500 where there was none.
pub open spec fn stands_for(entry: Entry) -> u32 {
    if entry.present {
        entry.value
    } else {
        1500
    }
}

/// What an answered action does to the MTUs of the live links, by adapter.
pub open spec fn link_after(
    live: Map<Seq<char>, u32>,
    action: Option<Act>,
    reply: Rep,
) -> Map<Seq<char>, u32> {
    match (action, reply) {
        (Some(Act::LiveMtu { adapter, value, .. }), Rep::Output(Ok(_))) => live.insert(
            adapter,
            value,
        ),
        _ => live,
    }
}

/// A revert of the MTU group on the machine with these adapters, as far as it
/// has come; `live[k]` are the MTUs of the live links before answer `k`.
pub open spec fn reverted_by(
    archive: Saved,
    all: Seq<Adapter>,
    readable: Set<Seq<char>>,
    regs: Seq<Registry>,
    live: Seq<Map<Seq<char>, u32>>,
    runs: Seq<Reverting>,
    replies: Seq<Rep>,
) -> bool {
    let entries = of_group(archive.values, "mtu"@);
    &&& runs.len() == replies.len() + 1
    &&& regs.len() == runs.len()
    &&& live.len() == runs.len()
    &&& links_for(entries, physical_of(all)).len() <= usize::MAX
    &&& runs[0] == starting(
        archive,
        "mtu"@,
        links_for(entries, physical_of(all)),
        asides_for(entries, physical_of(all)),
    )
    &&& forall|k: int|
        0 <= k < replies.len() ==> {
            &&& answered(readable, regs[k], runs[k].pending(), #[trigger] replies[k], regs[k + 1])
            &&& live[k + 1] == link_after(live[k], runs[k].pending(), replies[k])
            &&& runs[k + 1] == runs[k].advance(replies[k])
        }
}

/// The number of links that a revert has dealt with.
spec fn links_done(run: Reverting) -> int {
    match run.phase {
        Phase::Restoring | Phase::Saving => 0,
        Phase::Linking(k) => k as int,
        Phase::Finished => if run.result matches Some(Ok(_)) {
            run.links.len() as int
        } else {
            0
        },
    }
}

spec fn link_was_tried(runs: Seq<Reverting>, n: int, link: Act) -> bool {
    exists|k: int| 0 <= k < n && #[trigger] runs[k].pending() == Some(link)
}

proof fn reverting_history(
    archive: Saved,
    all: Seq<Adapter>,
    readable: Set<Seq<char>>,
    regs: Seq<Registry>,
    live: Seq<Map<Seq<char>, u32>>,
    runs: Seq<Reverting>,
    replies: Seq<Rep>,
    n: int,
)
    requires
        reverted_by(archive, all, readable, regs, live, runs, replies),
        0 <= n < runs.len(),
    ensures
        runs[n].links == runs[0].links,
        runs[n].phase is Finished <==> runs[n].result is Some,
        runs[n].phase is Restoring ==> runs[n].results.len() < runs[n].actions.len(),
        runs[n].phase matches Phase::Linking(k) ==> k < runs[n].links.len(),
        forall|m: int|
            0 <= m < links_done(runs[n]) ==> link_was_tried(
                runs,
                n,
                #[trigger] runs[0].links[m],
            ),
    decreases n,
{
    if n > 0 {
        reverting_history(archive, all, readable, regs, live, runs, replies, n - 1);
        let reply = replies[n - 1];
        let run = runs[n - 1];
        let next = runs[n];
        assert(runs[(n - 1) + 1] == run.advance(reply));
        assert(answered(readable, regs[n - 1], run.pending(), reply, regs[(n - 1) + 1]));
        assert forall|m: int| 0 <= m < links_done(next) implies link_was_tried(
            runs,
            n,
            #[trigger] runs[0].links[m],
        ) by {
            let link = runs[0].links[m];
            if m < links_done(run) {
                assert(link_was_tried(runs, n - 1, link));
                let k = choose|k: int|
                    0 <= k < n - 1 && #[trigger] runs[k].pending() == Some(link);
                assert(runs[k].pending() == Some(link));
            } else {
                assert(runs[n - 1].pending() == Some(link));
            }
        }
    }
}

/// An adapter that alone has its GUID is the one that is found by it.
proof fn found_by_guid(ifaces: Seq<Adapter>, a: Adapter)
    requires
        ifaces.contains(a),
        forall|i: int|
            0 <= i < ifaces.len() && (#[trigger] ifaces[i]).guid == a.guid ==> ifaces[i] == a,
    ensures
        with_guid(ifaces, a.guid) == Some(a),
    decreases ifaces.len(),
{
    let p = choose|p: int| 0 <= p < ifaces.len() && ifaces[p] == a;
    if ifaces[0].guid != a.guid {
        let rest = ifaces.skip(1);
        assert(rest[p - 1] == a);
        assert forall|i: int|
            0 <= i < rest.len() && (#[trigger] rest[i]).guid == a.guid implies rest[i] == a by {
            assert(rest[i] == ifaces[i + 1]);
        }
        found_by_guid(rest, a);
    }
}

/// What is found by a GUID is among the adapters.
proof fn found_is_there(ifaces: Seq<Adapter>, guid: Seq<char>)
    ensures
        with_guid(ifaces, guid) matches Some(a) ==> ifaces.contains(a) && a.guid == guid,
    decreases ifaces.len(),
{
    if ifaces.len() > 0 {
        let rest = ifaces.skip(1);
        found_is_there(rest, guid);
        if ifaces[0].guid == guid {
            assert(ifaces.contains(ifaces[0]));
        } else if let Some(a) = with_guid(rest, guid) {
            let p = choose|p: int| 0 <= p < rest.len() && rest[p] == a;
            assert(ifaces[p + 1] == a);
        }
    }
}

/// The correction for an entry of the group is among the corrections.
proof fn link_is_there(values: Seq<Entry>, ifaces: Seq<Adapter>, i: int)
    requires
        0 <= i < values.len(),
        values[i].group == "mtu"@,
        link_for(values[i], ifaces) is Some,
    ensures
        links_for(of_group(values, "mtu"@), ifaces).contains(link_for(values[i], ifaces)->0),
    decreases values.len(),
{
    let front = values.drop_last();
    let rest = of_group(front, "mtu"@);
    let before = links_for(rest, ifaces);
    let after = links_for(of_group(values, "mtu"@), ifaces);
    let link = link_for(values[i], ifaces)->0;
    assert(rest.push(values.last()).drop_last() =~= rest);
    if i < front.len() {
        assert(front[i] == values[i]);
        link_is_there(front, ifaces, i);
        let m = choose|m: int| 0 <= m < before.len() && before[m] == link;
        assert(after[m] == link);
    } else {
        assert(after[after.len() - 1] == link);
    }
}

/// Every correction is that for an entry of the group.
proof fn link_has_an_entry(values: Seq<Entry>, ifaces: Seq<Adapter>, m: int) -> (i: int)
    requires
        0 <= m < links_for(of_group(values, "mtu"@), ifaces).len(),
    ensures
        0 <= i < values.len(),
        values[i].group == "mtu"@,
        link_for(values[i], ifaces) == Some(links_for(of_group(values, "mtu"@), ifaces)[m]),
    decreases values.len(),
{
    let front = values.drop_last();
    let rest = of_group(front, "mtu"@);
    let before = links_for(rest, ifaces);
    assert(values.len() > 0);
    assert(rest.push(values.last()).drop_last() =~= rest);
    if m < before.len() {
        let i = link_has_an_entry(front, ifaces, m);
        assert(front[i] == values[i]);
        i
    } else {
        values.len() - 1
    }
}

/// The correction of a live link, where its adapter is there and has a name to
/// go by.
proof fn link_is_the_action(entry: Entry, all: Seq<Adapter>, a: Adapter)
    requires
        all.contains(a),
        hardware(a),
        nameable(a.friendly),
        !a.guid.contains('\\'),
        entry.subkey == adapter_key(a.guid),
        forall|i: int| 0 <= i < all.len() && (#[trigger] all[i]).guid == a.guid ==> all[i] == a,
    ensures
        link_for(entry, physical_of(all)) == Some(
            link_action(a.friendly, entry.subkey, stands_for(entry), entry.present),
        ),
{
    let ifaces = physical_of(all);
    hardware_is_physical(all);
    let p = choose|p: int| 0 <= p < all.len() && all[p] == a;
    assert(ifaces.contains(all[p]));
    assert forall|i: int|
        0 <= i < ifaces.len() && (#[trigger] ifaces[i]).guid == a.guid implies ifaces[i] == a by {
        assert(all.contains(ifaces[i]));
        let q = choose|q: int| 0 <= q < all.len() && all[q] == ifaces[i];
        assert(all[q].guid == a.guid);
    }
    subkey_gives_guid_back(a.guid);
    found_by_guid(ifaces, a);
    let link = link_for(entry, ifaces);
    assert(link is Some);
    assert(link->0->LiveMtu_args =~= link_action(
        a.friendly,
        entry.subkey,
        stands_for(entry),
        entry.present,
    )->LiveMtu_args);
}

/// A revert that reports success has corrected the live link of every archived
/// MTU whose adapter is there and has a name to go by: with the archived MTU for
/// good where there was one, with 1500 for this session only where there was
/// none.
pub proof fn revert_corrects_the_live_links(
    archive: Saved,
    all: Seq<Adapter>,
    readable: Set<Seq<char>>,
    regs: Seq<Registry>,
    live: Seq<Map<Seq<char>, u32>>,
    runs: Seq<Reverting>,
    replies: Seq<Rep>,
    i: int,
    a: Adapter,
)
    requires
        reverted_by(archive, all, readable, regs, live, runs, replies),
        runs.last().result matches Some(Ok(_)),
        0 <= i < archive.values.len(),
        archive.values[i].group == "mtu"@,
        archive.values[i].subkey == adapter_key(a.guid),
        all.contains(a),
        hardware(a),
        nameable(a.friendly),
        !a.guid.contains('\\'),
        forall|p: int| 0 <= p < all.len() && (#[trigger] all[p]).guid == a.guid ==> all[p] == a,
    ensures
        archive.values[i].present ==> exists|k: int|
            0 <= k < replies.len() && #[trigger] runs[k].pending() == Some(
                link_action(a.friendly, adapter_key(a.guid), archive.values[i].value, true),
            ),
        !archive.values[i].present ==> exists|k: int|
            0 <= k < replies.len() && #[trigger] runs[k].pending() == Some(
                link_action(a.friendly, adapter_key(a.guid), 1500, false),
            ),
{
    let n = runs.len() - 1;
    let entry = archive.values[i];
    reverting_history(archive, all, readable, regs, live, runs, replies, n);
    link_is_the_action(entry, all, a);
    link_is_there(archive.values, physical_of(all), i);
    let link = link_for(entry, physical_of(all))->0;
    let m = choose|m: int| 0 <= m < runs[0].links.len() && runs[0].links[m] == link;
    assert(link_was_tried(runs, n, runs[0].links[m]));
}

/// Whatever comes back, a revert tries no live link but those of the archived
/// MTUs: each gets what its archived value stands for.
pub proof fn revert_corrects_no_other_link(
    archive: Saved,
    all: Seq<Adapter>,
    readable: Set<Seq<char>>,
    regs: Seq<Registry>,
    live: Seq<Map<Seq<char>, u32>>,
    runs: Seq<Reverting>,
    replies: Seq<Rep>,
    k: int,
)
    requires
        reverted_by(archive, all, readable, regs, live, runs, replies),
        0 <= k < runs.len(),
        runs[k].pending() matches Some(Act::LiveMtu { .. }),
    ensures
        exists|i: int, a: Adapter|
            0 <= i < archive.values.len() && archive.values[i].group == "mtu"@ && all.contains(a)
                && hardware(a) && nameable(a.friendly) && last_segment(archive.values[i].subkey)
                == a.guid && runs[k].pending() == Some(
                #[trigger] link_action(
                    a.friendly,
                    archive.values[i].subkey,
                    stands_for(archive.values[i]),
                    archive.values[i].present,
                ),
            ),
{
    reverting_history(archive, all, readable, regs, live, runs, replies, k);
    restores_no_link(archive, all, readable, regs, live, runs, replies, k);
    let ifaces = physical_of(all);
    if let Phase::Linking(m) = runs[k].phase {
        let i = link_has_an_entry(archive.values, ifaces, m as int);
        let e = archive.values[i];
        found_is_there(ifaces, last_segment(e.subkey));
        let a = with_guid(ifaces, last_segment(e.subkey))->0;
        hardware_is_physical(all);
        let q = choose|q: int| 0 <= q < ifaces.len() && ifaces[q] == a;
        assert(hardware(ifaces[q]) && all.contains(ifaces[q]));
        let action = link_action(a.friendly, e.subkey, stands_for(e), e.present);
        assert(runs[k].pending()->0->LiveMtu_args =~= action->LiveMtu_args);
        assert(runs[k].pending() == Some(action));
    }
}

/// The archived values are put back with writes and deletions alone.
proof fn restores_no_link(
    archive: Saved,
    all: Seq<Adapter>,
    readable: Set<Seq<char>>,
    regs: Seq<Registry>,
    live: Seq<Map<Seq<char>, u32>>,
    runs: Seq<Reverting>,
    replies: Seq<Rep>,
    n: int,
)
    requires
        reverted_by(archive, all, readable, regs, live, runs, replies),
        0 <= n < runs.len(),
    ensures
        runs[n].actions == runs[0].actions,
        forall|j: int| 0 <= j < runs[n].actions.len() ==> !(#[trigger] runs[n].actions[j] is LiveMtu),
    decreases n,
{
    if n > 0 {
        restores_no_link(archive, all, readable, regs, live, runs, replies, n - 1);
        let reply = replies[n - 1];
        assert(runs[(n - 1) + 1] == runs[n - 1].advance(reply));
    }
}

/// Two entries of the group about the same key are one entry, and two adapters
/// with the same name or the same GUID are one adapter.
pub open spec fn distinct(values: Seq<Entry>, all: Seq<Adapter>) -> bool {
    &&& forall|p: int, q: int|
        0 <= p < values.len() && 0 <= q < values.len() && (#[trigger] values[p]).group == "mtu"@
            && (#[trigger] values[q]).group == "mtu"@ && values[p].subkey == values[q].subkey
            ==> p == q
    &&& forall|p: int, q: int|
        0 <= p < all.len() && 0 <= q < all.len() && ((#[trigger] all[p]).friendly == (
        #[trigger] all[q]).friendly || all[p].guid == all[q].guid) ==> all[p] == all[q]
}

/// Every entry of the group is about an adapter's key.
pub open spec fn about_adapters(values: Seq<Entry>) -> bool {
    forall|p: int|
        0 <= p < values.len() && (#[trigger] values[p]).group == "mtu"@ ==> exists|guid: Seq<char>|
            !guid.contains('\\') && values[p].subkey == #[trigger] adapter_key(guid)
}

/// Two corrections of the same adapter are the same.
proof fn links_agree(values: Seq<Entry>, all: Seq<Adapter>, m: int, l: int)
    requires
        distinct(values, all),
        about_adapters(values),
        0 <= m < links_for(of_group(values, "mtu"@), physical_of(all)).len(),
        0 <= l < links_for(of_group(values, "mtu"@), physical_of(all)).len(),
        links_for(of_group(values, "mtu"@), physical_of(all))[m]->adapter == links_for(
            of_group(values, "mtu"@),
            physical_of(all),
        )[l]->adapter,
    ensures
        links_for(of_group(values, "mtu"@), physical_of(all))[m] is LiveMtu,
        links_for(of_group(values, "mtu"@), physical_of(all))[m] == links_for(
            of_group(values, "mtu"@),
            physical_of(all),
        )[l],
{
    let ifaces = physical_of(all);
    let p = link_has_an_entry(values, ifaces, m);
    let q = link_has_an_entry(values, ifaces, l);
    found_is_there(ifaces, last_segment(values[p].subkey));
    found_is_there(ifaces, last_segment(values[q].subkey));
    hardware_is_physical(all);
    let a = with_guid(ifaces, last_segment(values[p].subkey))->0;
    let b = with_guid(ifaces, last_segment(values[q].subkey))->0;
    let i = choose|i: int| 0 <= i < ifaces.len() && ifaces[i] == a;
    let j = choose|j: int| 0 <= j < ifaces.len() && ifaces[j] == b;
    assert(all.contains(ifaces[i]) && all.contains(ifaces[j]));
    let x = choose|x: int| 0 <= x < all.len() && all[x] == a;
    let y = choose|y: int| 0 <= y < all.len() && all[y] == b;
    assert(all[x].friendly == all[y].friendly);
    assert(values[p].group == "mtu"@ && values[q].group == "mtu"@);
    let g = choose|guid: Seq<char>|
        !guid.contains('\\') && values[p].subkey == #[trigger] adapter_key(guid);
    let h = choose|guid: Seq<char>|
        !guid.contains('\\') && values[q].subkey == #[trigger] adapter_key(guid);
    subkey_gives_guid_back(g);
    subkey_gives_guid_back(h);
    assert(values[p].subkey == values[q].subkey);
}

proof fn live_history(
    archive: Saved,
    all: Seq<Adapter>,
    readable: Set<Seq<char>>,
    regs: Seq<Registry>,
    live: Seq<Map<Seq<char>, u32>>,
    runs: Seq<Reverting>,
    replies: Seq<Rep>,
    n: int,
    m: int,
)
    requires
        reverted_by(archive, all, readable, regs, live, runs, replies),
        distinct(archive.values, all),
        about_adapters(archive.values),
        forall|k: int|
            0 <= k < replies.len() ==> !(#[trigger] replies[k] matches Rep::Output(Err(_))),
        0 <= n < runs.len(),
        0 <= m < links_done(runs[n]),
        m < runs[0].links.len(),
    ensures
        live[n].dom().contains(runs[0].links[m]->adapter),
        live[n][runs[0].links[m]->adapter] == runs[0].links[m]->LiveMtu_value,
    decreases n,
{
    reverting_history(archive, all, readable, regs, live, runs, replies, n);
    assert(n > 0);
    reverting_history(archive, all, readable, regs, live, runs, replies, n - 1);
    restores_no_link(archive, all, readable, regs, live, runs, replies, n - 1);
    let reply = replies[n - 1];
    let run = runs[n - 1];
    assert(runs[(n - 1) + 1] == run.advance(reply));
    assert(live[(n - 1) + 1] == link_after(live[n - 1], run.pending(), reply));
    assert(answered(readable, regs[n - 1], run.pending(), reply, regs[(n - 1) + 1]));
    links_agree(archive.values, all, m, m);
    if m < links_done(run) {
        live_history(archive, all, readable, regs, live, runs, replies, n - 1, m);
        if let Phase::Linking(l) = run.phase {
            if runs[0].links[l as int]->adapter == runs[0].links[m]->adapter {
                links_agree(archive.values, all, l as int, m);
            }
        }
    }
}

/// After a revert that reports success, on a machine that carried out every
/// correction, the live link of every archived MTU has the MTU that its original
/// value stands for: that value, or 1500 where there was none.
pub proof fn reverted_links_have_their_mtu(
    archive: Saved,
    all: Seq<Adapter>,
    readable: Set<Seq<char>>,
    regs: Seq<Registry>,
    live: Seq<Map<Seq<char>, u32>>,
    runs: Seq<Reverting>,
    replies: Seq<Rep>,
    i: int,
    a: Adapter,
)
    requires
        reverted_by(archive, all, readable, regs, live, runs, replies),
        runs.last().result matches Some(Ok(_)),
        forall|k: int|
            0 <= k < replies.len() ==> !(#[trigger] replies[k] matches Rep::Output(Err(_))),
        distinct(archive.values, all),
        about_adapters(archive.values),
        0 <= i < archive.values.len(),
        archive.values[i].group == "mtu"@,
        archive.values[i].subkey == adapter_key(a.guid),
        !a.guid.contains('\\'),
        all.contains(a),
        hardware(a),
        nameable(a.friendly),
    ensures
        live.last().dom().contains(a.friendly),
        archive.values[i].present ==> live.last()[a.friendly] == archive.values[i].value,
        !archive.values[i].present ==> live.last()[a.friendly] == 1500,
{
    let n = runs.len() - 1;
    let entry = archive.values[i];
    let x = choose|x: int| 0 <= x < all.len() && all[x] == a;
    assert forall|p: int| 0 <= p < all.len() && (#[trigger] all[p]).guid == a.guid implies all[p]
        == a by {
        assert(all[x].guid == all[p].guid);
    }
    reverting_history(archive, all, readable, regs, live, runs, replies, n);
    link_is_the_action(entry, all, a);
    link_is_there(archive.values, physical_of(all), i);
    let link = link_for(entry, physical_of(all))->0;
    let m = choose|m: int| 0 <= m < runs[0].links.len() && runs[0].links[m] == link;
    live_history(archive, all, readable, regs, live, runs, replies, n, m);
}

} // verus!
