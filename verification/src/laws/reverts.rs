//! What a revert of a group brings back.

use vstd::prelude::*;

use crate::config::{of_group, restoring, unrestored, Entry, Saved};
use crate::laws::tweaks::answered;
use crate::ops::{first_error, value_of, Act, Registry, Rep};
use crate::revert::{starting_plain, Reverting};

verus! {

/// A revert of a group, as far as it has come.
pub open spec fn undone_by(
    archive: Saved,
    group: Seq<char>,
    readable: Set<Seq<char>>,
    regs: Seq<Registry>,
    runs: Seq<Reverting>,
    replies: Seq<Rep>,
) -> bool {
    &&& runs.len() == replies.len() + 1
    &&& regs.len() == runs.len()
    &&& runs[0] == starting_plain(archive, group)
    &&& forall|k: int|
        0 <= k < replies.len() ==> {
            &&& answered(readable, regs[k], runs[k].pending(), #[trigger] replies[k], regs[k + 1])
            &&& runs[k + 1] == runs[k].advance(replies[k])
        }
}

/// What an entry says of the registry.
pub open spec fn was(e: Entry) -> Option<u32> {
    if e.present {
        Some(e.value)
    } else {
        None
    }
}

/// Two entries of a list about the same value are one.
pub open spec fn keys_are_distinct(entries: Seq<Entry>) -> bool {
    forall|i: int, j: int|
        0 <= i < entries.len() && 0 <= j < entries.len() && (#[trigger] entries[i]).subkey == (
        #[trigger] entries[j]).subkey && entries[i].name == entries[j].name ==> i == j
}

proof fn undoing_history(
    archive: Saved,
    group: Seq<char>,
    readable: Set<Seq<char>>,
    regs: Seq<Registry>,
    runs: Seq<Reverting>,
    replies: Seq<Rep>,
    n: int,
)
    requires
        undone_by(archive, group, readable, regs, runs, replies),
        keys_are_distinct(of_group(archive.values, group)),
        0 <= n < runs.len(),
    ensures
        ({
            let entries = of_group(archive.values, group);
            let run = runs[n];
            &&& run.group == group
            &&& run.actions == restoring(entries)
            &&& run.links.len() == 0
            &&& run.results.len() <= entries.len()
            &&& run.phase is Restoring ==> run.results.len() < entries.len()
                && run.archive == archive
            &&& run.phase !is Restoring ==> run.results.len() == entries.len() && run.archive
                == (Saved {
                values: unrestored(archive.values, group, run.results),
                dns: archive.dns,
            })
            &&& run.phase !is Linking
            &&& run.phase is Finished <==> run.result is Some
            &&& run.phase !is Restoring ==> run.settled == match first_error(run.results) {
                Some(e) => Err::<(), Seq<char>>(e),
                None => Ok(()),
            }
            &&& run.result matches Some(Ok(_)) ==> run.settled is Ok
            &&& forall|j: int|
                0 <= j < run.results.len() && #[trigger] run.results[j] is Ok ==> value_of(
                    regs[n],
                    entries[j].subkey,
                    entries[j].name,
                ) == was(entries[j])
            &&& forall|subkey: Seq<char>, name: Seq<char>|
                #![trigger value_of(regs[n], subkey, name)]
                (forall|j: int|
                    0 <= j < entries.len() ==> (#[trigger] entries[j]).subkey != subkey
                        || entries[j].name != name) ==> value_of(regs[n], subkey, name)
                    == value_of(regs[0], subkey, name)
        }),
    decreases n,
{
    let entries = of_group(archive.values, group);
    if n == 0 {
        if entries.len() == 0 {
            nothing_leaves(archive.values, group, runs[0].results);
        }
    } else {
        undoing_history(archive, group, readable, regs, runs, replies, n - 1);
        let reply = replies[n - 1];
        let run = runs[n - 1];
        let next = runs[n];
        assert(runs[(n - 1) + 1] == run.advance(reply));
        assert(answered(readable, regs[n - 1], run.pending(), reply, regs[(n - 1) + 1]));
        assert forall|j: int| 0 <= j < next.results.len() && #[trigger] next.results[j] is Ok implies
            value_of(regs[n], entries[j].subkey, entries[j].name) == was(entries[j]) by {
            if j < run.results.len() {
                assert(run.results[j] is Ok);
                if run.phase is Restoring {
                    let k = run.results.len() as int;
                    assert(entries[j].subkey != entries[k].subkey || entries[j].name
                        != entries[k].name);
                }
            }
        }
        assert forall|subkey: Seq<char>, name: Seq<char>|
            #![trigger value_of(regs[n], subkey, name)]
            (forall|j: int|
                0 <= j < entries.len() ==> (#[trigger] entries[j]).subkey != subkey
                    || entries[j].name != name) implies value_of(regs[n], subkey, name)
            == value_of(regs[0], subkey, name) by {
            assert(value_of(regs[n - 1], subkey, name) == value_of(regs[0], subkey, name));
            if run.phase is Restoring {
                let k = run.results.len() as int;
                assert(entries[k].subkey != subkey || entries[k].name != name);
            }
        }
    }
}

/// Without an entry of the group nothing leaves the archive.
proof fn nothing_leaves(
    values: Seq<Entry>,
    group: Seq<char>,
    results: Seq<Result<(), Seq<char>>>,
)
    requires
        of_group(values, group).len() == 0,
    ensures
        unrestored(values, group, results) == values,
    decreases values.len(),
{
    if values.len() > 0 {
        nothing_leaves(values.drop_last(), group, results);
        assert(values.drop_last().push(values.last()) =~= values);
    } else {
        assert(unrestored(values, group, results) =~= values);
    }
}

/// Every entry of the group is among its entries.
proof fn entry_is_there(values: Seq<Entry>, group: Seq<char>, i: int)
    requires
        0 <= i < values.len(),
        values[i].group == group,
    ensures
        of_group(values, group).contains(values[i]),
    decreases values.len(),
{
    let front = values.drop_last();
    let before = of_group(front, group);
    let after = of_group(values, group);
    if i < front.len() {
        assert(front[i] == values[i]);
        entry_is_there(front, group, i);
        let k = choose|k: int| 0 <= k < before.len() && before[k] == values[i];
        assert(after[k] == values[i]);
    } else {
        assert(after[after.len() - 1] == values[i]);
    }
}

/// What stays in the archive after a restore without failures is of other groups.
proof fn group_is_gone(values: Seq<Entry>, group: Seq<char>, results: Seq<Result<(), Seq<char>>>)
    requires
        results.len() >= of_group(values, group).len(),
        forall|j: int| 0 <= j < results.len() ==> #[trigger] results[j] is Ok,
    ensures
        forall|k: int|
            0 <= k < unrestored(values, group, results).len() ==> (#[trigger] unrestored(
                values,
                group,
                results,
            )[k]).group != group,
        forall|i: int|
            0 <= i < values.len() && (#[trigger] values[i]).group != group ==> unrestored(
                values,
                group,
                results,
            ).contains(values[i]),
    decreases values.len(),
{
    if values.len() > 0 {
        let front = values.drop_last();
        group_is_gone(front, group, results);
        let before = unrestored(front, group, results);
        let after = unrestored(values, group, results);
        if values.last().group == group {
            assert(results[of_group(front, group).len() as int] is Ok);
        }
        assert forall|k: int| 0 <= k < after.len() implies (#[trigger] after[k]).group != group by {
            if k < before.len() {
                assert(after[k] == before[k]);
            }
        }
        assert forall|i: int|
            0 <= i < values.len() && (#[trigger] values[i]).group != group implies after.contains(
            values[i],
        ) by {
            if i < front.len() {
                assert(front[i] == values[i]);
                assert(before.contains(front[i]));
                let k = choose|k: int| 0 <= k < before.len() && before[k] == values[i];
                assert(after[k] == values[i]);
            } else {
                assert(after[after.len() - 1] == values[i]);
            }
        }
    }
}

/// After a revert that reports success every archived value of the group is what
/// it was, an absent one absent again; no other value has changed, and the
/// archive holds the entries of the other groups alone.
pub proof fn reverted_group_is_what_it_was(
    archive: Saved,
    group: Seq<char>,
    readable: Set<Seq<char>>,
    regs: Seq<Registry>,
    runs: Seq<Reverting>,
    replies: Seq<Rep>,
)
    requires
        undone_by(archive, group, readable, regs, runs, replies),
        keys_are_distinct(of_group(archive.values, group)),
        runs.last().result matches Some(Ok(_)),
    ensures
        forall|i: int|
            0 <= i < archive.values.len() && (#[trigger] archive.values[i]).group == group
                ==> value_of(regs.last(), archive.values[i].subkey, archive.values[i].name) == (
            if archive.values[i].present {
                Some(archive.values[i].value)
            } else {
                None
            }),
        forall|subkey: Seq<char>, name: Seq<char>|
            #![trigger value_of(regs.last(), subkey, name)]
            (forall|j: int|
                0 <= j < of_group(archive.values, group).len() ==> (#[trigger] of_group(
                    archive.values,
                    group,
                )[j]).subkey != subkey || of_group(archive.values, group)[j].name != name)
                ==> value_of(regs.last(), subkey, name) == value_of(regs[0], subkey, name),
        forall|k: int|
            0 <= k < runs.last().archive.values.len() ==> (
            #[trigger] runs.last().archive.values[k]).group != group,
        forall|i: int|
            0 <= i < archive.values.len() && (#[trigger] archive.values[i]).group != group
                ==> runs.last().archive.values.contains(archive.values[i]),
        runs.last().archive.dns == archive.dns,
{
    let n = runs.len() - 1;
    let entries = of_group(archive.values, group);
    undoing_history(archive, group, readable, regs, runs, replies, n);
    let run = runs[n];
    all_are_fine(run.results);
    group_is_gone(archive.values, group, run.results);
    assert forall|i: int|
        0 <= i < archive.values.len() && (#[trigger] archive.values[i]).group == group implies value_of(
        regs.last(),
        archive.values[i].subkey,
        archive.values[i].name,
    ) == was(archive.values[i]) by {
        entry_is_there(archive.values, group, i);
        let j = choose|j: int| 0 <= j < entries.len() && entries[j] == archive.values[i];
        assert(run.results[j] is Ok);
    }
}

proof fn all_are_fine(results: Seq<Result<(), Seq<char>>>)
    requires
        first_error(results) is None,
    ensures
        forall|j: int| 0 <= j < results.len() ==> #[trigger] results[j] is Ok,
    decreases results.len(),
{
    if results.len() > 0 {
        all_are_fine(results.skip(1));
        assert forall|j: int| 0 <= j < results.len() implies #[trigger] results[j] is Ok by {
            if j > 0 {
                assert(results.skip(1)[j - 1] == results[j]);
            }
        }
    }
}

/// A revert writes and deletes archived values alone: each gets what it was.
pub proof fn reverting_writes_what_was(
    archive: Saved,
    group: Seq<char>,
    readable: Set<Seq<char>>,
    regs: Seq<Registry>,
    runs: Seq<Reverting>,
    replies: Seq<Rep>,
    k: int,
)
    requires
        undone_by(archive, group, readable, regs, runs, replies),
        keys_are_distinct(of_group(archive.values, group)),
        0 <= k < runs.len(),
        runs[k].pending() is Some,
        runs[k].pending() != Some(Act::SaveArchive),
    ensures
        exists|j: int|
            0 <= j < of_group(archive.values, group).len() && {
                let e = #[trigger] of_group(archive.values, group)[j];
                &&& e.present ==> runs[k].pending() == Some(
                    Act::WriteDword { subkey: e.subkey, name: e.name, value: e.value },
                )
                &&& !e.present ==> runs[k].pending() == Some(
                    Act::DeleteValue { subkey: e.subkey, name: e.name },
                )
            },
{
    undoing_history(archive, group, readable, regs, runs, replies, k);
    let e = of_group(archive.values, group)[runs[k].results.len() as int];
    assert(runs[k].pending() == Some(e.restoring()));
}

} // verus!
