//! Why a revert brings the machine back.
//!
//! [`recoverable`] relates the registry as it was before the program first
//! touched it, the registry as it is now, and an archive: the archive describes
//! the registry as it was, and it covers every value that differs. Every step
//! of every tweak and of every revert keeps this relation to the archive in
//! memory and to the one on disk, whether its operations succeed or fail, so
//! that the program may end at any time. Once the archive is drained the
//! registry is the one that was there at first.
//!
//! [`safe`] is what holds between two runs: every run starts from it and ends
//! with it. Within a run a value is recorded, the archive saved, and only after
//! that the value replaced; an entry that cannot be saved is taken back.

use vstd::prelude::*;

use crate::config::{
    dns_recorded, ensured, of_group, recorded, taken_back, unrestored, Backup, Entry, Saved,
    GROUP_MTU, GROUP_POWER, GROUP_SYSTEM, GROUP_TCP,
};
use crate::ops::{truthful, value_of, Act, Registry, Rep};

verus! {

/// The tweak group that a registry value belongs to, by its name.
pub open spec fn group_of(name: Seq<char>) -> Seq<char> {
    if name == "MTU"@ {
        GROUP_MTU@
    } else if name == "PnPCapabilities"@ {
        GROUP_POWER@
    } else if name == "NetworkThrottlingIndex"@ {
        GROUP_SYSTEM@
    } else {
        GROUP_TCP@
    }
}

/// True when the archive holds an entry about this registry value.
pub open spec fn archived(values: Seq<Entry>, subkey: Seq<char>, name: Seq<char>) -> bool {
    exists|i: int| 0 <= i < values.len() && (#[trigger] values[i]).is_at(subkey, name)
}

/// The archive describes `original`, every entry stands in the group of its
/// value, and every value in which `current` differs from `original` is
/// archived.
pub open spec fn recoverable(original: Registry, current: Registry, values: Seq<Entry>) -> bool {
    &&& forall|i: int|
        0 <= i < values.len() ==> (#[trigger] values[i]).saved() == value_of(
            original,
            values[i].subkey,
            values[i].name,
        )
    &&& forall|i: int|
        0 <= i < values.len() ==> (#[trigger] values[i]).group == group_of(values[i].name)
    &&& forall|subkey: Seq<char>, name: Seq<char>|
        value_of(original, subkey, name) != value_of(current, subkey, name) ==> #[trigger] archived(
            values,
            subkey,
            name,
        )
}

/// The action changes archived values only, or puts a value back that was
/// there originally.
pub open spec fn harmless(original: Registry, values: Seq<Entry>, action: Act) -> bool {
    match action {
        Act::WriteDword { subkey, name, value } => {
            ||| archived(values, subkey, name)
            ||| value_of(original, subkey, name) == Some(value)
        },
        Act::DeleteValue { subkey, name } => archived(values, subkey, name),
        Act::LiveMtu { subkey, value, persistent, .. } => {
            ||| !persistent
            ||| archived(values, subkey, "MTU"@)
            ||| value_of(original, subkey, "MTU"@) == Some(value)
        },
        _ => true,
    }
}

/// [`harmless`] for an action that may be absent.
pub open spec fn harmless_pending(
    original: Registry,
    values: Seq<Entry>,
    action: Option<Act>,
) -> bool {
    match action {
        Some(a) => harmless(original, values, a),
        None => true,
    }
}

/// The archive on disk after `reply` to `action` of a run whose own archive is
/// `archive`. A save replaces the file as a whole, or leaves it as it is.
pub open spec fn on_disk(disk: Saved, archive: Saved, action: Act, reply: Rep) -> Saved {
    if action is SaveArchive && reply matches Rep::Done(Ok(_)) {
        archive
    } else {
        disk
    }
}

/// Every registry value with an entry in `values` has one on disk.
pub open spec fn covered(values: Seq<Entry>, disk: Seq<Entry>) -> bool {
    forall|subkey: Seq<char>, name: Seq<char>| #[trigger]
        archived(values, subkey, name) ==> archived(disk, subkey, name)
}

/// Every adapter with an entry in `dns` has one on disk.
pub open spec fn dns_covered(dns: Seq<Backup>, disk: Seq<Backup>) -> bool {
    forall|interface: Seq<char>| #[trigger]
        dns_recorded(dns, interface) ==> dns_recorded(disk, interface)
}

/// The registry can be recovered from the archive on disk and from `archive`,
/// and nothing that `archive` holds is missing on disk.
pub open spec fn safe(original: Registry, current: Registry, disk: Saved, archive: Saved) -> bool {
    &&& recoverable(original, current, disk.values)
    &&& recoverable(original, current, archive.values)
    &&& covered(archive.values, disk.values)
    &&& dns_covered(archive.dns, disk.dns)
}

/// `archive` has been given an entry about this registry value that is not on
/// disk yet; without it everything is [`safe`].
pub open spec fn saving(
    original: Registry,
    current: Registry,
    disk: Saved,
    archive: Saved,
    subkey: Seq<char>,
    name: Seq<char>,
) -> bool {
    &&& archive.values.len() > 0
    &&& archived(archive.values, subkey, name)
    &&& recoverable(original, current, archive.values)
    &&& safe(original, current, disk, taken_back(archive))
}

/// Before the program has touched anything, an empty archive is enough to
/// recover.
pub proof fn untouched_is_recoverable(original: Registry)
    ensures
        recoverable(original, original, Seq::empty()),
{
}

/// Once the archive is drained, the registry is exactly the original one.
pub proof fn drained_means_restored(original: Registry, current: Registry)
    requires
        recoverable(original, current, Seq::empty()),
    ensures
        current == original,
{
    assert forall|key: (Seq<char>, Seq<char>)| #[trigger]
        current.dom().contains(key) == original.dom().contains(key) && (original.dom().contains(
            key,
        ) ==> original[key] == current[key]) by {
        assert(!archived(Seq::empty(), key.0, key.1));
        assert(value_of(original, key.0, key.1) == value_of(current, key.0, key.1));
    }
    assert(current =~= original);
}

/// A harmless action leaves the registry recoverable, whatever it answers.
pub proof fn acting_keeps_recoverable(
    original: Registry,
    before: Registry,
    values: Seq<Entry>,
    action: Act,
    reply: Rep,
    after: Registry,
)
    requires
        recoverable(original, before, values),
        harmless(original, values, action),
        truthful(before, action, reply, after),
    ensures
        recoverable(original, after, values),
{
    assert forall|subkey: Seq<char>, name: Seq<char>|
        value_of(original, subkey, name) != value_of(after, subkey, name) implies #[trigger] archived(
        values,
        subkey,
        name,
    ) by {
        if value_of(before, subkey, name) == value_of(after, subkey, name) {
        }
    }
}

/// Recording the value that the registry holds keeps it recoverable and makes
/// the value safe to change.
pub proof fn recording_keeps_recoverable(
    original: Registry,
    current: Registry,
    values: Seq<Entry>,
    group: Seq<char>,
    subkey: Seq<char>,
    name: Seq<char>,
)
    requires
        recoverable(original, current, values),
        group == group_of(name),
    ensures
        recoverable(
            original,
            current,
            ensured(values, group, subkey, name, value_of(current, subkey, name)),
        ),
        archived(
            ensured(values, group, subkey, name, value_of(current, subkey, name)),
            subkey,
            name,
        ),
{
    let grown = ensured(values, group, subkey, name, value_of(current, subkey, name));
    if recorded(values, group, subkey, name) {
        let i = choose|i: int|
            0 <= i < values.len() && (#[trigger] values[i]).group == group && values[i].is_at(
                subkey,
                name,
            );
        assert(values[i].is_at(subkey, name));
    } else {
        if archived(values, subkey, name) {
            let i = choose|i: int| 0 <= i < values.len() && (#[trigger] values[i]).is_at(subkey, name);
            assert(values[i].group == group);
            assert(false);
        }
        let n = values.len() as int;
        assert(grown[n].is_at(subkey, name));
        assert(grown[n].saved() == value_of(current, subkey, name));
        assert forall|i: int| 0 <= i < grown.len() implies (#[trigger] grown[i]).saved() == value_of(
            original,
            grown[i].subkey,
            grown[i].name,
        ) by {
            if i < n {
                assert(grown[i] == values[i]);
            }
        }
        assert forall|i: int| 0 <= i < grown.len() implies (#[trigger] grown[i]).group == group_of(
            grown[i].name,
        ) by {
            if i < n {
                assert(grown[i] == values[i]);
            }
        }
        assert forall|k: Seq<char>, m: Seq<char>|
            value_of(original, k, m) != value_of(current, k, m) implies #[trigger] archived(
            grown,
            k,
            m,
        ) by {
            assert(archived(values, k, m));
            archived_stays(values, group, subkey, name, value_of(current, subkey, name), k, m);
        }
    }
}

/// Wherever the program ended, it starts again safely from the archive on disk.
pub proof fn restarting_is_safe(original: Registry, current: Registry, disk: Saved)
    requires
        recoverable(original, current, disk.values),
    ensures
        safe(original, current, disk, disk),
{
}

/// An archive that was good at an earlier time is good again once the registry is
/// the original one: after a full revert it may be put back in place.
pub proof fn earlier_archive_suits_a_restored_machine(
    original: Registry,
    earlier: Registry,
    values: Seq<Entry>,
)
    requires
        recoverable(original, earlier, values),
    ensures
        recoverable(original, original, values),
{
}

/// A harmless action leaves everything safe, whatever it answers.
pub proof fn acting_keeps_safe(
    original: Registry,
    before: Registry,
    disk: Saved,
    archive: Saved,
    action: Act,
    reply: Rep,
    after: Registry,
)
    requires
        safe(original, before, disk, archive),
        harmless(original, disk.values, action),
        harmless(original, archive.values, action),
        truthful(before, action, reply, after),
    ensures
        safe(original, after, on_disk(disk, archive, action, reply), archive),
{
    acting_keeps_recoverable(original, before, disk.values, action, reply, after);
    acting_keeps_recoverable(original, before, archive.values, action, reply, after);
}

/// Recording the value that the registry holds either finds it on disk already,
/// or leaves an entry to be saved.
pub proof fn recording_is_safe_or_saving(
    original: Registry,
    current: Registry,
    disk: Saved,
    archive: Saved,
    group: Seq<char>,
    subkey: Seq<char>,
    name: Seq<char>,
)
    requires
        safe(original, current, disk, archive),
        group == group_of(name),
    ensures
        ({
            let grown = Saved {
                values: ensured(
                    archive.values,
                    group,
                    subkey,
                    name,
                    value_of(current, subkey, name),
                ),
                dns: archive.dns,
            };
            if recorded(archive.values, group, subkey, name) {
                &&& grown == archive
                &&& archived(archive.values, subkey, name)
                &&& archived(disk.values, subkey, name)
            } else {
                saving(original, current, disk, grown, subkey, name)
            }
        }),
{
    let grown = ensured(archive.values, group, subkey, name, value_of(current, subkey, name));
    recording_keeps_recoverable(original, current, archive.values, group, subkey, name);
    if !recorded(archive.values, group, subkey, name) {
        assert(grown.drop_last() =~= archive.values);
    }
}

/// Once the new entry has been saved everything is safe, and its value may be
/// replaced. When it could not be saved, taking it back leaves everything safe.
pub proof fn saving_ends_safe(
    original: Registry,
    before: Registry,
    disk: Saved,
    archive: Saved,
    subkey: Seq<char>,
    name: Seq<char>,
    reply: Rep,
    after: Registry,
)
    requires
        saving(original, before, disk, archive, subkey, name),
        truthful(before, Act::SaveArchive, reply, after),
    ensures
        after == before,
        reply matches Rep::Done(Ok(_)) ==> safe(
            original,
            after,
            on_disk(disk, archive, Act::SaveArchive, reply),
            archive,
        ) && archived(on_disk(disk, archive, Act::SaveArchive, reply).values, subkey, name),
        reply matches Rep::Done(Err(_)) ==> safe(
            original,
            after,
            on_disk(disk, archive, Act::SaveArchive, reply),
            taken_back(archive),
        ),
{
}

/// What is archived stays archived when another value is recorded.
pub proof fn archived_stays(
    values: Seq<Entry>,
    group: Seq<char>,
    subkey: Seq<char>,
    name: Seq<char>,
    current: Option<u32>,
    k: Seq<char>,
    m: Seq<char>,
)
    requires
        archived(values, k, m),
    ensures
        archived(ensured(values, group, subkey, name, current), k, m),
{
    let i = choose|i: int| 0 <= i < values.len() && (#[trigger] values[i]).is_at(k, m);
    let grown = ensured(values, group, subkey, name, current);
    assert(grown[i] == values[i]);
}

/// Dropping the entries of a group whose values have been put back keeps the
/// registry recoverable.
pub proof fn settling_keeps_recoverable(
    original: Registry,
    current: Registry,
    values: Seq<Entry>,
    group: Seq<char>,
    results: Seq<Result<(), Seq<char>>>,
)
    requires
        recoverable(original, current, values),
        results.len() == of_group(values, group).len(),
        forall|j: int|
            0 <= j < results.len() && results[j] is Ok ==> value_of(
                current,
                (#[trigger] of_group(values, group)[j]).subkey,
                of_group(values, group)[j].name,
            ) == of_group(values, group)[j].saved(),
    ensures
        recoverable(original, current, unrestored(values, group, results)),
{
    let kept = unrestored(values, group, results);
    assert forall|i: int| 0 <= i < kept.len() implies values.contains(#[trigger] kept[i]) by {
        unrestored_is_part(values, group, results, i);
    }
    assert forall|i: int| 0 <= i < kept.len() implies (#[trigger] kept[i]).saved() == value_of(
        original,
        kept[i].subkey,
        kept[i].name,
    ) && kept[i].group == group_of(kept[i].name) by {
        assert(values.contains(kept[i]));
        let k = choose|k: int| 0 <= k < values.len() && values[k] == kept[i];
        assert(values[k].saved() == value_of(original, values[k].subkey, values[k].name));
    }
    assert forall|subkey: Seq<char>, name: Seq<char>|
        value_of(original, subkey, name) != value_of(current, subkey, name) implies #[trigger] archived(
        kept,
        subkey,
        name,
    ) by {
        assert(archived(values, subkey, name));
        let i = choose|i: int| 0 <= i < values.len() && (#[trigger] values[i]).is_at(subkey, name);
        entry_is_kept_or_restored(values, group, results, i);
        if kept.contains(values[i]) {
            let k = choose|k: int| 0 <= k < kept.len() && kept[k] == values[i];
            assert(kept[k].is_at(subkey, name));
        } else {
            let j = choose|j: int|
                0 <= j < of_group(values, group).len() && results[j] is Ok && #[trigger] of_group(
                    values,
                    group,
                )[j] == values[i];
            assert(value_of(current, subkey, name) == values[i].saved());
        }
    }
}

/// What is left after a restore is on disk if everything was before.
pub proof fn settling_keeps_covered(
    values: Seq<Entry>,
    disk: Seq<Entry>,
    group: Seq<char>,
    results: Seq<Result<(), Seq<char>>>,
)
    requires
        covered(values, disk),
    ensures
        covered(unrestored(values, group, results), disk),
{
    let kept = unrestored(values, group, results);
    assert forall|subkey: Seq<char>, name: Seq<char>| #[trigger]
        archived(kept, subkey, name) implies archived(disk, subkey, name) by {
        let i = choose|i: int| 0 <= i < kept.len() && (#[trigger] kept[i]).is_at(subkey, name);
        unrestored_is_part(values, group, results, i);
        let k = choose|k: int| 0 <= k < values.len() && values[k] == kept[i];
        assert(values[k].is_at(subkey, name));
        assert(archived(values, subkey, name));
    }
}

/// What is left after a restore was in the archive before.
proof fn unrestored_is_part(
    values: Seq<Entry>,
    group: Seq<char>,
    results: Seq<Result<(), Seq<char>>>,
    i: int,
)
    requires
        0 <= i < unrestored(values, group, results).len(),
    ensures
        values.contains(unrestored(values, group, results)[i]),
    decreases values.len(),
{
    if values.len() > 0 {
        let front = values.drop_last();
        let rest = unrestored(front, group, results);
        let kept = unrestored(values, group, results);
        if i < rest.len() {
            unrestored_is_part(front, group, results, i);
            assert(kept[i] == rest[i]);
            let k = choose|k: int| 0 <= k < front.len() && front[k] == rest[i];
            assert(values[k] == kept[i]);
        } else {
            assert(kept[i] == values[values.len() - 1]);
        }
    }
}

/// An entry is either left in the archive, or it was restored.
proof fn entry_is_kept_or_restored(
    values: Seq<Entry>,
    group: Seq<char>,
    results: Seq<Result<(), Seq<char>>>,
    i: int,
)
    requires
        0 <= i < values.len(),
        of_group(values, group).len() <= results.len(),
    ensures
        unrestored(values, group, results).contains(values[i]) || exists|j: int|
            0 <= j < of_group(values, group).len() && results[j] is Ok && #[trigger] of_group(
                values,
                group,
            )[j] == values[i],
    decreases values.len(),
{
    let front = values.drop_last();
    let rest = unrestored(front, group, results);
    let kept = unrestored(values, group, results);
    let before = of_group(front, group);
    let all = of_group(values, group);
    if i < values.len() - 1 {
        entry_is_kept_or_restored(front, group, results, i);
        assert(front[i] == values[i]);
        if rest.contains(values[i]) {
            let k = choose|k: int| 0 <= k < rest.len() && rest[k] == values[i];
            assert(kept[k] == values[i]);
        } else {
            let j = choose|j: int|
                0 <= j < before.len() && results[j] is Ok && #[trigger] before[j] == front[i];
            assert(all[j] == values[i]);
        }
    } else if values.last().group != group || results[before.len() as int] is Err {
        assert(kept[kept.len() - 1] == values[i]);
    } else {
        assert(all[before.len() as int] == values[i]);
    }
}

} // verus!
