//! What is archived, logged and kept in files, and the times that name them.

use vstd::prelude::*;

use crate::config::{
    dns_ensured, ensured, is_json, of_group, profile_of, profiles_of, recorded, restoring,
    taken_back, unrestored, valid_profile_name, Backup, Entry, Saved, MAX_SNAPSHOTS,
};
use crate::log::{entry_of, last_lines, logged, stamp_of, Time, MAX_BYTES};
use crate::ops::{first_error, Act};
use crate::registry::{opening, read_failures, Answer, Fault};
use crate::restore::{described, message_of};
use crate::text::{alphanumeric, decimal, ends, hex_lower, joined, lines_of, pad_left};
use crate::utf16::encoded;
use crate::win::{day_number, falls_on, is_date, stamp_text};

verus! {

// ---------------------------------------------------------------------------
// The archive
// ---------------------------------------------------------------------------

/// Recording a value adds one entry that says whether there was a value and
/// which, unless it is recorded already: what was recorded first stays, and
/// recording it again changes nothing.
pub proof fn first_recording_stays(
    values: Seq<Entry>,
    group: Seq<char>,
    subkey: Seq<char>,
    name: Seq<char>,
    current: Option<u32>,
    later: Option<u32>,
)
    ensures
        ({
            let after = ensured(values, group, subkey, name, current);
            let known = exists|i: int|
                0 <= i < values.len() && (#[trigger] values[i]).group == group && values[i].subkey
                    == subkey && values[i].name == name;
            &&& known ==> after == values
            &&& !known ==> {
                let e = after.last();
                &&& after == values.push(e)
                &&& e.group == group && e.subkey == subkey && e.name == name
                &&& e.present <==> current is Some
                &&& current matches Some(v) ==> e.value == v
            }
            &&& ensured(after, group, subkey, name, later) == after
        }),
{
    let after = ensured(values, group, subkey, name, current);
    let known = exists|i: int|
        0 <= i < values.len() && (#[trigger] values[i]).group == group && values[i].subkey
            == subkey && values[i].name == name;
    if known {
        let i = choose|i: int|
            0 <= i < values.len() && (#[trigger] values[i]).group == group && values[i].subkey
                == subkey && values[i].name == name;
        assert(values[i].is_at(subkey, name));
        assert(recorded(values, group, subkey, name));
    } else {
        assert(!recorded(values, group, subkey, name));
        assert(after[values.len() as int].is_at(subkey, name));
        assert(recorded(after, group, subkey, name));
    }
}

/// An entry that cannot be kept is taken back: the archive is what it was before.
pub proof fn taking_back_undoes_a_recording(
    archive: Saved,
    group: Seq<char>,
    subkey: Seq<char>,
    name: Seq<char>,
    current: Option<u32>,
)
    requires
        !recorded(archive.values, group, subkey, name),
    ensures
        taken_back(
            Saved {
                values: ensured(archive.values, group, subkey, name, current),
                dns: archive.dns,
            },
        ) == archive,
{
    assert(ensured(archive.values, group, subkey, name, current).drop_last() =~= archive.values);
}

/// An adapter's servers are recorded once, as they are.
pub proof fn first_servers_stay(states: Seq<Backup>, backup: Backup, later: Backup)
    requires
        later.interface == backup.interface,
    ensures
        ({
            let after = dns_ensured(states, backup);
            let known = exists|i: int|
                0 <= i < states.len() && (#[trigger] states[i]).interface == backup.interface;
            &&& known ==> after == states
            &&& !known ==> after == states.push(backup)
            &&& dns_ensured(after, later) == after
        }),
{
    let after = dns_ensured(states, backup);
    if !(exists|i: int|
        0 <= i < states.len() && (#[trigger] states[i]).interface == backup.interface) {
        assert(after[states.len() as int].interface == later.interface);
    }
}

/// An archived value is put back with a write where there was one, and with a
/// deletion where there was none.
pub proof fn restoring_puts_the_value_back(entries: Seq<Entry>, i: int)
    requires
        0 <= i < entries.len(),
    ensures
        restoring(entries).len() == entries.len(),
        entries[i].present ==> restoring(entries)[i] == (Act::WriteDword {
            subkey: entries[i].subkey,
            name: entries[i].name,
            value: entries[i].value,
        }),
        !entries[i].present ==> restoring(entries)[i] == (Act::DeleteValue {
            subkey: entries[i].subkey,
            name: entries[i].name,
        }),
{
}

/// The entries of a group are those with its name, in order. After a restore, an
/// entry is gone exactly when it is of the group and its restore succeeded.
pub proof fn restored_entries_leave(
    values: Seq<Entry>,
    e: Entry,
    group: Seq<char>,
    results: Seq<Result<(), Seq<char>>>,
)
    ensures
        of_group(Seq::empty(), group).len() == 0,
        of_group(values.push(e), group) == if e.group == group {
            of_group(values, group).push(e)
        } else {
            of_group(values, group)
        },
        unrestored(Seq::empty(), group, results).len() == 0,
        unrestored(values.push(e), group, results) == if e.group == group && results[of_group(
            values,
            group,
        ).len() as int] is Ok {
            unrestored(values, group, results)
        } else {
            unrestored(values, group, results).push(e)
        },
{
    assert(values.push(e).drop_last() =~= values);
}

/// The error of a row of results is the first one, and there is none exactly
/// when all succeeded.
pub proof fn first_error_is_told(results: Seq<Result<(), Seq<char>>>, k: int)
    requires
        0 <= k <= results.len(),
        forall|i: int| 0 <= i < k ==> #[trigger] results[i] is Ok,
        k < results.len() ==> results[k] is Err,
    ensures
        k < results.len() ==> first_error(results) == Some(results[k]->Err_0),
        k == results.len() ==> first_error(results) is None,
    decreases k,
{
    if k > 0 {
        assert(results[0] is Ok);
        assert forall|i: int| 0 <= i < k - 1 implies #[trigger] results.skip(1)[i] is Ok by {
            assert(results[i + 1] is Ok);
        }
        first_error_is_told(results.skip(1), k - 1);
    }
}

// ---------------------------------------------------------------------------
// Profiles and snapshots
// ---------------------------------------------------------------------------

/// A profile name has 1 to 40 characters, each alphanumeric, a dash, an
/// underscore or a dot.
pub proof fn profile_names_are_these(name: Seq<char>)
    ensures
        valid_profile_name(name) <==> 1 <= name.len() <= 40 && forall|i: int|
            0 <= i < name.len() ==> alphanumeric(#[trigger] name[i]) || name[i] == '-' || name[i]
                == '_' || name[i] == '.',
{
    if 1 <= name.len() <= 40 && forall|i: int|
        0 <= i < name.len() ==> alphanumeric(#[trigger] name[i]) || name[i] == '-' || name[i] == '_'
            || name[i] == '.' {
        assert forall|i: int| 0 <= i < name.len() implies crate::config::profile_char(
            #[trigger] name[i],
        ) by {
            assert(alphanumeric(name[i]) || name[i] == '-' || name[i] == '_' || name[i] == '.');
        }
    }
    if valid_profile_name(name) {
        assert forall|i: int| 0 <= i < name.len() implies alphanumeric(#[trigger] name[i])
            || name[i] == '-' || name[i] == '_' || name[i] == '.' by {
            assert(crate::config::profile_char(name[i]));
        }
    }
}

/// A file holds a profile, or a snapshot, exactly when a name stands before its
/// extension `.json`.
pub proof fn json_files_have_a_name(file: Seq<char>, name: Seq<char>)
    ensures
        name.len() > 0 ==> is_json(name + ".json"@) && profile_of(name + ".json"@) == Some(name),
        is_json(file) <==> profile_of(file) is Some,
        profile_of(file) == Some(name) ==> file == name + ".json"@ && name.len() > 0,
{
    let whole = name + ".json"@;
    assert(whole.skip(whole.len() - ".json"@.len()) =~= ".json"@);
    assert(whole.take(whole.len() - ".json"@.len()) =~= name);
    if profile_of(file) == Some(name) {
        assert(file =~= file.take(file.len() - ".json"@.len()) + file.skip(
            file.len() - ".json"@.len(),
        ));
    }
}

/// Every file that holds a profile gives its name, and no other file does.
pub proof fn profiles_are_listed(files: Seq<Seq<char>>, file: Seq<char>)
    ensures
        profiles_of(Seq::empty()).len() == 0,
        profiles_of(files.push(file)) == match profile_of(file) {
            Some(name) => profiles_of(files).push(name),
            None => profiles_of(files),
        },
{
    assert(files.push(file).drop_last() =~= files);
}

/// Eight snapshots of the archive are kept, and a log is kept up to a mebibyte.
pub proof fn files_are_kept_within_bounds(size: u64)
    ensures
        MAX_SNAPSHOTS == 8,
        size > MAX_BYTES <==> size > 1024 * 1024,
{
}

// ---------------------------------------------------------------------------
// The log
// ---------------------------------------------------------------------------

/// The last digits of a number, zeros in front.
pub open spec fn places(n: nat, width: nat) -> Seq<char>
    decreases width,
{
    if width == 0 {
        Seq::empty()
    } else {
        places(n / 10, (width - 1) as nat).push("0123456789"@[(n % 10) as int])
    }
}

/// The number has at most `width` decimal digits.
pub open spec fn has_room(n: nat, width: nat) -> bool
    decreases width,
{
    if width == 0 {
        n == 0
    } else {
        has_room(n / 10, (width - 1) as nat)
    }
}

proof fn padded_places(n: nat, width: nat)
    requires
        has_room(n, width),
        width >= 1,
    ensures
        pad_left(decimal(n), width, '0') == places(n, width),
        decimal(n).len() <= width,
    decreases width,
{
    let d = n % 10;
    let c = "0123456789"@[d as int];
    crate::laws::texts::decimals_go_digit_by_digit(n / 10, d);
    assert(n == 10 * (n / 10) + d);
    reveal_with_fuel(has_room, 2);
    reveal_with_fuel(places, 2);
    if width == 1 {
        assert(n / 10 == 0);
        assert(decimal(n) == seq![c]);
        assert(places(n, 1) =~= seq![c]);
        assert(pad_left(decimal(n), 1, '0') =~= places(n, 1));
    } else {
        let w = (width - 1) as nat;
        padded_places(n / 10, w);
        if n / 10 > 0 {
            assert(pad_left(decimal(n), width, '0') =~= pad_left(decimal(n / 10), w, '0').push(c));
        } else {
            crate::laws::texts::decimals_go_digit_by_digit(0, 0);
            reveal_strlit("0123456789");
            assert(decimal(0) == seq!['0']);
            assert(decimal(n) == seq![c]);
            assert(pad_left(decimal(n), width, '0') =~= pad_left(decimal(0), w, '0').push(c));
        }
    }
}

/// The stamp of a log line is `YYYY-MM-DD HH:MM:SS`.
pub proof fn log_stamps_are_these(t: Time)
    requires
        t.year <= 9999,
        t.month <= 99,
        t.day <= 99,
        t.hour <= 99,
        t.minute <= 99,
        t.second <= 99,
    ensures
        stamp_of(t) == places(t.year as nat, 4) + "-"@ + places(t.month as nat, 2) + "-"@ + places(
            t.day as nat,
            2,
        ) + " "@ + places(t.hour as nat, 2) + ":"@ + places(t.minute as nat, 2) + ":"@ + places(
            t.second as nat,
            2,
        ),
{
    reveal_with_fuel(has_room, 5);
    padded_places(t.year as nat, 4);
    padded_places(t.month as nat, 2);
    padded_places(t.day as nat, 2);
    padded_places(t.hour as nat, 2);
    padded_places(t.minute as nat, 2);
    padded_places(t.second as nat, 2);
}

/// The log names the value that was set, the value that was deleted, or the
/// arguments of `netsh`; a failure is added with its reason.
pub proof fn log_lines_are_these(
    subkey: Seq<char>,
    name: Seq<char>,
    value: u32,
    args: Seq<Seq<char>>,
    error: Seq<char>,
    action: Act,
)
    ensures
        logged(Act::WriteDword { subkey, name, value }) == Some(
            "set "@ + subkey + "\\"@ + name + " to "@ + decimal(value as nat),
        ),
        logged(Act::DeleteValue { subkey, name }) == Some("delete "@ + subkey + "\\"@ + name),
        logged(Act::Netsh { args }) == Some("netsh "@ + joined(args, " "@)),
        action is LiveMtu ==> logged(action) == Some(
            "netsh "@ + joined(action->LiveMtu_args, " "@),
        ),
        entry_of(action, Ok(())) == logged(action),
        logged(action) matches Some(what) ==> entry_of(action, Err(error)) == Some(
            what + ": "@ + error,
        ),
{
}

/// The last lines of the log are its end: as many as asked for, or all.
pub proof fn last_lines_are_the_end(text: Seq<char>, limit: nat)
    ensures
        ({
            let all = lines_of(text);
            let last = last_lines(text, limit);
            &&& last.len() == if all.len() < limit {
                all.len()
            } else {
                limit
            }
            &&& forall|i: int|
                0 <= i < last.len() ==> #[trigger] last[i] == all[all.len() - last.len() + i]
        }),
{
}

// ---------------------------------------------------------------------------
// Restore points and registry calls
// ---------------------------------------------------------------------------

/// The known statuses of a restore point have their own message, every other one
/// is told by its number.
pub proof fn restore_messages_are_these(status: u32)
    ensures
        message_of(0) == "the restore point was created"@,
        message_of(10) == "system restore is disabled"@,
        message_of(112) == "not enough free disk space"@,
        message_of(1211) == "the system volume is too small"@,
        message_of(0xC000_0022) == "access denied: are you running as administrator?"@,
        status != 0 && status != 10 && status != 112 && status != 1211 && status != 0xC000_0022
            ==> message_of(status) == "restore point creation failed (status 0x"@ + hex_lower(
            status as nat,
        ) + ")"@,
{
}

/// A description is cut to 255 code units; what it does not reach stays.
pub proof fn descriptions_are_cut(buffer: Seq<u16>, text: Seq<char>, i: int)
    requires
        buffer.len() == 256,
        0 <= i < 256,
    ensures
        described(buffer, text).len() == 256,
        i < 255 && i < encoded(text).len() ==> described(buffer, text)[i] == encoded(text)[i],
        i == 255 || i >= encoded(text).len() ==> described(buffer, text)[i] == buffer[i],
{
}

/// A key is open where it was found or could be created, missing where neither
/// holds, and every other status is an error.
pub proof fn keys_open_by_their_status(status: u32, create: bool, created: u32)
    ensures
        status == 0 ==> opening(status, create, created) == Ok::<bool, Fault>(true),
        status == 2 ==> opening(status, create, created) == Ok::<bool, Fault>(
            create && created == 0,
        ),
        status != 0 && status != 2 ==> opening(status, create, created) == Err::<bool, Fault>(
            Fault::Os(status),
        ),
{
}

/// A reading that failed is told of exactly when it was made under the key that
/// has to exist or under a key that is readable; it names the value.
pub proof fn failed_readings_are_told(
    values: Seq<Answer>,
    a: Answer,
    keys: Seq<Seq<char>>,
    base: Option<Seq<char>>,
)
    ensures
        read_failures(Seq::empty(), keys, base).len() == 0,
        read_failures(values.push(a), keys, base) == if a.answer is Err && (base == Some(a.subkey)
            || keys.contains(a.subkey)) {
            read_failures(values, keys, base).push(
                "read "@ + a.subkey + "\\"@ + a.name + ": "@ + a.answer->Err_0,
            )
        } else {
            read_failures(values, keys, base)
        },
{
    assert(values.push(a).drop_last() =~= values);
}

// ---------------------------------------------------------------------------
// The calendar
// ---------------------------------------------------------------------------

/// How many days a month has.
pub open spec fn month_days(year: int, month: int) -> int {
    if month == 2 {
        if (year % 4 == 0 && year % 100 != 0) || year % 400 == 0 {
            29
        } else {
            28
        }
    } else if month == 4 || month == 6 || month == 9 || month == 11 {
        30
    } else {
        31
    }
}

/// The first of January 1970 is day zero, and every day is followed by the next:
/// in its month, in the next month, or in the next year.
pub proof fn days_follow_each_other(year: int, month: int, day: int)
    requires
        is_date(year, month, day),
    ensures
        day_number(1970, 1, 1) == 0,
        1 <= month <= 12,
        1 <= day <= month_days(year, month),
        day < month_days(year, month) ==> is_date(year, month, day + 1) && day_number(
            year,
            month,
            day + 1,
        ) == day_number(year, month, day) + 1,
        day == month_days(year, month) && month < 12 ==> is_date(year, month + 1, 1)
            && day_number(year, month + 1, 1) == day_number(year, month, day) + 1,
        day == month_days(year, month) && month == 12 ==> is_date(year + 1, 1, 1) && day_number(
            year + 1,
            1,
            1,
        ) == day_number(year, month, day) + 1,
{
    reveal_with_fuel(crate::win::days_before_month, 14);
    if day == month_days(year, month) && month == 12 {
        crate::win::leap_days_grow(year);
    }
}

/// A stamp is `YYYY-MM-DD-HHMMSS` of the day and the second that it stands for,
/// as long as the year has four digits.
pub proof fn stamps_are_these(unix: int, year: int, month: int, day: int)
    requires
        0 <= unix,
        falls_on(unix, year, month, day),
        0 <= year <= 9999,
    ensures
        is_date(year, month, day) && day_number(year, month, day) == unix / 86_400,
        ({
            let second = unix % 86_400;
            stamp_text(year, month, day, second) == places(year as nat, 4) + "-"@ + places(
                month as nat,
                2,
            ) + "-"@ + places(day as nat, 2) + "-"@ + (places((second / 3600) as nat, 2) + places(
                ((second / 60) % 60) as nat,
                2,
            ) + places((second % 60) as nat, 2))
        }),
{
    let second = unix % 86_400;
    four_places(year as nat);
    two_places(month as nat);
    two_places(day as nat);
    clock_places(second);
    two_places((second / 3600) as nat);
    two_places(((second / 60) % 60) as nat);
    two_places((second % 60) as nat);
}

proof fn two_places(n: nat)
    requires
        n < 100,
    ensures
        crate::win::field(n as int, 2) == places(n, 2),
{
    reveal_with_fuel(has_room, 3);
    padded_places(n, 2);
}

proof fn four_places(n: nat)
    requires
        n < 10_000,
    ensures
        crate::win::field(n as int, 4) == places(n, 4),
{
    reveal_with_fuel(has_room, 5);
    padded_places(n, 4);
}

proof fn clock_places(second: int)
    requires
        0 <= second < 86_400,
    ensures
        (second % 3600) / 60 == (second / 60) % 60,
        0 <= second / 3600 < 24,
        0 <= (second / 60) % 60 < 60,
        0 <= second % 60 < 60,
{
    let m = second / 60;
    assert(second == 60 * m + second % 60);
    assert(m == 60 * (m / 60) + m % 60);
    assert(second / 3600 == m / 60);
    assert(second % 3600 == 60 * (m % 60) + second % 60);
}

/// The groups of the archive go by these names.
pub proof fn groups_go_by_their_names(name: Seq<char>)
    ensures
        crate::config::GROUP_TCP@ == "tcp"@,
        crate::config::GROUP_SYSTEM@ == "system"@,
        crate::config::GROUP_MTU@ == "mtu"@,
        crate::config::GROUP_POWER@ == "power"@,
{
}

/// A restore point is begun with event 100 and ended with event 101, as a change
/// of settings.
pub proof fn restore_events_are_these(begun: crate::restore::Request)
    requires
        begun.event_type == crate::restore::BEGIN_SYSTEM_CHANGE,
        begun.restore_point_type == crate::restore::MODIFY_SETTINGS,
    ensures
        begun.event_type == 100,
        begun.restore_point_type == 12,
        crate::restore::END_SYSTEM_CHANGE == 101,
{
}

/// A value that is missing reads as none, a DWORD as its number; a value of
/// another type and every other status are errors.
pub proof fn values_read_by_their_status(
    name: Seq<char>,
    status: u32,
    value_type: u32,
    data: u32,
)
    ensures
        ({
            let found = crate::registry::dword_found(name, status, value_type, data);
            &&& status == 2 ==> found == Ok::<Option<u32>, Fault>(None)
            &&& status == 0 && value_type == 4 ==> found == Ok::<Option<u32>, Fault>(Some(data))
            &&& status == 0 && value_type != 4 ==> found == Err::<Option<u32>, Fault>(
                Fault::Message("value '"@ + name + "' is not a DWORD"@),
            )
            &&& status != 0 && status != 2 ==> found == Err::<Option<u32>, Fault>(
                Fault::Os(status),
            )
        }),
{
}

/// A write succeeds with status zero alone, a deletion also where there was
/// nothing to delete, and an enumeration ends with either of two statuses.
pub proof fn calls_succeed_by_their_status(status: u32)
    ensures
        crate::registry::written(status) is Ok <==> status == 0,
        crate::registry::deleted(status) is Ok <==> status == 0 || status == 2,
        crate::registry::name_found(status) == Ok::<bool, Fault>(true) <==> status == 0,
        crate::registry::name_found(status) == Ok::<bool, Fault>(false) <==> status == 2 || status
            == 259,
        crate::registry::written(status) is Err ==> crate::registry::written(status) == Err::<
            (),
            Fault,
        >(Fault::Os(status)),
        crate::registry::deleted(status) is Err ==> crate::registry::deleted(status) == Err::<
            (),
            Fault,
        >(Fault::Os(status)),
        crate::registry::name_found(status) is Err ==> crate::registry::name_found(status)
            == Err::<bool, Fault>(Fault::Os(status)),
{
}

/// A text value needs half as many code units as it has bytes, and one for the
/// terminator; a missing value and one of another type are none.
pub proof fn texts_need_room_for_the_terminator(status: u32, value_type: u32, bytes: u32)
    ensures
        ({
            let units = crate::registry::text_units(status, value_type, bytes);
            &&& status == 2 || value_type != 1 ==> units == Ok::<Option<usize>, Fault>(None)
            &&& status == 0 && value_type == 1 ==> (units matches Ok(Some(n)) && 2 * n >= bytes + 1
                && 2 * n <= bytes + 2)
            &&& status != 0 && status != 2 && value_type == 1 ==> units == Err::<
                Option<usize>,
                Fault,
            >(Fault::Os(status))
        }),
{
}

/// What is pruned of an ordered list are its first names: as many stay as are to
/// be kept, or all, and none of them comes before a pruned one.
pub proof fn pruning_takes_the_oldest(list: Seq<Seq<char>>, keep: int)
    requires
        0 <= keep,
        crate::order::sorted(list),
    ensures
        ({
            let gone = crate::config::excess_of(list, keep);
            &&& gone.len() <= list.len()
            &&& list.len() - gone.len() == if list.len() < keep {
                list.len() as int
            } else {
                keep
            }
            &&& gone == list.subrange(0, gone.len() as int)
            &&& forall|i: int, j: int|
                0 <= i < gone.len() && gone.len() <= j < list.len() ==> crate::order::ordered(
                    #[trigger] gone[i],
                    #[trigger] list[j],
                )
        }),
{
    let gone = crate::config::excess_of(list, keep);
    assert(gone =~= list.subrange(0, gone.len() as int));
    assert forall|i: int, j: int|
        0 <= i < gone.len() && gone.len() <= j < list.len() implies crate::order::ordered(
        #[trigger] gone[i],
        #[trigger] list[j],
    ) by {
        assert(gone[i] == list[i]);
    }
}

/// Sorting keeps every name as often as it was there, and puts none before one
/// that comes earlier.
pub proof fn sorting_keeps_the_names(list: Seq<Seq<char>>, r: Seq<Seq<char>>, i: int, j: int)
    requires
        crate::order::sorts(list, r),
        0 <= i <= j < r.len(),
    ensures
        crate::order::ordered(r[i], r[j]),
        r.to_multiset() == list.to_multiset(),
{
}

/// Every JSON file is a snapshot, in order, and no other file is one.
pub proof fn snapshots_are_the_json_files(files: Seq<Seq<char>>, file: Seq<char>)
    ensures
        crate::config::json_files(Seq::empty()).len() == 0,
        crate::config::json_files(files.push(file)) == if is_json(file) {
            crate::config::json_files(files).push(file)
        } else {
            crate::config::json_files(files)
        },
{
    reveal(Seq::filter);
    assert(files.push(file).drop_last() =~= files);
}

/// Each success is counted.
pub proof fn successes_are_counted(
    results: Seq<Result<(), Seq<char>>>,
    result: Result<(), Seq<char>>,
)
    ensures
        crate::config::successes(Seq::empty()) == 0,
        crate::config::successes(results.push(result)) == crate::config::successes(results)
            + if result is Ok {
            1int
        } else {
            0int
        },
{
    assert(results.push(result).drop_last() =~= results);
}

/// A report file ends with a line feed.
pub proof fn reports_end_with_a_line_feed(bytes: Seq<u8>, error: Seq<char>)
    ensures
        crate::report::with_line_end(Ok(bytes)) == Ok::<Seq<u8>, Seq<char>>(bytes.push('\n' as u8)),
        crate::report::with_line_end(Err(error)) == Err::<Seq<u8>, Seq<char>>(error),
{
}

/// The registry values of a driver node go by these names, and a key press is
/// event 1.
pub proof fn system_names_are_these(event: u32)
    ensures
        crate::power::NODE_GUID@ == "NetCfgInstanceId"@,
        crate::power::NODE_DESCRIPTION@ == "DriverDesc"@,
        crate::restore::SRCLIENT@ == "srclient.dll"@,
        event == crate::win::KEY_EVENT <==> event == 1,
{
}

/// A profile name that is refused is told with what a name may hold.
pub proof fn refused_profile_names_are_told(name: Seq<char>)
    ensures
        crate::config::profile_name_error(name) == "invalid profile name '"@ + name
            + "': use letters, digits, '-', '_' or '.'"@,
{
}

/// A value that could not be read is told for a node with a readable GUID, with
/// its key, and for no other node.
pub proof fn unread_nics_are_told(nodes: Seq<crate::power::Node>, node: crate::power::Node)
    ensures
        ({
            let before = crate::power::unread_values(nodes);
            let after = crate::power::unread_values(nodes.push(node));
            &&& crate::power::unread_values(Seq::empty()).len() == 0
            &&& node.guid matches Ok(Some(_)) ==> {
                node.value matches Err(e) ==> after == before.push(
                    "read "@ + crate::power::node_key(node.name@) + "\\"@ + "PnPCapabilities"@ + ": "@
                        + e@,
                )
            }
            &&& node.value is Ok || !(node.guid matches Ok(Some(_))) ==> after == before
        }),
{
    assert(nodes.push(node).drop_last() =~= nodes);
}

} // verus!
