//! The action log: its lines, and when its file is rotated.

use vstd::prelude::*;

use crate::ops::{result_view, Act, Action};
use crate::text;
use crate::text::{decimal, joined, lines_of, pad_left, views};

verus! {

/// Maximum size before the log rotates.
pub const MAX_BYTES: u64 = 1_048_576;

/// True when a log of this size is rotated before the next line.
pub fn rotating(size: u64) -> (b: bool)
    ensures
        b == (size > MAX_BYTES),
{
    size > MAX_BYTES
}

/// A local time.
#[derive(Clone, Copy, Debug, PartialEq, Eq, Structural)]
pub struct Time {
    pub year: u16,
    pub month: u16,
    pub day: u16,
    pub hour: u16,
    pub minute: u16,
    pub second: u16,
}

/// A number, zero-padded to `width`.
pub open spec fn padded(n: u16, width: nat) -> Seq<char> {
    pad_left(decimal(n as nat), width, '0')
}

/// A time as `YYYY-MM-DD HH:MM:SS`.
pub open spec fn stamp_of(t: Time) -> Seq<char> {
    padded(t.year, 4) + "-"@ + padded(t.month, 2) + "-"@ + padded(t.day, 2) + " "@ + padded(
        t.hour,
        2,
    ) + ":"@ + padded(t.minute, 2) + ":"@ + padded(t.second, 2)
}

/// The timestamp of a log line.
pub fn now(time: Time) -> (stamp: String)
    ensures
        stamp@ == stamp_of(time),
{
    let year = text::dec_zero(time.year as u64, 4);
    let month = text::dec_zero(time.month as u64, 2);
    let day = text::dec_zero(time.day as u64, 2);
    let hour = text::dec_zero(time.hour as u64, 2);
    let minute = text::dec_zero(time.minute as u64, 2);
    let second = text::dec_zero(time.second as u64, 2);
    year.concat("-").concat(month.as_str()).concat("-").concat(day.as_str()).concat(" ").concat(
        hour.as_str(),
    ).concat(":").concat(minute.as_str()).concat(":").concat(second.as_str())
}

/// One line of the log, with its line end.
pub fn log(time: Time, line: &str) -> (entry: String)
    ensures
        entry@ == "["@ + stamp_of(time) + "] "@ + line@ + "\n"@,
{
    let stamp = now(time);
    "[".to_owned().concat(stamp.as_str()).concat("] ").concat(line).concat("\n")
}

/// What the log says of an action: there is a line for every registry write,
/// every deletion and every `netsh` run, and for nothing else.
pub open spec fn logged(action: Act) -> Option<Seq<char>> {
    match action {
        Act::WriteDword { subkey, name, value } => Some(
            "set "@ + subkey + "\\"@ + name + " to "@ + decimal(value as nat),
        ),
        Act::DeleteValue { subkey, name } => Some("delete "@ + subkey + "\\"@ + name),
        Act::Netsh { args } => Some("netsh "@ + joined(args, " "@)),
        Act::LiveMtu { args, .. } => Some("netsh "@ + joined(args, " "@)),
        Act::ReadDword { .. } | Act::KeyExists { .. } | Act::SaveArchive => None,
    }
}

/// The line about an action with this outcome; a failure is added to it.
pub open spec fn entry_of(action: Act, outcome: Result<(), Seq<char>>) -> Option<Seq<char>> {
    match (logged(action), outcome) {
        (Some(what), Ok(_)) => Some(what),
        (Some(what), Err(e)) => Some(what + ": "@ + e),
        (None, _) => None,
    }
}

/// The line that the log gets about an action with this outcome, if it gets one.
pub fn entry(action: &Action, outcome: &Result<(), String>) -> (line: Option<String>)
    ensures
        crate::ops::message_view(line) == entry_of(action@, result_view(*outcome)),
        line is Some <==> (action is WriteDword || action is DeleteValue || action is Netsh
            || action is LiveMtu),
{
    let what = match action {
        Action::WriteDword { subkey, name, value } => {
            let number = text::dec(*value as u64);
            "set ".to_owned().concat(subkey.as_str()).concat("\\").concat(name.as_str()).concat(
                " to ",
            ).concat(number.as_str())
        },
        Action::DeleteValue { subkey, name } => "delete ".to_owned().concat(
            subkey.as_str(),
        ).concat("\\").concat(name.as_str()),
        Action::Netsh { args } => {
            let line = text::join(args, " ");
            "netsh ".to_owned().concat(line.as_str())
        },
        Action::LiveMtu { args, .. } => {
            let line = text::join(args, " ");
            "netsh ".to_owned().concat(line.as_str())
        },
        _ => {
            return None;
        },
    };
    match outcome {
        Ok(_) => Some(what),
        Err(e) => Some(what.concat(": ").concat(e.as_str())),
    }
}

/// Nothing that is done to the machine goes unlogged: only readings and saves of
/// the archive get no line.
pub proof fn changes_are_logged(action: Act, outcome: Result<(), Seq<char>>)
    ensures
        entry_of(action, outcome) is None <==> (action is ReadDword || action is KeyExists
            || action is SaveArchive),
{
}

/// What the log is told when the DNS cache was flushed.
pub const FLUSHED: &'static str = "dns: cache flushed";

/// The line about a change of the autostart entry.
pub open spec fn autostart_line(enabled: bool, outcome: Result<(), Seq<char>>) -> Seq<char> {
    (if enabled {
        "autostart: enabled"@
    } else {
        "autostart: disabled"@
    }) + (match outcome {
        Ok(_) => Seq::empty(),
        Err(e) => ": "@ + e,
    })
}

/// The line about a change of the autostart entry; a failure is added to it.
pub fn autostart_entry(enabled: bool, outcome: &Result<(), String>) -> (line: String)
    ensures
        line@ == autostart_line(enabled, result_view(*outcome)),
        line@ == (if enabled {
            "autostart: enabled"@
        } else {
            "autostart: disabled"@
        }) + (match result_view(*outcome) {
            Ok(_) => Seq::empty(),
            Err(e) => ": "@ + e,
        }),
{
    let what = if enabled {
        "autostart: enabled"
    } else {
        "autostart: disabled"
    };
    let more = match outcome {
        Ok(_) => String::new(),
        Err(e) => ": ".to_owned().concat(e.as_str()),
    };
    what.to_owned().concat(more.as_str())
}

/// The last `limit` lines of a text.
pub open spec fn last_lines(text: Seq<char>, limit: nat) -> Seq<Seq<char>> {
    let all = lines_of(text);
    if all.len() > limit {
        all.skip(all.len() - limit)
    } else {
        all
    }
}

/// The `limit` most recent lines of the log, oldest first.
pub fn read(text: &str, limit: usize) -> (lines: Vec<String>)
    ensures
        views(lines@) == last_lines(text@, limit as nat),
        lines@.len() <= limit,
{
    let all = text::lines(text);
    let start: usize = if all.len() > limit {
        all.len() - limit
    } else {
        0
    };
    let mut lines: Vec<String> = Vec::new();
    let mut i: usize = start;
    while i < all.len()
        invariant
            start <= i <= all@.len(),
            lines@.len() == i - start,
            forall|k: int| 0 <= k < i - start ==> (#[trigger] lines@[k])@ == all@[start + k]@,
        decreases all@.len() - i,
    {
        lines.push(all[i].clone());
        i = i + 1;
    }
    assert(views(lines@) =~= last_lines(text@, limit as nat));
    lines
}

/// A timestamp of a four-digit year has 19 characters.
pub proof fn stamp_has_fixed_shape(t: Time)
    requires
        t.year <= 9999,
        t.month <= 99,
        t.day <= 99,
        t.hour <= 99,
        t.minute <= 99,
        t.second <= 99,
    ensures
        stamp_of(t).len() == 19,
{
    reveal_strlit("-");
    reveal_strlit(" ");
    reveal_strlit(":");
    reveal_with_fuel(decimal, 5);
    assert(padded(t.year, 4).len() == 4);
    assert(padded(t.month, 2).len() == 2);
    assert(padded(t.day, 2).len() == 2);
    assert(padded(t.hour, 2).len() == 2);
    assert(padded(t.minute, 2).len() == 2);
    assert(padded(t.second, 2).len() == 2);
}

} // verus!
