//! Readings of the Windows registry.
//!
//! The read-only reports of the program work on a [`Snapshot`]: what was asked
//! of the registry, and what it answered.

use vstd::prelude::*;

use crate::ops::{result_view, value_of, Action, Registry, Reply};
use crate::text;
use crate::text::views;
use crate::utf16;
use crate::utf16::terminated;

verus! {

/// One DWORD that was asked for. `Ok(None)` says that the key or the value
/// does not exist.
#[derive(Debug)]
pub struct Reading {
    pub subkey: String,
    pub name: String,
    pub answer: Result<Option<u32>, String>,
}

/// What the registry answered when it was last asked.
#[derive(Debug)]
pub struct Snapshot {
    /// The DWORDs that were asked for, in order.
    pub values: Vec<Reading>,
    /// The keys that exist and are readable.
    pub keys: Vec<String>,
}

/// A [`Reading`] over texts.
pub struct Answer {
    pub subkey: Seq<char>,
    pub name: Seq<char>,
    pub answer: Result<Option<u32>, Seq<char>>,
}

impl View for Reading {
    type V = Answer;

    open spec fn view(&self) -> Answer {
        Answer { subkey: self.subkey@, name: self.name@, answer: result_view(self.answer) }
    }
}

/// Readings over texts.
pub open spec fn answers(v: Seq<Reading>) -> Seq<Answer> {
    Seq::new(v.len(), |i: int| v[i]@)
}

/// A [`Snapshot`] over texts.
pub struct Seen {
    pub values: Seq<Answer>,
    pub keys: Seq<Seq<char>>,
}

impl View for Snapshot {
    type V = Seen;

    open spec fn view(&self) -> Seen {
        Seen { values: answers(self.values@), keys: views(self.keys@) }
    }
}

/// The first answer about this value; an error when it was never asked for.
pub open spec fn answer_about(
    values: Seq<Answer>,
    subkey: Seq<char>,
    name: Seq<char>,
) -> Result<Option<u32>, Seq<char>>
    decreases values.len(),
{
    if values.len() == 0 {
        Err("value was not read"@)
    } else if values[0].subkey == subkey && values[0].name == name {
        values[0].answer
    } else {
        answer_about(values.skip(1), subkey, name)
    }
}

impl Seen {
    /// What was read for this value.
    pub open spec fn value(self, subkey: Seq<char>, name: Seq<char>) -> Result<
        Option<u32>,
        Seq<char>,
    > {
        answer_about(self.values, subkey, name)
    }

    /// True when the value was read and is `expected`.
    pub open spec fn holds(self, subkey: Seq<char>, name: Seq<char>, expected: u32) -> bool {
        self.value(subkey, name) == Ok::<Option<u32>, Seq<char>>(Some(expected))
    }

    /// True when the snapshot shows this value, and this key, as they stand in
    /// a registry whose readable keys are `readable`.
    pub open spec fn shows(
        self,
        reg: Registry,
        readable: Set<Seq<char>>,
        subkey: Seq<char>,
        name: Seq<char>,
    ) -> bool {
        &&& self.keys.contains(subkey) == readable.contains(subkey)
        &&& self.value(subkey, name) == Ok::<Option<u32>, Seq<char>>(value_of(reg, subkey, name))
    }
}

/// True of a reading that failed and counts: it was made under the key `base`,
/// or under a key that is readable.
pub open spec fn failed(reading: Answer, keys: Seq<Seq<char>>, base: Option<Seq<char>>) -> bool {
    reading.answer is Err && (base == Some(reading.subkey) || keys.contains(reading.subkey))
}

/// The messages of the failed readings that count, in order.
pub open spec fn read_failures(
    values: Seq<Answer>,
    keys: Seq<Seq<char>>,
    base: Option<Seq<char>>,
) -> Seq<Seq<char>>
    decreases values.len(),
{
    if values.len() == 0 {
        Seq::empty()
    } else {
        let rest = read_failures(values.drop_last(), keys, base);
        let last = values.last();
        if failed(last, keys, base) {
            rest.push(read_error(last.subkey, last.name, last.answer->Err_0))
        } else {
            rest
        }
    }
}

/// There is a message exactly when a reading failed that counts.
pub proof fn failures_tell_of_a_reading(
    values: Seq<Answer>,
    keys: Seq<Seq<char>>,
    base: Option<Seq<char>>,
)
    ensures
        read_failures(values, keys, base).len() > 0 <==> exists|i: int|
            0 <= i < values.len() && failed(#[trigger] values[i], keys, base),
    decreases values.len(),
{
    if values.len() > 0 {
        let front = values.drop_last();
        failures_tell_of_a_reading(front, keys, base);
        if failed(values.last(), keys, base) {
            assert(values[values.len() - 1] == values.last());
        }
        if exists|i: int| 0 <= i < front.len() && failed(#[trigger] front[i], keys, base) {
            let i = choose|i: int| 0 <= i < front.len() && failed(#[trigger] front[i], keys, base);
            assert(values[i] == front[i]);
        }
        if exists|i: int| 0 <= i < values.len() && failed(#[trigger] values[i], keys, base) {
            let i = choose|i: int|
                0 <= i < values.len() && failed(#[trigger] values[i], keys, base);
            if i < front.len() {
                assert(front[i] == values[i]);
            }
        }
    }
}

/// The message of a failed read.
pub open spec fn read_error(subkey: Seq<char>, name: Seq<char>, error: Seq<char>) -> Seq<char> {
    "read "@ + subkey + "\\"@ + name + ": "@ + error
}

/// The message of a failed write.
pub open spec fn write_error(subkey: Seq<char>, name: Seq<char>, error: Seq<char>) -> Seq<char> {
    "write "@ + subkey + "\\"@ + name + ": "@ + error
}

/// The message of a failed read.
pub fn read_message(subkey: &str, name: &str, error: &str) -> (m: String)
    ensures
        m@ == read_error(subkey@, name@, error@),
{
    "read ".to_owned().concat(subkey).concat("\\").concat(name).concat(": ").concat(error)
}

/// The message of a failed write.
pub fn write_message(subkey: &str, name: &str, error: &str) -> (m: String)
    ensures
        m@ == write_error(subkey@, name@, error@),
{
    "write ".to_owned().concat(subkey).concat("\\").concat(name).concat(": ").concat(error)
}

/// An optional key over texts.
pub open spec fn base_view(base: Option<&str>) -> Option<Seq<char>> {
    match base {
        Some(subkey) => Some(subkey@),
        None => None,
    }
}

impl Snapshot {
    /// A snapshot of nothing.
    pub fn empty() -> (snapshot: Snapshot)
        ensures
            snapshot@ == (Seen { values: Seq::empty(), keys: Seq::empty() }),
    {
        let snapshot = Snapshot { values: Vec::new(), keys: Vec::new() };
        assert(snapshot@.values =~= Seq::<Answer>::empty());
        assert(snapshot@.keys =~= Seq::<Seq<char>>::empty());
        snapshot
    }

    /// Notes what the registry answered to a question; anything but a
    /// question about a value or a key is passed over.
    pub fn record(&mut self, question: Action, reply: Reply)
        ensures
            final(self)@ == old(self)@.noted(question, reply),
    {
        let ghost before = self@;
        match (question, reply) {
            (Action::ReadDword { subkey, name }, Reply::Value(answer)) => {
                self.values.push(Reading { subkey, name, answer });
                assert(self@.values =~= before.noted(question, reply).values);
                assert(self@.keys =~= before.keys);
            },
            (Action::KeyExists { subkey }, Reply::Exists(true)) => {
                self.keys.push(subkey);
                assert(self@.keys =~= before.keys.push(subkey@));
                assert(self@.values =~= before.values);
            },
            _ => {},
        }
    }

    /// The DWORD that was read, `None` when the key or the value is missing.
    pub fn read_dword(&self, subkey: &str, name: &str) -> (answer: Result<Option<u32>, String>)
        ensures
            result_view(answer) == self@.value(subkey@, name@),
    {
        let ghost all = self@.values;
        let mut i: usize = 0;
        assert(all.skip(0) =~= all);
        while i < self.values.len()
            invariant
                i <= self.values@.len(),
                all == self@.values,
                answer_about(all, subkey@, name@) == answer_about(
                    all.skip(i as int),
                    subkey@,
                    name@,
                ),
            decreases self.values@.len() - i,
        {
            let reading = &self.values[i];
            proof {
                assert(all.skip(i as int)[0] == reading@);
                assert(all.skip(i as int).skip(1) =~= all.skip(i + 1));
            }
            if text::same(reading.subkey.as_str(), subkey) && text::same(
                reading.name.as_str(),
                name,
            ) {
                return match &reading.answer {
                    Ok(v) => Ok(*v),
                    Err(e) => Err(e.clone()),
                };
            }
            i = i + 1;
        }
        Err("value was not read".to_owned())
    }

    /// True when the key exists and is readable.
    pub fn key_exists(&self, subkey: &str) -> (b: bool)
        ensures
            b == self@.keys.contains(subkey@),
    {
        text::contains_text(&self.keys, subkey)
    }

    /// True when the value was read and is `expected`.
    pub fn holds(&self, subkey: &str, name: &str, expected: u32) -> (b: bool)
        ensures
            b == self@.holds(subkey@, name@, expected),
    {
        match self.read_dword(subkey, name) {
            Ok(Some(v)) => v == expected,
            _ => false,
        }
    }

    /// The messages of the failed readings under the key `base` and under keys
    /// that are readable; others do not count.
    pub fn failures(&self, base: Option<&str>) -> (messages: Vec<String>)
        ensures
            views(messages@) == read_failures(self@.values, self@.keys, base_view(base)),
    {
        let ghost all = self@.values;
        let ghost keys = self@.keys;
        let ghost known = base_view(base);
        let mut messages: Vec<String> = Vec::new();
        let mut i: usize = 0;
        proof {
            assert(all.take(0) =~= Seq::<Answer>::empty());
            assert(views(messages@) =~= read_failures(all.take(0), keys, known));
        }
        while i < self.values.len()
            invariant
                i <= self.values@.len(),
                all == self@.values,
                keys == self@.keys,
                known == base_view(base),
                views(messages@) == read_failures(all.take(i as int), keys, known),
            decreases self.values@.len() - i,
        {
            let reading = &self.values[i];
            let ghost before = messages@;
            proof {
                assert(all.take(i + 1).drop_last() =~= all.take(i as int));
                assert(all.take(i + 1).last() == reading@);
            }
            let counts = match base {
                Some(subkey) => text::same(subkey, reading.subkey.as_str()),
                None => false,
            } || self.key_exists(reading.subkey.as_str());
            if let (true, Err(e)) = (counts, &reading.answer) {
                let message = read_message(
                    reading.subkey.as_str(),
                    reading.name.as_str(),
                    e.as_str(),
                );
                let ghost shown = message@;
                messages.push(message);
                assert(views(messages@) =~= views(before).push(shown));
            }
            i = i + 1;
        }
        assert(all.take(all.len() as int) =~= all);
        messages
    }
}

impl Seen {
    /// The snapshot with one more answer.
    pub open spec fn noted(self, question: Action, reply: Reply) -> Seen {
        match (question, reply) {
            (Action::ReadDword { subkey, name }, Reply::Value(answer)) => Seen {
                values: self.values.push(
                    Answer { subkey: subkey@, name: name@, answer: result_view(answer) },
                ),
                keys: self.keys,
            },
            (Action::KeyExists { subkey }, Reply::Exists(true)) => Seen {
                values: self.values,
                keys: self.keys.push(subkey@),
            },
            _ => self,
        }
    }
}

// ---------------------------------------------------------------------------
// Answers of the Win32 calls
// ---------------------------------------------------------------------------

/// The status of a call that succeeded.
pub const ERROR_SUCCESS: u32 = 0;

/// The status when a key or a value does not exist.
pub const ERROR_FILE_NOT_FOUND: u32 = 2;

/// The status when an enumeration has come to its end.
pub const ERROR_NO_MORE_ITEMS: u32 = 259;

/// The type of a text value.
pub const REG_SZ: u32 = 1;

/// The type of a DWORD value.
pub const REG_DWORD: u32 = 4;

/// Max registry subkey name length.
pub const MAX_NAME: usize = 255;

/// Why a registry operation failed.
#[derive(Debug, PartialEq, Eq)]
pub enum Failure {
    /// The system error with this number.
    Os(u32),
    /// A message of the program's own.
    Message(String),
}

/// A [`Failure`] over texts.
pub enum Fault {
    Os(u32),
    Message(Seq<char>),
}

impl View for Failure {
    type V = Fault;

    open spec fn view(&self) -> Fault {
        match *self {
            Failure::Os(code) => Fault::Os(code),
            Failure::Message(m) => Fault::Message(m@),
        }
    }
}

/// A result that may carry a [`Failure`], over texts.
pub open spec fn fault_view<T>(r: Result<T, Failure>) -> Result<T, Fault> {
    match r {
        Ok(v) => Ok(v),
        Err(f) => Err(f@),
    }
}

/// What an attempt to open a key came to: true when it is open, false when it
/// does not exist. `created` is the status of the attempt to create it, which
/// is made where `create` asks for it and the key is missing.
pub open spec fn opening(status: u32, create: bool, created: u32) -> Result<bool, Fault> {
    if status == ERROR_SUCCESS {
        Ok(true)
    } else if status == ERROR_FILE_NOT_FOUND {
        Ok(create && created == ERROR_SUCCESS)
    } else {
        Err(Fault::Os(status))
    }
}

/// What an attempt to open a key came to.
pub fn opened(status: u32, create: bool, created: u32) -> (open: Result<bool, Failure>)
    ensures
        fault_view(open) == opening(status, create, created),
{
    if status == ERROR_SUCCESS {
        return Ok(true);
    }
    if create && status == ERROR_FILE_NOT_FOUND {
        if created == ERROR_SUCCESS {
            return Ok(true);
        }
    }
    if status == ERROR_FILE_NOT_FOUND {
        return Ok(false);
    }
    Err(Failure::Os(status))
}

/// The DWORD that a query found.
pub open spec fn dword_found(
    name: Seq<char>,
    status: u32,
    value_type: u32,
    data: u32,
) -> Result<Option<u32>, Fault> {
    if status == ERROR_FILE_NOT_FOUND {
        Ok(None)
    } else if status != ERROR_SUCCESS {
        Err(Fault::Os(status))
    } else if value_type != REG_DWORD {
        Err(Fault::Message("value '"@ + name + "' is not a DWORD"@))
    } else {
        Ok(Some(data))
    }
}

/// What a write came to.
pub open spec fn written(status: u32) -> Result<(), Fault> {
    if status == ERROR_SUCCESS {
        Ok(())
    } else {
        Err(Fault::Os(status))
    }
}

/// What a deletion came to.
pub open spec fn deleted(status: u32) -> Result<(), Fault> {
    if status == ERROR_SUCCESS || status == ERROR_FILE_NOT_FOUND {
        Ok(())
    } else {
        Err(Fault::Os(status))
    }
}

/// What one step of an enumeration came to.
pub open spec fn name_found(status: u32) -> Result<bool, Fault> {
    if status == ERROR_SUCCESS {
        Ok(true)
    } else if status == ERROR_NO_MORE_ITEMS || status == ERROR_FILE_NOT_FOUND {
        Ok(false)
    } else {
        Err(Fault::Os(status))
    }
}

/// How large a buffer a text value needs, in code units.
pub open spec fn text_units(status: u32, value_type: u32, bytes: u32) -> Result<
    Option<usize>,
    Fault,
> {
    if status == ERROR_FILE_NOT_FOUND || value_type != REG_SZ {
        Ok(None)
    } else if status != ERROR_SUCCESS {
        Err(Fault::Os(status))
    } else {
        Ok(Some((bytes / 2 + 1) as usize))
    }
}

/// The DWORD that a query found; a missing value yields `None`, a value of
/// another type is an error.
pub fn dword_answer(name: &str, status: u32, value_type: u32, data: u32) -> (answer: Result<
    Option<u32>,
    Failure,
>)
    ensures
        fault_view(answer) == dword_found(name@, status, value_type, data),
        fault_view(answer) == if status == ERROR_FILE_NOT_FOUND {
            Ok::<Option<u32>, Fault>(None)
        } else if status != ERROR_SUCCESS {
            Err(Fault::Os(status))
        } else if value_type != REG_DWORD {
            Err(Fault::Message("value '"@ + name@ + "' is not a DWORD"@))
        } else {
            Ok(Some(data))
        },
{
    if status == ERROR_FILE_NOT_FOUND {
        return Ok(None);
    }
    if status != ERROR_SUCCESS {
        return Err(Failure::Os(status));
    }
    if value_type != REG_DWORD {
        return Err(
            Failure::Message("value '".to_owned().concat(name).concat("' is not a DWORD")),
        );
    }
    Ok(Some(data))
}

/// The refusal to write under a key that can be neither opened nor created.
pub fn cannot_open(subkey: &str) -> (failure: Failure)
    ensures
        failure@ == Fault::Message("cannot open '"@ + subkey@ + "' for writing"@),
{
    Failure::Message("cannot open '".to_owned().concat(subkey).concat("' for writing"))
}

/// What a write came to.
pub fn write_answer(status: u32) -> (answer: Result<(), Failure>)
    ensures
        fault_view(answer) == written(status),
        fault_view(answer) == if status == ERROR_SUCCESS {
            Ok::<(), Fault>(())
        } else {
            Err(Fault::Os(status))
        },
{
    if status != ERROR_SUCCESS {
        Err(Failure::Os(status))
    } else {
        Ok(())
    }
}

/// What a deletion came to. A value that is already absent counts as deleted.
pub fn delete_answer(status: u32) -> (answer: Result<(), Failure>)
    ensures
        fault_view(answer) == deleted(status),
        fault_view(answer) == if status == ERROR_SUCCESS || status == ERROR_FILE_NOT_FOUND {
            Ok::<(), Fault>(())
        } else {
            Err(Fault::Os(status))
        },
{
    if status == ERROR_SUCCESS || status == ERROR_FILE_NOT_FOUND {
        Ok(())
    } else {
        Err(Failure::Os(status))
    }
}

/// What one step of an enumeration came to: true when it found a name, false
/// at the end.
pub fn name_answer(status: u32) -> (answer: Result<bool, Failure>)
    ensures
        fault_view(answer) == name_found(status),
        fault_view(answer) == if status == ERROR_SUCCESS {
            Ok::<bool, Fault>(true)
        } else if status == ERROR_NO_MORE_ITEMS || status == ERROR_FILE_NOT_FOUND {
            Ok(false)
        } else {
            Err(Fault::Os(status))
        },
{
    if status == ERROR_NO_MORE_ITEMS || status == ERROR_FILE_NOT_FOUND {
        return Ok(false);
    }
    if status != ERROR_SUCCESS {
        return Err(Failure::Os(status));
    }
    Ok(true)
}

/// How large a buffer a text value needs, in code units: `None` when the value
/// is missing or is no text.
pub fn string_size(status: u32, value_type: u32, bytes: u32) -> (units: Result<
    Option<usize>,
    Failure,
>)
    ensures
        fault_view(units) == text_units(status, value_type, bytes),
        fault_view(units) == if status == ERROR_FILE_NOT_FOUND || value_type != REG_SZ {
            Ok::<Option<usize>, Fault>(None)
        } else if status != ERROR_SUCCESS {
            Err(Fault::Os(status))
        } else {
            Ok(Some((bytes / 2 + 1) as usize))
        },
{
    if status == ERROR_FILE_NOT_FOUND || value_type != REG_SZ {
        return Ok(None);
    }
    if status != ERROR_SUCCESS {
        return Err(Failure::Os(status));
    }
    Ok(Some(bytes as usize / 2 + 1))
}

/// The text that a query put into its buffer.
pub fn string_answer(status: u32, buffer: &[u16]) -> (answer: Result<String, Failure>)
    ensures
        match answer {
            Ok(s) => status == ERROR_SUCCESS && s@ == terminated(buffer@),
            Err(f) => status != ERROR_SUCCESS && f@ == Fault::Os(status),
        },
{
    if status != ERROR_SUCCESS {
        return Err(Failure::Os(status));
    }
    Ok(utf16::decode_terminated(buffer))
}

} // verus!
