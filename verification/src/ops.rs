//! The operations a tweak asks of the machine, and what they do to it.
//!
//! A tweak never touches Windows itself. It is a *run*: it names one pending
//! [`Action`], the caller performs it and hands the [`Reply`] back, and the run
//! moves on. [`Registry`] is the mathematical registry that the actions act on;
//! [`truthful`] says which replies and which changes a working Windows gives.

use vstd::prelude::*;

use crate::text::{clone_all, views};

verus! {

/// One operation on the machine.
#[derive(Debug, PartialEq, Eq)]
pub enum Action {
    /// Read a DWORD under `HKEY_LOCAL_MACHINE`.
    ReadDword { subkey: String, name: String },
    /// Write a DWORD, creating the key when it does not exist yet.
    WriteDword { subkey: String, name: String, value: u32 },
    /// Delete a value; an absent value counts as deleted.
    DeleteValue { subkey: String, name: String },
    /// Ask whether a key exists and is readable.
    KeyExists { subkey: String },
    /// Run `netsh` with these arguments.
    Netsh { args: Vec<String> },
    /// Run `netsh` to set the MTU of the live link of `adapter`. A persistent
    /// change also lands in the `MTU` value of `subkey`.
    LiveMtu { adapter: String, args: Vec<String>, subkey: String, value: u32, persistent: bool },
    /// Write the archive to disk.
    SaveArchive,
}

/// What came back from an [`Action`]. Failures carry their message.
#[derive(Debug, PartialEq, Eq)]
pub enum Reply {
    /// Answer to [`Action::ReadDword`]; `None` when the key or value is absent.
    Value(Result<Option<u32>, String>),
    /// Answer to a write, a deletion or a save.
    Done(Result<(), String>),
    /// Answer to [`Action::KeyExists`].
    Exists(bool),
    /// Answer to a `netsh` run: its output.
    Output(Result<String, String>),
}

/// An [`Action`] over texts.
pub enum Act {
    ReadDword { subkey: Seq<char>, name: Seq<char> },
    WriteDword { subkey: Seq<char>, name: Seq<char>, value: u32 },
    DeleteValue { subkey: Seq<char>, name: Seq<char> },
    KeyExists { subkey: Seq<char> },
    Netsh { args: Seq<Seq<char>> },
    LiveMtu {
        adapter: Seq<char>,
        args: Seq<Seq<char>>,
        subkey: Seq<char>,
        value: u32,
        persistent: bool,
    },
    SaveArchive,
}

/// A [`Reply`] over texts.
pub enum Rep {
    Value(Result<Option<u32>, Seq<char>>),
    Done(Result<(), Seq<char>>),
    Exists(bool),
    Output(Result<Seq<char>, Seq<char>>),
}

impl View for Action {
    type V = Act;

    open spec fn view(&self) -> Act {
        match *self {
            Action::ReadDword { subkey, name } => Act::ReadDword { subkey: subkey@, name: name@ },
            Action::WriteDword { subkey, name, value } => Act::WriteDword {
                subkey: subkey@,
                name: name@,
                value,
            },
            Action::DeleteValue { subkey, name } => Act::DeleteValue {
                subkey: subkey@,
                name: name@,
            },
            Action::KeyExists { subkey } => Act::KeyExists { subkey: subkey@ },
            Action::Netsh { args } => Act::Netsh { args: views(args@) },
            Action::LiveMtu { adapter, args, subkey, value, persistent } => Act::LiveMtu {
                adapter: adapter@,
                args: views(args@),
                subkey: subkey@,
                value,
                persistent,
            },
            Action::SaveArchive => Act::SaveArchive,
        }
    }
}

impl Clone for Action {
    fn clone(&self) -> (copy: Self)
        ensures
            copy@ == self@,
    {
        match self {
            Action::ReadDword { subkey, name } => Action::ReadDword {
                subkey: subkey.clone(),
                name: name.clone(),
            },
            Action::WriteDword { subkey, name, value } => Action::WriteDword {
                subkey: subkey.clone(),
                name: name.clone(),
                value: *value,
            },
            Action::DeleteValue { subkey, name } => Action::DeleteValue {
                subkey: subkey.clone(),
                name: name.clone(),
            },
            Action::KeyExists { subkey } => Action::KeyExists { subkey: subkey.clone() },
            Action::Netsh { args } => Action::Netsh { args: clone_all(args) },
            Action::LiveMtu { adapter, args, subkey, value, persistent } => Action::LiveMtu {
                adapter: adapter.clone(),
                args: clone_all(args),
                subkey: subkey.clone(),
                value: *value,
                persistent: *persistent,
            },
            Action::SaveArchive => Action::SaveArchive,
        }
    }
}

/// A result whose error is a message, over texts.
pub open spec fn result_view<T>(r: Result<T, String>) -> Result<T, Seq<char>> {
    match r {
        Ok(v) => Ok(v),
        Err(e) => Err(e@),
    }
}

/// A text or a message, over texts.
pub open spec fn text_result_view(r: Result<String, String>) -> Result<Seq<char>, Seq<char>> {
    match r {
        Ok(text) => Ok(text@),
        Err(e) => Err(e@),
    }
}

/// Results whose errors are messages, over texts.
pub open spec fn result_views<T>(v: Seq<Result<T, String>>) -> Seq<Result<T, Seq<char>>> {
    Seq::new(v.len(), |i: int| result_view(v[i]))
}

impl View for Reply {
    type V = Rep;

    open spec fn view(&self) -> Rep {
        match *self {
            Reply::Value(r) => Rep::Value(result_view(r)),
            Reply::Done(r) => Rep::Done(result_view(r)),
            Reply::Exists(b) => Rep::Exists(b),
            Reply::Output(r) => Rep::Output(text_result_view(r)),
        }
    }
}

/// An optional action over texts.
pub open spec fn pending_view(a: Option<Action>) -> Option<Act> {
    match a {
        Some(action) => Some(action@),
        None => None,
    }
}

/// Actions over texts.
pub open spec fn action_views(v: Seq<Action>) -> Seq<Act> {
    Seq::new(v.len(), |i: int| v[i]@)
}

/// An optional message over texts.
pub open spec fn message_view(m: Option<String>) -> Option<Seq<char>> {
    match m {
        Some(text) => Some(text@),
        None => None,
    }
}

/// A copy of an optional message.
pub fn clone_message(m: &Option<String>) -> (copy: Option<String>)
    ensures
        message_view(copy) == message_view(*m),
{
    match m {
        Some(text) => Some(text.clone()),
        None => None,
    }
}

/// A copy of an outcome.
pub fn clone_outcome(r: &Result<(), String>) -> (copy: Result<(), String>)
    ensures
        result_view(copy) == result_view(*r),
{
    match r {
        Ok(_) => Ok(()),
        Err(e) => Err(e.clone()),
    }
}

/// An optional outcome over texts.
pub open spec fn outcome_view<T>(r: Option<Result<T, String>>) -> Option<Result<T, Seq<char>>> {
    match r {
        Some(result) => Some(result_view(result)),
        None => None,
    }
}

/// The first error of a row of results.
pub open spec fn first_error<T>(v: Seq<Result<T, Seq<char>>>) -> Option<Seq<char>>
    decreases v.len(),
{
    if v.len() == 0 {
        None
    } else {
        match v[0] {
            Err(e) => Some(e),
            Ok(_) => first_error(v.skip(1)),
        }
    }
}

// ---------------------------------------------------------------------------
// The registry
// ---------------------------------------------------------------------------

/// The DWORD values of the registry, by subkey and value name.
pub type Registry = Map<(Seq<char>, Seq<char>), u32>;

/// The value that the registry holds, if it holds one.
pub open spec fn value_of(reg: Registry, subkey: Seq<char>, name: Seq<char>) -> Option<u32> {
    if reg.dom().contains((subkey, name)) {
        Some(reg[(subkey, name)])
    } else {
        None
    }
}

/// `reply` is an answer that a working Windows may give to `action` in the
/// state `before`, and `after` is the registry that it leaves. Every operation
/// may fail; one that reports success has been carried out, and one that
/// reports a failure has changed nothing.
pub open spec fn truthful(before: Registry, action: Act, reply: Rep, after: Registry) -> bool {
    match action {
        Act::ReadDword { subkey, name } => {
            &&& after == before
            &&& reply matches Rep::Value(answer)
            &&& answer is Ok ==> answer == Ok::<Option<u32>, Seq<char>>(
                value_of(before, subkey, name),
            )
        },
        Act::WriteDword { subkey, name, value } => {
            &&& reply matches Rep::Done(answer)
            &&& after == if answer is Ok {
                before.insert((subkey, name), value)
            } else {
                before
            }
        },
        Act::DeleteValue { subkey, name } => {
            &&& reply matches Rep::Done(answer)
            &&& after == if answer is Ok {
                before.remove((subkey, name))
            } else {
                before
            }
        },
        Act::KeyExists { .. } => after == before && reply is Exists,
        Act::Netsh { .. } => after == before && reply is Output,
        Act::LiveMtu { subkey, value, persistent, .. } => {
            &&& reply is Output
            &&& after == before || (persistent && after == before.insert((subkey, "MTU"@), value))
        },
        Act::SaveArchive => after == before && reply is Done,
    }
}

} // verus!
