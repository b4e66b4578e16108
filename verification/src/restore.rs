//! System Restore point creation.
//!
//! A point is created by two requests, one that begins a system change and one
//! that ends it.

use vstd::prelude::*;

use crate::text;
use crate::text::hex_lower;
use crate::utf16;
use crate::utf16::encoded;

verus! {

/// The library that creates restore points.
pub const SRCLIENT: &'static str = "srclient.dll";

/// Event type: we are starting a system change.
pub const BEGIN_SYSTEM_CHANGE: u32 = 100;

/// Event type: the change is finished and can be snapshotted.
pub const END_SYSTEM_CHANGE: u32 = 101;

/// Restore point type: the change modified system settings.
pub const MODIFY_SETTINGS: u32 = 12;

/// Description buffer length, matches the Windows `MAX_DESC_W`.
pub const MAX_DESC: usize = 256;

pub const ERROR_BAD_ENVIRONMENT: u32 = 10;

pub const ERROR_DISK_FULL: u32 = 112;

pub const ERROR_VOLUME_TOO_SMALL: u32 = 1211;

pub const STATUS_ACCESS_DENIED: u32 = 0xC000_0022;

/// What a status code means.
pub open spec fn message_of(status: u32) -> Seq<char> {
    if status == 0 {
        "the restore point was created"@
    } else if status == ERROR_BAD_ENVIRONMENT {
        "system restore is disabled"@
    } else if status == ERROR_DISK_FULL {
        "not enough free disk space"@
    } else if status == ERROR_VOLUME_TOO_SMALL {
        "the system volume is too small"@
    } else if status == STATUS_ACCESS_DENIED {
        "access denied: are you running as administrator?"@
    } else {
        "restore point creation failed (status 0x"@ + hex_lower(status as nat) + ")"@
    }
}

/// What a status code means.
pub fn status_message(status: u32) -> (message: String)
    ensures
        message@ == message_of(status),
{
    if status == 0 {
        "the restore point was created".to_owned()
    } else if status == ERROR_BAD_ENVIRONMENT {
        "system restore is disabled".to_owned()
    } else if status == ERROR_DISK_FULL {
        "not enough free disk space".to_owned()
    } else if status == ERROR_VOLUME_TOO_SMALL {
        "the system volume is too small".to_owned()
    } else if status == STATUS_ACCESS_DENIED {
        "access denied: are you running as administrator?".to_owned()
    } else {
        let digits = text::hex_small(status as u64);
        "restore point creation failed (status 0x".to_owned().concat(digits.as_str()).concat(")")
    }
}

/// The description buffer after `text` was put into it: as many code units as
/// leave room for the terminator, and what was there behind them.
pub open spec fn described(buffer: Seq<u16>, text: Seq<char>) -> Seq<u16> {
    Seq::new(
        buffer.len(),
        |i: int|
            if i < encoded(text).len() && i < MAX_DESC - 1 {
                encoded(text)[i]
            } else {
                buffer[i]
            },
    )
}

/// Puts a description into its buffer, cut off so that the terminator stays.
pub fn fill_description(buffer: &mut [u16; 256], text: &str)
    ensures
        final(buffer)@ == described(old(buffer)@, text@),
{
    let units = utf16::encode(text);
    let ghost before = buffer@;
    let mut i: usize = 0;
    while i < units.len() && i < MAX_DESC - 1
        invariant
            i <= units@.len(),
            i <= MAX_DESC - 1,
            before.len() == 256,
            units@ == encoded(text@),
            forall|k: int| 0 <= k < i ==> buffer@[k] == units@[k],
            forall|k: int| i <= k < 256 ==> buffer@[k] == before[k],
        decreases units@.len() - i,
    {
        buffer[i] = units[i];
        i = i + 1;
    }
    assert(buffer@ =~= described(before, text@));
}

/// One request for a restore point.
#[derive(Clone, Copy, Debug)]
pub struct Request {
    pub event_type: u32,
    pub restore_point_type: u32,
    pub sequence_number: i64,
    pub description: [u16; 256],
}

/// The request that begins a system change.
pub fn begin(description: &str) -> (request: Request)
    ensures
        request.event_type == BEGIN_SYSTEM_CHANGE,
        request.restore_point_type == MODIFY_SETTINGS,
        request.sequence_number == 0,
        request.description@ == described(Seq::new(256, |i: int| 0u16), description@),
{
    let mut buffer: [u16; 256] = [0u16; 256];
    assert(buffer@ =~= Seq::new(256, |i: int| 0u16));
    fill_description(&mut buffer, description);
    Request {
        event_type: BEGIN_SYSTEM_CHANGE,
        restore_point_type: MODIFY_SETTINGS,
        sequence_number: 0,
        description: buffer,
    }
}

/// The request that ends the change which was begun under this number.
pub fn end(begun: Request, sequence_number: i64) -> (request: Request)
    ensures
        request == (Request { event_type: END_SYSTEM_CHANGE, sequence_number, ..begun }),
{
    Request {
        event_type: END_SYSTEM_CHANGE,
        restore_point_type: begun.restore_point_type,
        sequence_number,
        description: begun.description,
    }
}

/// How an attempt to create a point went.
#[derive(Debug)]
pub enum Attempt {
    /// The library could not be loaded, for this reason.
    NotLoaded(String),
    /// The library does not export the function.
    NotExported,
    /// A request was refused with this status.
    Refused(u32),
    /// Both requests were granted.
    Granted,
}

/// The outcome of an attempt. Errors carry a readable reason.
pub fn create(attempt: &Attempt) -> (outcome: Result<(), String>)
    ensures
        outcome is Ok <==> *attempt is Granted,
        outcome matches Err(e) ==> e@ == (match *attempt {
            Attempt::NotLoaded(reason) => "cannot load srclient.dll: error "@ + reason@,
            Attempt::NotExported => "srclient.dll does not export SRSetRestorePointW"@,
            Attempt::Refused(status) => message_of(status),
            Attempt::Granted => Seq::empty(),
        }),
{
    match attempt {
        Attempt::NotLoaded(reason) => Err(
            "cannot load srclient.dll: error ".to_owned().concat(reason.as_str()),
        ),
        Attempt::NotExported => Err("srclient.dll does not export SRSetRestorePointW".to_owned()),
        Attempt::Refused(status) => Err(status_message(*status)),
        Attempt::Granted => Ok(()),
    }
}

/// The description in a request is always terminated.
pub proof fn description_is_terminated(text: Seq<char>)
    ensures
        described(Seq::new(256, |i: int| 0u16), text)[255] == 0,
{
}

} // verus!
