//! What a run does when an action fails.
//!
//! A value that cannot be read and an archive that cannot be saved end a run,
//! before anything is written that could not be brought back. A write that fails
//! is told, and the others go on.

use vstd::prelude::*;

use crate::config::Saved;
use crate::mtu;
use crate::mtu::Sizing;
use crate::ops::{Act, Rep};
use crate::power;
use crate::power::Powering;
use crate::system::Unthrottling;
use crate::tcp;
use crate::tcp::Tuning;
use crate::text::joined;

verus! {

/// The archive without its last entry.
pub open spec fn without_last(archive: Saved) -> Saved {
    Saved { values: archive.values.drop_last(), ..archive }
}

/// A run that sizes the links ends with the error of a value that it cannot
/// read, or of an archive that it cannot save; the entry is taken back.
pub proof fn sizing_ends_without_an_archive(run: Sizing, j: usize, error: Seq<char>)
    ensures
        run.step == mtu::Step::Read(j) ==> {
            let next = run.advance(Rep::Value(Err(error)));
            next.pending() is None && next.archive == run.archive && next.result == Some(
                Err::<(), Seq<char>>(
                    "read "@ + run.subkeys[j as int] + "\\"@ + "MTU"@ + ": "@ + error,
                ),
            )
        },
        run.step == mtu::Step::Save(j) ==> {
            let next = run.advance(Rep::Done(Err(error)));
            next.pending() is None && next.archive == without_last(run.archive) && next.result
                == Some(Err::<(), Seq<char>>(error))
        },
{
}

/// A run that sizes the links tells of a failed write and of a link that
/// `netsh` refuses, and goes on with the next adapter; after the last one it
/// fails with everything that was told.
pub proof fn sizing_goes_on_after_a_failure(run: Sizing, j: usize, error: Seq<char>)
    requires
        run.wf(),
        j < run.subkeys.len(),
    ensures
        ({
            let write = run.advance(Rep::Done(Err(error)));
            let link = run.advance(Rep::Output(Err(error)));
            let name = run.names[j as int];
            &&& run.step == mtu::Step::Write(j) ==> write.errors == run.errors.push(
                name + (": write MTU: "@ + error),
            )
            &&& run.step == mtu::Step::Live(j) ==> link.errors == run.errors.push(
                name + (": "@ + error),
            )
            &&& run.step == mtu::Step::Write(j) && j + 1 < run.subkeys.len() ==> write.pending()
                == Some(Act::KeyExists { subkey: run.subkeys[j + 1] })
            &&& run.step == mtu::Step::Live(j) && j + 1 < run.subkeys.len() ==> link.pending()
                == Some(Act::KeyExists { subkey: run.subkeys[j + 1] })
            &&& run.step == mtu::Step::Write(j) && j + 1 == run.subkeys.len() ==> write.result
                == Some(Err::<(), Seq<char>>(joined(write.errors, "; "@)))
            &&& run.step == mtu::Step::Live(j) && j + 1 == run.subkeys.len() ==> link.result
                == Some(Err::<(), Seq<char>>(joined(link.errors, "; "@)))
        }),
{
}

/// A run that keeps the NICs on ends with the error of a value that it cannot
/// read, or of an archive that it cannot save; the entry is taken back.
pub proof fn powering_ends_without_an_archive(
    run: Powering,
    k: usize,
    value: u32,
    error: Seq<char>,
)
    ensures
        run.step == power::Step::Read(k) ==> {
            let next = run.advance(Rep::Value(Err(error)));
            next.pending() is None && next.archive == run.archive && next.result == Some(
                Err::<(), Seq<char>>("read "@ + run.nics[k as int].description + ": "@ + error),
            )
        },
        run.step == power::Step::Save(k, value) ==> {
            let next = run.advance(Rep::Done(Err(error)));
            next.pending() is None && next.archive == without_last(run.archive) && next.result
                == Some(Err::<(), Seq<char>>(error))
        },
{
}

/// A run that keeps the NICs on tells of a failed write and goes on with the
/// next NIC; after the last one it fails with everything that was told.
pub proof fn powering_goes_on_after_a_failure(
    run: Powering,
    k: usize,
    value: u32,
    error: Seq<char>,
)
    requires
        run.wf(),
        run.step == power::Step::Write(k, value),
    ensures
        ({
            let next = run.advance(Rep::Done(Err(error)));
            &&& next.errors == run.errors.push(
                run.nics[k as int].description + ": write PnPCapabilities: "@ + error,
            )
            &&& k + 1 < run.nics.len() ==> next.pending() == Some(
                Act::ReadDword { subkey: run.nics[k + 1].subkey, name: "PnPCapabilities"@ },
            )
            &&& k + 1 == run.nics.len() ==> next.result == Some(
                Err::<(), Seq<char>>(joined(next.errors, "; "@)),
            )
        }),
{
}

/// A run that tunes TCP ends with the error of a value that it cannot read, or
/// of an archive that it cannot save; the entry is taken back.
pub proof fn tuning_ends_without_an_archive(run: Tuning, error: Seq<char>)
    requires
        run.wf(),
    ensures
        run.pending() matches Some(Act::ReadDword { subkey, name }) ==> {
            run.step !is GlobalCheck ==> {
                let next = run.advance(Rep::Value(Err(error)));
                next.pending() is None && next.archive == run.archive && next.result is Some
                    && next.result->0 == Err::<tcp::TcpStatus, Seq<char>>(
                    "read "@ + subkey + "\\"@ + name + ": "@ + error,
                )
            }
        },
        run.pending() == Some(Act::SaveArchive) ==> {
            let next = run.advance(Rep::Done(Err(error)));
            next.pending() is None && next.archive == without_last(run.archive) && next.result
                is Some && next.result->0 == Err::<tcp::TcpStatus, Seq<char>>(error)
        },
{
}

/// A run that tunes TCP keeps the first failed write as its outcome, and goes on
/// with the next value or the next adapter.
pub proof fn tuning_goes_on_after_a_failure(run: Tuning, j: usize, error: Seq<char>)
    requires
        run.wf(),
    ensures
        ({
            let next = run.advance(Rep::Done(Err(error)));
            &&& run.pending() matches Some(Act::WriteDword { subkey, name, .. }) ==> {
                next.failure == match run.failure {
                    Some(first) => Some(first),
                    None => Some("write "@ + subkey + "\\"@ + name + ": "@ + error),
                }
            }
            &&& run.step == tcp::Step::GlobalWrite(0) ==> next.step == tcp::Step::GlobalRead(1)
            &&& run.step == tcp::Step::GlobalWrite(1) ==> next.step == tcp::Step::GlobalCheck(0)
            &&& run.step == tcp::Step::Write(j, 0) ==> next.step == tcp::Step::Read(j, 1)
            &&& run.step == tcp::Step::Write(j, 1) ==> next.step == tcp::Step::Read(j, 2)
            &&& run.step == tcp::Step::Write(j, 2) && j + 1 < run.subkeys.len() ==> next.pending()
                == Some(Act::KeyExists { subkey: run.subkeys[j + 1] })
            &&& run.step == tcp::Step::Write(j, 2) && j + 1 == run.subkeys.len() ==> next.result
                is Some && next.result->0 == Err::<tcp::TcpStatus, Seq<char>>(next.failure->0)
        }),
{
}

/// A run that removes the throttling ends with the error of whatever fails
/// first; an entry that could not be saved is taken back.
pub proof fn unthrottling_ends_with_its_failure(run: Unthrottling, error: Seq<char>)
    ensures
        ({
            let value = "SOFTWARE\\Microsoft\\Windows NT\\CurrentVersion\\Multimedia\\SystemProfile"@
                + "\\"@ + "NetworkThrottlingIndex"@ + ": "@ + error;
            let done = run.advance(Rep::Done(Err(error)));
            &&& run.step is Read ==> run.advance(Rep::Value(Err(error))).result == Some(
                Err::<(), Seq<char>>("read "@ + value),
            )
            &&& run.step is Save ==> done.result == Some(Err::<(), Seq<char>>(error))
                && done.archive == without_last(run.archive)
            &&& run.step is Write ==> done.result == Some(Err::<(), Seq<char>>("write "@ + value))
                && done.archive == run.archive
        }),
{
    let key = "SOFTWARE\\Microsoft\\Windows NT\\CurrentVersion\\Multimedia\\SystemProfile"@;
    let value = key + "\\"@ + "NetworkThrottlingIndex"@ + ": "@ + error;
    assert("read "@ + value =~= "read "@ + key + "\\"@ + "NetworkThrottlingIndex"@ + ": "@ + error);
    assert("write "@ + value =~= "write "@ + key + "\\"@ + "NetworkThrottlingIndex"@ + ": "@
        + error);
}

} // verus!
