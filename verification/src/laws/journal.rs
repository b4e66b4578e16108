//! What the log is told while a run goes on.

use vstd::prelude::*;

use crate::config::Entry;
use crate::dns::{doh_available, Stage, Switching};
use crate::interfaces::Adapter;
use crate::laws::links::{nameable, stands_for};
use crate::mtu::{asides_for, last_segment, link_for, with_guid, Sizing};
use crate::ops::{Act, Rep};
use crate::power::{Powering, Step};
use crate::revert::{Phase, Reverting};
use crate::text::{decimal, hex_lower};

verus! {

/// A run that sizes the links tells of every link that `netsh` was sent to, with
/// the size, and of nothing else.
pub proof fn sized_links_are_logged(run: Sizing, reply: Rep)
    ensures
        run.pending() matches Some(Act::LiveMtu { adapter, value, .. }) ==> {
            reply is Output ==> run.notes(reply) == seq![
                "mtu: setting "@ + adapter + " to "@ + decimal(value as nat),
            ]
        },
        !(run.pending() matches Some(Act::LiveMtu { .. })) || reply !is Output ==> run.notes(
            reply,
        ).len() == 0,
{
}

/// A run that keeps the NICs on tells of every write, with the NIC and the value
/// in hexadecimal digits, and of nothing else.
pub proof fn written_bits_are_logged(run: Powering, reply: Rep)
    ensures
        run.step matches Step::Write(k, value) ==> {
            reply is Done ==> run.notes(reply) == seq![
                "power: "@ + run.nics[k as int].description + " ("@ + run.nics[k as int].guid
                    + ") PnPCapabilities -> 0x"@ + hex_lower(value as nat),
            ]
        },
        !(run.pending() matches Some(Act::WriteDword { .. })) || reply !is Done ==> run.notes(
            reply,
        ).len() == 0,
{
}

/// The first command of a switch is told with the adapter and the resolver; a
/// restore is silent about it.
pub proof fn switches_are_logged(run: Switching, i: usize, answer: Result<Seq<char>, Seq<char>>)
    requires
        run.stage == Stage::Required(i),
    ensures
        ({
            let job = run.jobs[run.job as int];
            let notes = run.notes(Rep::Output(answer));
            &&& i == 0 && !run.restoring ==> notes == seq![
                "dns: setting "@ + job.label + " to "@ + job.primary,
            ]
            &&& i != 0 || run.restoring ==> notes.len() == 0
        }),
{
}

/// What `netsh` answers about encryption is told, and that it is skipped.
pub proof fn encryption_support_is_logged(run: Switching, answer: Result<Seq<char>, Seq<char>>)
    requires
        run.stage is Probe,
    ensures
        ({
            let notes = run.notes(Rep::Output(answer));
            &&& doh_available(answer) ==> notes == seq!["dns: DoH supported"@]
            &&& !doh_available(answer) && run.restoring ==> notes == seq!["dns: DoH not supported"@]
            &&& !doh_available(answer) && !run.restoring ==> notes == seq![
                "dns: DoH not supported"@,
                "dns: DoH unavailable on this system, skipping"@,
            ]
        }),
{
}

/// A mapping that could not be changed is told with its server, the adapter and
/// the reason; the last one of a switch without refusals is told as a success.
pub proof fn mappings_are_logged(run: Switching, i: usize, error: Seq<char>, output: Seq<char>)
    requires
        run.stage == Stage::Encrypt(i),
    ensures
        ({
            let job = run.jobs[run.job as int];
            let refused = run.notes(Rep::Output(Err(error)));
            let done = run.notes(Rep::Output(Ok(output)));
            let server = if i == 0 {
                job.primary
            } else {
                job.secondary
            };
            &&& run.restoring ==> refused == seq![
                "dns: DoH delete "@ + server + " on "@ + job.label + ": "@ + error,
            ]
            &&& !run.restoring ==> refused == seq![
                "dns: DoH add "@ + server + " on "@ + job.label + ": "@ + error,
            ]
            &&& !run.restoring && !run.refused && i + 1 == job.encryption.len() ==> done == seq![
                "dns: DoH enabled for "@ + job.primary + " on "@ + job.label,
            ]
            &&& run.restoring || run.refused || i + 1 != job.encryption.len() ==> done.len() == 0
        }),
{
}

/// While a revert corrects a link it tells of it, and of the reason why it
/// failed, before what stands aside for the next link.
pub proof fn corrected_links_are_logged(
    run: Reverting,
    k: usize,
    adapter: Seq<char>,
    args: Seq<Seq<char>>,
    subkey: Seq<char>,
    value: u32,
    persistent: bool,
    error: Seq<char>,
    output: Seq<char>,
)
    requires
        run.phase == Phase::Linking(k),
        run.links[k as int] == (Act::LiveMtu { adapter, args, subkey, value, persistent }),
    ensures
        run.notes(Rep::Output(Ok(output))) == seq![
            "mtu: setting "@ + adapter + " to "@ + decimal(value as nat),
        ] + run.asides[k + 1],
        run.notes(Rep::Output(Err(error))) == seq![
            "mtu: setting "@ + adapter + " to "@ + decimal(value as nat),
            "mtu: live restore of "@ + decimal(value as nat) + " on "@ + adapter + " failed: "@
                + error,
        ] + run.asides[k + 1],
{
}

/// What stands aside is told once the archive is saved, and never when it could
/// not be.
pub proof fn asides_wait_for_the_archive(run: Reverting, error: Seq<char>)
    ensures
        run.phase is Saving ==> run.notes(Rep::Done(Ok(()))) == run.asides[0] && run.notes(
            Rep::Done(Err(error)),
        ).len() == 0,
        run.phase is Restoring || run.phase is Finished ==> run.notes(Rep::Done(Ok(()))).len() == 0,
{
}

/// An adapter that is there but cannot be named is told of in its place, with
/// the MTU that its archived value stands for and the reason.
pub proof fn unnameable_links_are_logged(entries: Seq<Entry>, entry: Entry, ifaces: Seq<Adapter>)
    requires
        with_guid(ifaces, last_segment(entry.subkey)) is Some,
        !nameable(with_guid(ifaces, last_segment(entry.subkey))->0.friendly),
    ensures
        ({
            let name = with_guid(ifaces, last_segment(entry.subkey))->0.friendly;
            let before = asides_for(entries, ifaces);
            let after = asides_for(entries.push(entry), ifaces);
            &&& link_for(entry, ifaces) is None
            &&& after == before.drop_last().push(
                before.last().push(
                    "mtu: live restore of "@ + decimal(stands_for(entry) as nat) + " on "@ + name
                        + " failed: "@ + (if name.len() == 0 {
                        "empty name value"@
                    } else {
                        "name value contains a quote: "@ + name
                    }),
                ),
            )
        }),
{
    assert(entries.push(entry).drop_last() =~= entries);
    reveal_strlit("empty ");
    reveal_strlit("name");
    reveal_strlit(" value");
    reveal_strlit("empty name value");
    reveal_strlit(" value contains a quote: ");
    reveal_strlit("name value contains a quote: ");
    assert("empty "@ + "name"@ + " value"@ =~= "empty name value"@);
    assert("name"@ + " value contains a quote: "@ =~= "name value contains a quote: "@);
}

/// A change of the autostart entry is told with its direction and its failure.
pub proof fn autostart_changes_are_logged(error: Seq<char>)
    ensures
        crate::log::autostart_line(true, Ok(())) == "autostart: enabled"@,
        crate::log::autostart_line(false, Ok(())) == "autostart: disabled"@,
        crate::log::autostart_line(true, Err(error)) == "autostart: enabled"@ + (": "@ + error),
        crate::log::autostart_line(false, Err(error)) == "autostart: disabled"@ + (": "@ + error),
{
}

/// After the last optional command of a switch it is told that encryption is
/// skipped, where it is known not to be supported.
pub proof fn skipped_encryption_is_logged(
    run: Switching,
    i: usize,
    answer: Result<Seq<char>, Seq<char>>,
)
    requires
        run.stage == Stage::Optional(i),
    ensures
        ({
            let notes = run.notes(Rep::Output(answer));
            let last = i + 1 == run.commands().optional.len();
            &&& last && !run.restoring && run.doh == Some(false) ==> notes == seq![
                "dns: DoH unavailable on this system, skipping"@,
            ]
            &&& !last || run.restoring || run.doh != Some(false) ==> notes.len() == 0
        }),
{
}

} // verus!
