//! Per-adapter traffic measurement.
//!
//! A [`Snapshot`] holds the cumulative octet counters of every physical
//! adapter. Two of them give the bytes that went either way in between.

use vstd::prelude::*;

use crate::interfaces::{physical_type, IF_TYPE_LOOPBACK, IF_TYPE_TUNNEL};

verus! {

/// One adapter's counters at a point in time.
#[derive(Clone, Copy, Debug, PartialEq, Eq, Structural)]
pub struct Row {
    /// Adapter index (interface index).
    pub index: u32,
    /// Bytes received since the driver loaded.
    pub in_octets: u64,
    /// Bytes sent since the driver loaded.
    pub out_octets: u64,
}

/// One entry of the interface table: its type, and its counters.
#[derive(Clone, Copy, Debug, PartialEq, Eq, Structural)]
pub struct Entry {
    /// `IF_TYPE_*` constant.
    pub if_type: u32,
    pub row: Row,
}

/// The counter snapshot with its time.
#[derive(Debug)]
pub struct Snapshot {
    /// When the counters were read, in nanoseconds on a clock that never goes
    /// back.
    pub taken_at: u64,
    /// One row per physical adapter.
    pub rows: Vec<Row>,
}

/// The counters of the physical adapters, in order.
pub open spec fn physical_rows(entries: Seq<Entry>) -> Seq<Row> {
    entries.filter(|e: Entry| physical_type(e.if_type)).map_values(|e: Entry| e.row)
}

/// The counters of every physical adapter in the interface table.
pub fn read(entries: &Vec<Entry>) -> (rows: Vec<Row>)
    ensures
        rows@ == physical_rows(entries@),
{
    let mut rows: Vec<Row> = Vec::new();
    let mut i: usize = 0;
    proof {
        assert(entries@.take(0) =~= Seq::<Entry>::empty());
        reveal(Seq::filter);
        assert(rows@ =~= physical_rows(entries@.take(0)));
    }
    while i < entries.len()
        invariant
            i <= entries@.len(),
            rows@ == physical_rows(entries@.take(i as int)),
        decreases entries@.len() - i,
    {
        let entry = entries[i];
        let ghost before = rows@;
        let ghost kept = entries@.take(i as int).filter(|e: Entry| physical_type(e.if_type));
        proof {
            assert(entries@.take(i + 1).drop_last() =~= entries@.take(i as int));
            reveal(Seq::filter);
        }
        if entry.if_type != IF_TYPE_LOOPBACK && entry.if_type != IF_TYPE_TUNNEL {
            rows.push(entry.row);
            assert(kept.push(entry).map_values(|e: Entry| e.row) =~= before.push(entry.row));
        }
        i = i + 1;
    }
    assert(entries@.take(entries@.len() as int) =~= entries@);
    rows
}

/// Captures a snapshot of these counters.
pub fn sample(taken_at: u64, rows: Vec<Row>) -> (snapshot: Snapshot)
    ensures
        snapshot.taken_at == taken_at,
        snapshot.rows@ == rows@,
{
    Snapshot { taken_at, rows }
}

/// The bytes that one adapter received and sent between two snapshots.
#[derive(Clone, Copy, Debug, PartialEq, Eq, Structural)]
pub struct Transfer {
    pub index: u32,
    pub down: u64,
    pub up: u64,
}

/// The first row of this adapter.
pub open spec fn row_of(rows: Seq<Row>, index: u32) -> Option<Row>
    decreases rows.len(),
{
    if rows.len() == 0 {
        None
    } else if rows[0].index == index {
        Some(rows[0])
    } else {
        row_of(rows.skip(1), index)
    }
}

/// How far a counter advanced; one that was reset counts as zero.
pub open spec fn advanced(before: u64, after: u64) -> u64 {
    if after >= before {
        (after - before) as u64
    } else {
        0
    }
}

/// What one adapter transferred, if it still has counters.
pub open spec fn transfer_of(first: Row, after: Seq<Row>) -> Option<Transfer> {
    match row_of(after, first.index) {
        Some(second) => Some(
            Transfer {
                index: first.index,
                down: advanced(first.in_octets, second.in_octets),
                up: advanced(first.out_octets, second.out_octets),
            },
        ),
        None => None,
    }
}

/// What the adapters transferred, in the order of the earlier rows.
pub open spec fn transfers_of(before: Seq<Row>, after: Seq<Row>) -> Seq<Transfer>
    decreases before.len(),
{
    if before.len() == 0 {
        Seq::empty()
    } else {
        let rest = transfers_of(before.drop_last(), after);
        match transfer_of(before.last(), after) {
            Some(t) => rest.push(t),
            None => rest,
        }
    }
}

/// What the adapters transferred between two readings of the counters; nothing
/// when no time passed in between.
pub open spec fn moved(before: (u64, Seq<Row>), after: (u64, Seq<Row>)) -> Seq<Transfer> {
    if after.0 > before.0 {
        transfers_of(before.1, after.1)
    } else {
        Seq::empty()
    }
}

fn find_row(rows: &Vec<Row>, index: u32) -> (found: Option<Row>)
    ensures
        found == row_of(rows@, index),
{
    let mut i: usize = 0;
    assert(rows@.skip(0) =~= rows@);
    while i < rows.len()
        invariant
            i <= rows@.len(),
            row_of(rows@, index) == row_of(rows@.skip(i as int), index),
        decreases rows@.len() - i,
    {
        assert(rows@.skip(i as int)[0] == rows@[i as int]);
        assert(rows@.skip(i as int).skip(1) =~= rows@.skip(i + 1));
        if rows[i].index == index {
            return Some(rows[i]);
        }
        i = i + 1;
    }
    None
}

/// The nanoseconds between two snapshots, zero when they are out of order.
pub fn elapsed(before: &Snapshot, after: &Snapshot) -> (nanos: u64)
    ensures
        nanos == advanced(before.taken_at, after.taken_at),
{
    after.taken_at.saturating_sub(before.taken_at)
}

/// The bytes transferred between `before` and `after`, matched by adapter
/// index. Empty when no time passed in between.
pub fn transfers(before: &Snapshot, after: &Snapshot) -> (list: Vec<Transfer>)
    ensures
        list@ == moved((before.taken_at, before.rows@), (after.taken_at, after.rows@)),
        list@ == if after.taken_at > before.taken_at {
            transfers_of(before.rows@, after.rows@)
        } else {
            Seq::empty()
        },
{
    let mut list: Vec<Transfer> = Vec::new();
    if elapsed(before, after) == 0 {
        return list;
    }
    let mut i: usize = 0;
    assert(before.rows@.take(0) =~= Seq::<Row>::empty());
    while i < before.rows.len()
        invariant
            i <= before.rows@.len(),
            list@ == transfers_of(before.rows@.take(i as int), after.rows@),
        decreases before.rows@.len() - i,
    {
        let first = before.rows[i];
        assert(before.rows@.take(i + 1).drop_last() =~= before.rows@.take(i as int));
        if let Some(second) = find_row(&after.rows, first.index) {
            list.push(
                Transfer {
                    index: first.index,
                    down: second.in_octets.saturating_sub(first.in_octets),
                    up: second.out_octets.saturating_sub(first.out_octets),
                },
            );
        }
        i = i + 1;
    }
    assert(before.rows@.take(before.rows@.len() as int) =~= before.rows@);
    list
}

/// An adapter without counters in both snapshots has no transfer.
pub proof fn transfer_needs_both(before: Seq<Row>, after: Seq<Row>, k: int)
    requires
        0 <= k < transfers_of(before, after).len(),
    ensures
        row_of(after, transfers_of(before, after)[k].index) is Some,
        exists|i: int|
            0 <= i < before.len() && (#[trigger] before[i]).index == transfers_of(
                before,
                after,
            )[k].index,
    decreases before.len(),
{
    if before.len() > 0 {
        let front = before.drop_last();
        let rest = transfers_of(front, after);
        if k < rest.len() {
            transfer_needs_both(front, after, k);
            assert(transfers_of(before, after)[k] == rest[k]);
            let i = choose|i: int|
                0 <= i < front.len() && (#[trigger] front[i]).index == rest[k].index;
            assert(before[i] == front[i]);
        } else {
            assert(before[before.len() - 1].index == transfers_of(before, after)[k].index);
        }
    }
}

} // verus!
