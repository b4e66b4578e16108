//! Live TCP connection statistics.

use vstd::prelude::*;

verus! {

/// Snapshot of the IPv4 TCP connection table.
#[derive(Clone, Copy, Debug, PartialEq, Eq, Structural)]
pub struct TcpConnections {
    /// Connections in every state.
    pub total: u32,
    /// Established connections.
    pub established: u32,
    /// Sockets waiting out their TIME_WAIT period.
    pub time_wait: u32,
}

impl Default for TcpConnections {
    fn default() -> (connections: Self)
        ensures
            connections == (TcpConnections { total: 0, established: 0, time_wait: 0 }),
    {
        TcpConnections { total: 0, established: 0, time_wait: 0 }
    }
}

/// The state of an established connection.
pub const STATE_ESTABLISHED: u32 = 5;

/// The state of a socket in TIME_WAIT.
pub const STATE_TIME_WAIT: u32 = 11;

/// How many connections are in a state.
pub open spec fn in_state(states: Seq<u32>, state: u32) -> nat {
    states.filter(|s: u32| s == state).len()
}

/// Counts the connections of a table by their states.
pub fn count_rows(states: &[u32]) -> (counted: TcpConnections)
    requires
        states@.len() <= u32::MAX,
    ensures
        counted.total == states@.len(),
        counted.established == in_state(states@, STATE_ESTABLISHED),
        counted.time_wait == in_state(states@, STATE_TIME_WAIT),
        counted.established + counted.time_wait <= counted.total,
{
    let mut counted = TcpConnections { total: states.len() as u32, established: 0, time_wait: 0 };
    let mut i: usize = 0;
    proof {
        assert(states@.take(0) =~= Seq::<u32>::empty());
        reveal(Seq::filter);
    }
    while i < states.len()
        invariant
            i <= states@.len() <= u32::MAX,
            counted.total == states@.len(),
            counted.established + counted.time_wait <= i,
            counted.established == in_state(states@.take(i as int), STATE_ESTABLISHED),
            counted.time_wait == in_state(states@.take(i as int), STATE_TIME_WAIT),
        decreases states@.len() - i,
    {
        proof {
            assert(states@.take(i + 1).drop_last() =~= states@.take(i as int));
            reveal(Seq::filter);
        }
        if states[i] == STATE_ESTABLISHED {
            counted.established = counted.established + 1;
        } else if states[i] == STATE_TIME_WAIT {
            counted.time_wait = counted.time_wait + 1;
        }
        i = i + 1;
    }
    assert(states@.take(states@.len() as int) =~= states@);
    counted
}

} // verus!
