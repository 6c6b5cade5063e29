//! The echo handler of one connection.
//!
//! A handler works in rounds. In each round the caller reads from the
//! connection into a buffer and reports the outcome to [`on_read`], which
//! either names the bytes to write back or stops the handler. After the
//! write the caller reports to [`on_write`], which says whether another round
//! follows. The handler keeps no state between rounds and shares none with
//! any other connection.

use vstd::prelude::*;
use vstd::slice::slice_subrange;

verus! {

/// The size of the buffer a handler reads into.
pub const BUFFER_SIZE: usize = 1024;

/// What one read on the connection returned.
#[derive(Clone, Copy, Debug, PartialEq, Eq, Structural)]
pub enum ReadOutcome {
    /// The read put this many bytes at the start of the buffer. Zero means
    /// that the peer has closed the connection.
    Received(usize),
    /// The read reported an I/O error.
    Failed,
}

/// What became of writing a chunk back in full.
#[derive(Clone, Copy, Debug, PartialEq, Eq, Structural)]
pub enum WriteOutcome {
    Completed,
    Failed,
}

/// Why a handler stopped.
#[derive(Clone, Copy, Debug, PartialEq, Eq, Structural)]
pub enum StopReason {
    PeerClosed,
    ReadFailed,
    WriteFailed,
}

/// What the caller does after a read.
#[derive(Clone, Copy, Debug)]
pub enum EchoAction<'a> {
    /// Write these bytes to the peer, all of them, then call [`on_write`].
    WriteBack(&'a [u8]),
    /// Drop the connection.
    Stop(StopReason),
}

/// The bytes that a read delivered: the filled front of the buffer.
pub open spec fn delivered(buffer: Seq<u8>, read: ReadOutcome) -> Seq<u8> {
    match read {
        ReadOutcome::Received(n) => buffer.subrange(0, n as int),
        ReadOutcome::Failed => Seq::empty(),
    }
}

/// Whether a read ends the handler, and why.
pub open spec fn stop_after_read(read: ReadOutcome) -> Option<StopReason> {
    match read {
        ReadOutcome::Received(n) => if n == 0 {
            Some(StopReason::PeerClosed)
        } else {
            None
        },
        ReadOutcome::Failed => Some(StopReason::ReadFailed),
    }
}

/// Whether a write ends the handler, and why.
pub open spec fn stop_after_write(write: WriteOutcome) -> Option<StopReason> {
    match write {
        WriteOutcome::Completed => None,
        WriteOutcome::Failed => Some(StopReason::WriteFailed),
    }
}

/// Decides what follows a read into `buffer`.
///
/// A read that delivered bytes is answered with exactly those bytes, in
/// order; a read of zero bytes or a failed read stops the handler.
pub fn on_read<'a>(buffer: &'a [u8], read: ReadOutcome) -> (action: EchoAction<'a>)
    requires
        read matches ReadOutcome::Received(n) ==> n <= buffer@.len(),
    ensures
        match stop_after_read(read) {
            Some(reason) => action matches EchoAction::Stop(given) && given == reason,
            None => action matches EchoAction::WriteBack(bytes) && bytes@ == delivered(
                buffer@,
                read,
            ),
        },
{
    match read {
        ReadOutcome::Received(n) => {
            if n == 0 {
                EchoAction::Stop(StopReason::PeerClosed)
            } else {
                EchoAction::WriteBack(slice_subrange(buffer, 0, n))
            }
        },
        ReadOutcome::Failed => EchoAction::Stop(StopReason::ReadFailed),
    }
}

/// Decides what follows the write of a chunk: `None` to read again, or the
/// reason to stop.
pub fn on_write(write: WriteOutcome) -> (stop: Option<StopReason>)
    ensures
        stop == stop_after_write(write),
{
    match write {
        WriteOutcome::Completed => None,
        WriteOutcome::Failed => Some(StopReason::WriteFailed),
    }
}

/// One round of a handler as the connection saw it: what the buffer held
/// after the read, what the read returned and, where bytes were written back,
/// what became of the write.
pub struct Round {
    pub buffer: Seq<u8>,
    pub read: ReadOutcome,
    pub write: WriteOutcome,
}

/// Whether a round ends the handler, and why.
pub open spec fn round_stop(round: Round) -> Option<StopReason> {
    match stop_after_read(round.read) {
        Some(reason) => Some(reason),
        None => stop_after_write(round.write),
    }
}

/// The bytes that a round took from the peer.
pub open spec fn round_received(round: Round) -> Seq<u8> {
    delivered(round.buffer, round.read)
}

/// The bytes that a round gave back to the peer. A write that failed counts
/// for nothing, whatever part of it went out.
pub open spec fn round_echoed(round: Round) -> Seq<u8> {
    if round_stop(round) is None {
        delivered(round.buffer, round.read)
    } else {
        Seq::empty()
    }
}

/// What the handler of one connection has done so far.
pub struct Session {
    /// Why the handler has stopped; `None` while it runs.
    pub stop: Option<StopReason>,
    /// Everything the handler took from the peer, in order.
    pub received: Seq<u8>,
    /// Everything the handler gave back to the peer, in order.
    pub echoed: Seq<u8>,
}

impl Session {
    /// The handler of a connection that was just accepted.
    pub open spec fn fresh() -> Session {
        Session { stop: None, received: Seq::empty(), echoed: Seq::empty() }
    }

    /// The handler after one more round. A handler that has stopped takes no
    /// further round.
    pub open spec fn after_round(self, round: Round) -> Session {
        if self.stop is Some {
            self
        } else {
            Session {
                stop: round_stop(round),
                received: self.received + round_received(round),
                echoed: self.echoed + round_echoed(round),
            }
        }
    }

    /// The handler after `rounds`, one after the other.
    pub open spec fn after_rounds(self, rounds: Seq<Round>) -> Session
        decreases rounds.len(),
    {
        if rounds.len() == 0 {
            self
        } else {
            self.after_rounds(rounds.drop_last()).after_round(rounds.last())
        }
    }
}

/// A handler gives back what it took, byte for byte and in order: as long as
/// it runs, the bytes echoed are the bytes received, and once it has stopped
/// they are a prefix of them.
pub proof fn lemma_echo_is_verbatim(rounds: Seq<Round>)
    ensures
        ({
            let session = Session::fresh().after_rounds(rounds);
            &&& session.stop is None ==> session.echoed == session.received
            &&& session.echoed.is_prefix_of(session.received)
        }),
    decreases rounds.len(),
{
    if rounds.len() > 0 {
        lemma_echo_is_verbatim(rounds.drop_last());
    }
}

/// A handler runs until the peer closes or an I/O operation fails, and no
/// longer: it is still running after `rounds` exactly if every read in them
/// delivered at least one byte and every write completed.
pub proof fn lemma_session_runs_until_close_or_error(rounds: Seq<Round>)
    ensures
        Session::fresh().after_rounds(rounds).stop is None <==> forall|i: int|
            0 <= i < rounds.len() ==> {
                &&& (#[trigger] rounds[i]).read matches ReadOutcome::Received(n)
                &&& n > 0
                &&& rounds[i].write == WriteOutcome::Completed
            },
    decreases rounds.len(),
{
    if rounds.len() > 0 {
        let before = rounds.drop_last();
        lemma_session_runs_until_close_or_error(before);
        if Session::fresh().after_rounds(rounds).stop is None {
            assert forall|i: int| 0 <= i < rounds.len() implies {
                &&& (#[trigger] rounds[i]).read matches ReadOutcome::Received(n)
                &&& n > 0
                &&& rounds[i].write == WriteOutcome::Completed
            } by {
                if i < before.len() {
                    assert(rounds[i] == before[i]);
                }
            }
        } else if Session::fresh().after_rounds(before).stop is Some {
            let i = choose|i: int|
                0 <= i < before.len() && !{
                    &&& (#[trigger] before[i]).read matches ReadOutcome::Received(n)
                    &&& n > 0
                    &&& before[i].write == WriteOutcome::Completed
                };
            assert(rounds[i] == before[i]);
        }
    }
}

/// The reason a handler stopped is the reason of the first round that stops
/// it, whatever is offered to it afterwards.
pub proof fn lemma_session_stops_at_first_stop(rounds: Seq<Round>, at: int)
    requires
        0 <= at < rounds.len(),
        round_stop(rounds[at]) is Some,
        forall|i: int| 0 <= i < at ==> round_stop(#[trigger] rounds[i]) is None,
    ensures
        Session::fresh().after_rounds(rounds).stop == round_stop(rounds[at]),
    decreases rounds.len(),
{
    let before = rounds.drop_last();
    if at < before.len() {
        assert(before[at] == rounds[at]);
        assert forall|i: int| 0 <= i < at implies round_stop(#[trigger] before[i]) is None by {
            assert(before[i] == rounds[i]);
        }
        lemma_session_stops_at_first_stop(before, at);
    } else {
        assert forall|i: int| 0 <= i < before.len() implies {
            &&& (#[trigger] before[i]).read matches ReadOutcome::Received(n)
            &&& n > 0
            &&& before[i].write == WriteOutcome::Completed
        } by {
            assert(before[i] == rounds[i]);
            assert(round_stop(rounds[i]) is None);
        }
        lemma_session_runs_until_close_or_error(before);
    }
}

/// One round of the handler of one of the connections of a listener.
pub struct ConnectionRound {
    /// Which connection: its number in the order of acceptance.
    pub connection: nat,
    pub round: Round,
}

/// The handlers of a listener after the rounds of all its connections have
/// taken place in the order of `events`, however they interleave: for each
/// connection that has had a round, what its handler has done.
pub open spec fn handlers_after(events: Seq<ConnectionRound>) -> Map<nat, Session>
    decreases events.len(),
{
    if events.len() == 0 {
        Map::empty()
    } else {
        let before = handlers_after(events.drop_last());
        let connection = events.last().connection;
        let session = if before.dom().contains(connection) {
            before[connection]
        } else {
            Session::fresh()
        };
        before.insert(connection, session.after_round(events.last().round))
    }
}

/// The rounds of one connection among those of all, in order.
pub open spec fn rounds_of(events: Seq<ConnectionRound>, connection: nat) -> Seq<Round>
    decreases events.len(),
{
    if events.len() == 0 {
        Seq::empty()
    } else if events.last().connection == connection {
        rounds_of(events.drop_last(), connection).push(events.last().round)
    } else {
        rounds_of(events.drop_last(), connection)
    }
}

/// Connections are served without cross-talk: however the rounds of the
/// connections of a listener interleave, the handler of each connection ends
/// up where it would have, had it run the rounds of its own connection
/// alone. So what goes back to a connection is made of what came from that
/// connection, and a handler that stops leaves the others running.
pub proof fn lemma_connections_do_not_cross_talk(events: Seq<ConnectionRound>, connection: nat)
    ensures
        handlers_after(events).dom().contains(connection) <==> rounds_of(events, connection).len()
            > 0,
        handlers_after(events).dom().contains(connection) ==> handlers_after(events)[connection]
            == Session::fresh().after_rounds(rounds_of(events, connection)),
    decreases events.len(),
{
    if events.len() > 0 {
        lemma_connections_do_not_cross_talk(events.drop_last(), connection);
        if events.last().connection == connection {
            let own = rounds_of(events.drop_last(), connection);
            assert(own.push(events.last().round).drop_last() == own);
        }
    }
}

} // verus!
