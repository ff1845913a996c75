//! The protocol-independent part of the secure transport: protocol
//! detection on the first byte, the handshake state machine, and the
//! staging buffer that assembles frames across partial reads.

use vstd::prelude::*;

verus! {

/// The protocol family of an accepted connection.
#[derive(Clone, Copy, Debug, PartialEq, Eq, Structural)]
pub enum Protocol {
    V1,
    V2,
}

/// The protocol a first byte announces: `{` opens a line of JSON-RPC, so
/// it means V1; anything else is the binary V2 handshake.
pub open spec fn protocol_of(first_byte: u8) -> Protocol {
    if first_byte == 0x7B {
        Protocol::V1
    } else {
        Protocol::V2
    }
}

/// Classifies a connection by the first byte peeked from it.
pub fn detect_protocol(first_byte: u8) -> (p: Protocol)
    ensures
        p == protocol_of(first_byte),
{
    if first_byte == 0x7B {
        Protocol::V1
    } else {
        Protocol::V2
    }
}

/// Which side of the handshake this endpoint plays: the initiator sends
/// the first handshake message, the responder waits for it.
#[derive(Clone, Copy, Debug, PartialEq, Eq, Structural)]
pub enum HandshakeRole {
    Initiator,
    Responder,
}

/// The state of one secured connection's transport.
#[derive(Clone, Copy, Debug, PartialEq, Eq, Structural)]
pub enum TransportPhase {
    Uninitialized,
    Handshaking { role: HandshakeRole, step: u8 },
    Transport,
    Failed,
}

/// What happened to a connection's transport.
#[derive(Clone, Copy, Debug, PartialEq, Eq, Structural)]
pub enum TransportEvent {
    Started { role: HandshakeRole },
    MessageExchanged,
    HandshakeCompleted,
    Failure,
}

/// The transport state machine: a handshake starts from the uninitialized
/// state, advances one step per exchanged message, and ends in the
/// transport state or the failed state. Both of those are terminal: no
/// event moves a connection out of them.
pub open spec fn phase_after(p: TransportPhase, e: TransportEvent) -> TransportPhase {
    match p {
        TransportPhase::Uninitialized => match e {
            TransportEvent::Started { role } => TransportPhase::Handshaking { role, step: 0 },
            TransportEvent::Failure => TransportPhase::Failed,
            _ => TransportPhase::Uninitialized,
        },
        TransportPhase::Handshaking { role, step } => match e {
            TransportEvent::MessageExchanged => TransportPhase::Handshaking {
                role,
                step: if step == 255 {
                    255
                } else {
                    (step + 1) as u8
                },
            },
            TransportEvent::HandshakeCompleted => TransportPhase::Transport,
            TransportEvent::Failure => TransportPhase::Failed,
            TransportEvent::Started { .. } => TransportPhase::Handshaking { role, step },
        },
        TransportPhase::Transport => TransportPhase::Transport,
        TransportPhase::Failed => TransportPhase::Failed,
    }
}

/// Advances the transport state machine by one event.
pub fn advance_phase(p: TransportPhase, e: TransportEvent) -> (r: TransportPhase)
    ensures
        r == phase_after(p, e),
{
    match p {
        TransportPhase::Uninitialized => match e {
            TransportEvent::Started { role } => TransportPhase::Handshaking { role, step: 0 },
            TransportEvent::Failure => TransportPhase::Failed,
            _ => TransportPhase::Uninitialized,
        },
        TransportPhase::Handshaking { role, step } => match e {
            TransportEvent::MessageExchanged => TransportPhase::Handshaking {
                role,
                step: if step == 255 {
                    255
                } else {
                    step + 1
                },
            },
            TransportEvent::HandshakeCompleted => TransportPhase::Transport,
            TransportEvent::Failure => TransportPhase::Failed,
            TransportEvent::Started { .. } => TransportPhase::Handshaking { role, step },
        },
        TransportPhase::Transport => TransportPhase::Transport,
        TransportPhase::Failed => TransportPhase::Failed,
    }
}

/// Once the transport state is reached, no event leaves it: the secured
/// connection only encrypts and decrypts until it is torn down.
pub proof fn lemma_transport_is_terminal(e: TransportEvent)
    ensures
        phase_after(TransportPhase::Transport, e) == TransportPhase::Transport,
{
}

/// A failed transport stays failed.
pub proof fn lemma_failed_is_terminal(e: TransportEvent)
    ensures
        phase_after(TransportPhase::Failed, e) == TransportPhase::Failed,
{
}

/// The staging buffer of the frame codec's read side: it accumulates
/// exactly the number of bytes the decoder asked for, across however many
/// partial reads it takes, without losing bytes already received. The
/// buffer is reallocated only when the expected length changes.
pub struct FrameBuffer {
    buf: Vec<u8>,
    filled: usize,
}

impl FrameBuffer {
    /// How many bytes the current frame round expects in total.
    pub closed spec fn expected(self) -> nat {
        self.buf@.len()
    }

    /// The bytes received so far this round, in arrival order.
    pub closed spec fn data(self) -> Seq<u8> {
        self.buf@.subrange(0, self.filled as int)
    }

    /// Well-formedness: never more bytes than expected.
    pub closed spec fn wf(self) -> bool {
        self.filled <= self.buf@.len()
    }

    /// Creates an empty staging buffer expecting nothing.
    pub fn new() -> (r: FrameBuffer)
        ensures
            r.wf(),
            r.expected() == 0,
            r.data() =~= Seq::<u8>::empty(),
    {
        FrameBuffer { buf: Vec::new(), filled: 0 }
    }

    /// Sets the expected length of the current round. A changed length
    /// reallocates and starts the round over; the same length keeps the
    /// bytes already received.
    pub fn set_expected(&mut self, n: usize)
        requires
            old(self).wf(),
        ensures
            final(self).wf(),
            final(self).expected() == n,
            if n == old(self).expected() {
                final(self).data() == old(self).data()
            } else {
                final(self).data() =~= Seq::<u8>::empty()
            },
    {
        if n != self.buf.len() {
            let mut fresh: Vec<u8> = Vec::new();
            let mut i: usize = 0;
            while i < n
                invariant
                    0 <= i <= n,
                    fresh@.len() == i,
                decreases n - i,
            {
                fresh.push(0u8);
                i = i + 1;
            }
            self.buf = fresh;
            self.filled = 0;
        }
    }

    /// How many bytes are still missing this round.
    pub fn missing(&self) -> (r: usize)
        requires
            self.wf(),
        ensures
            r == self.expected() - self.data().len(),
    {
        self.buf.len() - self.filled
    }

    /// Whether the round's bytes are all here.
    pub fn is_complete(&self) -> (r: bool)
        requires
            self.wf(),
        ensures
            r == (self.data().len() == self.expected()),
    {
        self.filled == self.buf.len()
    }

    /// Accepts bytes from one read: as much of `chunk` as still fits this
    /// round is appended to the bytes already received, and how much was
    /// consumed is returned. Nothing already received is dropped.
    pub fn fill(&mut self, chunk: &[u8]) -> (consumed: usize)
        requires
            old(self).wf(),
        ensures
            final(self).wf(),
            final(self).expected() == old(self).expected(),
            consumed == vstd::math::min(
                old(self).expected() - old(self).data().len(),
                chunk@.len() as int,
            ),
            final(self).data() =~= old(self).data() + chunk@.subrange(0, consumed as int),
    {
        let room = self.buf.len() - self.filled;
        let take: usize = if chunk.len() < room {
            chunk.len()
        } else {
            room
        };
        let mut i: usize = 0;
        while i < take
            invariant
                0 <= i <= take,
                self.filled == old(self).filled,
                take <= chunk@.len(),
                self.filled + take <= self.buf@.len(),
                self.buf@.len() <= usize::MAX,
                self.buf@.len() == old(self).buf@.len(),
                self.buf@.subrange(0, self.filled as int) == old(self).buf@.subrange(
                    0,
                    self.filled as int,
                ),
                self.buf@.subrange(self.filled as int, self.filled + i) =~= chunk@.subrange(
                    0,
                    i as int,
                ),
            decreases take - i,
        {
            self.buf.set(self.filled + i, chunk[i]);
            proof {
                assert(self.buf@.subrange(self.filled as int, self.filled + i + 1) =~= self
                    .buf@.subrange(self.filled as int, self.filled + i).push(chunk@[i as int]));
                assert(chunk@.subrange(0, i + 1) =~= chunk@.subrange(0, i as int).push(
                    chunk@[i as int],
                ));
            }
            i = i + 1;
        }
        self.filled = self.filled + take;
        proof {
            assert(self.buf@.subrange(0, self.filled as int) =~= old(self).buf@.subrange(
                0,
                old(self).filled as int,
            ) + chunk@.subrange(0, take as int));
        }
        take
    }

    /// Hands out the completed round's bytes and resets the buffer.
    pub fn take(&mut self) -> (r: Vec<u8>)
        requires
            old(self).wf(),
            old(self).data().len() == old(self).expected(),
        ensures
            final(self).wf(),
            r@ == old(self).data(),
            final(self).expected() == 0,
            final(self).data() =~= Seq::<u8>::empty(),
    {
        let mut out: Vec<u8> = Vec::new();
        let n = self.buf.len();
        let mut i: usize = 0;
        while i < n
            invariant
                0 <= i <= n == self.buf@.len(),
                self == old(self),
                out@ =~= self.buf@.subrange(0, i as int),
            decreases n - i,
        {
            out.push(self.buf[i]);
            proof {
                assert(self.buf@.subrange(0, i + 1) =~= self.buf@.subrange(0, i as int).push(
                    self.buf@[i as int],
                ));
            }
            i = i + 1;
        }
        self.buf = Vec::new();
        self.filled = 0;
        proof {
            assert(old(self).buf@.subrange(0, n as int) =~= old(self).buf@);
            assert(old(self).data() =~= old(self).buf@);
        }
        out
    }
}

} // verus!
