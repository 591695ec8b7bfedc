//! Packets that wait for a socket to become writable.
use std::collections::VecDeque;
use vstd::prelude::*;

verus! {

/// How an attempt to send without waiting ended.
#[derive(Debug, Clone, Copy, PartialEq, Eq, Structural)]
pub enum TrySend {
    /// The packet was sent.
    Sent,
    /// The socket is not ready.
    WouldBlock,
    /// The attempt failed.
    Failed,
}

/// How flushing goes on.
#[derive(Debug, Clone, Copy, PartialEq, Eq, Structural)]
pub enum FlushStep {
    /// The packet at the front is to be tried.
    Try,
    /// All packets are sent.
    Flushed,
    /// The socket is not ready.
    Blocked,
    /// Sending failed.
    Failed,
}

/// What became of a packet.
#[derive(Debug, Clone, Copy, PartialEq, Eq, Structural)]
pub enum Accepted {
    /// It was sent.
    Sent,
    /// It waits in the buffer.
    Buffered,
    /// It was dropped, because the buffer is full.
    Dropped,
    /// Sending failed.
    Failed,
}

/// Whether a sink can take a packet.
#[derive(Debug, Clone, Copy, PartialEq, Eq, Structural)]
pub enum Readiness {
    /// It can.
    Ready,
    /// It cannot yet.
    Pending,
    /// It failed.
    Failed,
}

/// The largest number of packets that wait.
pub const MAX_BUFFER_SIZE: usize = 1024;

/// Packets that wait for a socket to become writable, first in, first out.
#[derive(Debug)]
pub struct SendBuffer<T> {
    packets: VecDeque<T>,
}

impl<T> SendBuffer<T> {
    /// The packets that wait, in the order in which they are sent.
    pub closed spec fn waiting(&self) -> Seq<T> {
        self.packets@
    }

    /// No more packets wait than may.
    pub open spec fn wf(&self) -> bool {
        self.waiting().len() <= MAX_BUFFER_SIZE
    }

    /// Creates an empty buffer.
    pub fn new() -> (buffer: SendBuffer<T>)
        ensures
            buffer.wf(),
            buffer.waiting() == Seq::<T>::empty(),
    {
        SendBuffer { packets: VecDeque::new() }
    }

    /// Returns whether no packet waits.
    pub fn is_empty(&self) -> (r: bool)
        ensures
            r == (self.waiting().len() == 0),
    {
        self.packets.len() == 0
    }

    /// Returns the packet that is sent next.
    pub fn front(&self) -> (packet: Option<&T>)
        ensures
            match packet {
                Some(p) => self.waiting().len() > 0 && *p == self.waiting()[0],
                None => self.waiting().len() == 0,
            },
    {
        if self.packets.len() == 0 {
            None
        } else {
            Some(&self.packets[0])
        }
    }

    /// Takes note of how sending the packet at the front ended, and returns how
    /// flushing goes on. A packet leaves the buffer only when it was sent.
    pub fn after_attempt(&mut self, outcome: TrySend) -> (step: FlushStep)
        requires
            old(self).wf(),
            old(self).waiting().len() > 0,
        ensures
            final(self).wf(),
            final(self).waiting() == (if outcome == TrySend::Sent {
                old(self).waiting().drop_first()
            } else {
                old(self).waiting()
            }),
            step == (match outcome {
                TrySend::Sent => if final(self).waiting().len() == 0 {
                    FlushStep::Flushed
                } else {
                    FlushStep::Try
                },
                TrySend::WouldBlock => FlushStep::Blocked,
                TrySend::Failed => FlushStep::Failed,
            }),
    {
        match outcome {
            TrySend::Sent => {
                let _ = self.packets.pop_front();
                assert(self.packets@ =~= old(self).packets@.drop_first());
                if self.packets.len() == 0 {
                    FlushStep::Flushed
                } else {
                    FlushStep::Try
                }
            },
            TrySend::WouldBlock => FlushStep::Blocked,
            TrySend::Failed => FlushStep::Failed,
        }
    }

    /// Returns how flushing begins.
    pub fn begin_flush(&self) -> (step: FlushStep)
        ensures
            step == (if self.waiting().len() == 0 {
                FlushStep::Flushed
            } else {
                FlushStep::Try
            }),
    {
        if self.packets.len() == 0 {
            FlushStep::Flushed
        } else {
            FlushStep::Try
        }
    }

    /// Returns whether a packet can be taken, after flushing has ended.
    pub fn readiness(&self, flushed: FlushStep) -> (r: Readiness)
        ensures
            r == (match flushed {
                FlushStep::Flushed => if self.waiting().len() < MAX_BUFFER_SIZE {
                    Readiness::Ready
                } else {
                    Readiness::Pending
                },
                FlushStep::Failed => Readiness::Failed,
                FlushStep::Blocked => Readiness::Pending,
                FlushStep::Try => Readiness::Pending,
            }),
    {
        match flushed {
            FlushStep::Flushed => if self.packets.len() < MAX_BUFFER_SIZE {
                Readiness::Ready
            } else {
                Readiness::Pending
            },
            FlushStep::Failed => Readiness::Failed,
            FlushStep::Blocked => Readiness::Pending,
            FlushStep::Try => Readiness::Pending,
        }
    }

    /// Takes a packet. If none waits, sending it has been attempted with the
    /// outcome `direct`; only if the socket was not ready, or if others wait, it
    /// goes to the end of the buffer. If that is full, it is dropped.
    pub fn start_send(&mut self, packet: T, direct: TrySend) -> (r: Accepted)
        requires
            old(self).wf(),
        ensures
            final(self).wf(),
            r == (if old(self).waiting().len() == 0 && direct == TrySend::Sent {
                Accepted::Sent
            } else if old(self).waiting().len() == 0 && direct == TrySend::Failed {
                Accepted::Failed
            } else if old(self).waiting().len() < MAX_BUFFER_SIZE {
                Accepted::Buffered
            } else {
                Accepted::Dropped
            }),
            final(self).waiting() == (if r == Accepted::Buffered {
                old(self).waiting().push(packet)
            } else {
                old(self).waiting()
            }),
    {
        if self.packets.len() == 0 {
            match direct {
                TrySend::Sent => return Accepted::Sent,
                TrySend::Failed => return Accepted::Failed,
                TrySend::WouldBlock => {},
            }
        }
        if self.packets.len() < MAX_BUFFER_SIZE {
            self.packets.push_back(packet);
            Accepted::Buffered
        } else {
            Accepted::Dropped
        }
    }
}

/// What waits after sending has been attempted `outcomes.len()` times: attempts
/// go on only as long as packets are sent.
pub open spec fn after_attempts<T>(waiting: Seq<T>, outcomes: Seq<TrySend>) -> Seq<T>
    decreases outcomes.len(),
{
    if outcomes.len() == 0 || waiting.len() == 0 || outcomes[0] != TrySend::Sent {
        waiting
    } else {
        after_attempts(waiting.drop_first(), outcomes.drop_first())
    }
}

/// However attempts end, what still waits are the packets behind those that
/// were sent, in their order: none is lost, repeated or overtaken.
pub proof fn flushing_keeps_order<T>(waiting: Seq<T>, outcomes: Seq<TrySend>) -> (sent: int)
    ensures
        0 <= sent <= waiting.len(),
        sent <= outcomes.len(),
        forall|i: int| 0 <= i < sent ==> outcomes[i] == TrySend::Sent,
        after_attempts(waiting, outcomes) == waiting.subrange(sent, waiting.len() as int),
    decreases outcomes.len(),
{
    if outcomes.len() == 0 || waiting.len() == 0 || outcomes[0] != TrySend::Sent {
        assert(waiting.subrange(0, waiting.len() as int) =~= waiting);
        0
    } else {
        let rest = outcomes.drop_first();
        let tail = waiting.drop_first();
        let more = flushing_keeps_order(tail, rest);
        assert forall|i: int| 0 <= i < more + 1 implies outcomes[i] == TrySend::Sent by {
            if i > 0 {
                assert(rest[i - 1] == outcomes[i]);
            }
        }
        assert(tail.subrange(more, tail.len() as int) =~= waiting.subrange(
            more + 1,
            waiting.len() as int,
        ));
        more + 1
    }
}

} // verus!
