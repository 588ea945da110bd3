//! The stream pump: two byte-forwarding loops (client to shell, shell to
//! client) run concurrently over a shared single-slot stop signal, every I/O
//! attempt bounded by a poll timeout so cancellation is observed within one
//! interval. This module is the pump's decision core: each loop is a state
//! machine stepped by the events its bounded I/O reports (data, end of
//! stream, a partial write, an error, the stop signal), and the supervisor is
//! the step that raises the stop signal once either loop has finished. The
//! unverified I/O layer performs the reads, selects and writes and feeds the
//! outcomes in as events.
//!
//! Byte fidelity is tracked by two ghost histories per loop: `taken`, all
//! bytes consumed from the source so far, and `sent`, all bytes delivered to
//! the sink so far. Well-formedness ties them together: what was sent is
//! always exactly a prefix of what was taken, in order and unmodified.

use vstd::prelude::*;

verus! {

/// Why a forwarding loop ended.
#[derive(Debug, PartialEq, Eq, Structural, Clone, Copy)]
pub enum ExitCause {
    /// The shared stop signal was observed at a check point.
    Cancelled,
    /// The source reached end-of-stream (a read returned no bytes).
    SourceClosed,
    /// An unrecoverable I/O error ended the loop.
    Failed,
}

/// Where a forwarding loop stands.
#[derive(Debug, PartialEq, Eq, Structural, Clone, Copy)]
pub enum Phase {
    /// Waiting for the next bounded-timeout read from the source.
    Reading,
    /// Mid-chunk: part of the current chunk still has to reach the sink.
    Writing,
    /// The loop has ended.
    Done { cause: ExitCause },
}

/// One byte-forwarding loop. `chunk` and `written` are meaningful while the
/// phase is `Writing`: `chunk` is the chunk being delivered and `written`
/// how much of it already went out.
pub struct PumpLoop {
    pub phase: Phase,
    pub chunk: Vec<u8>,
    pub written: usize,
    /// Every byte taken from the source so far, in order.
    pub taken: Ghost<Seq<u8>>,
    /// Every byte delivered to the sink so far, in order.
    pub sent: Ghost<Seq<u8>>,
}

impl PumpLoop {
    /// The part of the current chunk that still has to be written.
    pub open spec fn pending(self) -> Seq<u8> {
        if self.phase is Writing {
            self.chunk@.skip(self.written as int)
        } else {
            Seq::empty()
        }
    }

    /// Loop invariant: the sink has received exactly the taken bytes minus
    /// the pending suffix of the current chunk; a loop between chunks, or
    /// ended by the source's own end-of-stream, has delivered everything.
    pub open spec fn wf(self) -> bool {
        &&& self.phase is Writing ==> self.written <= self.chunk@.len()
        &&& self.phase is Reading ==> self.taken@ == self.sent@
        &&& self.phase is Writing ==> self.taken@ == self.sent@ + self.pending()
        &&& self.phase is Done ==> self.sent@.is_prefix_of(self.taken@)
        &&& self.phase == (Phase::Done { cause: ExitCause::SourceClosed }) ==> self.taken@
            == self.sent@
    }

    /// A fresh loop: nothing taken, nothing sent. A reattached session gets
    /// fresh loops, so nothing sent to a discarded client is ever replayed.
    pub fn new() -> (r: PumpLoop)
        ensures
            r.wf(),
            r.phase is Reading,
            r.taken@ == Seq::<u8>::empty(),
            r.sent@ == Seq::<u8>::empty(),
    {
        PumpLoop {
            phase: Phase::Reading,
            chunk: Vec::new(),
            written: 0,
            taken: Ghost(Seq::empty()),
            sent: Ghost(Seq::empty()),
        }
    }

    /// A bounded-timeout read completed on the source: `buf` holds the bytes
    /// it produced. An empty `buf` is end-of-stream and ends the loop; data
    /// starts the delivery of the chunk.
    pub fn on_read(&mut self, buf: Vec<u8>)
        requires
            old(self).wf(),
            old(self).phase is Reading,
        ensures
            final(self).wf(),
            final(self).taken@ == old(self).taken@ + buf@,
            final(self).sent@ == old(self).sent@,
            buf@.len() == 0 ==> final(self).phase == (Phase::Done {
                cause: ExitCause::SourceClosed,
            }),
            buf@.len() > 0 ==> final(self).phase is Writing && final(self).pending() == buf@,
    {
        proof {
            assert(self.taken@ + buf@ =~= if buf@.len() == 0 {
                self.taken@
            } else {
                self.taken@ + buf@
            });
        }
        if buf.len() == 0 {
            self.phase = Phase::Done { cause: ExitCause::SourceClosed };
            proof {
                assert(self.sent@.is_prefix_of(self.taken@)) by {
                    assert(self.taken@.subrange(0, self.sent@.len() as int) =~= self.sent@);
                }
            }
        } else {
            self.taken = Ghost(self.taken@ + buf@);
            self.chunk = buf;
            self.written = 0;
            self.phase = Phase::Writing;
            proof {
                assert(self.pending() =~= self.chunk@);
            }
        }
    }

    /// A write attempt delivered `n` bytes of the pending suffix to the sink
    /// (after the bounded readiness wait). The loop keeps retrying the
    /// remainder — re-checking cancellation between attempts — until the
    /// whole chunk is out; only then does it flush and return to reading. A
    /// chunk is never silently truncated: the only way to leave a partial
    /// chunk behind is a visible cancellation or error exit.
    pub fn on_write(&mut self, n: usize) -> (chunk_done: bool)
        requires
            old(self).wf(),
            old(self).phase is Writing,
            n <= old(self).pending().len(),
        ensures
            final(self).wf(),
            final(self).taken@ == old(self).taken@,
            final(self).sent@ == old(self).sent@ + old(self).pending().take(n as int),
            chunk_done <==> n == old(self).pending().len(),
            chunk_done ==> final(self).phase is Reading && final(self).sent@
                == final(self).taken@,
            !chunk_done ==> final(self).phase is Writing && final(self).pending()
                == old(self).pending().skip(n as int),
    {
        let ghost pre = *self;
        let chunk_len = self.chunk.len();
        self.sent = Ghost(self.sent@ + self.chunk@.skip(self.written as int).take(n as int));
        self.written = self.written + n;
        let chunk_done = self.written == chunk_len;
        if chunk_done {
            self.phase = Phase::Reading;
        }
        proof {
            assert(pre.pending().take(n as int) =~= pre.chunk@.skip(pre.written as int).take(
                n as int,
            ));
            if chunk_done {
                assert(self.sent@ =~= self.taken@) by {
                    assert(pre.sent@ + pre.pending().take(n as int) =~= pre.sent@
                        + pre.pending());
                }
            } else {
                assert(self.pending() =~= pre.pending().skip(n as int));
                assert(self.taken@ =~= self.sent@ + self.pending()) by {
                    assert(pre.sent@ + pre.pending() =~= (pre.sent@ + pre.pending().take(
                        n as int,
                    )) + pre.pending().skip(n as int));
                }
            }
        }
        chunk_done
    }

    /// The shared stop signal was observed at one of the loop's check
    /// points (before a read, or between write retries): the loop ends at
    /// once. An unsent suffix is abandoned, visibly, as a cancelled exit.
    pub fn observe_stop(&mut self)
        requires
            old(self).wf(),
            !(old(self).phase is Done),
        ensures
            *final(self) == cancelled(*old(self)),
            final(self).wf(),
            final(self).phase == (Phase::Done { cause: ExitCause::Cancelled }),
            final(self).taken@ == old(self).taken@,
            final(self).sent@ == old(self).sent@,
    {
        proof {
            lemma_cancel_wf(*self);
        }
        self.phase = Phase::Done { cause: ExitCause::Cancelled };
    }

    /// An unrecoverable I/O error (not a bounded-timeout condition) ended
    /// the loop; the error itself is surfaced by the supervisor.
    pub fn on_error(&mut self)
        requires
            old(self).wf(),
            !(old(self).phase is Done),
        ensures
            final(self).wf(),
            final(self).phase == (Phase::Done { cause: ExitCause::Failed }),
            final(self).taken@ == old(self).taken@,
            final(self).sent@ == old(self).sent@,
    {
        proof {
            lemma_cancel_wf(*self);
            assert(cancelled(*self).sent@.is_prefix_of(cancelled(*self).taken@));
        }
        self.phase = Phase::Done { cause: ExitCause::Failed };
    }

    /// Whether the loop has ended.
    pub fn is_done(&self) -> (r: bool)
        ensures
            r == (self.phase is Done),
    {
        match self.phase {
            Phase::Done { .. } => true,
            _ => false,
        }
    }

    /// How many bytes of the current chunk still have to be written.
    pub fn remaining(&self) -> (r: usize)
        requires
            self.wf(),
        ensures
            r == self.pending().len(),
    {
        match self.phase {
            Phase::Writing => self.chunk.len() - self.written,
            _ => 0,
        }
    }

    /// The bytes of the current chunk that still have to be written, oldest
    /// first: exactly what the next write attempt must offer the sink.
    pub fn pending_bytes(&self) -> (r: Vec<u8>)
        requires
            self.wf(),
        ensures
            r@ == self.pending(),
    {
        let mut r: Vec<u8> = Vec::new();
        match self.phase {
            Phase::Writing => {
                let mut i: usize = self.written;
                while i < self.chunk.len()
                    invariant
                        self.written <= i <= self.chunk@.len(),
                        r@ == self.chunk@.subrange(self.written as int, i as int),
                    decreases self.chunk@.len() - i,
                {
                    r.push(self.chunk[i]);
                    i = i + 1;
                    proof {
                        assert(r@ =~= self.chunk@.subrange(self.written as int, i as int));
                    }
                }
                proof {
                    assert(r@ =~= self.pending());
                }
            },
            _ => {
                proof {
                    assert(r@ =~= self.pending());
                }
            },
        }
        r
    }
}

/// The state a loop reaches when it observes the raised stop signal.
pub open spec fn cancelled(l: PumpLoop) -> PumpLoop {
    PumpLoop { phase: Phase::Done { cause: ExitCause::Cancelled }, ..l }
}

proof fn lemma_cancel_wf(l: PumpLoop)
    requires
        l.wf(),
        !(l.phase is Done),
    ensures
        cancelled(l).wf(),
        cancelled(l).sent@.is_prefix_of(cancelled(l).taken@),
{
    assert(l.taken@.subrange(0, l.sent@.len() as int) =~= l.sent@);
}

/// Law (byte fidelity): in every well-formed loop state, the bytes delivered
/// to the sink are exactly a prefix of the bytes taken from the source — in
/// order, unmodified, nothing invented, dropped or reordered; and a loop
/// that sits between chunks, or that ended because the source closed, has
/// delivered every byte it took.
pub proof fn lemma_bytes_in_order(l: PumpLoop)
    requires
        l.wf(),
    ensures
        l.sent@.is_prefix_of(l.taken@),
        l.phase is Reading ==> l.sent@ == l.taken@,
        l.phase == (Phase::Done { cause: ExitCause::SourceClosed }) ==> l.sent@ == l.taken@,
{
    if l.phase is Writing {
        assert(l.taken@.subrange(0, l.sent@.len() as int) =~= l.sent@);
    } else if l.phase is Reading {
        assert(l.taken@.subrange(0, l.sent@.len() as int) =~= l.sent@);
    }
}

/// The whole pump: the two forwarding loops and the shared single-slot stop
/// signal the supervisor raises once either loop finishes.
pub struct Pump {
    /// Forwards bytes the client sends to the shell's input.
    pub client_to_shell: PumpLoop,
    /// Forwards bytes the shell produces to the current client.
    pub shell_to_client: PumpLoop,
    /// The shared cancellation signal both loops poll.
    pub stop: bool,
}

/// What one supervising poll leaves in the stop slot: raised as soon as
/// either loop has finished, for any reason; never lowered.
pub open spec fn supervise_raises(p: Pump) -> bool {
    p.stop || p.client_to_shell.phase is Done || p.shell_to_client.phase is Done
}

impl Pump {
    /// Pump invariant: both loops are well formed.
    pub open spec fn wf(self) -> bool {
        self.client_to_shell.wf() && self.shell_to_client.wf()
    }

    /// A fresh pump for an exclusively held session: both loops fresh, stop
    /// signal clear.
    pub fn new() -> (r: Pump)
        ensures
            r.wf(),
            !r.stop,
            r.client_to_shell.phase is Reading,
            r.shell_to_client.phase is Reading,
            r.client_to_shell.taken@ == Seq::<u8>::empty(),
            r.shell_to_client.taken@ == Seq::<u8>::empty(),
    {
        Pump { client_to_shell: PumpLoop::new(), shell_to_client: PumpLoop::new(), stop: false }
    }

    /// One supervising poll, taken at a fixed short interval: as soon as
    /// either loop has finished — for any reason — raise the shared stop
    /// signal so the sibling loop winds down too. Touches neither loop.
    pub fn supervise(&mut self)
        ensures
            final(self).stop == supervise_raises(*old(self)),
            final(self).client_to_shell == old(self).client_to_shell,
            final(self).shell_to_client == old(self).shell_to_client,
    {
        if self.client_to_shell.is_done() || self.shell_to_client.is_done() {
            self.stop = true;
        }
    }

    /// Whether the stop signal has been raised.
    pub fn stop_requested(&self) -> (r: bool)
        ensures
            r == self.stop,
    {
        self.stop
    }

    /// Whether both loops have fully terminated.
    pub fn finished(&self) -> (r: bool)
        ensures
            r == (self.client_to_shell.phase is Done && self.shell_to_client.phase is Done),
    {
        self.client_to_shell.is_done() && self.shell_to_client.is_done()
    }

    /// Whether either loop ended in an unrecoverable I/O error; the first
    /// such error is what the whole attach session reports.
    pub fn pump_failed(&self) -> (r: bool)
        ensures
            r == (self.client_to_shell.phase == (Phase::Done { cause: ExitCause::Failed })
                || self.shell_to_client.phase == (Phase::Done { cause: ExitCause::Failed })),
    {
        let c = match self.client_to_shell.phase {
            Phase::Done { cause } => match cause {
                ExitCause::Failed => true,
                _ => false,
            },
            _ => false,
        };
        let s = match self.shell_to_client.phase {
            Phase::Done { cause } => match cause {
                ExitCause::Failed => true,
                _ => false,
            },
            _ => false,
        };
        c || s
    }
}

/// Law (cancellation propagates, no deadlock): once either loop has finished
/// — the shell exiting shows as the shell-to-client loop's end-of-stream —
/// one supervising poll raises the stop signal, and a still-live loop ends
/// the moment it observes the raised signal at its next check point, even
/// mid-write. Both loops are then terminated, each with its delivered bytes
/// still an exact prefix of its taken bytes.
pub proof fn lemma_cancellation_terminates(p: Pump)
    requires
        p.wf(),
        p.client_to_shell.phase is Done || p.shell_to_client.phase is Done,
    ensures
        supervise_raises(p),
        ({
            let c = if p.client_to_shell.phase is Done {
                p.client_to_shell
            } else {
                cancelled(p.client_to_shell)
            };
            let s = if p.shell_to_client.phase is Done {
                p.shell_to_client
            } else {
                cancelled(p.shell_to_client)
            };
            &&& c.phase is Done
            &&& s.phase is Done
            &&& c.wf()
            &&& s.wf()
            &&& c.sent@.is_prefix_of(c.taken@)
            &&& s.sent@.is_prefix_of(s.taken@)
        }),
{
    if !(p.client_to_shell.phase is Done) {
        lemma_cancel_wf(p.client_to_shell);
    } else {
        lemma_bytes_in_order(p.client_to_shell);
    }
    if !(p.shell_to_client.phase is Done) {
        lemma_cancel_wf(p.shell_to_client);
    } else {
        lemma_bytes_in_order(p.shell_to_client);
    }
}

} // verus!
