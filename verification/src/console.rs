//! Console channel: the single owner of the hardware serial line.
//!
//! The channel goes through the states `Uninitialized -> Ready`, and `Ready`
//! is terminal. Two write paths coexist: an async path whose exclusive lock
//! serializes whole calls, and a blocking path used only from call chains
//! that the single-core cooperative scheduler never runs concurrently with
//! an async lock holder. Under that scheduling model every write, async or
//! blocking, puts its bytes on the line as one contiguous run, so the line
//! is modelled as a growing byte sequence, the *wire*: each write appends
//! its whole payload atomically.
//!
//! The hardware endpoints themselves live outside the library; the driver
//! around it feeds the wire to the transmit half of the UART in order.

use vstd::prelude::*;

verus! {

/// Failure of a single hardware transfer on the serial line.
///
/// The model itself never fails a transfer; the variant exists because the
/// blocking write path reports hardware faults to its caller, and callers
/// (the syscall shim) must handle that outcome.
#[derive(Clone, Copy, Debug, PartialEq, Eq, Structural)]
pub enum ConsoleError {
    Fault,
}

/// What one write call leaves on the wire: the payload, appended whole.
///
/// Serialization of the console is captured by every write path ensuring
/// exactly this relation; no interleaving of two calls is expressible.
pub open spec fn spec_write(wire: Seq<u8>, text: Seq<u8>) -> Seq<u8> {
    wire + text
}

/// The console channel. Constructed once at startup, initialized exactly
/// once, then `Ready` for the lifetime of the program.
pub struct Console {
    ready: bool,
    wire: Vec<u8>,
}

impl Console {
    /// Whether initialization has completed (`Ready` state).
    pub closed spec fn spec_ready(&self) -> bool {
        self.ready
    }

    /// Every byte ever put on the serial line, in transmit order.
    pub closed spec fn spec_wire(&self) -> Seq<u8> {
        self.wire@
    }

    /// A console in the `Uninitialized` state, with nothing transmitted.
    pub fn new() -> (c: Console)
        ensures
            !c.spec_ready(),
            c.spec_wire() == Seq::<u8>::empty(),
    {
        Console { ready: false, wire: Vec::new() }
    }

    /// Takes ownership of the serial endpoints and publishes the channel.
    ///
    /// Must be called exactly once, before any other operation; calling any
    /// write before it is a startup-ordering bug, which the contracts rule
    /// out. The suspend-capable endpoint plumbing (storing the transmit
    /// half behind the async lock and extracting the raw reference for the
    /// blocking path while that lock is held) is the driver's job outside
    /// the library; here initialization is the `Uninitialized -> Ready`
    /// transition itself.
    pub fn console_init(&mut self)
        requires
            !old(self).spec_ready(),
        ensures
            final(self).spec_ready(),
            final(self).spec_wire() == old(self).spec_wire(),
    {
        self.ready = true;
    }

    /// Async write path: acquires the exclusive lock, writes all bytes,
    /// releases the lock.
    ///
    /// The lock serializes concurrent async callers, so one call's bytes
    /// reach the wire as a single contiguous run, in call order; the model
    /// appends the whole payload atomically.
    pub fn console_write(&mut self, text: &[u8])
        requires
            old(self).spec_ready(),
        ensures
            final(self).spec_ready(),
            final(self).spec_wire() == spec_write(old(self).spec_wire(), text@),
    {
        self.append(text);
    }

    /// Blocking write path: writes through the raw reference obtained at
    /// initialization and never suspends.
    ///
    /// Safe only from contexts the cooperative scheduler never runs
    /// concurrently with an async lock holder (interpreter and syscall
    /// call chains). A hardware transfer fault is reported as `Err`; the
    /// model's transfers always succeed.
    pub fn console_write_blocking(&mut self, text: &[u8]) -> (r: Result<(), ConsoleError>)
        requires
            old(self).spec_ready(),
        ensures
            final(self).spec_ready(),
            r is Ok,
            final(self).spec_wire() == spec_write(old(self).spec_wire(), text@),
    {
        self.append(text);
        Ok(())
    }

    /// The wire transcript, for the driver that feeds the hardware and for
    /// observing what a program put on the serial line.
    pub fn wire(&self) -> (w: &Vec<u8>)
        ensures
            w@ == self.spec_wire(),
    {
        &self.wire
    }

    /// Whether the channel has reached `Ready`.
    pub fn is_ready(&self) -> (b: bool)
        ensures
            b == self.spec_ready(),
    {
        self.ready
    }

    fn append(&mut self, text: &[u8])
        ensures
            final(self).ready == old(self).ready,
            final(self).wire@ == old(self).wire@ + text@,
    {
        let n = text.len();
        let mut i: usize = 0;
        while i < n
            invariant
                i <= n,
                n == text@.len(),
                self.ready == old(self).ready,
                self.wire@ == old(self).wire@ + text@.take(i as int),
            decreases n - i,
        {
            self.wire.push(text[i]);
            proof {
                assert(old(self).wire@ + text@.take(i + 1) =~= (old(self).wire@ + text@.take(
                    i as int,
                )).push(text@[i as int]));
            }
            i = i + 1;
        }
        proof {
            assert(text@.take(n as int) =~= text@);
        }
    }
}

/// Blocking read path: returns the next byte from the receive half.
///
/// Receive hardware is deliberately not wired up in this design, so the
/// call stands in for the receive boundary with a fixed placeholder byte;
/// it never suspends and never fails.
pub fn console_read_blocking() -> (r: Result<u8, ConsoleError>)
    ensures
        r == Ok::<u8, ConsoleError>(97u8),
{
    Ok(97u8)
}

/// Two async writes, scheduled one after the other by the exclusive lock,
/// never interleave on the wire: each call's bytes appear as one contiguous
/// run, in call order, whichever caller went first.
pub proof fn lemma_console_write_serializes(w: Seq<u8>, a: Seq<u8>, b: Seq<u8>)
    ensures
        spec_write(spec_write(w, a), b).len() == w.len() + a.len() + b.len(),
        spec_write(spec_write(w, a), b).subrange(w.len() as int, (w.len() + a.len()) as int) == a,
        spec_write(spec_write(w, a), b).subrange(
            (w.len() + a.len()) as int,
            (w.len() + a.len() + b.len()) as int,
        ) == b,
{
    let after = spec_write(spec_write(w, a), b);
    assert(after.subrange(w.len() as int, (w.len() + a.len()) as int) =~= a);
    assert(after.subrange((w.len() + a.len()) as int, (w.len() + a.len() + b.len()) as int) =~= b);
}

} // verus!
