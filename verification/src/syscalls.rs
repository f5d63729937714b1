//! Syscall shim: the descriptor-based calls a libc runtime expects,
//! translated onto the console channel and the bump-heap shim.
//!
//! The shim is a pure translation layer with no state of its own beyond
//! what it delegates to. Descriptors form a fixed, closed set: `0` is the
//! standard-input role, `1` standard-out, `2` standard-error, `3` a
//! reserved auxiliary stream; every other value is rejected with `-1`.

use crate::console::console_read_blocking;
use crate::console::spec_write;
use crate::console::Console;
use crate::encoding::is_utf8;
use vstd::prelude::*;
use vstd::slice::slice_subrange;
use vstd::utf8::valid_utf8;

verus! {

/// Largest number of bytes one `write` call consumes, matching the
/// hardware's practical transfer unit; callers loop for larger payloads.
pub const WRITE_CHUNK_LIMIT: usize = 128;

/// The bump-heap shim: a fixed region with a monotonic offset, serving
/// legacy incremental heap-extension requests that bypass the arena.
/// It never reclaims; the offset only increases.
pub struct BumpHeap {
    offset: usize,
    capacity: usize,
}

impl BumpHeap {
    /// How many bytes of the region have been handed out.
    pub closed spec fn spec_offset(&self) -> int {
        self.offset as int
    }

    /// The fixed size of the region.
    pub closed spec fn spec_capacity(&self) -> int {
        self.capacity as int
    }

    /// The offset never passes the capacity.
    pub open spec fn wf(&self) -> bool {
        self.spec_offset() <= self.spec_capacity()
    }

    /// A fresh region of `capacity` bytes, nothing handed out yet.
    pub fn new(capacity: usize) -> (h: BumpHeap)
        ensures
            h.wf(),
            h.spec_offset() == 0,
            h.spec_capacity() == capacity,
    {
        BumpHeap { offset: 0, capacity }
    }

    /// Extends the heap by `increment` bytes and returns the offset of
    /// the newly granted range.
    ///
    /// An increment that would pass the capacity is fatal by design — the
    /// calling C runtime does not reliably handle a null result from this
    /// particular call — so the contract excludes it and the caller must
    /// check `remaining` first and halt on exhaustion.
    pub fn extend_heap(&mut self, increment: usize) -> (prev: usize)
        requires
            old(self).wf(),
            old(self).spec_offset() + increment <= old(self).spec_capacity(),
        ensures
            final(self).wf(),
            prev as int == old(self).spec_offset(),
            final(self).spec_offset() == old(self).spec_offset() + increment,
            final(self).spec_capacity() == old(self).spec_capacity(),
    {
        let prev = self.offset;
        self.offset = self.offset + increment;
        prev
    }

    /// How many bytes are still available, so that the caller can detect
    /// exhaustion before the fatal call.
    pub fn remaining(&self) -> (r: usize)
        requires
            self.wf(),
        ensures
            r as int == self.spec_capacity() - self.spec_offset(),
    {
        self.capacity - self.offset
    }
}

/// The number of bytes one `write` call for `length` would consume.
pub open spec fn spec_write_chunk(length: int) -> int {
    if length < WRITE_CHUNK_LIMIT {
        length
    } else {
        WRITE_CHUNK_LIMIT as int
    }
}

/// Whether a descriptor names a writable stream role (standard-out,
/// standard-error or the reserved auxiliary stream).
pub open spec fn spec_writable_descriptor(descriptor: int) -> bool {
    descriptor == 1 || descriptor == 2 || descriptor == 3
}

/// `write(descriptor, bytes, length)`: the libc-style write call.
///
/// Unsupported descriptors are rejected with `-1`. The length is capped
/// to `WRITE_CHUNK_LIMIT` bytes rather than looped over internally. The
/// capped prefix must be valid UTF-8: on malformed text the call returns
/// `-1` and puts nothing on the console, not even a partial chunk.
/// Otherwise the prefix goes out through the console's blocking write and
/// the number of bytes consumed comes back; a hardware channel fault would
/// also yield `-1`, with the model's channel never faulting.
pub fn write(console: &mut Console, descriptor: i32, bytes: &[u8], length: usize) -> (r: i32)
    requires
        old(console).spec_ready(),
        spec_write_chunk(length as int) <= bytes@.len(),
    ensures
        final(console).spec_ready(),
        !spec_writable_descriptor(descriptor as int) ==> r == -1 && final(console).spec_wire()
            == old(console).spec_wire(),
        spec_writable_descriptor(descriptor as int) ==> {
            let chunk = bytes@.take(spec_write_chunk(length as int));
            if valid_utf8(chunk) {
                r == spec_write_chunk(length as int) && final(console).spec_wire() == spec_write(
                    old(console).spec_wire(),
                    chunk,
                )
            } else {
                r == -1 && final(console).spec_wire() == old(console).spec_wire()
            }
        },
{
    if descriptor != 1 && descriptor != 2 && descriptor != 3 {
        return -1;
    }
    let max_len = if length < WRITE_CHUNK_LIMIT {
        length
    } else {
        WRITE_CHUNK_LIMIT
    };
    if !is_utf8(bytes, max_len) {
        return -1;
    }
    let chunk = slice_subrange(bytes, 0, max_len);
    proof {
        assert(chunk@ =~= bytes@.take(spec_write_chunk(length as int)));
    }
    if console.console_write_blocking(chunk).is_err() {
        return -1;
    }
    max_len as i32
}

/// `read(descriptor, buffer, length)`: the libc-style read call.
///
/// Only the standard-input role (descriptor `0`) may be read; any other
/// descriptor is rejected with `-1` and the buffer is untouched. Bytes are
/// pulled one at a time from the console's blocking read into the front of
/// the buffer; a single-byte error fails the whole call with `-1`. The
/// model's read never fails and always delivers the placeholder byte.
pub fn read(descriptor: i32, buffer: &mut Vec<u8>, length: usize) -> (r: i32)
    requires
        length <= old(buffer)@.len(),
        length <= 0x7fffffff,
    ensures
        descriptor != 0 ==> r == -1 && final(buffer)@ == old(buffer)@,
        descriptor == 0 ==> {
            &&& r == length as i32
            &&& final(buffer)@.len() == old(buffer)@.len()
            &&& forall|k: int| 0 <= k < length ==> final(buffer)@[k] == 97u8
            &&& forall|k: int|
                length <= k < old(buffer)@.len() ==> final(buffer)@[k] == old(buffer)@[k]
        },
{
    if descriptor != 0 {
        return -1;
    }
    let mut i: usize = 0;
    while i < length
        invariant
            i <= length <= buffer@.len(),
            buffer@.len() == old(buffer)@.len(),
            forall|k: int| 0 <= k < i ==> buffer@[k] == 97u8,
            forall|k: int| i <= k < old(buffer)@.len() ==> buffer@[k] == old(buffer)@[k],
        decreases length - i,
    {
        match console_read_blocking() {
            Ok(c) => {
                buffer[i] = c;
            },
            Err(_) => {
                return -1;
            },
        }
        i = i + 1;
    }
    length as i32
}

} // verus!
