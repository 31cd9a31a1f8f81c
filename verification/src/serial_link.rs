//! Line assembly for the text throttle link over the serial port: bytes are
//! collected until a newline, or until the line buffer is full.

use vstd::prelude::*;

verus! {

/// Capacity of the line buffer, in bytes.
pub const LINE_CAPACITY: usize = 32;

/// The line terminator (ASCII line feed).
pub const NEWLINE: u8 = 0x0a;

/// A partly received line.
pub struct LineBuffer {
    bytes: Vec<u8>,
}

impl View for LineBuffer {
    type V = Seq<u8>;

    /// The bytes received since the last completed line.
    closed spec fn view(&self) -> Seq<u8> {
        self.bytes@
    }
}

/// What a line buffer may hold: at most `LINE_CAPACITY` bytes, none of them a newline.
pub open spec fn line_ok(line: Seq<u8>) -> bool {
    line.len() <= LINE_CAPACITY && !line.contains(NEWLINE)
}

impl LineBuffer {
    pub fn new() -> (r: Self)
        ensures
            r@ == Seq::<u8>::empty(),
    {
        LineBuffer { bytes: Vec::new() }
    }

    /// Takes one received byte. A newline, or any byte arriving when the buffer is
    /// full, completes the line: the bytes gathered so far come back and the buffer
    /// starts over (the completing byte itself is dropped). Any other byte is stored.
    pub fn feed(&mut self, byte: u8) -> (r: Option<Vec<u8>>)
        ensures
            (byte == NEWLINE || old(self)@.len() >= LINE_CAPACITY) ==> {
                &&& r matches Some(line) && line@ == old(self)@
                &&& final(self)@ == Seq::<u8>::empty()
            },
            !(byte == NEWLINE || old(self)@.len() >= LINE_CAPACITY) ==> {
                &&& r is None
                &&& final(self)@ == old(self)@.push(byte)
            },
    {
        if byte == NEWLINE || self.bytes.len() >= LINE_CAPACITY {
            let mut line: Vec<u8> = Vec::new();
            core::mem::swap(&mut line, &mut self.bytes);
            Some(line)
        } else {
            self.bytes.push(byte);
            None
        }
    }
}

/// Feeding keeps the buffer within capacity and newline-free, so every completed line
/// is at most `LINE_CAPACITY` bytes long and holds no newline.
pub proof fn lemma_feed_keeps_lines_ok(held: Seq<u8>, byte: u8)
    requires
        line_ok(held),
    ensures
        (byte == NEWLINE || held.len() >= LINE_CAPACITY) ==> line_ok(held),
        !(byte == NEWLINE || held.len() >= LINE_CAPACITY) ==> line_ok(held.push(byte)),
{
    if !(byte == NEWLINE || held.len() >= LINE_CAPACITY) {
        assert forall|b: u8| held.push(byte).contains(b) implies b != NEWLINE by {
            let k = choose|k: int| 0 <= k < held.push(byte).len() && held.push(byte)[k] == b;
            if k < held.len() {
                assert(held[k] == b);
            }
        }
    }
}

} // verus!
