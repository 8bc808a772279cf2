//! The line framer: assembles the bytes read from the transport into
//! complete protocol lines, each ending with CRLF.
//!
//! The framer owns an internal byte buffer across reads; when the two-byte
//! line ending arrives it yields the whole line (ending included) and
//! resets. The wire protocol is ASCII text, so a byte outside ASCII is a
//! protocol error, as is a line that reaches the defensive length bound
//! before its line ending arrives.

use vstd::prelude::*;

use crate::results::ProtocolError;
use crate::text::{ascii_chars_of, ascii_string_of};

verus! {

/// Defensive bound on the length of one line, in bytes: a misbehaving
/// server must not make the framer buffer without limit.
pub const MAX_LINE_BYTES: usize = 8192;

/// Whether a byte buffer ends with the two-byte line ending.
pub open spec fn ends_with_crlf_bytes(bs: Seq<u8>) -> bool {
    bs.len() >= 2 && bs[bs.len() - 2] == 13 && bs[bs.len() - 1] == 10
}

/// Assembles transport bytes into complete CRLF-terminated lines.
pub struct LineFramer {
    buf: Vec<u8>,
}

impl View for LineFramer {
    type V = Seq<u8>;

    closed spec fn view(&self) -> Seq<u8> {
        self.buf@
    }
}

impl LineFramer {
    /// Every buffered byte is ASCII. Established by `new` and preserved by
    /// `push_byte`.
    pub open spec fn wf(&self) -> bool {
        forall|i: int| 0 <= i < self@.len() ==> #[trigger] self@[i] < 0x80
    }

    /// A framer with an empty buffer.
    pub fn new() -> (r: LineFramer)
        ensures
            r@ == Seq::<u8>::empty(),
            r.wf(),
    {
        LineFramer { buf: Vec::new() }
    }

    /// Feed the next byte read from the transport. Yields the completed
    /// line, ending included, once the line ending arrives; refuses a
    /// non-ASCII byte and a line that reaches the length bound without
    /// completing, leaving the buffer unchanged either way.
    pub fn push_byte(&mut self, b: u8) -> (r: Result<Option<String>, ProtocolError>)
        requires
            old(self).wf(),
        ensures
            final(self).wf(),
            b >= 0x80 ==> r == Err::<Option<String>, ProtocolError>(ProtocolError::InvalidEncoding)
                && final(self)@ == old(self)@,
            b < 0x80 ==> {
                if ends_with_crlf_bytes(old(self)@.push(b)) {
                    &&& r matches Ok(Some(line)) && line@ == ascii_chars_of(old(self)@.push(b))
                    &&& final(self)@ == Seq::<u8>::empty()
                } else if old(self)@.len() + 1 >= MAX_LINE_BYTES {
                    &&& r == Err::<Option<String>, ProtocolError>(ProtocolError::OversizedLine)
                    &&& final(self)@ == old(self)@
                } else {
                    &&& r == Ok::<Option<String>, ProtocolError>(None)
                    &&& final(self)@ == old(self)@.push(b)
                }
            },
    {
        if b >= 0x80 {
            return Err(ProtocolError::InvalidEncoding);
        }
        let n = self.buf.len();
        let completes = b == 10 && n >= 1 && self.buf[n - 1] == 13;
        proof {
            assert(completes == ends_with_crlf_bytes(old(self)@.push(b)));
        }
        if completes {
            self.buf.push(b);
            let line = ascii_string_of(&self.buf);
            self.buf = Vec::new();
            Ok(Some(line))
        } else if n >= MAX_LINE_BYTES - 1 {
            Err(ProtocolError::OversizedLine)
        } else {
            self.buf.push(b);
            Ok(None)
        }
    }
}

} // verus!
