//! Encoded values captured in a buffer.

use vstd::prelude::*;
use bytes::Bytes;
use crate::buffer::{append_bytes, bytes_content};
use crate::mode::Mode;

verus! {

/// The octets of encoded values, together with the mode they were encoded
/// in. They only hold for that mode.
pub struct Captured {
    bytes: Bytes,
    mode: Mode,
}

impl View for Captured {
    type V = Seq<u8>;

    closed spec fn view(&self) -> Seq<u8> {
        bytes_content(self.bytes)
    }
}

impl Captured {
    /// The mode the octets were encoded in.
    pub closed spec fn spec_mode(&self) -> Mode {
        self.mode
    }

    /// Creates a captured value from its octets and their mode.
    pub fn new(bytes: Bytes, mode: Mode) -> (r: Captured)
        ensures
            r@ == bytes_content(bytes),
            r.spec_mode() == mode,
    {
        Captured { bytes, mode }
    }

    /// The mode the octets were encoded in.
    pub fn mode(&self) -> (r: Mode)
        ensures
            r == self.spec_mode(),
    {
        self.mode
    }

    /// The captured octets.
    pub fn to_vec(&self) -> (r: Vec<u8>)
        ensures
            r@ == self@,
    {
        let mut v: Vec<u8> = Vec::new();
        append_bytes(&self.bytes, &mut v);
        proof {
            assert(v@ =~= self@);
        }
        v
    }
}

} // verus!
