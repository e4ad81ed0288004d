//! The byte string that crosses the boundary to the embedding application.

use vstd::prelude::*;
use vstd::slice::slice_to_vec;
use vstd::string::*;
use crate::text::{text_of, utf8_lossy};

verus! {

/// An owned byte string, handed to and received from the embedding
/// application.
pub struct RocStr {
    bytes: Vec<u8>,
}

impl View for RocStr {
    type V = Seq<u8>;

    closed spec fn view(&self) -> Seq<u8> {
        self.bytes@
    }
}

impl RocStr {
    /// Returns the string without bytes.
    pub fn empty() -> (s: RocStr)
        ensures
            s@ == Seq::<u8>::empty(),
    {
        RocStr { bytes: Vec::new() }
    }

    /// Returns a string that holds a copy of `bytes`.
    pub fn init(bytes: &[u8]) -> (s: RocStr)
        ensures
            s@ == bytes@,
    {
        RocStr { bytes: slice_to_vec(bytes) }
    }

    /// Returns the bytes of the string.
    pub fn as_slice(&self) -> (bytes: &[u8])
        ensures
            bytes@ == self@,
    {
        self.bytes.as_slice()
    }

    /// Returns the string as text: what its bytes encode where they are
    /// valid UTF-8, and their lossy decoding otherwise.
    pub fn to_string(&self) -> (text: String)
        ensures
            text@ == text_of(self@),
    {
        utf8_lossy(self.bytes.as_slice())
    }
}

/// Returns the byte string that holds the UTF-8 encoding of `s`.
pub fn create_roc_str(s: &str) -> (r: RocStr)
    ensures
        r@ == s.spec_bytes(),
{
    RocStr::init(s.as_bytes())
}

} // verus!
