//! Request and node identifiers: sixteen URL-safe base64 characters, held as
//! their ASCII bytes. Fresh identifiers are drawn from the upstream generator;
//! fixed ones can be built from a checked string.
use vstd::prelude::*;

use crate::wire::{mp_str, write_bytes, write_str_head};

verus! {

/// One character of the URL-safe base64 alphabet, as a byte.
pub open spec fn base64_url_byte(b: u8) -> bool {
    (0x30 <= b <= 0x39) || (0x41 <= b <= 0x5a) || (0x61 <= b <= 0x7a) || b == 0x2d || b == 0x5f
}

/// Sixteen URL-safe base64 bytes: the shape of every identifier on the wire.
pub open spec fn sid_wf(s: Seq<u8>) -> bool {
    s.len() == 16 && (forall|i: int| 0 <= i < s.len() ==> base64_url_byte(#[trigger] s[i]))
}

/// A 128-bit session identifier in its sixteen-character base64 form.
#[derive(Clone, Debug)]
pub struct Sid {
    bytes: Vec<u8>,
}

impl View for Sid {
    type V = Seq<u8>;

    closed spec fn view(&self) -> Seq<u8> {
        self.bytes@
    }
}

impl DeepView for Sid {
    type V = Seq<u8>;

    closed spec fn deep_view(&self) -> Seq<u8> {
        self@
    }
}

impl Sid {
    pub open spec fn wf(&self) -> bool {
        sid_wf(self@)
    }

    /// Generate a fresh random session identifier.
    ///
    /// Relies on `engineioxide_core::Sid::new` (re-exported by
    /// `socketioxide_core`): sixteen random URL-safe base64 characters.
    #[verifier::external_body]
    pub fn new() -> (r: Sid)
        ensures
            r.wf(),
    {
        Sid { bytes: socketioxide_core::Sid::new().as_str().as_bytes().to_vec() }
    }

    /// Adopt sixteen URL-safe base64 characters; reject anything else.
    pub fn from_ascii(s: &[u8]) -> (r: Option<Sid>)
        ensures
            match r {
                Some(sid) => sid.wf() && sid@ == s@,
                None => !sid_wf(s@),
            },
    {
        if s.len() != 16 {
            return None;
        }
        let mut i: usize = 0;
        while i < s.len()
            invariant
                i <= s.len(),
                forall|j: int| 0 <= j < i ==> base64_url_byte(#[trigger] s@[j]),
            decreases s.len() - i,
        {
            let b = s[i];
            let ok = (0x30 <= b && b <= 0x39) || (0x41 <= b && b <= 0x5a) || (0x61 <= b && b
                <= 0x7a) || b == 0x2d || b == 0x5f;
            if !ok {
                return None;
            }
            i = i + 1;
        }
        let mut bytes: Vec<u8> = Vec::new();
        write_bytes(&mut bytes, s);
        Some(Sid { bytes })
    }

    /// Append this identifier in its wire form: a sixteen-byte string.
    pub fn write_to(&self, out: &mut Vec<u8>)
        ensures
            final(out)@ == old(out)@ + mp_str(self@),
    {
        write_str_head(out, self.bytes.len());
        write_bytes(out, self.bytes.as_slice());
    }
}

/// A unique identifier for an originating node, carried in the same
/// sixteen-character form as a session identifier.
#[derive(Clone, Debug)]
pub struct Uid {
    sid: Sid,
}

impl View for Uid {
    type V = Seq<u8>;

    closed spec fn view(&self) -> Seq<u8> {
        self.sid@
    }
}

impl Uid {
    pub open spec fn wf(&self) -> bool {
        sid_wf(self@)
    }

    /// Generate a fresh random node identifier.
    ///
    /// Relies on `socketioxide_core::Uid::new`: sixteen random URL-safe base64
    /// characters.
    #[verifier::external_body]
    pub fn new() -> (r: Uid)
        ensures
            r.wf(),
    {
        Uid { sid: Sid { bytes: socketioxide_core::Uid::new().as_str().as_bytes().to_vec() } }
    }

    /// Wrap an already-built session identifier as a node identifier.
    pub fn from_sid(sid: Sid) -> (r: Uid)
        ensures
            r@ == sid@,
    {
        Uid { sid }
    }

    /// Append this identifier in its wire form: a sixteen-byte string.
    pub fn write_to(&self, out: &mut Vec<u8>)
        ensures
            final(out)@ == old(out)@ + mp_str(self@),
    {
        self.sid.write_to(out);
    }
}

} // verus!
