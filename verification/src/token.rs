//! Session tokens: 32 bytes of cryptographically random data, rendered as
//! 64 lowercase hex characters.

use vstd::prelude::*;
use crate::hexfmt::{bytes_of_hex, hex_decode_32, hex_encode, hex_of, is_hex_digit, lemma_hex_of_len};

verus! {

/// An authentication token a client holds to prove an existing session.
#[derive(Clone, Copy, Debug)]
pub struct SessionToken {
    bytes: [u8; 32],
}

impl View for SessionToken {
    type V = Seq<u8>;

    closed spec fn view(&self) -> Seq<u8> {
        self.bytes@
    }
}

impl SessionToken {
    /// Generate a new random token.
    pub fn random() -> (t: Self)
        ensures
            t@.len() == 32,
    {
        SessionToken { bytes: rand::random() }
    }

    /// Builds a token from its raw bytes.
    pub fn from_bytes(bytes: [u8; 32]) -> (t: Self)
        ensures
            t@ == bytes@,
    {
        SessionToken { bytes }
    }

    /// Returns the raw bytes of the token.
    pub fn raw(&self) -> (r: &[u8; 32])
        ensures
            r@ == self@,
    {
        &self.bytes
    }

    /// The token's external form: 64 lowercase hex characters.
    pub fn to_hex(&self) -> (r: String)
        ensures
            r@ == hex_of(self@),
            r@.len() == 64,
    {
        let r = hex_encode(self.bytes.as_slice());
        proof {
            lemma_hex_of_len(self@);
        }
        r
    }

    /// Reads a token back from its hex form; accepts either letter case.
    pub fn parse_hex(s: &str) -> (r: Option<Self>)
        ensures
            r.is_some() <==> (s@.len() == 64 && (forall|i: int|
                0 <= i < s@.len() ==> is_hex_digit(#[trigger] s@[i]))),
            r matches Some(t) ==> t@ == bytes_of_hex(s@),
    {
        match hex_decode_32(s) {
            Some(bytes) => Some(SessionToken { bytes }),
            None => None,
        }
    }

    /// Byte-for-byte token equality.
    pub fn same_as(&self, other: &SessionToken) -> (r: bool)
        ensures
            r == (self@ == other@),
    {
        let mut i: usize = 0;
        while i < 32
            invariant
                0 <= i <= 32,
                self@.len() == 32,
                other@.len() == 32,
                forall|j: int| 0 <= j < i ==> self@[j] == other@[j],
            decreases 32 - i,
        {
            if self.bytes[i] != other.bytes[i] {
                return false;
            }
            i = i + 1;
        }
        proof {
            assert(self@ =~= other@);
        }
        true
    }
}

} // verus!
