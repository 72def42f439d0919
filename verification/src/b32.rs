//! Thirty-two byte strings, such as hashes and keys.

use core::cmp::Ordering;
use vstd::prelude::*;
use vstd::std_specs::cmp::{PartialEqSpecImpl, PartialOrdSpecImpl};

use crate::bytes::{array32, same_bytes};
use crate::error::Error;
use crate::hex::{hex_text, lemma_hex_text_injective, parse_hex, push_hex};
use crate::order::{compare, order_of, ordering, ordering_of};
use crate::text::{chars_of, string_of};

verus! {

/// A string of exactly 32 bytes.
#[derive(Clone, Copy, Debug, Eq, Ord, Hash)]
pub struct B32(pub [u8; 32]);

impl View for B32 {
    type V = Seq<u8>;

    open spec fn view(&self) -> Seq<u8> {
        self.0@
    }
}

impl PartialEq for B32 {
    fn eq(&self, other: &B32) -> (r: bool) {
        let r = same_bytes(self.0.as_slice(), other.0.as_slice());
        proof {
            if r {
                assert(self.0 =~= other.0);
            }
        }
        r
    }
}

impl PartialEqSpecImpl for B32 {
    open spec fn obeys_eq_spec() -> bool {
        true
    }

    open spec fn eq_spec(&self, other: &B32) -> bool {
        *self == *other
    }
}

impl PartialOrd for B32 {
    fn partial_cmp(&self, other: &B32) -> (r: Option<Ordering>) {
        Some(ordering(compare(self.0.as_slice(), other.0.as_slice())))
    }
}

impl PartialOrdSpecImpl for B32 {
    open spec fn obeys_partial_cmp_spec() -> bool {
        true
    }

    /// The order is that of the bytes, the first byte first.
    open spec fn partial_cmp_spec(&self, other: &B32) -> Option<Ordering> {
        Some(ordering_of(order_of(self@, other@)))
    }
}

impl B32 {
    /// The canonical text: 64 lower-case hexadecimal digits.
    pub open spec fn text(&self) -> Seq<char> {
        hex_text(self@)
    }

    /// The value whose canonical text is `s`, if there is one.
    pub open spec fn parse(s: Seq<char>) -> Option<B32> {
        if exists|v: B32| v.text() == s {
            Some(choose|v: B32| v.text() == s)
        } else {
            None
        }
    }

    /// The value that holds `bytes`, which must be 32 bytes long.
    pub fn new(bytes: &[u8]) -> (r: Result<B32, Error>)
        ensures
            match r {
                Ok(v) => bytes@.len() == 32 && v@ == bytes@,
                Err(e) => bytes@.len() != 32 && e == Error::InvalidLength,
            },
    {
        if bytes.len() != 32 {
            return Err(Error::InvalidLength);
        }
        Ok(B32(array32(bytes)))
    }

    /// The 32 bytes.
    pub fn to_bytes(&self) -> (r: [u8; 32])
        ensures
            r@ == self@,
    {
        self.0
    }

    /// The value whose canonical text is `s`.
    pub fn from_str(s: &str) -> (r: Result<B32, Error>)
        ensures
            r == match B32::parse(s@) {
                Some(v) => Ok::<B32, Error>(v),
                None => Err(Error::InvalidEncoding),
            },
    {
        let chars = chars_of(s);
        match parse_b32(chars.as_slice()) {
            Some(v) => Ok(v),
            None => Err(Error::InvalidEncoding),
        }
    }

    /// The canonical text.
    pub fn to_string(&self) -> (s: String)
        ensures
            s@ == self.text(),
    {
        let mut chars: Vec<char> = Vec::new();
        push_hex(&mut chars, self.0.as_slice());
        string_of(&chars)
    }
}

/// The value whose canonical text is `chars`, if there is one.
pub fn parse_b32(chars: &[char]) -> (r: Option<B32>)
    ensures
        r == B32::parse(chars@),
{
    match parse_hex(chars) {
        Some(bytes) => {
            if bytes.len() == 32 {
                let v = B32(array32(bytes.as_slice()));
                proof {
                    assert(v.text() == chars@);
                    lemma_text_injective(v, choose|w: B32| w.text() == chars@);
                }
                Some(v)
            } else {
                proof {
                    assert forall|w: B32| w.text() != chars@ by {
                        assert(w.text().len() == 64);
                        assert(hex_text(bytes@).len() == 2 * bytes@.len());
                    }
                }
                None
            }
        },
        None => None,
    }
}

/// Two values with the same canonical text are the same value.
pub proof fn lemma_text_injective(a: B32, b: B32)
    requires
        a.text() == b.text(),
    ensures
        a == b,
{
    lemma_hex_text_injective(a@, b@);
    assert(a.0 =~= b.0);
}

/// Parsing the canonical text of a value gives that value back.
pub proof fn lemma_text_round_trip(v: B32)
    ensures
        B32::parse(v.text()) == Some(v),
{
    lemma_text_injective(v, choose|w: B32| w.text() == v.text());
}

/// Only canonical text parses: a parsed value has the parsed text as its
/// canonical text.
pub proof fn lemma_parse_exact(s: Seq<char>)
    ensures
        B32::parse(s) matches Some(v) ==> v.text() == s,
{
}

} // verus!
