//! Transaction identifiers.

use core::cmp::Ordering;
use vstd::prelude::*;
use vstd::std_specs::cmp::{PartialEqSpecImpl, PartialOrdSpecImpl};

use crate::bytes::{array32, lemma_reverse_injective, reversed, same_bytes};
use crate::error::Error;
use crate::hex::{hex_text, lemma_hex_text_injective, parse_hex, push_hex};
use crate::order::{compare, order_of, ordering, ordering_of};
use crate::text::{chars_of, string_of};

verus! {

/// The identifier of a transaction: 32 bytes. It is a type of its own, so
/// that it is never taken for another 32-byte string.
#[derive(Clone, Copy, Debug, Eq, Ord, Hash)]
pub struct TxId(pub [u8; 32]);

impl View for TxId {
    type V = Seq<u8>;

    open spec fn view(&self) -> Seq<u8> {
        self.0@
    }
}

impl PartialEq for TxId {
    fn eq(&self, other: &TxId) -> (r: bool) {
        let r = same_bytes(self.0.as_slice(), other.0.as_slice());
        proof {
            if r {
                assert(self.0 =~= other.0);
            }
        }
        r
    }
}

impl PartialEqSpecImpl for TxId {
    open spec fn obeys_eq_spec() -> bool {
        true
    }

    open spec fn eq_spec(&self, other: &TxId) -> bool {
        *self == *other
    }
}

impl PartialOrd for TxId {
    fn partial_cmp(&self, other: &TxId) -> (r: Option<Ordering>) {
        Some(ordering(compare(self.0.as_slice(), other.0.as_slice())))
    }
}

impl PartialOrdSpecImpl for TxId {
    open spec fn obeys_partial_cmp_spec() -> bool {
        true
    }

    /// The order is that of the bytes, the first byte first.
    open spec fn partial_cmp_spec(&self, other: &TxId) -> Option<Ordering> {
        Some(ordering_of(order_of(self@, other@)))
    }
}

/// The canonical text of the identifier that holds `bytes`: the
/// hexadecimal text of the bytes, last byte first.
pub open spec fn txid_text(bytes: Seq<u8>) -> Seq<char> {
    hex_text(bytes.reverse())
}

impl TxId {
    /// The canonical text: 64 lower-case hexadecimal digits, which show the
    /// bytes last first.
    pub open spec fn text(&self) -> Seq<char> {
        txid_text(self@)
    }

    /// The identifier whose canonical text is `s`, if there is one.
    pub open spec fn parse(s: Seq<char>) -> Option<TxId> {
        if exists|v: TxId| v.text() == s {
            Some(choose|v: TxId| v.text() == s)
        } else {
            None
        }
    }

    /// The identifier that holds `bytes`, which must be 32 bytes long.
    pub fn new(bytes: &[u8]) -> (r: Result<TxId, Error>)
        ensures
            match r {
                Ok(v) => bytes@.len() == 32 && v@ == bytes@,
                Err(e) => bytes@.len() != 32 && e == Error::InvalidLength,
            },
    {
        if bytes.len() != 32 {
            return Err(Error::InvalidLength);
        }
        Ok(TxId(array32(bytes)))
    }

    /// The 32 bytes.
    pub fn to_bytes(&self) -> (r: [u8; 32])
        ensures
            r@ == self@,
    {
        self.0
    }

    /// The identifier whose canonical text is `s`.
    pub fn from_str(s: &str) -> (r: Result<TxId, Error>)
        ensures
            r == match TxId::parse(s@) {
                Some(v) => Ok::<TxId, Error>(v),
                None => Err(Error::InvalidEncoding),
            },
    {
        let chars = chars_of(s);
        match parse_txid(chars.as_slice()) {
            Some(v) => Ok(v),
            None => Err(Error::InvalidEncoding),
        }
    }

    /// The canonical text.
    pub fn to_string(&self) -> (s: String)
        ensures
            s@ == self.text(),
    {
        let mut chars: Vec<char> = Vec::new();
        push_txid(&mut chars, self);
        string_of(&chars)
    }
}

/// Appends the canonical text of `id` to `out`.
pub fn push_txid(out: &mut Vec<char>, id: &TxId)
    ensures
        final(out)@ == old(out)@ + id.text(),
{
    let shown = reversed(id.0.as_slice());
    push_hex(out, shown.as_slice());
}

/// The identifier whose canonical text is `chars`, if there is one.
pub fn parse_txid(chars: &[char]) -> (r: Option<TxId>)
    ensures
        r == TxId::parse(chars@),
{
    match parse_hex(chars) {
        Some(shown) => {
            if shown.len() == 32 {
                let bytes = reversed(shown.as_slice());
                let v = TxId(array32(bytes.as_slice()));
                proof {
                    assert(v@.reverse() =~= shown@);
                    assert(v.text() == chars@);
                    lemma_text_injective(v, choose|w: TxId| w.text() == chars@);
                }
                Some(v)
            } else {
                proof {
                    assert forall|w: TxId| w.text() != chars@ by {
                        assert(w@.reverse().len() == 32);
                        assert(w.text().len() == 64);
                        assert(hex_text(shown@).len() == 2 * shown@.len());
                    }
                }
                None
            }
        },
        None => None,
    }
}

/// Two identifiers with the same canonical text are the same identifier.
pub proof fn lemma_text_injective(a: TxId, b: TxId)
    requires
        a.text() == b.text(),
    ensures
        a == b,
{
    lemma_hex_text_injective(a@.reverse(), b@.reverse());
    lemma_reverse_injective(a@, b@);
    assert(a.0 =~= b.0);
}

/// Parsing the canonical text of an identifier gives that identifier back.
pub proof fn lemma_text_round_trip(v: TxId)
    ensures
        TxId::parse(v.text()) == Some(v),
{
    lemma_text_injective(v, choose|w: TxId| w.text() == v.text());
}

/// Only canonical text parses: a parsed identifier has the parsed text as
/// its canonical text.
pub proof fn lemma_parse_exact(s: Seq<char>)
    ensures
        TxId::parse(s) matches Some(v) ==> v.text() == s,
{
}

} // verus!
