//! Identifiers of transaction outputs.

use core::cmp::Ordering;
use vstd::prelude::*;
use vstd::slice::slice_subrange;
use vstd::std_specs::cmp::{PartialEqSpecImpl, PartialOrdSpecImpl};

use crate::decimal::{
    decimal_text, lemma_decimal_injective, lemma_decimal_not_empty, parse_decimal, push_decimal,
};
use crate::error::Error;
use crate::order::{and_then, compare, number_order, order_of, ordering, ordering_of, Order};
use crate::text::{chars_of, string_of};
use crate::txid::{parse_txid, push_txid, TxId};

verus! {

/// The identifier of a transaction output: the transaction that made it,
/// and its position among that transaction's outputs, counted from zero.
#[derive(Clone, Copy, Debug, Eq, Ord, Hash)]
pub struct UtxoId(pub TxId, pub u32);

impl PartialEq for UtxoId {
    fn eq(&self, other: &UtxoId) -> (r: bool) {
        self.0 == other.0 && self.1 == other.1
    }
}

impl PartialEqSpecImpl for UtxoId {
    open spec fn obeys_eq_spec() -> bool {
        true
    }

    open spec fn eq_spec(&self, other: &UtxoId) -> bool {
        *self == *other
    }
}

impl PartialOrd for UtxoId {
    fn partial_cmp(&self, other: &UtxoId) -> (r: Option<Ordering>) {
        Some(ordering(self.compare(other)))
    }
}

impl PartialOrdSpecImpl for UtxoId {
    open spec fn obeys_partial_cmp_spec() -> bool {
        true
    }

    /// The order is that of the transaction identifiers and, within one
    /// transaction, that of the indexes.
    open spec fn partial_cmp_spec(&self, other: &UtxoId) -> Option<Ordering> {
        Some(ordering_of(self.order(*other)))
    }
}

/// The four bytes of `n`, the lowest first.
pub open spec fn le_bytes(n: u32) -> Seq<u8> {
    seq![
        (n % 256) as u8,
        (n / 256 % 256) as u8,
        (n / 65536 % 256) as u8,
        (n / 16777216) as u8,
    ]
}

impl UtxoId {
    /// How this identifier stands to `other`: by the transaction
    /// identifiers and, within one transaction, by the indexes.
    pub open spec fn order(&self, other: UtxoId) -> Order {
        and_then(order_of(self.0@, other.0@), number_order(self.1 as int, other.1 as int))
    }

    /// How this identifier stands to `other`.
    pub fn compare(&self, other: &UtxoId) -> (r: Order)
        ensures
            r == self.order(*other),
    {
        match compare(self.0.0.as_slice(), other.0.0.as_slice()) {
            Order::Equal => if self.1 < other.1 {
                Order::Less
            } else if self.1 == other.1 {
                Order::Equal
            } else {
                Order::Greater
            },
            decided => decided,
        }
    }

    /// The binary form, 36 bytes: the 32 bytes of the transaction
    /// identifier, then the four bytes of the index, the lowest first.
    pub open spec fn encoding(&self) -> Seq<u8> {
        self.0@ + le_bytes(self.1)
    }

    /// The canonical text: that of the transaction identifier, a colon, and
    /// the index in decimal.
    pub open spec fn text(&self) -> Seq<char> {
        self.0.text() + seq![':'] + decimal_text(self.1 as nat)
    }

    /// The identifier whose canonical text is `s`, if there is one.
    pub open spec fn parse(s: Seq<char>) -> Option<UtxoId> {
        if exists|v: UtxoId| v.text() == s {
            Some(choose|v: UtxoId| v.text() == s)
        } else {
            None
        }
    }

    /// The identifier of output number `index` of transaction `txid`.
    pub fn new(txid: &TxId, index: u32) -> (r: UtxoId)
        ensures
            r == UtxoId(*txid, index),
    {
        UtxoId(*txid, index)
    }

    /// The transaction that made the output.
    pub fn txid(&self) -> (r: TxId)
        ensures
            r == self.0,
    {
        self.0
    }

    /// The position of the output in its transaction.
    pub fn index(&self) -> (r: u32)
        ensures
            r == self.1,
    {
        self.1
    }

    /// The binary form.
    pub fn to_bytes(&self) -> (r: [u8; 36])
        ensures
            r@ == self.encoding(),
    {
        let mut r = [0u8;36];
        let mut i: usize = 0;
        while i < 32
            invariant
                i <= 32,
                forall|j: int| 0 <= j < i ==> r@[j] == self.0@[j],
            decreases 32 - i,
        {
            r[i] = self.0.0[i];
            i += 1;
        }
        let n = self.1;
        r[32] = (n % 256) as u8;
        r[33] = (n / 256 % 256) as u8;
        r[34] = (n / 65536 % 256) as u8;
        r[35] = (n / 16777216) as u8;
        assert(r@ =~= self.encoding());
        r
    }

    /// The identifier whose binary form is `bytes`.
    pub fn from_bytes(bytes: [u8; 36]) -> (r: UtxoId)
        ensures
            r.encoding() == bytes@,
    {
        let mut id = [0u8;32];
        let mut i: usize = 0;
        while i < 32
            invariant
                i <= 32,
                forall|j: int| 0 <= j < i ==> id@[j] == bytes@[j],
            decreases 32 - i,
        {
            id[i] = bytes[i];
            i += 1;
        }
        let b0 = bytes[32] as u32;
        let b1 = bytes[33] as u32;
        let b2 = bytes[34] as u32;
        let b3 = bytes[35] as u32;
        let n: u32 = b0 + b1 * 256 + b2 * 65536 + b3 * 16777216;
        let r = UtxoId(TxId(id), n);
        proof {
            assert(n % 256 == b0);
            assert(n / 256 % 256 == b1);
            assert(n / 65536 % 256 == b2);
            assert(n / 16777216 == b3);
            assert(r.encoding() =~= bytes@);
        }
        r
    }

    /// The identifier whose canonical text is `s`.
    pub fn from_str(s: &str) -> (r: Result<UtxoId, Error>)
        ensures
            r == match UtxoId::parse(s@) {
                Some(v) => Ok::<UtxoId, Error>(v),
                None => Err(Error::InvalidEncoding),
            },
    {
        let chars = chars_of(s);
        let n = chars.len();
        if n < 66 {
            proof {
                assert forall|w: UtxoId| w.text() != s@ by {
                    lemma_text_parts(w);
                }
            }
            return Err(Error::InvalidEncoding);
        }
        if chars[64] != ':' {
            proof {
                assert forall|w: UtxoId| w.text() != s@ by {
                    lemma_text_parts(w);
                }
            }
            return Err(Error::InvalidEncoding);
        }
        let txid = parse_txid(slice_subrange(chars.as_slice(), 0, 64));
        let index = parse_decimal(slice_subrange(chars.as_slice(), 65, n));
        match (txid, index) {
            (Some(txid), Some(index)) => {
                let v = UtxoId(txid, index);
                proof {
                    assert(v.text() =~= s@);
                    lemma_text_injective(v, choose|w: UtxoId| w.text() == s@);
                }
                Ok(v)
            },
            _ => {
                proof {
                    assert forall|w: UtxoId| w.text() != s@ by {
                        lemma_text_parts(w);
                    }
                }
                Err(Error::InvalidEncoding)
            },
        }
    }

    /// The canonical text.
    pub fn to_string(&self) -> (s: String)
        ensures
            s@ == self.text(),
    {
        let mut chars: Vec<char> = Vec::new();
        push_txid(&mut chars, &self.0);
        chars.push(':');
        push_decimal(&mut chars, self.1);
        assert(chars@ =~= self.text());
        string_of(&chars)
    }
}

/// Where the parts of a canonical text stand in it.
proof fn lemma_text_parts(v: UtxoId)
    ensures
        v.text().len() >= 66,
        v.text().subrange(0, 64) == v.0.text(),
        v.text()[64] == ':',
        v.text().subrange(65, v.text().len() as int) == decimal_text(v.1 as nat),
{
    let t = v.text();
    lemma_decimal_not_empty(v.1 as nat);
    assert(v.0@.reverse().len() == 32);
    assert(v.0.text().len() == 64);
    assert(t.subrange(0, 64) =~= v.0.text());
    assert(t.subrange(65, t.len() as int) =~= decimal_text(v.1 as nat));
}

/// Two identifiers with the same canonical text are the same identifier.
pub proof fn lemma_text_injective(a: UtxoId, b: UtxoId)
    requires
        a.text() == b.text(),
    ensures
        a == b,
{
    lemma_text_parts(a);
    lemma_text_parts(b);
    crate::txid::lemma_text_injective(a.0, b.0);
    lemma_decimal_injective(a.1 as nat, b.1 as nat);
}

/// Parsing the canonical text of an identifier gives that identifier back.
pub proof fn lemma_text_round_trip(v: UtxoId)
    ensures
        UtxoId::parse(v.text()) == Some(v),
{
    lemma_text_injective(v, choose|w: UtxoId| w.text() == v.text());
}

/// Only canonical text parses: a parsed identifier has the parsed text as
/// its canonical text.
pub proof fn lemma_parse_exact(s: Seq<char>)
    ensures
        UtxoId::parse(s) matches Some(v) ==> v.text() == s,
{
}

/// Two identifiers with the same binary form are the same identifier, so
/// reading the binary form of an identifier gives that identifier back.
pub proof fn lemma_encoding_injective(a: UtxoId, b: UtxoId)
    requires
        a.encoding() == b.encoding(),
    ensures
        a == b,
{
    let e = a.encoding();
    assert(a.0@ =~= e.subrange(0, 32));
    assert(b.0@ =~= e.subrange(0, 32));
    assert(a.0.0 =~= b.0.0);
    assert(le_bytes(a.1) =~= e.subrange(32, 36));
    assert(le_bytes(b.1) =~= e.subrange(32, 36));
    let x = a.1;
    let y = b.1;
    assert(le_bytes(x)[0] == le_bytes(y)[0]);
    assert(le_bytes(x)[1] == le_bytes(y)[1]);
    assert(le_bytes(x)[2] == le_bytes(y)[2]);
    assert(le_bytes(x)[3] == le_bytes(y)[3]);
    assert(x == x % 256 + (x / 256 % 256) * 256 + (x / 65536 % 256) * 65536 + (x / 16777216)
        * 16777216);
    assert(y == y % 256 + (y / 256 % 256) * 256 + (y / 65536 % 256) * 65536 + (y / 16777216)
        * 16777216);
}

} // verus!
