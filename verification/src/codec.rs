//! The encoding of data values.
//!
//! A data value is kept as its canonical binary encoding (CBOR). Encoding
//! and decoding are the work of `charms_data` and `serde_json`: each
//! function here hands plain bytes or text to them and takes plain bytes or
//! text back. What they compute is given a name, and the contracts here say
//! that the call returns what the name stands for. Nothing about them is
//! proved.

use vstd::prelude::*;
use vstd::utf8::{decode_utf8, valid_utf8};

verus! {

/// The canonical encoding of the value that the JSON document `text`
/// describes; `None` where `text` is no JSON document.
pub uninterp spec fn document_encoding(text: Seq<char>) -> Option<Seq<u8>>;

/// The canonical encoding of the integer `n`.
pub uninterp spec fn integer_encoding(n: i64) -> Seq<u8>;

/// The canonical encoding of the value that `bytes` start with; `None`
/// where `bytes` do not start with an encoded value.
pub uninterp spec fn canonical_encoding(bytes: Seq<u8>) -> Option<Seq<u8>>;

/// The amount that `bytes` encode: an integer from 0 to `u64::MAX`; `None`
/// where `bytes` encode anything else, or nothing.
pub uninterp spec fn encoded_amount(bytes: Seq<u8>) -> Option<u64>;

/// The JSON document that describes the value that `bytes` encode; `None`
/// where `bytes` encode a value that JSON cannot describe, or nothing.
pub uninterp spec fn encoded_document(bytes: Seq<u8>) -> Option<Seq<char>>;

/// The members of the JSON object that `text` is, each with its name and,
/// as a JSON document, its value; `None` where `text` is no JSON object.
pub uninterp spec fn document_members(text: Seq<char>) -> Option<Seq<(Seq<char>, Seq<char>)>>;

/// The elements of the JSON array that `text` is, each as a JSON document;
/// `None` where `text` is no JSON array.
pub uninterp spec fn document_elements(text: Seq<char>) -> Option<Seq<Seq<char>>>;

/// The text that the JSON string `text` stands for; `None` where `text` is
/// no JSON string.
pub uninterp spec fn document_string(text: Seq<char>) -> Option<Seq<char>>;

/// The JSON string that stands for `text`.
pub uninterp spec fn string_document(text: Seq<char>) -> Seq<char>;

/// The canonical encoding of the value that is no value: one byte.
pub open spec fn null_encoding() -> Seq<u8> {
    seq![0xf6u8]
}

/// The canonical encoding of a truth value: one byte.
pub open spec fn bool_encoding(b: bool) -> Seq<u8> {
    if b {
        seq![0xf5u8]
    } else {
        seq![0xf4u8]
    }
}

/// The view of an optional byte string.
pub open spec fn bytes_view(r: Option<Vec<u8>>) -> Option<Seq<u8>> {
    match r {
        Some(bytes) => Some(bytes@),
        None => None,
    }
}

/// The views of a list of texts.
pub open spec fn texts_view(list: Seq<String>) -> Seq<Seq<char>> {
    Seq::new(list.len(), |i: int| list[i]@)
}

/// The views of a list of pairs of texts.
pub open spec fn pairs_view(list: Seq<(String, String)>) -> Seq<(Seq<char>, Seq<char>)> {
    Seq::new(list.len(), |i: int| (list[i].0@, list[i].1@))
}

/// `core::str::from_utf8`: the text that `bytes` are the UTF-8 form of, and
/// `None` exactly where they are the UTF-8 form of no text.
#[verifier::external_body]
pub(crate) fn utf8_text(bytes: &[u8]) -> (r: Option<&str>)
    ensures
        match r {
            Some(text) => valid_utf8(bytes@) && text@ == decode_utf8(bytes@),
            None => !valid_utf8(bytes@),
        },
{
    core::str::from_utf8(bytes).ok()
}

/// `serde_json::from_str` reads `text` as a JSON document, and
/// `charms_data::Data::from` with `Data::bytes` encodes the value it read.
/// The contract names the result and claims nothing more: `None` is what
/// `from_str` refusing the text comes to.
#[verifier::external_body]
pub(crate) fn encode_document(text: &str) -> (r: Option<Vec<u8>>)
    ensures
        bytes_view(r) == document_encoding(text@),
{
    match serde_json::from_str::<serde_json::Value>(text) {
        Ok(value) => Some(charms_data::Data::from(&value).bytes()),
        Err(_) => None,
    }
}

/// `serde_json::Value::from` makes a JSON number of `n`, and
/// `charms_data::Data::from` with `Data::bytes` encodes it. The contract
/// names the result.
#[verifier::external_body]
pub(crate) fn encode_integer(n: i64) -> (r: Vec<u8>)
    ensures
        r@ == integer_encoding(n),
{
    charms_data::Data::from(&serde_json::Value::from(n)).bytes()
}

/// `serde_json::Value::from` makes a JSON truth value of `b`, and
/// `charms_data::Data::from` with `Data::bytes` encodes it. The contract
/// claims that the encoding is the one byte that CBOR has for `true` or
/// for `false`.
#[verifier::external_body]
pub(crate) fn encode_bool(b: bool) -> (r: Vec<u8>)
    ensures
        r@ == bool_encoding(b),
{
    charms_data::Data::from(&serde_json::Value::from(b)).bytes()
}

/// `charms_data::Data::empty` with `Data::bytes`. The contract claims that
/// the encoding of the empty value is the one byte that CBOR has for null.
#[verifier::external_body]
pub(crate) fn encode_null() -> (r: Vec<u8>)
    ensures
        r@ == null_encoding(),
{
    charms_data::Data::empty().bytes()
}

/// `charms_data::util::read` decodes the value that `bytes` start with, and
/// `Data::bytes` encodes it again. The contract names the result: `None`
/// is what `read` refusing the bytes comes to.
#[verifier::external_body]
pub(crate) fn canonical(bytes: &[u8]) -> (r: Option<Vec<u8>>)
    ensures
        bytes_view(r) == canonical_encoding(bytes@),
{
    match charms_data::util::read::<charms_data::Data, &[u8]>(bytes) {
        Ok(data) => Some(data.bytes()),
        Err(_) => None,
    }
}

/// `charms_data::util::read` decodes the value that `bytes` start with, and
/// `Data::value` reads it as a `u64`. The contract names the result: `None`
/// is what either of them refusing comes to.
#[verifier::external_body]
pub(crate) fn decode_amount(bytes: &[u8]) -> (r: Option<u64>)
    ensures
        r == encoded_amount(bytes@),
{
    match charms_data::util::read::<charms_data::Data, &[u8]>(bytes) {
        Ok(data) => data.value::<u64>().ok(),
        Err(_) => None,
    }
}

/// `charms_data::util::read` decodes the value that `bytes` start with,
/// `Data::value` reads it as a `serde_json::Value`, and
/// `serde_json::to_string` writes that as a JSON document. The contract
/// names the result: `None` is what any of them refusing comes to.
#[verifier::external_body]
pub(crate) fn decode_document(bytes: &[u8]) -> (r: Option<String>)
    ensures
        match r {
            Some(text) => encoded_document(bytes@) == Some(text@),
            None => encoded_document(bytes@) is None,
        },
{
    let data = charms_data::util::read::<charms_data::Data, &[u8]>(bytes).ok()?;
    let value = data.value::<serde_json::Value>().ok()?;
    serde_json::to_string(&value).ok()
}

/// `serde_json::from_str` reads `text` as a JSON object, a
/// `serde_json::Map`; each member is handed out with its name and, from
/// `Value::to_string`, its value as a JSON document. The contract names the
/// result: `None` is what `from_str` refusing the text comes to.
#[verifier::external_body]
pub(crate) fn members(text: &str) -> (r: Option<Vec<(String, String)>>)
    ensures
        match r {
            Some(list) => document_members(text@) == Some(pairs_view(list@)),
            None => document_members(text@) is None,
        },
{
    let object = serde_json::from_str::<serde_json::Map<String, serde_json::Value>>(text).ok()?;
    Some(object.iter().map(|(name, value)| (name.clone(), value.to_string())).collect())
}

/// `serde_json::from_str` reads `text` as a JSON array, a `Vec` of
/// `serde_json::Value`; each element is handed out, from `Value::to_string`,
/// as a JSON document. The contract names the result: `None` is what
/// `from_str` refusing the text comes to.
#[verifier::external_body]
pub(crate) fn elements(text: &str) -> (r: Option<Vec<String>>)
    ensures
        match r {
            Some(list) => document_elements(text@) == Some(texts_view(list@)),
            None => document_elements(text@) is None,
        },
{
    let array = serde_json::from_str::<Vec<serde_json::Value>>(text).ok()?;
    Some(array.iter().map(|value| value.to_string()).collect())
}

/// `serde_json::from_str` reads `text` as a JSON string, a `String`. The
/// contract names the result: `None` is what `from_str` refusing the text
/// comes to.
#[verifier::external_body]
pub(crate) fn unquote(text: &str) -> (r: Option<String>)
    ensures
        match r {
            Some(s) => document_string(text@) == Some(s@),
            None => document_string(text@) is None,
        },
{
    serde_json::from_str::<String>(text).ok()
}

/// `serde_json::Value::from` makes a JSON string of `text`, and
/// `Value::to_string` writes it as a JSON document. The contract names the
/// result.
#[verifier::external_body]
pub(crate) fn quote(text: &str) -> (r: String)
    ensures
        r@ == string_document(text@),
{
    serde_json::Value::from(text).to_string()
}

} // verus!
