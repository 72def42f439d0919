//! Data values: what an app attaches to a transaction output.

use vstd::prelude::*;
use vstd::slice::slice_to_vec;
use vstd::std_specs::cmp::PartialEqSpecImpl;
use vstd::utf8::{decode_utf8, valid_utf8};

use crate::bytes::same_bytes;
use crate::codec::{
    bool_encoding, bytes_view, canonical, canonical_encoding, decode_amount, decode_document,
    document_encoding, encode_bool, encode_document, encode_integer, encode_null,
    encoded_amount, encoded_document, integer_encoding, null_encoding, utf8_text,
};
use crate::error::Error;

verus! {

/// A data value, kept as its canonical binary encoding. It may be any
/// structured value (a map, an array, a number, a text, a truth value) or
/// the empty value.
#[derive(Debug, Eq, Hash)]
pub struct Data {
    bytes: Vec<u8>,
}

impl View for Data {
    type V = Seq<u8>;

    closed spec fn view(&self) -> Seq<u8> {
        self.bytes@
    }
}

impl PartialEq for Data {
    fn eq(&self, other: &Data) -> (r: bool) {
        same_bytes(self.bytes.as_slice(), other.bytes.as_slice())
    }
}

impl PartialEqSpecImpl for Data {
    open spec fn obeys_eq_spec() -> bool {
        true
    }

    open spec fn eq_spec(&self, other: &Data) -> bool {
        self@ == other@
    }
}

impl Clone for Data {
    fn clone(&self) -> (r: Data)
        ensures
            r@ == self@,
    {
        Data { bytes: slice_to_vec(self.bytes.as_slice()) }
    }
}

impl Default for Data {
    fn default() -> (r: Data)
        ensures
            r@ == null_encoding(),
    {
        Data::empty()
    }
}

/// A value as the host environment hands it over.
#[derive(Debug, PartialEq, Eq)]
pub enum HostValue {
    /// A data value that was made before.
    Data(Data),
    /// A JSON document. A text of the host is taken as one, and the host
    /// renders as one what is none of the other kinds: a list, a map, a
    /// number that is no integer.
    Document(String),
    /// A byte buffer.
    Bytes(Vec<u8>),
    /// An integer.
    Integer(i64),
    /// A truth value.
    Bool(bool),
    /// The host's null.
    Null,
}

/// The encoding of the data value that `value` stands for; `None` where it
/// stands for none. A byte buffer is read as an encoded value first and, if
/// it is none, as the UTF-8 form of a JSON document.
pub open spec fn host_encoding(value: &HostValue) -> Option<Seq<u8>> {
    match value {
        HostValue::Data(data) => Some(data@),
        HostValue::Document(text) => document_encoding(text@),
        HostValue::Bytes(bytes) => match canonical_encoding(bytes@) {
            Some(encoding) => Some(encoding),
            None => if valid_utf8(bytes@) {
                document_encoding(decode_utf8(bytes@))
            } else {
                None
            },
        },
        HostValue::Integer(n) => Some(integer_encoding(*n)),
        HostValue::Bool(b) => Some(bool_encoding(*b)),
        HostValue::Null => Some(null_encoding()),
    }
}

impl Data {
    /// Whether this is the empty value.
    pub open spec fn spec_is_empty(&self) -> bool {
        self@ == null_encoding()
    }

    /// The data value with this encoding, or the error if there is none.
    fn of(encoding: Option<Vec<u8>>, error: Error) -> (r: Result<Data, Error>)
        ensures
            match r {
                Ok(data) => bytes_view(encoding) == Some(data@),
                Err(e) => encoding is None && e == error,
            },
    {
        match encoding {
            Some(bytes) => Ok(Data { bytes }),
            None => Err(error),
        }
    }

    /// The empty value.
    pub fn empty() -> (r: Data)
        ensures
            r.spec_is_empty(),
    {
        Data { bytes: encode_null() }
    }

    /// Whether this is the empty value.
    #[verifier::when_used_as_spec(spec_is_empty)]
    pub fn is_empty(&self) -> (r: bool)
        ensures
            r == self.spec_is_empty(),
    {
        let r = self.bytes.len() == 1 && self.bytes[0] == 0xf6;
        proof {
            if r {
                assert(self@ =~= null_encoding());
            }
        }
        r
    }

    /// The canonical encoding.
    pub fn bytes(&self) -> (r: Vec<u8>)
        ensures
            r@ == self@,
    {
        slice_to_vec(self.bytes.as_slice())
    }

    /// The data value that `bytes` encode. Its own encoding is the
    /// canonical one, whatever form `bytes` have. Bytes that encode no
    /// value are refused with `DecodeError`.
    pub fn from_bytes(bytes: &[u8]) -> (r: Result<Data, Error>)
        ensures
            match r {
                Ok(data) => canonical_encoding(bytes@) == Some(data@),
                Err(e) => canonical_encoding(bytes@) is None && e == Error::DecodeError,
            },
    {
        Data::of(canonical(bytes), Error::DecodeError)
    }

    /// The data value that the JSON document `text` describes. A text that
    /// is no JSON document is refused with `DecodeError`.
    pub fn from_json(text: &str) -> (r: Result<Data, Error>)
        ensures
            match r {
                Ok(data) => document_encoding(text@) == Some(data@),
                Err(e) => document_encoding(text@) is None && e == Error::DecodeError,
            },
    {
        Data::of(encode_document(text), Error::DecodeError)
    }

    /// The JSON document that describes this value. A value that JSON
    /// cannot describe is refused with `DeserializeError`.
    pub fn to_json(&self) -> (r: Result<String, Error>)
        ensures
            match r {
                Ok(text) => encoded_document(self@) == Some(text@),
                Err(e) => encoded_document(self@) is None && e == Error::DeserializeError,
            },
    {
        match decode_document(self.bytes.as_slice()) {
            Some(text) => Ok(text),
            None => Err(Error::DeserializeError),
        }
    }

    /// The amount that this value is: `None` unless it is an integer from 0
    /// to `u64::MAX`.
    pub fn amount(&self) -> (r: Option<u64>)
        ensures
            r == encoded_amount(self@),
    {
        decode_amount(self.bytes.as_slice())
    }

    /// The data value that a value of the host stands for. One that stands
    /// for none is refused with `DecodeError`.
    pub fn from_host(value: &HostValue) -> (r: Result<Data, Error>)
        ensures
            match r {
                Ok(data) => host_encoding(value) == Some(data@),
                Err(e) => host_encoding(value) is None && e == Error::DecodeError,
            },
    {
        match value {
            HostValue::Data(data) => Ok(data.clone()),
            HostValue::Document(text) => Data::from_json(text.as_str()),
            HostValue::Bytes(bytes) => {
                match canonical(bytes.as_slice()) {
                    Some(encoding) => Ok(Data { bytes: encoding }),
                    None => match utf8_text(bytes.as_slice()) {
                        Some(text) => Data::from_json(text),
                        None => Err(Error::DecodeError),
                    },
                }
            },
            HostValue::Integer(n) => Ok(Data { bytes: encode_integer(*n) }),
            HostValue::Bool(b) => Ok(Data { bytes: encode_bool(*b) }),
            HostValue::Null => Ok(Data::empty()),
        }
    }

    /// The data value that the host asks for: the empty value where it
    /// hands nothing over, and else what `from_host` gives.
    pub fn new(value: Option<&HostValue>) -> (r: Result<Data, Error>)
        ensures
            match value {
                Some(value) => match r {
                    Ok(data) => host_encoding(value) == Some(data@),
                    Err(e) => host_encoding(value) is None && e == Error::DecodeError,
                },
                None => r is Ok && r->Ok_0.spec_is_empty(),
            },
    {
        match value {
            Some(value) => Data::from_host(value),
            None => Ok(Data::empty()),
        }
    }
}

} // verus!
