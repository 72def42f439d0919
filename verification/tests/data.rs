use charms_engine::{Data, Error, HostValue};

#[test]
fn the_empty_value() {
    let empty = Data::empty();
    assert!(empty.is_empty());
    assert_eq!(empty.bytes(), vec![0xf6]);
    assert_eq!(Data::default(), empty);
    assert_eq!(Data::new(None), Ok(Data::empty()));
    assert_eq!(empty.to_json(), Ok("null".to_string()));
}

#[test]
fn the_empty_value_agrees_with_the_encoder() {
    assert_eq!(charms_data::Data::empty().bytes(), Data::empty().bytes());
    assert_eq!(Data::from_json("null"), Ok(Data::empty()));
    assert_eq!(Data::from_bytes(&[0xf6]), Ok(Data::empty()));
}

#[test]
fn values_that_are_not_empty() {
    for text in ["0", "false", "\"\"", "[]", "{}"] {
        let data = Data::from_json(text).unwrap();
        assert!(!data.is_empty(), "{}", text);
    }
}

#[test]
fn from_json_encodes_the_document() {
    assert_eq!(Data::from_json("10").unwrap().bytes(), vec![0x0a]);
    assert_eq!(Data::from_json("-1").unwrap().bytes(), vec![0x20]);
    assert_eq!(Data::from_json("1000").unwrap().bytes(), vec![0x19, 0x03, 0xe8]);
    assert_eq!(Data::from_json("true").unwrap().bytes(), vec![0xf5]);
    assert_eq!(Data::from_json("\"a\"").unwrap().bytes(), vec![0x61, 0x61]);
    assert_eq!(Data::from_json("[1, 2]").unwrap().bytes(), vec![0x82, 0x01, 0x02]);
    assert_eq!(
        Data::from_json("{\"owner\": \"A\"}").unwrap().bytes(),
        vec![0xa1, 0x65, b'o', b'w', b'n', b'e', b'r', 0x61, b'A']
    );
}

#[test]
fn from_json_refuses_what_is_no_document() {
    for text in ["", "abc", "{", "[1,", "{\"a\":}", "1 2"] {
        assert_eq!(Data::from_json(text), Err(Error::DecodeError), "{}", text);
    }
}

#[test]
fn from_bytes_gives_the_canonical_encoding() {
    assert_eq!(Data::from_bytes(&[0x0a]).unwrap().bytes(), vec![0x0a]);
    // the same integer, written with a longer head than it needs
    assert_eq!(Data::from_bytes(&[0x18, 0x0a]).unwrap().bytes(), vec![0x0a]);
    assert_eq!(Data::from_bytes(&[0x19, 0x00, 0x0a]).unwrap(), Data::from_json("10").unwrap());
    // an array of unknown length
    assert_eq!(
        Data::from_bytes(&[0x9f, 0x01, 0x02, 0xff]).unwrap().bytes(),
        vec![0x82, 0x01, 0x02]
    );
}

#[test]
fn from_bytes_refuses_what_encodes_nothing() {
    assert_eq!(Data::from_bytes(&[]), Err(Error::DecodeError));
    assert_eq!(Data::from_bytes(&[0xff]), Err(Error::DecodeError));
    assert_eq!(Data::from_bytes(&[0x18]), Err(Error::DecodeError));
    assert_eq!(Data::from_bytes(&[0x82, 0x01]), Err(Error::DecodeError));
}

#[test]
fn to_json_describes_the_value() {
    assert_eq!(Data::from_bytes(&[0x0a]).unwrap().to_json(), Ok("10".to_string()));
    assert_eq!(
        Data::from_bytes(&[0x82, 0x01, 0x61, 0x61]).unwrap().to_json(),
        Ok("[1,\"a\"]".to_string())
    );
    assert_eq!(
        Data::from_json("{\"owner\": \"A\"}").unwrap().to_json(),
        Ok("{\"owner\":\"A\"}".to_string())
    );
}

#[test]
fn to_json_refuses_what_json_cannot_describe() {
    // a byte string
    let bytes = Data::from_bytes(&[0x42, 0x01, 0x02]).unwrap();
    assert_eq!(bytes.to_json(), Err(Error::DeserializeError));
    // a map with an integer as a key
    let map = Data::from_bytes(&[0xa1, 0x01, 0x02]).unwrap();
    assert_eq!(map.to_json(), Err(Error::DeserializeError));
}

#[test]
fn structured_values_round_trip() {
    for text in [
        "null",
        "true",
        "false",
        "0",
        "18446744073709551615",
        "-9223372036854775808",
        "1.5",
        "\"text with \\\"quotes\\\" and \\u00e9\"",
        "[]",
        "[1,[2,[3,null]],\"x\"]",
        "{}",
        "{\"a\":1,\"b\":{\"c\":[true,false]},\"d\":\"e\"}",
    ] {
        let value: serde_json::Value = serde_json::from_str(text).unwrap();
        let data = Data::from_json(text).unwrap();
        let back: serde_json::Value = serde_json::from_str(&data.to_json().unwrap()).unwrap();
        assert_eq!(back, value, "{}", text);
        assert_eq!(Data::from_bytes(&data.bytes()), Ok(data), "{}", text);
    }
}

#[test]
fn amount_reads_integers_from_zero_up() {
    assert_eq!(Data::from_json("0").unwrap().amount(), Some(0));
    assert_eq!(Data::from_json("15").unwrap().amount(), Some(15));
    assert_eq!(
        Data::from_json("18446744073709551615").unwrap().amount(),
        Some(u64::MAX)
    );
    assert_eq!(Data::from_json("-1").unwrap().amount(), None);
    assert_eq!(Data::from_json("1.5").unwrap().amount(), None);
    assert_eq!(Data::from_json("\"15\"").unwrap().amount(), None);
    assert_eq!(Data::from_json("[15]").unwrap().amount(), None);
    assert_eq!(Data::from_json("{\"amount\":15}").unwrap().amount(), None);
    assert_eq!(Data::empty().amount(), None);
}

#[test]
fn from_host_takes_data_as_it_is() {
    let data = Data::from_json("[1,2,3]").unwrap();
    let copy = Data::from_bytes(&data.bytes()).unwrap();
    assert_eq!(Data::from_host(&HostValue::Data(copy)), Ok(data));
}

#[test]
fn from_host_reads_a_document() {
    assert_eq!(
        Data::from_host(&HostValue::Document("{\"owner\":\"A\"}".to_string())),
        Data::from_json("{\"owner\":\"A\"}")
    );
    assert_eq!(
        Data::from_host(&HostValue::Document("owner".to_string())),
        Err(Error::DecodeError)
    );
}

#[test]
fn from_host_reads_bytes_as_an_encoding_first() {
    // 0x31 encodes the integer -18, and is the UTF-8 form of the document "1"
    assert_eq!(
        Data::from_host(&HostValue::Bytes(vec![0x31])),
        Data::from_json("-18")
    );
    assert_eq!(
        Data::from_host(&HostValue::Bytes(vec![0x82, 0x01, 0x02])),
        Data::from_json("[1,2]")
    );
}

#[test]
fn from_host_reads_bytes_as_a_document_second() {
    // a text of 27 bytes is announced by '{', but fewer follow
    let text = "{\"owner\":\"A\"}";
    assert_eq!(Data::from_bytes(text.as_bytes()), Err(Error::DecodeError));
    assert_eq!(
        Data::from_host(&HostValue::Bytes(text.as_bytes().to_vec())),
        Data::from_json(text)
    );
}

#[test]
fn from_host_refuses_bytes_that_are_neither() {
    // no encoding, and no UTF-8
    assert_eq!(
        Data::from_host(&HostValue::Bytes(vec![0xff, 0xfe])),
        Err(Error::DecodeError)
    );
    // no encoding, UTF-8, but no document
    assert_eq!(
        Data::from_host(&HostValue::Bytes(b"{\"owner\"".to_vec())),
        Err(Error::DecodeError)
    );
    assert_eq!(Data::from_host(&HostValue::Bytes(vec![])), Err(Error::DecodeError));
}

#[test]
fn from_host_encodes_integers() {
    assert_eq!(Data::from_host(&HostValue::Integer(10)), Data::from_json("10"));
    assert_eq!(Data::from_host(&HostValue::Integer(0)).unwrap().bytes(), vec![0x00]);
    assert_eq!(Data::from_host(&HostValue::Integer(-1)).unwrap().bytes(), vec![0x20]);
    assert_eq!(
        Data::from_host(&HostValue::Integer(i64::MIN)),
        Data::from_json("-9223372036854775808")
    );
    assert_eq!(
        Data::from_host(&HostValue::Integer(i64::MAX)).unwrap().amount(),
        Some(i64::MAX as u64)
    );
}

#[test]
fn from_host_encodes_truth_values_and_null() {
    assert_eq!(Data::from_host(&HostValue::Bool(true)).unwrap().bytes(), vec![0xf5]);
    assert_eq!(Data::from_host(&HostValue::Bool(false)).unwrap().bytes(), vec![0xf4]);
    assert_eq!(Data::from_host(&HostValue::Bool(true)), Data::from_json("true"));
    assert_eq!(Data::from_host(&HostValue::Bool(false)), Data::from_json("false"));
    assert_eq!(Data::from_host(&HostValue::Null), Ok(Data::empty()));
}

#[test]
fn new_with_a_value_is_from_host() {
    let value = HostValue::Integer(7);
    assert_eq!(Data::new(Some(&value)), Data::from_host(&value));
    let bad = HostValue::Document("{".to_string());
    assert_eq!(Data::new(Some(&bad)), Err(Error::DecodeError));
}

#[test]
fn data_equality_is_equality_of_values() {
    let a = Data::from_json("{\"owner\":\"A\"}").unwrap();
    let b = Data::from_json("{ \"owner\" : \"A\" }").unwrap();
    let c = Data::from_json("{\"owner\":\"B\"}").unwrap();
    assert_eq!(a, b);
    assert_ne!(a, c);
    assert_eq!(a.clone(), a);
}
