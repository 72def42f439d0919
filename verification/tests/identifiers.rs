use charms_engine::order::{compare, Order};
use charms_engine::{Error, TxId, UtxoId, B32};

fn counting() -> [u8; 32] {
    let mut bytes = [0u8; 32];
    for (i, b) in bytes.iter_mut().enumerate() {
        *b = i as u8;
    }
    bytes
}

#[test]
fn b32_new_takes_32_bytes() {
    let bytes = counting();
    let v = B32::new(&bytes).unwrap();
    assert_eq!(v.to_bytes(), bytes);
    assert_eq!(v, B32(bytes));
}

#[test]
fn b32_new_refuses_other_lengths() {
    assert_eq!(B32::new(&[0u8; 31]), Err(Error::InvalidLength));
    assert_eq!(B32::new(&[0u8; 33]), Err(Error::InvalidLength));
    assert_eq!(B32::new(&[]), Err(Error::InvalidLength));
}

#[test]
fn b32_text_is_lower_case_hex() {
    let v = B32(counting());
    assert_eq!(
        v.to_string(),
        "000102030405060708090a0b0c0d0e0f101112131415161718191a1b1c1d1e1f"
    );
    let mut top = [0u8; 32];
    top[0] = 0xff;
    top[31] = 0xa5;
    assert_eq!(
        B32(top).to_string(),
        "ff000000000000000000000000000000000000000000000000000000000000a5"
    );
}

#[test]
fn b32_text_round_trip() {
    let v = B32(counting());
    assert_eq!(B32::from_str(&v.to_string()), Ok(v));
}

#[test]
fn b32_malformed_text() {
    assert_eq!(B32::from_str(""), Err(Error::InvalidEncoding));
    assert_eq!(B32::from_str(&"0".repeat(63)), Err(Error::InvalidEncoding));
    assert_eq!(B32::from_str(&"0".repeat(65)), Err(Error::InvalidEncoding));
    assert_eq!(B32::from_str(&"g".repeat(64)), Err(Error::InvalidEncoding));
    assert_eq!(B32::from_str(&"A".repeat(64)), Err(Error::InvalidEncoding));
    assert_eq!(B32::from_str(&"é".repeat(32)), Err(Error::InvalidEncoding));
}

#[test]
fn txid_new_and_bytes() {
    let bytes = counting();
    let id = TxId::new(&bytes).unwrap();
    assert_eq!(id.to_bytes(), bytes);
    assert_eq!(TxId::new(&bytes[..31]), Err(Error::InvalidLength));
}

#[test]
fn txid_text_shows_the_bytes_last_first() {
    let mut bytes = [0u8; 32];
    bytes[0] = 1;
    assert_eq!(
        TxId(bytes).to_string(),
        "0000000000000000000000000000000000000000000000000000000000000001"
    );
    assert_eq!(
        TxId(counting()).to_string(),
        "1f1e1d1c1b1a191817161514131211100f0e0d0c0b0a09080706050403020100"
    );
}

#[test]
fn txid_text_round_trip() {
    let text = "92077a14998b31367efeec5203a00f1080facdb270cbf055f09b66ae0a273c7d";
    let id = TxId::from_str(text).unwrap();
    assert_eq!(id.to_string(), text);
    assert_eq!(id.to_bytes()[31], 0x92);
    assert_eq!(id.to_bytes()[0], 0x7d);
}

#[test]
fn txid_malformed_text() {
    assert_eq!(TxId::from_str("92077a"), Err(Error::InvalidEncoding));
    assert_eq!(TxId::from_str(&"x".repeat(64)), Err(Error::InvalidEncoding));
}

#[test]
fn utxo_id_binary_form() {
    let id = UtxoId::new(&TxId(counting()), 0x0403_0201);
    let bytes = id.to_bytes();
    assert_eq!(&bytes[..32], &counting()[..]);
    assert_eq!(&bytes[32..], &[1u8, 2, 3, 4][..]);
    assert_eq!(UtxoId::from_bytes(bytes), id);
    assert_eq!(UtxoId::from_bytes(bytes).index(), 0x0403_0201);
    assert_eq!(UtxoId::from_bytes(bytes).txid(), TxId(counting()));
}

#[test]
fn utxo_id_binary_form_of_the_largest_index() {
    let id = UtxoId(TxId([0xff; 32]), u32::MAX);
    assert_eq!(id.to_bytes(), [0xffu8; 36]);
    assert_eq!(UtxoId::from_bytes([0xff; 36]), id);
}

#[test]
fn utxo_id_text() {
    let text = "92077a14998b31367efeec5203a00f1080facdb270cbf055f09b66ae0a273c7d:3";
    let id = UtxoId::from_str(text).unwrap();
    assert_eq!(id.index(), 3);
    assert_eq!(
        id.txid().to_string(),
        "92077a14998b31367efeec5203a00f1080facdb270cbf055f09b66ae0a273c7d"
    );
    assert_eq!(id.to_string(), text);
}

#[test]
fn utxo_id_text_of_indexes() {
    let txid = TxId([0u8; 32]);
    let zeros = "0".repeat(64);
    for index in [0u32, 7, 10, 99, 100, 65535, 1_000_000, u32::MAX] {
        let id = UtxoId(txid, index);
        assert_eq!(id.to_string(), format!("{}:{}", zeros, index));
        assert_eq!(UtxoId::from_str(&id.to_string()), Ok(id));
    }
}

#[test]
fn utxo_id_malformed_text() {
    let zeros = "0".repeat(64);
    for tail in ["", ":", ":-1", ":+1", ":01", ":00", ":4294967296", ":1a", ":1:2", " :1", ":1 "] {
        assert_eq!(
            UtxoId::from_str(&format!("{}{}", zeros, tail)),
            Err(Error::InvalidEncoding),
            "{}",
            tail
        );
    }
    assert_eq!(UtxoId::from_str("abc:1"), Err(Error::InvalidEncoding));
    assert_eq!(
        UtxoId::from_str(&format!("{}:1", "0".repeat(63))),
        Err(Error::InvalidEncoding)
    );
    assert_eq!(
        UtxoId::from_str(&format!("{}:4294967295", zeros)),
        Ok(UtxoId(TxId([0u8; 32]), u32::MAX))
    );
}

#[test]
fn the_order_of_byte_strings() {
    assert_eq!(compare(&[], &[]), Order::Equal);
    assert_eq!(compare(&[], &[0]), Order::Less);
    assert_eq!(compare(&[0], &[]), Order::Greater);
    assert_eq!(compare(&[1, 2, 3], &[1, 2, 3]), Order::Equal);
    assert_eq!(compare(&[1, 2, 3], &[1, 3, 0]), Order::Less);
    assert_eq!(compare(&[2], &[1, 255]), Order::Greater);
    assert_eq!(compare(&[1, 2], &[1, 2, 0]), Order::Less);
}

#[test]
fn the_two_orders_of_an_identifier_agree() {
    let mut values = Vec::new();
    for first in [0u8, 1, 200] {
        for last in [0u8, 7, 255] {
            let mut bytes = [9u8; 32];
            bytes[0] = first;
            bytes[31] = last;
            values.push(bytes);
        }
    }
    for a in &values {
        for b in &values {
            assert_eq!(B32(*a).partial_cmp(&B32(*b)), Some(B32(*a).cmp(&B32(*b))));
            assert_eq!(B32(*a).partial_cmp(&B32(*b)), Some(a.cmp(b)));
            assert_eq!(TxId(*a).partial_cmp(&TxId(*b)), Some(TxId(*a).cmp(&TxId(*b))));
            for (i, j) in [(0u32, 0u32), (0, 1), (1, 0), (u32::MAX, 5)] {
                let x = UtxoId(TxId(*a), i);
                let y = UtxoId(TxId(*b), j);
                assert_eq!(x.partial_cmp(&y), Some(x.cmp(&y)));
                assert_eq!(x.partial_cmp(&y), Some((a, i).cmp(&(b, j))));
            }
        }
    }
}

#[test]
fn identifiers_are_ordered_by_their_bytes() {
    let mut low = [0u8; 32];
    let mut high = [0u8; 32];
    low[31] = 9;
    high[0] = 1;
    assert!(B32(low) < B32(high));
    assert!(TxId(low) < TxId(high));
    assert!(UtxoId(TxId(low), 5) < UtxoId(TxId(high), 0));
    assert!(UtxoId(TxId(low), 0) < UtxoId(TxId(low), 1));
}

#[test]
fn identifier_forms_agree_with_charms_data() {
    let bytes = counting();
    assert_eq!(B32(bytes).to_string(), charms_data::B32(bytes).to_string());
    assert_eq!(TxId(bytes).to_string(), charms_data::TxId(bytes).to_string());
    for index in [0u32, 1, 255, 256, 65536, 0x0102_0304, u32::MAX] {
        let ours = UtxoId(TxId(bytes), index);
        let theirs = charms_data::UtxoId(charms_data::TxId(bytes), index);
        assert_eq!(ours.to_string(), theirs.to_string());
        assert_eq!(ours.to_bytes(), theirs.to_bytes());
    }
}
