use std::collections::BTreeMap;

use charms_engine::{
    App, Charm, Data, Error, Input, Output, Transaction, TxId, UtxoId, B32, NFT, TOKEN,
};

fn token() -> App {
    App::new(TOKEN, &B32([0x11; 32]), &B32([0x22; 32]))
}

fn nft() -> App {
    App::new(NFT, &B32([0x33; 32]), &B32([0x44; 32]))
}

fn token_text() -> String {
    format!("t/{}/{}", "11".repeat(32), "22".repeat(32))
}

fn nft_text() -> String {
    format!("n/{}/{}", "33".repeat(32), "44".repeat(32))
}

fn utxo_text(index: u32) -> String {
    format!("{}:{}", "ab".repeat(32), index)
}

fn json(text: &str) -> Data {
    Data::from_json(text).unwrap()
}

#[test]
fn from_json_reads_inputs_and_outputs() {
    let text = format!(
        "{{\"ins\": [[\"{}\", {{\"{}\": 10}}], [\"{}\", {{}}]], \"outs\": [{{\"{}\": 10, \"{}\": {{\"owner\": \"A\"}}}}, {{}}]}}",
        utxo_text(0),
        token_text(),
        utxo_text(7),
        token_text(),
        nft_text(),
    );
    let tx = Transaction::from_json(&text).unwrap();
    assert_eq!(tx.num_inputs(), 2);
    assert_eq!(tx.num_outputs(), 2);
    assert_eq!(tx.input(0).unwrap().utxo_id, UtxoId(TxId([0xab; 32]), 0));
    assert_eq!(tx.input(1).unwrap().utxo_id, UtxoId(TxId([0xab; 32]), 7));
    assert_eq!(
        tx.input(0).unwrap().charms,
        vec![Charm { app: token(), data: json("10") }]
    );
    assert!(tx.input(1).unwrap().charms.is_empty());
    assert_eq!(tx.output_data(&token()), vec![&json("10")]);
    assert_eq!(tx.output_data(&nft()), vec![&json("{\"owner\":\"A\"}")]);
    assert!(tx.output(1).unwrap().charms.is_empty());
    assert!(tx.token_amounts_balanced(&token()));
    assert!(!tx.nft_state_preserved(&nft()));
}

#[test]
fn from_json_reads_the_empty_transaction() {
    let tx = Transaction::from_json("{\"ins\":[],\"outs\":[]}").unwrap();
    assert_eq!(tx.num_inputs(), 0);
    assert_eq!(tx.num_outputs(), 0);
    assert_eq!(Ok(tx), Transaction::new(vec![], vec![]));
}

#[test]
fn from_json_passes_over_other_members() {
    let text = "{\"outs\":[{}],\"refs\":[],\"ins\":[],\"version\":15}";
    let tx = Transaction::from_json(text).unwrap();
    assert_eq!(tx.num_inputs(), 0);
    assert_eq!(tx.num_outputs(), 1);
}

#[test]
fn from_json_refuses_what_is_no_document_of_a_transaction() {
    let id = utxo_text(0);
    let app = token_text();
    for text in [
        String::new(),
        "null".to_string(),
        "[]".to_string(),
        "{".to_string(),
        "{}".to_string(),
        "{\"ins\":[]}".to_string(),
        "{\"outs\":[]}".to_string(),
        "{\"ins\":{},\"outs\":[]}".to_string(),
        "{\"ins\":[],\"outs\":{}}".to_string(),
        "{\"ins\":[],\"outs\":[[]]}".to_string(),
        "{\"ins\":[],\"outs\":[1]}".to_string(),
        "{\"ins\":[{}],\"outs\":[]}".to_string(),
        format!("{{\"ins\":[[\"{}\"]],\"outs\":[]}}", id),
        format!("{{\"ins\":[[\"{}\",{{}},{{}}]],\"outs\":[]}}", id),
        format!("{{\"ins\":[[{{}},\"{}\"]],\"outs\":[]}}", id),
        "{\"ins\":[[1,{}]],\"outs\":[]}".to_string(),
        "{\"ins\":[[\"abc:0\",{}]],\"outs\":[]}".to_string(),
        format!("{{\"ins\":[[\"{}\",[]]],\"outs\":[]}}", id),
        "{\"ins\":[],\"outs\":[{\"t/11/22\":1}]}".to_string(),
        format!("{{\"ins\":[],\"outs\":[{{\"{} \":1}}]}}", app),
    ] {
        assert_eq!(
            Transaction::from_json(&text),
            Err(Error::MalformedTransaction),
            "{}",
            text
        );
    }
}

#[test]
fn from_json_refuses_an_entry_with_the_empty_value() {
    let text = format!("{{\"ins\":[],\"outs\":[{{\"{}\":null}}]}}", token_text());
    assert_eq!(Transaction::from_json(&text), Err(Error::MalformedTransaction));
}

#[test]
fn to_json_writes_inputs_and_outputs() {
    let tx = Transaction::new(
        vec![
            Input {
                utxo_id: UtxoId(TxId([0xab; 32]), 3),
                charms: vec![
                    Charm { app: token(), data: json("10") },
                    Charm { app: nft(), data: json("{\"owner\":\"A\"}") },
                ],
            },
            Input { utxo_id: UtxoId(TxId([0xab; 32]), 4), charms: vec![] },
        ],
        vec![
            Output { charms: vec![] },
            Output { charms: vec![Charm { app: token(), data: json("[1,\"x\"]") }] },
        ],
    )
    .unwrap();
    let expected = format!(
        "{{\"ins\":[[\"{}\",{{\"{}\":10,\"{}\":{{\"owner\":\"A\"}}}}],[\"{}\",{{}}]],\"outs\":[{{}},{{\"{}\":[1,\"x\"]}}]}}",
        utxo_text(3),
        token_text(),
        nft_text(),
        utxo_text(4),
        token_text(),
    );
    assert_eq!(tx.to_json(), Ok(expected));
}

#[test]
fn to_json_writes_the_empty_transaction() {
    let tx = Transaction::new(vec![], vec![]).unwrap();
    assert_eq!(tx.to_json(), Ok("{\"ins\":[],\"outs\":[]}".to_string()));
}

#[test]
fn to_json_quotes_the_text_of_an_app() {
    let quote = App::new('"', &B32([0x11; 32]), &B32([0x22; 32]));
    let tx = Transaction::new(
        vec![],
        vec![Output { charms: vec![Charm { app: quote, data: json("1") }] }],
    )
    .unwrap();
    let text = tx.to_json().unwrap();
    assert_eq!(
        text,
        format!("{{\"ins\":[],\"outs\":[{{\"\\\"/{}/{}\":1}}]}}", "11".repeat(32), "22".repeat(32))
    );
    assert_eq!(Transaction::from_json(&text), Ok(tx));
}

#[test]
fn to_json_refuses_data_that_json_cannot_describe() {
    let bytes = Data::from_bytes(&[0x42, 0x01, 0x02]).unwrap();
    let tx = Transaction::new(
        vec![],
        vec![Output { charms: vec![Charm { app: token(), data: bytes }] }],
    )
    .unwrap();
    assert_eq!(tx.to_json(), Err(Error::DeserializeError));
}

#[test]
fn documents_round_trip() {
    let text = format!(
        "{{\"ins\":[[\"{}\",{{\"{}\":{{\"owner\":\"A\"}},\"{}\":5}}]],\"outs\":[{{\"{}\":{{\"owner\":\"A\"}}}},{{\"{}\":5}}]}}",
        utxo_text(1),
        nft_text(),
        token_text(),
        nft_text(),
        token_text(),
    );
    let tx = Transaction::from_json(&text).unwrap();
    assert_eq!(tx.to_json(), Ok(text.clone()));
    assert_eq!(Transaction::from_json(&tx.to_json().unwrap()), Ok(tx));
}

#[test]
fn from_json_reads_what_charms_data_writes() {
    let app = charms_data::App {
        tag: 't',
        identity: charms_data::B32([0x11; 32]),
        vk: charms_data::B32([0x22; 32]),
    };
    let mut charms = BTreeMap::new();
    charms.insert(app, charms_data::Data::from(&10u64));
    let theirs = charms_data::Transaction {
        ins: vec![(charms_data::UtxoId(charms_data::TxId([0xab; 32]), 2), charms.clone())],
        refs: vec![],
        outs: vec![charms, BTreeMap::new()],
        coin_ins: None,
        coin_outs: None,
        prev_txs: BTreeMap::new(),
        app_public_inputs: BTreeMap::new(),
    };
    let text = serde_json::to_string(&theirs).unwrap();
    let tx = Transaction::from_json(&text).unwrap();
    assert_eq!(tx.input(0).unwrap().utxo_id, UtxoId(TxId([0xab; 32]), 2));
    assert_eq!(tx.input_data(&token()), vec![&json("10")]);
    assert_eq!(tx.output_data(&token()), vec![&json("10")]);
    assert_eq!(tx.num_outputs(), 2);
}
