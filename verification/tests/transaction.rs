use sp_cli::block::{
    assemble_block, block_from_parts, BlockError, FetchedTx, TxFault,
};
use sp_cli::bytes::{BlockHash, Txid};
use sp_cli::frigate::DUMMY_COINBASE;
use sp_cli::prevouts::{Lookup, PrevoutLookup};
use sp_cli::transaction::{
    is_p2tr, transaction_from_hex, transaction_source, OutPoint, Transaction, TxError, TxOut,
    TxSource,
};

const GENESIS_TX: &str = "01000000010000000000000000000000000000000000000000000000000000000000000000ffffffff4d04ffff001d0104455468652054696d65732030332f4a616e2f32303039204368616e63656c6c6f72206f6e206272696e6b206f66207365636f6e64206261696c6f757420666f722062616e6b73ffffffff0100f2052a01000000434104678afdb0fe5548271967f1a67130b7105cd6a828e03909a67962e0ea1f61deb649f6bc3f4cef38c4f35504e51ec112de5c384df7ba0b8d578a4c702b6bf11d5fac00000000";

const GENESIS_TXID: &str = "4a5e1e4baab89f3a32518a88c31bc87f618f76673e2cc77ab2127b7afdeda33b";

const GENESIS_HEADER: &str = "0100000000000000000000000000000000000000000000000000000000000000000000003ba3edfd7a7b12b27ac72c3e67768f617fc81bc3888a51323a9fb8aa4b1e5e4a29ab5f49ffff001d1dac2b7c";

const GENESIS_HASH: &str = "000000000019d6689c085ae165831e934ff763ae46a2a6c172b3f1b60a8ce26f";

fn bytes(hex: &str) -> Vec<u8> {
    (0..hex.len() / 2).map(|i| u8::from_str_radix(&hex[2 * i..2 * i + 2], 16).unwrap()).collect()
}

fn reversed(hex: &str) -> Vec<u8> {
    let mut b = bytes(hex);
    b.reverse();
    b
}

fn fetched(hex: &str, block_hash: &str) -> FetchedTx {
    FetchedTx { hex: hex.to_string(), block_hash: block_hash.to_string() }
}

fn reasons(texts: &[&str]) -> Vec<String> {
    texts.iter().map(|text| text.to_string()).collect()
}

fn sample(n: u8, input: Vec<(u8, u32)>, values: Vec<u64>) -> Transaction {
    Transaction {
        txid: Txid { bytes: [n; 32] },
        input: input
            .into_iter()
            .map(|(t, vout)| OutPoint { txid: Txid { bytes: [t; 32] }, vout })
            .collect(),
        output: values.into_iter().map(|value| TxOut { value, script_pubkey: vec![n] }).collect(),
        raw: vec![n],
    }
}

#[test]
fn a_transaction_is_read_from_hexadecimal() {
    let tx = transaction_from_hex(GENESIS_TX).unwrap();
    assert_eq!(tx.txid.bytes[..], reversed(GENESIS_TXID)[..]);
    assert_eq!(tx.input.len(), 1);
    assert_eq!(tx.input[0], OutPoint { txid: Txid { bytes: [0; 32] }, vout: u32::MAX });
    assert_eq!(tx.output.len(), 1);
    assert_eq!(tx.output[0].value, 5_000_000_000);
    assert_eq!(tx.output[0].script_pubkey.len(), 67);
    assert_eq!(tx.raw, bytes(GENESIS_TX));
    assert_eq!(transaction_from_hex(&GENESIS_TX.to_uppercase()), Ok(tx));
}

#[test]
fn bytes_after_a_transaction_are_left_over() {
    let longer = format!("{}beef", GENESIS_TX);
    assert_eq!(transaction_from_hex(&longer), transaction_from_hex(GENESIS_TX));
}

#[test]
fn a_text_that_is_no_transaction_is_refused() {
    let odd = reasons(&["odd length, failed to create bytes from hex", "odd hex string length 1"]);
    assert_eq!(transaction_from_hex("0"), Err(TxError::Hex(odd.clone())));
    let outer = "invalid char, failed to create bytes from hex";
    let bad = reasons(&[outer, "invalid hex char 122"]);
    assert_eq!(transaction_from_hex("0azx"), Err(TxError::Hex(bad)));
    let wide = reasons(&[outer, "invalid hex char 195"]);
    assert_eq!(transaction_from_hex("\u{e9}"), Err(TxError::Hex(wide)));
    let flag = reasons(&["unsupported segwit version: 2"]);
    assert_eq!(transaction_from_hex("010000000002"), Err(TxError::Decode(flag.clone())));
    assert_eq!(TxError::Decode(flag.clone()).messages(), flag);
    assert_eq!(TxError::Hex(odd.clone()).messages(), odd);
    match transaction_from_hex("00") {
        Err(TxError::Decode(short)) => {
            assert_eq!(short.len(), 2);
            assert_eq!(short[0], "IO error");
        }
        _ => panic!("the bytes are no transaction"),
    }
}

#[test]
fn a_given_transaction_comes_before_an_id() {
    let id = Txid { bytes: [1; 32] };
    let hex = Some("00".to_string());
    assert_eq!(transaction_source(hex.clone(), Some(id)), Ok(TxSource::Hex("00".to_string())));
    assert_eq!(transaction_source(hex, None), Ok(TxSource::Hex("00".to_string())));
    assert_eq!(transaction_source(None, Some(id)), Ok(TxSource::Node(id)));
    assert_eq!(transaction_source(None, None), Err(TxError::Missing));
    assert_eq!(
        TxError::Missing.messages(),
        reasons(&["Should provide a txid to request tx or the serialized tx"])
    );
}

#[test]
fn taproot_scripts_are_told_apart() {
    let mut script = vec![0; 34];
    script[0] = 0x51;
    script[1] = 0x20;
    assert!(is_p2tr(&script));
    for i in 0..2 {
        let mut other = script.clone();
        other[i] = 0;
        assert!(!is_p2tr(&other));
    }
    assert!(!is_p2tr(&script[..33].to_vec()));
    assert!(!is_p2tr(&vec![]));
}

#[test]
fn spent_outputs_are_looked_up_in_the_order_of_the_inputs() {
    let tx = sample(9, vec![(1, 1), (2, 0)], vec![]);
    let mut lookup = PrevoutLookup::new(&tx);
    assert!(matches!(lookup.next(), Lookup::Fetch(Txid { bytes }) if bytes == [1; 32]));
    lookup.supply(Some(&sample(1, vec![], vec![10, 11])));
    assert!(matches!(lookup.next(), Lookup::Fetch(Txid { bytes }) if bytes == [2; 32]));
    lookup.supply(Some(&sample(2, vec![], vec![20])));
    assert!(matches!(lookup.next(), Lookup::Complete));
    let expected = vec![
        TxOut { value: 11, script_pubkey: vec![1] },
        TxOut { value: 20, script_pubkey: vec![2] },
    ];
    assert_eq!(lookup.finish(), Some(expected));
}

#[test]
fn a_lookup_fails_with_the_first_output_that_is_missing() {
    let tx = sample(9, vec![(1, 2), (2, 0)], vec![]);
    let mut lookup = PrevoutLookup::new(&tx);
    lookup.supply(Some(&sample(1, vec![], vec![10, 11])));
    assert!(matches!(lookup.next(), Lookup::Failed));
    assert_eq!(lookup.finish(), None);
    let mut lookup = PrevoutLookup::new(&tx);
    lookup.supply(None);
    assert!(matches!(lookup.next(), Lookup::Failed));
    assert_eq!(PrevoutLookup::new(&tx).finish(), None);
    assert_eq!(PrevoutLookup::new(&sample(9, vec![], vec![])).finish(), Some(vec![]));
}

#[test]
fn the_replies_of_a_node_are_decoded_for_a_lookup() {
    let raw = bytes(GENESIS_TX);
    let tx = sample(9, vec![(1, 0)], vec![]);
    let mut lookup = PrevoutLookup::new(&tx);
    lookup.supply_raw(Some(&raw));
    assert!(matches!(lookup.next(), Lookup::Complete));
    let outputs = lookup.finish().unwrap();
    assert_eq!(outputs, transaction_from_hex(GENESIS_TX).unwrap().output);
    assert_eq!(outputs[0].value, 5_000_000_000);
    let mut longer = raw.clone();
    longer.push(0);
    for reply in [None, Some(&raw[1..]), Some(&longer[..]), Some(&[][..])] {
        let mut lookup = PrevoutLookup::new(&tx);
        lookup.supply_raw(reply);
        assert!(matches!(lookup.next(), Lookup::Failed));
        assert_eq!(lookup.finish(), None);
    }
    let mut lookup = PrevoutLookup::new(&sample(9, vec![(1, 1)], vec![]));
    lookup.supply_raw(Some(&raw));
    assert!(matches!(lookup.next(), Lookup::Failed));
}

#[test]
fn any_eighty_bytes_are_a_header() {
    for byte in ["00", "7f", "ff"] {
        let header = byte.repeat(80);
        let block = assemble_block(&header, &vec![]).unwrap();
        assert_eq!(block.header, bytes(&header));
    }
    assert_eq!(assemble_block(&"00".repeat(79), &vec![]), Err(BlockError::Header));
}

#[test]
fn a_block_is_put_together_from_its_header_and_transactions() {
    let other_hash = "00".repeat(31) + "01";
    let txs = vec![fetched(GENESIS_TX, &other_hash), fetched(GENESIS_TX, GENESIS_HASH)];
    let block = assemble_block(GENESIS_HEADER, &txs).unwrap();
    assert_eq!(block.header, bytes(GENESIS_HEADER));
    assert_eq!(block.txdata.len(), 3);
    assert_eq!(block.txdata[0], transaction_from_hex(DUMMY_COINBASE).unwrap());
    assert_eq!(block.txdata[1], transaction_from_hex(GENESIS_TX).unwrap());
    assert_eq!(block.txdata[2], block.txdata[1]);
    assert_eq!(block.hash.bytes[..], reversed(GENESIS_HASH)[..]);
}

#[test]
fn a_block_without_transactions_of_interest_has_no_hash() {
    let block = assemble_block(GENESIS_HEADER, &vec![]).unwrap();
    assert_eq!(block.txdata.len(), 1);
    assert_eq!(block.hash, BlockHash { bytes: [0; 32] });
}

#[test]
fn a_block_is_refused_for_the_first_fault() {
    let good = fetched(GENESIS_TX, GENESIS_HASH);
    let assemble = |txs: Vec<FetchedTx>| assemble_block(GENESIS_HEADER, &txs);
    assert_eq!(assemble_block("xy", &vec![]), Err(BlockError::HeaderHex));
    assert_eq!(assemble_block(&GENESIS_HEADER[2..], &vec![]), Err(BlockError::Header));
    assert_eq!(
        assemble(vec![good.clone(), fetched("0", GENESIS_HASH)]),
        Err(BlockError::Transaction(1, TxFault::Hex))
    );
    let longer = format!("{}00", GENESIS_TX);
    assert_eq!(
        assemble(vec![fetched(&longer, "x"), good.clone()]),
        Err(BlockError::Transaction(0, TxFault::Decode))
    );
    assert_eq!(
        assemble(vec![good.clone(), good, fetched(GENESIS_TX, "abc")]),
        Err(BlockError::Transaction(2, TxFault::BlockHash))
    );
}

#[test]
fn the_parts_of_a_block_keep_their_order() {
    let hashes = vec![BlockHash { bytes: [1; 32] }, BlockHash { bytes: [2; 32] }];
    let parts = vec![sample(4, vec![], vec![]), sample(5, vec![], vec![])];
    let block = block_from_parts(vec![7], sample(3, vec![], vec![]), parts, &hashes);
    assert_eq!(block.header, vec![7]);
    assert_eq!(block.txdata.iter().map(|t| t.raw[0]).collect::<Vec<u8>>(), vec![3, 4, 5]);
    assert_eq!(block.hash, hashes[1]);
}
