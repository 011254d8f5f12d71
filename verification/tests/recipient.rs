use sp_cli::network::{Network, Networks};
use sp_cli::recipient::{
    address_recipient, parse_recipients, parse_sp_recipients, split_recipient, Address,
    SilentPaymentCode,
};

const P2WPKH: &str = "bc1qw508d6qejxtdg4y5r3zarvary0c5xw7kv8f3t4";

const MAINNET: Networks =
    Networks { bitcoin: true, testnet: false, testnet4: false, signet: false, regtest: false };

const TEST_NETWORKS: Networks =
    Networks { bitcoin: false, testnet: true, testnet4: true, signet: true, regtest: true };

fn code() -> SilentPaymentCode {
    SilentPaymentCode {
        text: "sp1code".to_string(),
        placeholder_script: vec![0x51, 0x20],
        networks: MAINNET,
    }
}

#[test]
fn an_address_and_an_amount_are_read() {
    let (address, value) = parse_recipients(&format!(" {} : 1000 ", P2WPKH)).unwrap();
    assert_eq!(value, 1000);
    assert_eq!(address.script_pubkey[..2], [0x00, 0x14]);
    assert_eq!(address.script_pubkey.len(), 22);
    assert_eq!(address.script_pubkey[2], 0x75);
    assert_eq!(address.networks, MAINNET);
}

#[test]
fn legacy_test_addresses_belong_to_every_test_network() {
    let (address, value) = parse_recipients("2N83imGV3gPwBzKJQvWJ7cRUY2SpUyU6A5e:0").unwrap();
    assert_eq!(value, 0);
    assert_eq!(address.networks, TEST_NETWORKS);
    assert_eq!(address.clone().require_network(Network::Bitcoin), None);
    assert_eq!(address.clone().require_network(Network::Regtest), Some(address.script_pubkey));
}

#[test]
fn segwit_test_addresses_tell_regtest_apart() {
    let (address, _) =
        parse_recipients("bcrt1q2nfxmhd4n3c8834pj72xagvyr9gl57n5r94fsl:1").unwrap();
    assert!(address.networks.regtest);
    assert!(!address.networks.signet && !address.networks.testnet && !address.networks.bitcoin);
}

#[test]
fn the_text_of_an_address_and_an_amount_are_read_back() {
    let texts = [
        P2WPKH,
        "1A1zP1eP5QGefi2DMPTfTL5SLmv7DivfNa",
        "2N83imGV3gPwBzKJQvWJ7cRUY2SpUyU6A5e",
        "tb1qw508d6qejxtdg4y5r3zarvary0c5xw7kxpjzsx",
        "bcrt1q2nfxmhd4n3c8834pj72xagvyr9gl57n5r94fsl",
    ];
    for text in texts {
        let (address, _) = parse_recipients(&format!("{}:1", text)).unwrap();
        assert_eq!(address.text, text);
        for value in [0, 1, 2_100_000_000_000_001, u64::MAX] {
            let s = format!("{}:{}", address.text, value);
            assert_eq!(parse_recipients(&s), Ok((address.clone(), value)));
        }
    }
    let (upper, _) = parse_recipients(&format!("{}:1", P2WPKH.to_uppercase())).unwrap();
    assert_eq!(upper.text, P2WPKH);
}

#[test]
fn blanks_around_key_and_value_do_not_matter() {
    let plain = parse_recipients(&format!("{}:7", P2WPKH)).unwrap();
    for w in [" ", "\t\n", "\u{3000} \u{a0}", ""] {
        let spaced = format!("{}{}{}:{}7{}", w, P2WPKH, w, w, w);
        assert_eq!(parse_recipients(&spaced), Ok(plain.clone()));
        let spaced = format!("{}sp1code{}:{}+7{}", w, w, w, w);
        assert_eq!(parse_sp_recipients(&spaced, Some(code())), Ok((code(), 7)));
        assert!(parse_recipients(&format!("{}{}{}:{}7 7{}", w, P2WPKH, w, w, w)).is_err());
    }
}

#[test]
fn a_recipient_needs_exactly_one_colon() {
    for s in ["", "abc", "a:b:c", "::"] {
        let message = format!("Invalid format '{}'. Expected 'key:value'", s);
        assert_eq!(parse_recipients(s).unwrap_err(), message);
        assert_eq!(parse_sp_recipients(s, Some(code())).unwrap_err(), message);
        assert_eq!(split_recipient(s).unwrap_err(), message);
    }
}

#[test]
fn a_wrong_address_is_refused_before_the_amount() {
    assert_eq!(parse_recipients(" nobody :x").unwrap_err(), "Invalid address: nobody");
    assert_eq!(parse_recipients(":1").unwrap_err(), "Invalid address: ");
}

#[test]
fn a_wrong_amount_is_shown_as_it_was_given() {
    let s = format!("{}: 12x", P2WPKH);
    assert_eq!(
        parse_recipients(&s).unwrap_err(),
        format!("Invalid number ' 12x' for key '{}'", P2WPKH)
    );
}

#[test]
fn a_given_address_decides_over_its_key() {
    let address = Address { text: "a".to_string(), script_pubkey: vec![1], networks: MAINNET };
    assert_eq!(address_recipient("key", " 5", Some(address.clone())), Ok((address, 5)));
    assert_eq!(address_recipient("key", "5", None), Err("Invalid address: key".to_string()));
}

#[test]
fn a_code_and_an_amount_are_read() {
    assert_eq!(split_recipient(" sp1code :77"), Ok(("sp1code".to_string(), "77".to_string())));
    assert_eq!(parse_sp_recipients(" sp1code :77", Some(code())), Ok((code(), 77)));
    assert_eq!(
        parse_sp_recipients("sp1bad:77", None).unwrap_err(),
        "Invalid silent payment address: sp1bad"
    );
    assert_eq!(
        parse_sp_recipients("SP1CODE: -1", Some(code())).unwrap_err(),
        "Invalid number ' -1' for key 'sp1code'"
    );
}
