use sp_cli::bytes::{PublicKey, SecretKey};
use sp_cli::network::{Network, Networks};
use sp_cli::payment::{
    addresses_on_network, change_policy, fee_rates, has_fitting_data, plan_payment,
    spend_key_matches,
};
use sp_cli::recipient::{Address, SilentPaymentCode};
use sp_cli::transaction::TxOut;

const NOWHERE: Networks =
    Networks { bitcoin: false, testnet: false, testnet4: false, signet: false, regtest: false };

fn on(network: Network) -> Networks {
    let mut networks = NOWHERE;
    match network {
        Network::Bitcoin => networks.bitcoin = true,
        Network::Testnet => networks.testnet = true,
        Network::Testnet4 => networks.testnet4 = true,
        Network::Signet => networks.signet = true,
        Network::Regtest => networks.regtest = true,
    }
    networks
}

fn address(n: u8) -> Address {
    Address { text: n.to_string(), script_pubkey: vec![n], networks: on(Network::Signet) }
}

fn code(text: &str, network: Network) -> SilentPaymentCode {
    SilentPaymentCode {
        text: text.to_string(),
        placeholder_script: text.as_bytes().to_vec(),
        networks: on(network),
    }
}

fn out(value: u64, script: &[u8]) -> TxOut {
    TxOut { value, script_pubkey: script.to_vec() }
}

#[test]
fn a_payment_has_an_output_for_each_recipient_and_for_the_data() {
    let change = code("change", Network::Signet);
    let alice = code("alice", Network::Signet);
    let plan = plan_payment(
        Some(vec![(address(1), 10), (address(2), 20)]),
        Some(vec![(alice.clone(), 30)]),
        Some("hi".to_string()),
        change.clone(),
        Network::Signet,
    )
    .unwrap()
    .unwrap();
    let expected = vec![
        out(10, &[1]),
        out(20, &[2]),
        out(30, b"alice"),
        out(0, &[0x6a, 2, b'h', b'i']),
    ];
    assert_eq!(plan.outputs, expected);
    assert_eq!(plan.sp_recipients, vec![change, alice]);
}

#[test]
fn there_is_nothing_to_pay_without_recipients() {
    let change = code("change", Network::Signet);
    let data = Some("hi".to_string());
    assert_eq!(plan_payment(None, None, data.clone(), change.clone(), Network::Signet), Ok(None));
    assert_eq!(plan_payment(Some(vec![]), Some(vec![]), data, change, Network::Signet), Ok(None));
}

#[test]
fn a_code_for_another_network_is_refused() {
    let codes = vec![
        (code("alice", Network::Signet), 1),
        (code("bob", Network::Bitcoin), 2),
        (code("carol", Network::Bitcoin), 3),
    ];
    let change = code("change", Network::Signet);
    assert_eq!(
        plan_payment(None, Some(codes), None, change, Network::Signet).unwrap_err(),
        "silent payment code bob cannot be paid from a signet wallet"
    );
}

#[test]
fn every_network_has_its_name() {
    let cases = [
        (Network::Bitcoin, "bitcoin"),
        (Network::Testnet, "testnet"),
        (Network::Testnet4, "testnet4"),
        (Network::Signet, "signet"),
        (Network::Regtest, "regtest"),
    ];
    for (network, name) in cases {
        assert_eq!(network.name(), name);
        for (other, _) in cases {
            assert_eq!(on(network).contains(other), network == other);
        }
    }
}

#[test]
fn addresses_are_checked_against_the_network() {
    let list = Some(vec![(address(1), 1), (address(2), 2)]);
    assert!(addresses_on_network(&list, Network::Signet));
    assert!(!addresses_on_network(&list, Network::Bitcoin));
    assert!(addresses_on_network(&None, Network::Bitcoin));
}

#[test]
fn data_is_pushed_with_its_length() {
    for (n, prefix) in [
        (0, vec![0x6a, 0]),
        (0x4b, vec![0x6a, 0x4b]),
        (0x4c, vec![0x6a, 0x4c, 0x4c]),
        (0xff, vec![0x6a, 0x4c, 0xff]),
        (0x100, vec![0x6a, 0x4d, 0x00, 0x01]),
        (0x1_0203, vec![0x6a, 0x4e, 0x03, 0x02, 0x01, 0x00]),
    ] {
        let text = "a".repeat(n);
        assert!(has_fitting_data(&Some(text.clone())));
        let plan = plan_payment(
            Some(vec![(address(1), 1)]),
            None,
            Some(text.clone()),
            code("change", Network::Signet),
            Network::Signet,
        )
        .unwrap()
        .unwrap();
        let script = &plan.outputs[1].script_pubkey;
        assert_eq!(script[..prefix.len()], prefix[..]);
        assert_eq!(script[prefix.len()..], *text.as_bytes());
    }
    assert!(has_fitting_data(&None));
}

#[test]
fn text_is_carried_in_utf8() {
    let plan = plan_payment(
        Some(vec![(address(1), 1)]),
        None,
        Some("\u{e9}".to_string()),
        code("change", Network::Signet),
        Network::Signet,
    );
    assert_eq!(plan.unwrap().unwrap().outputs[1].script_pubkey, vec![0x6a, 2, 0xc3, 0xa9]);
}

#[test]
fn change_is_one_output_above_the_dust_limit() {
    let mut taproot = vec![3; 34];
    taproot[0] = 0x51;
    taproot[1] = 0x20;
    let policy = change_policy(&taproot, 230);
    assert_eq!(policy.min_value, 330);
    assert_eq!(policy.output_weight, 172);
    assert_eq!(policy.spend_weight, 230);
    assert_eq!(policy.n_outputs, 1);
}

#[test]
fn the_dust_limit_depends_on_the_kind_of_script() {
    let mut p2wpkh = vec![0; 22];
    p2wpkh[1] = 0x14;
    assert_eq!(change_policy(&p2wpkh, 0).min_value, 294);
    let mut p2pkh = vec![0; 25];
    p2pkh[0] = 0x76;
    assert_eq!(change_policy(&p2pkh, 0).min_value, 546);
    assert_eq!(change_policy(&p2pkh, 0).output_weight, 136);
    assert_eq!(change_policy(&vec![0x6a, 1, 1], 0).min_value, 0);
    assert_eq!(change_policy(&vec![1; 0xfd], 0).output_weight, 4 * (8 + 3 + 0xfd));
}

#[test]
fn fee_rates_are_per_thousand_weight_units() {
    assert_eq!(fee_rates(10), (2500, 250));
    assert_eq!(fee_rates(0), (0, 250));
    assert_eq!(fee_rates(u64::MAX / 250).0, u64::MAX / 250 * 250);
}

#[test]
fn the_spend_key_is_compared_with_the_wallet() {
    let mut one = [0; 32];
    one[31] = 1;
    let hex = "0279be667ef9dcbbac55a06295ce870b07029bfcdb2dce28d959f2815b16f81798";
    let mut bytes = [0; 33];
    for i in 0..33 {
        bytes[i] = u8::from_str_radix(&hex[2 * i..2 * i + 2], 16).unwrap();
    }
    assert!(spend_key_matches(&SecretKey { bytes: one }, &PublicKey { bytes }));
    one[31] = 2;
    assert!(!spend_key_matches(&SecretKey { bytes: one }, &PublicKey { bytes }));
    assert!(!spend_key_matches(&SecretKey { bytes: [0; 32] }, &PublicKey { bytes }));
}
