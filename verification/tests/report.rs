use sp_cli::bytes::{BlockHash, PublicKey, Txid};
use sp_cli::chain::BlockId;
use sp_cli::command::{
    db_path, init_or_load, load_outcome, loaded, wallet_for_key, wallet_for_seed, Commands,
    MasterKey, SpArgs,
    Start,
};
use sp_cli::network::Network;
use sp_cli::report::{
    birthday_report, code_report, descriptor_report, print_balances, transaction_report, Balance,
    DerivedOutput,
};
use sp_cli::rpc::{RpcArgs, RpcAuth};

fn birthday() -> BlockId {
    let mut bytes = [0; 32];
    bytes[0] = 0xab;
    BlockId { height: 9, hash: BlockHash { bytes } }
}

fn rpc(user: Option<&str>, password: Option<&str>) -> RpcArgs {
    RpcArgs {
        url: "127.0.0.1:8332".to_string(),
        rpc_user: user.map(|s| s.to_string()),
        rpc_password: password.map(|s| s.to_string()),
    }
}

#[test]
fn a_derived_output_is_reported_in_full() {
    let mut script_pubkey = vec![0x11; 34];
    script_pubkey[0] = 0x51;
    script_pubkey[1] = 0x20;
    let mut txid = [0; 32];
    txid[31] = 0xfe;
    let mut output = DerivedOutput {
        txid: Txid { bytes: txid },
        script_pubkey,
        partial_secret: PublicKey { bytes: [0x02; 33] },
        ecdh_shared_secret: PublicKey { bytes: [0x03; 33] },
        order: 12,
        label: Some(PublicKey { bytes: [0xa0; 33] }),
    };
    let expected = format!(
        "{{\n  \"ecdh_shared_secret\": \"{}\",\n  \"label\": \"{}\",\n  \"order\": \"12\",\n  \
         \"partial_secret\": \"{}\",\n  \"script_pubkey\": \"OP_PUSHNUM_1 OP_PUSHBYTES_32 {}\",\n  \
         \"script_pubkey_hex\": \"5120{}\",\n  \"txid\": \"fe{}\"\n}}",
        "03".repeat(33),
        "a0".repeat(33),
        "02".repeat(33),
        "11".repeat(32),
        "11".repeat(32),
        "00".repeat(31),
    );
    assert_eq!(output.report(), expected);
    output.label = None;
    assert!(!output.report().contains("label"));
    assert!(output.report_with("words".to_string()).contains("\"script_pubkey\": \"words\""));
}

#[test]
fn a_code_is_reported_if_there_is_one() {
    assert_eq!(code_report(None), None);
    assert_eq!(
        code_report(Some("sp1\"q".to_string())).unwrap(),
        "{\n  \"silent_payment_code\": \"sp1\\\"q\"\n}"
    );
}

#[test]
fn a_birthday_is_reported_by_height_and_hash() {
    let expected =
        format!("{{\n  \"hash\": \"{}ab\",\n  \"height\": 9\n}}", "00".repeat(31));
    assert_eq!(birthday_report(&birthday()), expected);
}

#[test]
fn a_transaction_is_reported_in_hexadecimal() {
    assert_eq!(transaction_report(&vec![0, 0xff, 0x1a]), "{\n  \"tx\": \"00ff1a\"\n}");
    assert_eq!(transaction_report(&vec![]), "{\n  \"tx\": \"\"\n}");
}

#[test]
fn balances_are_reported_with_their_totals() {
    let balance =
        Balance { immature: 1, trusted_pending: 20, untrusted_pending: 300, confirmed: 4000 };
    assert!(balance.has_totals());
    let (confirmed, unconfirmed) = balance.reports();
    assert_eq!(
        confirmed,
        "{\n  \"confirmed\": {\n    \"immature\": 1,\n    \"spendable\": 4000,\n    \"total\": 4001\n  }\n}"
    );
    assert_eq!(
        unconfirmed,
        "{\n  \"unconfirmed\": {\n    \"total\": 320,\n    \"trusted\": 20,\n    \"untrusted\": 300\n  }\n}"
    );
    let huge = Balance { confirmed: u64::MAX, ..balance };
    assert!(!huge.has_totals());
    let huge = Balance { untrusted_pending: u64::MAX, ..balance };
    assert!(!huge.has_totals());
}

#[test]
fn of_two_amounts_with_one_name_the_later_one_counts() {
    assert_eq!(print_balances("t", &vec![("a", 1), ("a", 2)]), "{\n  \"t\": {\n    \"a\": 2\n  }\n}");
    assert_eq!(print_balances("t", &vec![]), "{\n  \"t\": {}\n}");
}

#[test]
fn a_wallet_is_made_from_a_key() {
    let key = MasterKey { fingerprint: "f".to_string(), xprv: "x".to_string() };
    let genesis = BlockHash { bytes: [4; 32] };
    let wallet = wallet_for_key(&key, Network::Signet, birthday(), Some(genesis));
    assert_eq!(wallet.tr_xprv, "tr([f]x)");
    assert_eq!(wallet.report, "{\n  \"tr_xprv\": \"tr([f]x)\"\n}");
    assert_eq!(wallet.report, descriptor_report("tr([f]x)"));
    assert_eq!(wallet.birthday, birthday());
    assert_eq!(wallet.genesis, genesis);
    assert_eq!(wallet.network, Network::Signet);
}

#[test]
fn a_seed_gives_the_master_key_of_the_network() {
    let hex = "3ddd5602285899a946114506157c7997e5444528f3003f6134712147db19b678";
    let mut seed = [0; 32];
    for i in 0..32 {
        seed[i] = u8::from_str_radix(&hex[2 * i..2 * i + 2], 16).unwrap();
    }
    let main = wallet_for_seed(&seed, Network::Bitcoin, birthday(), None).unwrap();
    assert!(main.tr_xprv.ends_with("]xprv9s21ZrQH143K48vGoLGRPxgo2JNkJ3J3fqkirQC2zVdk5Dgd5w14S7fRDyHH4dWNHUgkvsvNDCkvAwcSHNAQwhwgNMgZhLtQC63zxwhQmRv)"));
    assert!(main.tr_xprv.starts_with("tr(["));
    assert_eq!(main.tr_xprv.find(']'), Some(12));
    let test = wallet_for_seed(&seed, Network::Regtest, birthday(), None).unwrap();
    assert!(test.tr_xprv.contains("]tprv"));
    assert_eq!(test.tr_xprv[..13], main.tr_xprv[..13]);
}

#[test]
fn only_the_create_command_makes_a_wallet() {
    let create = || SpArgs {
        command: Commands::Create {
            network: Network::Signet,
            birthday_height: 9,
            birthday_hash: birthday().hash,
            genesis_hash: None,
        },
    };
    let made: Vec<String> = (0..2)
        .map(|_| match init_or_load(create()) {
            Ok(Start::Create(wallet)) => {
                assert_eq!(wallet.birthday, birthday());
                wallet.tr_xprv
            }
            _ => panic!("a wallet is to be made"),
        })
        .collect();
    assert_ne!(made[0], made[1]);
    for command in [Commands::Balance, Commands::Birthday, Commands::Code { label: Some(1) }] {
        let args = SpArgs { command };
        assert_eq!(init_or_load(args.clone()), Ok(Start::Load(args)));
    }
}

#[test]
fn a_run_needs_a_wallet_in_the_store() {
    let args = SpArgs { command: Commands::Balance };
    let init = loaded(args.clone(), Some(5), "db").unwrap();
    assert_eq!((init.args, init.wallet, init.db), (args.clone(), 5, "db"));
    assert_eq!(loaded::<u8, u8>(args.clone(), None, 1).unwrap_err(), "");
    let init = load_outcome(args.clone(), Some((Some(5), "db"))).unwrap();
    assert_eq!((init.args, init.wallet, init.db), (args.clone(), 5, "db"));
    assert_eq!(load_outcome::<u8, u8>(args.clone(), Some((None, 1))).unwrap_err(), "");
    assert_eq!(load_outcome::<u8, u8>(args, None).unwrap_err(), "could not open file store");
}

#[test]
fn the_store_has_a_path_of_its_own() {
    assert_eq!(db_path(None), ".bdk_example_silentpayments.db");
    assert_eq!(db_path(Some("here".to_string())), "here");
}

#[test]
fn credentials_are_given_in_pairs() {
    assert_eq!(rpc(None, None).missing_credential(), None);
    assert_eq!(rpc(None, None).new_client(), ("127.0.0.1:8332".to_string(), RpcAuth::Anonymous));
    let both = rpc(Some("u"), Some("p"));
    assert_eq!(both.missing_credential(), None);
    assert_eq!(both.new_client().1, RpcAuth::UserPass("u".to_string(), "p".to_string()));
    assert_eq!(rpc(Some("u"), None).missing_credential(), Some("rpc auth: missing rpc_pass"));
    assert_eq!(rpc(None, Some("p")).missing_credential(), Some("rpc auth: missing rpc_user"));
}
