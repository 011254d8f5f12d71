use sp_cli::bytemap::ByteMap;
use sp_cli::bytes::{BlockHash, PublicKey, SecretKey, Txid};
use sp_cli::chain::BlockId;
use sp_cli::frigate::{FrigateError, History, UnsubscribeRequest};
use sp_cli::scan::{
    filter_block, filter_step, frigate_step, subscription, FilterAction, ScanAction, ScanSchedule,
    ScanUpdate, StreamEvent, TweakEvent,
};
use sp_cli::secrets::{
    block_secrets, confirmed_secrets, find_tweak, group_by_height, node_block_secrets, TweakMap,
};
use sp_cli::time::Duration;
use sp_cli::transaction::{Transaction, TxOut};

fn key(n: u8) -> PublicKey {
    PublicKey { bytes: [n; 33] }
}

fn txid(n: u8) -> Txid {
    Txid { bytes: [n; 32] }
}

fn taproot(n: u8) -> [u8; 34] {
    let mut script = [n; 34];
    script[0] = 0x51;
    script[1] = 0x20;
    script
}

fn tx(n: u8, scripts: Vec<Vec<u8>>) -> Transaction {
    let output = scripts.into_iter().map(|script_pubkey| TxOut { value: 1, script_pubkey }).collect();
    Transaction { txid: txid(n), input: vec![], output, raw: vec![] }
}

fn entry(height: u32, n: u8, k: u8) -> History {
    History { height, tx_hash: txid(n), tweak_key: key(k) }
}

fn secs(secs: u64, nanos: u32) -> Duration {
    Duration { secs, nanos }
}

#[test]
fn a_map_keeps_one_value_for_each_key() {
    let mut map: ByteMap<2, u8> = ByteMap::new();
    assert_eq!(map.get(&[1, 1]), None);
    map.insert([1, 1], 5);
    map.insert([1, 2], 6);
    map.insert([1, 1], 7);
    assert_eq!(map.get(&[1, 1]), Some(&7));
    assert_eq!(map.get(&[1, 2]), Some(&6));
    assert_eq!(map.get(&[1]), None);
    assert_eq!(map.entries().len(), 2);
}

#[test]
fn transactions_with_a_known_taproot_script_have_a_secret() {
    let mut tweaks: TweakMap = ByteMap::new();
    tweaks.insert(taproot(7), key(1));
    tweaks.insert(taproot(8), key(2));
    let mut other = taproot(7);
    other[0] = 0;
    tweaks.insert(other, key(3));
    let txs = vec![
        tx(1, vec![taproot(9).to_vec()]),
        tx(2, vec![vec![], taproot(9).to_vec(), taproot(8).to_vec(), taproot(7).to_vec()]),
        tx(3, vec![other.to_vec()]),
        tx(4, vec![taproot(7).to_vec()]),
    ];
    let secrets = block_secrets(&txs, &tweaks);
    assert_eq!(secrets.entries(), &vec![([2; 32], key(2)), ([4; 32], key(1))]);
    assert_eq!(find_tweak(&txs[0], &tweaks), None);
    let update = filter_block(BlockHash { bytes: [6; 32] }, 12, &txs, &tweaks);
    assert_eq!(update.secrets, secrets);
    assert_eq!(update.checkpoint, BlockId { height: 12, hash: BlockHash { bytes: [6; 32] } });
}

#[test]
fn a_block_without_taproot_outputs_has_no_secrets() {
    let mut tweaks: TweakMap = ByteMap::new();
    tweaks.insert(taproot(7), key(1));
    let txs = vec![tx(1, vec![vec![0x6a]]), tx(2, vec![])];
    assert!(block_secrets(&txs, &tweaks).entries().is_empty());
}

#[test]
fn the_coinbase_of_a_block_has_no_secret() {
    let ids = vec![txid(1), txid(2), txid(3), txid(4)];
    let secrets = node_block_secrets(&ids, &vec![Some(key(2)), None, Some(key(4))]);
    assert_eq!(secrets.entries(), &vec![([2; 32], key(2)), ([4; 32], key(4))]);
    let twice = vec![txid(1), txid(2), txid(3), txid(2)];
    let secrets = node_block_secrets(&twice, &vec![Some(key(5)), None, Some(key(6))]);
    assert_eq!(secrets.entries(), &vec![([2; 32], key(6))]);
    assert!(node_block_secrets(&vec![], &vec![]).entries().is_empty());
    assert!(node_block_secrets(&vec![txid(1)], &vec![]).entries().is_empty());
}

#[test]
fn entries_are_grouped_by_height_and_the_last_one_counts() {
    let histories = vec![entry(5, 1, 1), entry(0, 2, 2), entry(6, 1, 3), entry(5, 3, 4), entry(5, 1, 5)];
    let groups = group_by_height(&histories);
    assert_eq!(groups.len(), 3);
    assert_eq!(groups[&5].get(&[1; 32]), Some(&key(5)));
    assert_eq!(groups[&5].get(&[3; 32]), Some(&key(4)));
    assert_eq!(groups[&5].entries().len(), 2);
    assert_eq!(groups[&0].entries(), &vec![([2; 32], key(2))]);
    assert_eq!(groups[&6].entries(), &vec![([1; 32], key(3))]);
    let mut confirmed = confirmed_secrets(&histories);
    confirmed.sort_by_key(|group| group.height);
    assert_eq!(confirmed.iter().map(|g| g.height).collect::<Vec<u32>>(), vec![5, 6]);
    assert_eq!(confirmed[0].secrets, groups[&5]);
    assert_eq!(confirmed[1].secrets, groups[&6]);
}

#[test]
fn transactions_in_the_mempool_are_left_out() {
    let confirmed = confirmed_secrets(&vec![entry(0, 1, 1), entry(6, 2, 2), entry(0, 3, 3)]);
    assert_eq!(confirmed.len(), 1);
    assert_eq!(confirmed[0].height, 6);
    assert_eq!(confirmed[0].secrets.entries(), &vec![([2; 32], key(2))]);
    assert!(confirmed_secrets(&vec![entry(0, 1, 1)]).is_empty());
    assert!(confirmed_secrets(&vec![]).is_empty());
}

#[test]
fn a_scan_saves_every_minute_and_reports_every_six_seconds() {
    let mut schedule = ScanSchedule::start(secs(100, 5));
    assert!(schedule.final_print_due());
    assert!(!schedule.print_due(secs(99, 0)));
    assert!(!schedule.print_due(secs(106, 4)));
    assert!(schedule.final_print_due());
    assert!(schedule.print_due(secs(107, 0)));
    assert!(!schedule.final_print_due());
    assert!(!schedule.print_due(secs(112, 999_999_999)));
    assert!(schedule.print_due(secs(113, 0)));
    assert!(!schedule.commit_due(secs(160, 4)));
    assert!(schedule.commit_due(secs(160, 5)));
    assert!(!schedule.commit_due(secs(220, 4)));
    assert!(schedule.commit_due(secs(220, 5)));
    assert_eq!(schedule.last_print, secs(113, 0));
    assert_eq!(schedule.last_commit, secs(220, 5));
}

#[test]
fn spans_of_time_are_compared_and_subtracted() {
    assert_eq!(secs(5, 1).since(&secs(3, 2)), secs(1, 999_999_999));
    assert_eq!(secs(5, 2).since(&secs(3, 1)), secs(2, 1));
    assert_eq!(secs(3, 0).since(&secs(5, 0)), secs(0, 0));
    assert!(secs(3, 1).reaches(&secs(3, 1)));
    assert!(!secs(3, 0).reaches(&secs(3, 1)));
    assert!(secs(4, 0).reaches(&secs(3, 9)));
}

#[test]
fn a_subscription_names_labels_only_if_there_are_any() {
    let start = BlockId { height: 44, hash: BlockHash { bytes: [0; 32] } };
    let scan = SecretKey { bytes: [1; 32] };
    let with = subscription(scan, key(2), start, vec![3, 1]);
    assert_eq!(with.labels, Some(vec![3, 1]));
    assert_eq!(with.start_height, Some(44));
    assert_eq!((with.scan_priv_key, with.spend_pub_key), (scan, key(2)));
    assert_eq!(subscription(scan, key(2), start, vec![]).labels, None);
}

#[test]
fn a_server_is_listened_to_until_it_is_done() {
    let scan = SecretKey { bytes: [1; 32] };
    let step = |event: StreamEvent| frigate_step(event, scan, key(2));
    assert!(matches!(step(StreamEvent::Message(None)), ScanAction::Wait));
    for complete in [false, true] {
        let update = ScanUpdate { histories: vec![entry(0, 1, 1), entry(9, 2, 2)], complete };
        match step(StreamEvent::Message(Some(update))) {
            ScanAction::Index { groups, complete: done } => {
                assert_eq!(done, complete);
                assert_eq!(groups.len(), 1);
                assert_eq!(groups[0].height, 9);
            }
            _ => panic!("the blocks are to be indexed"),
        }
    }
}

#[test]
fn a_server_that_takes_too_long_is_unsubscribed_from() {
    let scan = SecretKey { bytes: [1; 32] };
    let slow = FrigateError::Generic("GetTx request timed out".to_string());
    match frigate_step(StreamEvent::Failed(slow), scan, key(2)) {
        ScanAction::Unsubscribe(request) => {
            assert_eq!(request, UnsubscribeRequest { scan_priv_key: scan, spend_pub_key: key(2) });
        }
        _ => panic!("the subscription is to be ended"),
    }
    let broken = FrigateError::Generic("broken".to_string());
    match frigate_step(StreamEvent::Failed(broken), scan, key(2)) {
        ScanAction::Fail(error) => assert_eq!(error.fmt(), "broken"),
        _ => panic!("the error is to be reported"),
    }
}

#[test]
fn a_filter_scan_asks_for_blocks_until_it_is_synced() {
    let hash = BlockHash { bytes: [8; 32] };
    let tip = BlockId { height: 5, hash };
    assert!(matches!(filter_step(None), FilterAction::Wait));
    let mut tweaks: TweakMap = ByteMap::new();
    tweaks.insert(taproot(7), key(1));
    match filter_step(Some(TweakEvent::Matches(hash, tweaks))) {
        FilterAction::RequestBlock(h, map) => {
            assert_eq!(h, hash);
            assert_eq!(map.entries(), &vec![(taproot(7), key(1))]);
        }
        _ => panic!("the block is to be asked for"),
    }
    match filter_step(Some(TweakEvent::Synced(tip))) {
        FilterAction::Finish(end) => assert_eq!(end, tip),
        _ => panic!("the scan is over"),
    }
}
