use sp_cli::bytes::BlockHash;
use sp_cli::chain::{
    first_block, frigate_sync_point, has_default_peer, peers, start_checkpoint, start_height,
    sync_point, BlockId,
};
use sp_cli::network::Network;

fn block(height: u32) -> BlockId {
    BlockId { height, hash: BlockHash { bytes: [height as u8; 32] } }
}

fn reversed(hex: &str) -> [u8; 32] {
    let mut bytes = [0; 32];
    for i in 0..32 {
        bytes[31 - i] = u8::from_str_radix(&hex[2 * i..2 * i + 2], 16).unwrap();
    }
    bytes
}

#[test]
fn a_given_block_is_where_the_scan_starts() {
    let hash = BlockHash { bytes: [7; 32] };
    let given = BlockId { height: 3, hash };
    assert_eq!(sync_point(Some(3), Some(hash), block(10), block(20)), given);
    assert_eq!(frigate_sync_point(Some(3), Some(hash), 30, block(20), None), given);
}

#[test]
fn a_scan_resumes_at_the_later_of_tip_and_birthday() {
    let hash = BlockHash { bytes: [7; 32] };
    assert_eq!(sync_point(None, None, block(10), block(20)), block(20));
    assert_eq!(sync_point(Some(3), None, block(30), block(20)), block(30));
    let birthday = BlockId { height: 20, hash };
    assert_eq!(sync_point(None, Some(hash), birthday, block(20)), block(20));
    assert_eq!(start_height(10, 20), 20);
    assert_eq!(start_height(30, 20), 30);
    assert_eq!(frigate_sync_point(None, None, 20, block(20), None), block(20));
    assert_eq!(frigate_sync_point(None, None, 21, block(20), Some(block(21))), block(21));
}

#[test]
fn the_main_network_starts_before_taproot() {
    let point = start_checkpoint(Network::Bitcoin);
    assert_eq!(point.height, 709_631);
    assert_eq!(
        point.hash.bytes,
        reversed("000000000000000000013712fc242ee6dd28476d0e9c931c75f83e6974c6bccc")
    );
}

#[test]
fn test_networks_start_at_their_first_block() {
    let signet = "00000008819873e925422c1ff0f99f7cc9bbb232af63a077a480a3633bee1ef6";
    let regtest = "0f9188f13cb7b2c71f2a335e3a4fc328bf5beb436012afca590b1a11466e2206";
    let testnet = "000000000933ea01ad0ee984209779baaec3ced90fa3f408719526f8d77f4943";
    let testnet4 = "00000000da84f2bafbbc53dee25a72ae507ff4914b867c565be350b0da8bf043";
    let all = [
        (Network::Testnet, testnet),
        (Network::Testnet4, testnet4),
        (Network::Signet, signet),
        (Network::Regtest, regtest),
    ];
    for (network, hex) in all {
        let point = start_checkpoint(network);
        assert_eq!(point.height, 0);
        assert_eq!(point.hash.bytes, reversed(hex));
        assert_eq!(first_block(None, network).bytes, reversed(hex));
    }
    let main = "000000000019d6689c085ae165831e934ff763ae46a2a6c172b3f1b60a8ce26f";
    assert_eq!(first_block(None, Network::Bitcoin).bytes, reversed(main));
    let given = BlockHash { bytes: [5; 32] };
    assert_eq!(first_block(Some(given), Network::Signet), given);
}

#[test]
fn peers_are_those_of_the_network_and_the_given_one() {
    assert_eq!(peers(Network::Regtest, None), vec![[127, 0, 0, 1]]);
    assert_eq!(peers(Network::Signet, Some([1, 2, 3, 4])), vec![[170, 75, 162, 231], [1, 2, 3, 4]]);
    for network in [Network::Bitcoin, Network::Testnet, Network::Testnet4] {
        assert!(!has_default_peer(network));
    }
    assert!(has_default_peer(Network::Signet) && has_default_peer(Network::Regtest));
}
