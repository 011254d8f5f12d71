//! Where a scan of the chain starts, and with which peers.

use vstd::prelude::*;

use crate::bytes::{hash_text, BlockHash};
use crate::network::Network;
use bip157::HeaderCheckpoint;

verus! {

/// A block by its height and its hash.
#[derive(Clone, Copy, Debug, PartialEq, Eq)]
pub struct BlockId {
    pub height: u32,
    pub hash: BlockHash,
}

/// The hash of the first block of a network, as it is written.
pub open spec fn genesis_text(network: Network) -> Seq<char> {
    match network {
        Network::Bitcoin => "000000000019d6689c085ae165831e934ff763ae46a2a6c172b3f1b60a8ce26f"@,
        Network::Testnet => "000000000933ea01ad0ee984209779baaec3ced90fa3f408719526f8d77f4943"@,
        Network::Testnet4 => "00000000da84f2bafbbc53dee25a72ae507ff4914b867c565be350b0da8bf043"@,
        Network::Signet => "00000008819873e925422c1ff0f99f7cc9bbb232af63a077a480a3633bee1ef6"@,
        Network::Regtest => "0f9188f13cb7b2c71f2a335e3a4fc328bf5beb436012afca590b1a11466e2206"@,
    }
}

/// `bitcoin::constants::genesis_block` and its `block_hash`: the hash of the network's first
/// block, for each of the five networks.
#[verifier::external_body]
fn genesis_block_hash(network: Network) -> (r: BlockHash)
    ensures
        hash_text(r@) == genesis_text(network),
{
    let network = match network {
        Network::Bitcoin => bitcoin::Network::Bitcoin,
        Network::Testnet => bitcoin::Network::Testnet,
        Network::Testnet4 => bitcoin::Network::Testnet4,
        Network::Signet => bitcoin::Network::Signet,
        Network::Regtest => bitcoin::Network::Regtest,
    };
    let hash = bitcoin::constants::genesis_block(network).block_hash();
    BlockHash { bytes: *hash.as_ref() }
}

/// `bip157::HeaderCheckpoint::from_genesis`: height zero and the hash of the network's
/// genesis block.
#[verifier::external_body]
fn genesis_checkpoint(network: Network) -> (r: BlockId)
    ensures
        r.height == 0,
        hash_text(r.hash@) == genesis_text(network),
{
    let network = match network {
        Network::Bitcoin => bitcoin::Network::Bitcoin,
        Network::Testnet => bitcoin::Network::Testnet,
        Network::Testnet4 => bitcoin::Network::Testnet4,
        Network::Signet => bitcoin::Network::Signet,
        Network::Regtest => bitcoin::Network::Regtest,
    };
    let point = HeaderCheckpoint::from_genesis(network);
    BlockId { height: point.height, hash: BlockHash { bytes: *point.hash.as_ref() } }
}

/// `bip157::HeaderCheckpoint::taproot_activation`: the block before taproot came into
/// force, at height 709631.
#[verifier::external_body]
fn taproot_checkpoint() -> (r: BlockId)
    ensures
        r.height == 709_631,
        hash_text(r.hash@) == "000000000000000000013712fc242ee6dd28476d0e9c931c75f83e6974c6bccc"@,
{
    let point = HeaderCheckpoint::taproot_activation();
    BlockId { height: point.height, hash: BlockHash { bytes: *point.hash.as_ref() } }
}

/// The hash of the first block of the chain: the one that was given, else that of the
/// network.
pub fn first_block(genesis: Option<BlockHash>, network: Network) -> (r: BlockHash)
    ensures
        match genesis {
            Some(hash) => r == hash,
            None => hash_text(r@) == genesis_text(network),
        },
{
    match genesis {
        Some(hash) => hash,
        None => genesis_block_hash(network),
    }
}

/// The block after which a light client follows the chain: on the main network the one
/// before taproot, as no silent payment is older, and else the first one.
pub fn start_checkpoint(network: Network) -> (r: BlockId)
    ensures
        if network == Network::Bitcoin {
            r.height == 709_631 && hash_text(r.hash@)
                == "000000000000000000013712fc242ee6dd28476d0e9c931c75f83e6974c6bccc"@
        } else {
            r.height == 0 && hash_text(r.hash@) == genesis_text(network)
        },
{
    if network == Network::Bitcoin {
        taproot_checkpoint()
    } else {
        genesis_checkpoint(network)
    }
}

/// The later of the wallet's birthday and of the tip of its chain; the tip if both are at
/// the same height.
pub open spec fn resume_point(birthday: BlockId, tip: BlockId) -> BlockId {
    if birthday.height <= tip.height {
        tip
    } else {
        birthday
    }
}

/// The block from which a light client scans: the one that was given by height and hash,
/// else where the wallet left off.
pub fn sync_point(
    height: Option<u32>,
    hash: Option<BlockHash>,
    birthday: BlockId,
    tip: BlockId,
) -> (r: BlockId)
    ensures
        match (height, hash) {
            (Some(h), Some(b)) => r == (BlockId { height: h, hash: b }),
            _ => r == resume_point(birthday, tip),
        },
{
    match (height, hash) {
        (Some(height), Some(hash)) => BlockId { height, hash },
        _ => if birthday.height <= tip.height {
            tip
        } else {
            birthday
        },
    }
}

/// The block from which a Frigate server scans; `at_birthday` is the block of the
/// wallet's chain at the height of its birthday, which is asked for only where the chain
/// has not reached that height yet and no block was given.
pub fn frigate_sync_point(
    height: Option<u32>,
    hash: Option<BlockHash>,
    birthday_height: u32,
    tip: BlockId,
    at_birthday: Option<BlockId>,
) -> (r: BlockId)
    requires
        !(height is Some && hash is Some) && birthday_height > tip.height ==> at_birthday is Some,
    ensures
        match (height, hash) {
            (Some(h), Some(b)) => r == (BlockId { height: h, hash: b }),
            _ => if birthday_height <= tip.height {
                r == tip
            } else {
                at_birthday == Some(r)
            },
        },
{
    match (height, hash) {
        (Some(height), Some(hash)) => BlockId { height, hash },
        _ => if birthday_height <= tip.height {
            tip
        } else {
            at_birthday.unwrap()
        },
    }
}

/// The higher of the heights of the wallet's birthday and of its tip.
pub open spec fn resume_height(birthday_height: u32, tip_height: u32) -> u32 {
    if birthday_height <= tip_height {
        tip_height
    } else {
        birthday_height
    }
}

/// The height from which a node is asked for blocks.
pub fn start_height(birthday_height: u32, tip_height: u32) -> (r: u32)
    ensures
        r == resume_height(birthday_height, tip_height),
{
    if birthday_height <= tip_height {
        tip_height
    } else {
        birthday_height
    }
}

/// The networks on which the light client has a peer to start with.
pub open spec fn default_peer(network: Network) -> Option<Seq<u8>> {
    match network {
        Network::Regtest => Some(seq![127u8, 0u8, 0u8, 1u8]),
        Network::Signet => Some(seq![170u8, 75u8, 162u8, 231u8]),
        _ => None,
    }
}

/// Whether the light client has a peer to start with.
pub fn has_default_peer(network: Network) -> (r: bool)
    ensures
        r == (default_peer(network) is Some),
{
    match network {
        Network::Regtest => true,
        Network::Signet => true,
        _ => false,
    }
}

/// The IPv4 addresses of the peers: that of the network, and the one that was given.
pub fn peers(network: Network, extra: Option<[u8; 4]>) -> (r: Vec<[u8; 4]>)
    requires
        default_peer(network) is Some,
    ensures
        r@.len() == 1 + if extra is Some {
            1int
        } else {
            0int
        },
        r@[0]@ == default_peer(network)->0,
        extra matches Some(peer) ==> r@[1] == peer,
{
    let mut peers: Vec<[u8; 4]> = Vec::new();
    let known: [u8; 4] = match network {
        Network::Regtest => [127, 0, 0, 1],
        _ => [170, 75, 162, 231],
    };
    proof {
        assert(known@ =~= default_peer(network)->0);
    }
    peers.push(known);
    if let Some(peer) = extra {
        peers.push(peer);
    }
    peers
}

/// Without a given block a scan starts no earlier than the wallet's birthday and no
/// earlier than its tip, and at the height from which a node is asked for blocks.
pub proof fn law_resume_is_latest(birthday: BlockId, tip: BlockId)
    ensures
        resume_point(birthday, tip).height == resume_height(birthday.height, tip.height),
        resume_point(birthday, tip).height >= birthday.height,
        resume_point(birthday, tip).height >= tip.height,
        resume_point(birthday, tip) == birthday || resume_point(birthday, tip) == tip,
{
}

/// The first block of a chain is the one that was given, else that of the network.
pub proof fn law_first_block(genesis: Option<BlockHash>, network: Network, r: BlockHash)
    requires
        call_ensures(first_block, (genesis, network), r),
    ensures
        genesis matches Some(hash) ==> r == hash,
        genesis is None ==> hash_text(r@) == match network {
            Network::Bitcoin => {
                "000000000019d6689c085ae165831e934ff763ae46a2a6c172b3f1b60a8ce26f"@
            },
            Network::Testnet => {
                "000000000933ea01ad0ee984209779baaec3ced90fa3f408719526f8d77f4943"@
            },
            Network::Testnet4 => {
                "00000000da84f2bafbbc53dee25a72ae507ff4914b867c565be350b0da8bf043"@
            },
            Network::Signet => {
                "00000008819873e925422c1ff0f99f7cc9bbb232af63a077a480a3633bee1ef6"@
            },
            Network::Regtest => {
                "0f9188f13cb7b2c71f2a335e3a4fc328bf5beb436012afca590b1a11466e2206"@
            },
        },
{
}

/// On the main network a light client starts before taproot, and on every other one with the
/// block that the chain starts with there.
pub proof fn law_start_checkpoint(network: Network, r: BlockId, first: BlockHash)
    requires
        call_ensures(start_checkpoint, (network,), r),
        call_ensures(first_block, (None, network), first),
    ensures
        network == Network::Bitcoin ==> r.height == 709_631 && hash_text(r.hash@)
            == "000000000000000000013712fc242ee6dd28476d0e9c931c75f83e6974c6bccc"@,
        network != Network::Bitcoin ==> r.height == 0 && hash_text(r.hash@) == hash_text(first@),
{
}

/// A scan starts at the block that was given by height and hash; without both of them it starts
/// at the tip, or at the birthday if the tip has not reached its height.
pub proof fn law_sync_point(
    height: Option<u32>,
    hash: Option<BlockHash>,
    birthday: BlockId,
    tip: BlockId,
    r: BlockId,
)
    requires
        call_ensures(sync_point, (height, hash, birthday, tip), r),
    ensures
        height matches Some(h) ==> hash matches Some(b) ==> r.height == h && r.hash == b,
        (height is None || hash is None) && birthday.height <= tip.height ==> r == tip,
        (height is None || hash is None) && birthday.height > tip.height ==> r == birthday,
{
}

/// The same for a Frigate server, but for the block of the chain at the birthday's height.
pub proof fn law_frigate_sync_point(
    height: Option<u32>,
    hash: Option<BlockHash>,
    birthday_height: u32,
    tip: BlockId,
    at_birthday: Option<BlockId>,
    r: BlockId,
)
    requires
        call_ensures(frigate_sync_point, (height, hash, birthday_height, tip, at_birthday), r),
    ensures
        height matches Some(h) ==> hash matches Some(b) ==> r.height == h && r.hash == b,
        (height is None || hash is None) && birthday_height <= tip.height ==> r == tip,
        (height is None || hash is None) && birthday_height > tip.height ==> at_birthday == Some(
            r,
        ),
{
}

/// A node is asked for blocks from the height of the tip on, or of the birthday if that is
/// higher; a light client starts at the same height.
pub proof fn law_start_height(
    birthday: BlockId,
    tip: BlockId,
    r: u32,
    point: BlockId,
)
    requires
        call_ensures(start_height, (birthday.height, tip.height), r),
        call_ensures(sync_point, (None, None, birthday, tip), point),
    ensures
        r >= birthday.height && r >= tip.height,
        r == birthday.height || r == tip.height,
        point.height == r,
{
}

/// The peers are the one that is known on the network, which only two networks have, and after
/// it the one that was given.
pub proof fn law_peers(network: Network, extra: Option<[u8; 4]>, known: bool, r: Vec<[u8; 4]>)
    requires
        call_ensures(has_default_peer, (network,), known),
        known ==> call_ensures(peers, (network, extra), r),
    ensures
        known <==> network == Network::Regtest || network == Network::Signet,
        known ==> r@.len() == 1 + if extra is Some {
            1int
        } else {
            0
        },
        known ==> (extra matches Some(peer) ==> r@[1] == peer),
        network == Network::Regtest ==> r@[0]@ == seq![127u8, 0u8, 0u8, 1u8],
        network == Network::Signet ==> r@[0]@ == seq![170u8, 75u8, 162u8, 231u8],
{
}

} // verus!
