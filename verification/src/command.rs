//! The commands of the wallet, and how a run of it begins: a new wallet is made, or an
//! existing one is loaded.

use vstd::prelude::*;

use crate::bytes::{hash_text, BlockHash, Txid};
use crate::chain::{first_block, genesis_text, BlockId};
use crate::json::{no_fields, pretty, Json};
use crate::network::Network;
use crate::recipient::{Address, SilentPaymentCode};
use crate::report::descriptor_report;
use crate::rpc::RpcArgs;
use crate::text::texts;
use rand::RngCore;

verus! {

#[derive(Clone, Debug, PartialEq, Eq)]
pub struct SpArgs {
    pub command: Commands,
}

#[derive(Clone, Debug, PartialEq, Eq)]
pub enum Commands {
    DeriveSpForTx {
        rpc_args: RpcArgs,
        order: u32,
        txid: Option<Txid>,
        tx_hex: Option<String>,
        label: Option<u32>,
    },
    ScanCbf {
        tweak_server_url: String,
        extra_peer: Option<String>,
        height: Option<u32>,
        hash: Option<BlockHash>,
    },
    ScanFrigate { rpc_args: RpcArgs, height: Option<u32>, hash: Option<BlockHash> },
    Create {
        /// Network
        network: Network,
        /// The block height at which to begin scanning outputs for this wallet
        birthday_height: u32,
        /// The block hash at which to begin scanning outputs for this wallet
        birthday_hash: BlockHash,
        /// Genesis Hash
        genesis_hash: Option<BlockHash>,
    },
    Code { label: Option<u32> },
    /// Use bitcoind RPC to scan the blockchain looking for silent payment outputs belonging to
    /// the provided silent payment code
    ScanRpc { rpc_args: RpcArgs },
    NewTx {
        /// Recipient address
        addresses: Option<Vec<(Address, u64)>>,
        /// Silent payment code from which you want to derive the script pub key
        sp_codes: Option<Vec<(SilentPaymentCode, u64)>>,
        /// Debug print the PSBT
        debug: bool,
        fee_rate: u64,
        /// OP_RETURN
        data: Option<String>,
        /// descriptor
        descriptor: Option<String>,
    },
    Balance,
    Birthday,
}

/// The initial state of a run: the arguments, the wallet and the store of its changes.
#[derive(Clone, Debug, PartialEq, Eq)]
pub struct Init<W, D> {
    /// CLI args
    pub args: SpArgs,
    /// The wallet
    pub wallet: W,
    /// The store
    pub db: D,
}

/// A master key: its fingerprint and its extended private key, both as text.
#[derive(Clone, Debug, PartialEq, Eq)]
pub struct MasterKey {
    pub fingerprint: String,
    pub xprv: String,
}

/// A wallet to be made: its descriptor, the report of it, where it begins, and the first
/// block of its chain.
#[derive(Clone, Debug, PartialEq, Eq)]
pub struct NewWallet {
    pub tr_xprv: String,
    pub report: String,
    pub birthday: BlockId,
    pub genesis: BlockHash,
    pub network: Network,
}

/// How a run begins.
#[derive(Clone, Debug, PartialEq, Eq)]
pub enum Start {
    /// This wallet is made, and the run is over.
    Create(NewWallet),
    /// The wallet is loaded for these arguments.
    Load(SpArgs),
}

/// No master key comes from the seed: the text of the error, and those of its causes.
#[derive(Clone, Debug, PartialEq, Eq)]
pub struct SeedError {
    pub reasons: Vec<String>,
}

/// The fingerprint and the extended private key that come from a seed, or why there is no
/// key: the text of the error, and those of its causes.
pub uninterp spec fn master_key_for(network: Network, seed: Seq<u8>) -> Result<
    (Seq<char>, Seq<char>),
    Seq<Seq<char>>,
>;

/// `bitcoin::bip32::Xpriv::new_master`, with the `fingerprint` of the key and the key
/// itself as they are displayed, or with the text of the error and those of its causes, one
/// after the other as `anyhow::Error::chain` goes through them; all of it follows from the
/// network and the seed.
#[verifier::external_body]
fn master_key(network: Network, seed: &[u8; 32]) -> (r: Result<MasterKey, SeedError>)
    ensures
        r is Ok <==> master_key_for(network, seed@) is Ok,
        r matches Ok(key) ==> (key.fingerprint@, key.xprv@) == master_key_for(
            network,
            seed@,
        )->Ok_0,
        r matches Err(error) ==> texts(error.reasons@) == master_key_for(network, seed@)->Err_0,
{
    let network = match network {
        Network::Bitcoin => bitcoin::Network::Bitcoin,
        Network::Testnet => bitcoin::Network::Testnet,
        Network::Testnet4 => bitcoin::Network::Testnet4,
        Network::Signet => bitcoin::Network::Signet,
        Network::Regtest => bitcoin::Network::Regtest,
    };
    let key = bitcoin::bip32::Xpriv::new_master(network, seed).map_err(
        |e| SeedError {
            reasons: anyhow::Error::new(e).chain().map(ToString::to_string).collect(),
        },
    )?;
    let fingerprint = key.fingerprint(&bitcoin::key::Secp256k1::new()).to_string();
    Ok(MasterKey { fingerprint, xprv: key.to_string() })
}

/// `rand::rng` and its `fill_bytes`: any bytes may come. It is public so that contracts can
/// speak of what it returned.
#[verifier::external_body]
pub fn random_seed() -> (r: [u8; 32]) {
    let mut seed = [0x00; 32];
    rand::rng().fill_bytes(&mut seed);
    seed
}

/// The taproot descriptor of a master key.
pub open spec fn descriptor(fingerprint: Seq<char>, xprv: Seq<char>) -> Seq<char> {
    "tr(["@ + fingerprint + "]"@ + xprv + ")"@
}

/// `wallet` is what is made for a master key and the given birthday.
pub open spec fn is_wallet_for(
    wallet: NewWallet,
    fingerprint: Seq<char>,
    xprv: Seq<char>,
    network: Network,
    birthday: BlockId,
    genesis: Option<BlockHash>,
) -> bool {
    &&& wallet.tr_xprv@ == descriptor(fingerprint, xprv)
    &&& wallet.report@ == pretty(
        no_fields().insert("tr_xprv"@, Json::Text(descriptor(fingerprint, xprv))),
    )
    &&& wallet.birthday == birthday
    &&& wallet.network == network
    &&& match genesis {
        Some(hash) => wallet.genesis == hash,
        None => hash_text(wallet.genesis@) == genesis_text(network),
    }
}

/// The wallet for a master key.
pub fn wallet_for_key(
    key: &MasterKey,
    network: Network,
    birthday: BlockId,
    genesis: Option<BlockHash>,
) -> (r: NewWallet)
    ensures
        is_wallet_for(r, key.fingerprint@, key.xprv@, network, birthday, genesis),
{
    let mut tr_xprv: String = "tr([".to_string();
    tr_xprv.append(key.fingerprint.as_str());
    tr_xprv.append("]");
    tr_xprv.append(key.xprv.as_str());
    tr_xprv.append(")");
    let report: String = descriptor_report(tr_xprv.as_str());
    NewWallet { tr_xprv, report, birthday, genesis: first_block(genesis, network), network }
}

/// The wallet for a seed.
pub fn wallet_for_seed(
    seed: &[u8; 32],
    network: Network,
    birthday: BlockId,
    genesis: Option<BlockHash>,
) -> (r: Result<NewWallet, SeedError>)
    ensures
        match master_key_for(network, seed@) {
            Err(why) => r matches Err(error) && texts(error.reasons@) == why,
            Ok(key) => r matches Ok(wallet) && is_wallet_for(
                wallet,
                key.0,
                key.1,
                network,
                birthday,
                genesis,
            ),
        },
{
    match master_key(network, seed) {
        Err(error) => Err(error),
        Ok(key) => Ok(wallet_for_key(&key, network, birthday, genesis)),
    }
}

/// `result` is what a seed leads to.
pub open spec fn seed_leads_to(
    seed: Seq<u8>,
    network: Network,
    birthday: BlockId,
    genesis: Option<BlockHash>,
    result: Result<Start, SeedError>,
) -> bool {
    match master_key_for(network, seed) {
        Err(why) => result matches Err(error) && texts(error.reasons@) == why,
        Ok(key) => result matches Ok(Start::Create(wallet)) && is_wallet_for(
            wallet,
            key.0,
            key.1,
            network,
            birthday,
            genesis,
        ),
    }
}

/// How a run begins: the command to create a wallet makes one from a random seed; every
/// other command needs the wallet that was made before.
pub fn init_or_load(args: SpArgs) -> (r: Result<Start, SeedError>)
    ensures
        match args.command {
            Commands::Create { network, birthday_height, birthday_hash, genesis_hash } => exists|
                seed: [u8; 32],
            | #[trigger]
                call_ensures(crate::command::random_seed, (), seed) && seed_leads_to(
                    seed@,
                    network,
                    (BlockId { height: birthday_height, hash: birthday_hash }),
                    genesis_hash,
                    r,
                ),
            _ => r == Ok::<Start, SeedError>(Start::Load(args)),
        },
{
    match args.command {
        Commands::Create { network, birthday_height, birthday_hash, genesis_hash } => {
            let seed: [u8; 32] = random_seed();
            let birthday: BlockId = BlockId { height: birthday_height, hash: birthday_hash };
            let r: Result<Start, SeedError> = match wallet_for_seed(
                &seed,
                network,
                birthday,
                genesis_hash,
            ) {
                Err(error) => Err(error),
                Ok(wallet) => Ok(Start::Create(wallet)),
            };
            proof {
                assert(call_ensures(crate::command::random_seed, (), seed));
                assert(seed_leads_to(seed@, network, birthday, genesis_hash, r));
            }
            r
        },
        command => Ok(Start::Load(SpArgs { command })),
    }
}

/// The initial state of a run, if a wallet was found in the store.
pub fn loaded<W, D>(args: SpArgs, wallet: Option<W>, db: D) -> (r: Result<Init<W, D>, String>)
    ensures
        match wallet {
            Some(w) => r matches Ok(init) && init == (Init { args, wallet: w, db }),
            None => r matches Err(message) && message@ == Seq::<char>::empty(),
        },
{
    match wallet {
        Some(wallet) => Ok(Init { args, wallet, db }),
        None => Err(String::new()),
    }
}

/// How the load of a wallet ends: `opened` is the store with the wallet that was found in it,
/// or nothing if the store could not be opened.
pub fn load_outcome<W, D>(args: SpArgs, opened: Option<(Option<W>, D)>) -> (r: Result<
    Init<W, D>,
    String,
>)
    ensures
        match opened {
            Some((Some(w), d)) => r matches Ok(init) && init == (Init { args, wallet: w, db: d }),
            Some((None, _)) => r matches Err(message) && message@ == Seq::<char>::empty(),
            None => r matches Err(message) && message@ == "could not open file store"@,
        },
{
    match opened {
        Some((wallet, db)) => loaded(args, wallet, db),
        None => Err("could not open file store".to_string()),
    }
}

/// The path of the store, unless the environment gives another one.
pub fn db_path(given: Option<String>) -> (r: String)
    ensures
        match given {
            Some(path) => r == path,
            None => r@ == ".bdk_example_silentpayments.db"@,
        },
{
    match given {
        Some(path) => path,
        None => ".bdk_example_silentpayments.db".to_string(),
    }
}

/// A wallet that is made has the taproot descriptor of its master key, which is also what is
/// reported, the birthday and the network that were given, and the first block that was given or
/// else that of the network.
pub proof fn law_wallet_for_key(
    key: &MasterKey,
    network: Network,
    birthday: BlockId,
    genesis: Option<BlockHash>,
    r: NewWallet,
    first: BlockHash,
)
    requires
        call_ensures(wallet_for_key, (key, network, birthday, genesis), r),
        call_ensures(first_block, (genesis, network), first),
    ensures
        r.tr_xprv@ == "tr(["@ + key.fingerprint@ + "]"@ + key.xprv@ + ")"@,
        r.report@ == pretty(map!["tr_xprv"@ => Json::Text(r.tr_xprv@)]),
        r.birthday == birthday,
        r.network == network,
        genesis matches Some(hash) ==> r.genesis == hash,
        hash_text(r.genesis@) == hash_text(first@),
{
    assert(no_fields().insert("tr_xprv"@, Json::Text(r.tr_xprv@))
        =~= map!["tr_xprv"@ => Json::Text(r.tr_xprv@)]);
}

/// A seed leads to the wallet of its master key, or to the reasons for which it has none.
pub proof fn law_wallet_for_seed(
    seed: &[u8; 32],
    network: Network,
    birthday: BlockId,
    genesis: Option<BlockHash>,
    r: Result<NewWallet, SeedError>,
    first: BlockHash,
)
    requires
        call_ensures(wallet_for_seed, (seed, network, birthday, genesis), r),
        call_ensures(first_block, (genesis, network), first),
    ensures
        master_key_for(network, seed@) matches Err(why) ==> (r matches Err(error) && texts(
            error.reasons@,
        ) == why),
        master_key_for(network, seed@) matches Ok(key) ==> {
            &&& r matches Ok(wallet)
            &&& wallet.tr_xprv@ == "tr(["@ + key.0 + "]"@ + key.1 + ")"@
            &&& wallet.report@ == pretty(map!["tr_xprv"@ => Json::Text(wallet.tr_xprv@)])
            &&& wallet.birthday == birthday
            &&& wallet.network == network
            &&& genesis matches Some(hash) ==> wallet.genesis == hash
            &&& hash_text(wallet.genesis@) == hash_text(first@)
        },
{
    if let Ok(wallet) = r {
        assert(no_fields().insert("tr_xprv"@, Json::Text(wallet.tr_xprv@))
            =~= map!["tr_xprv"@ => Json::Text(wallet.tr_xprv@)]);
    }
}

/// The command to create a wallet makes one from a seed that was drawn: what is made for that
/// seed, for the network, the birthday and the first block that were given.
pub proof fn law_create(
    network: Network,
    birthday_height: u32,
    birthday_hash: BlockHash,
    genesis: Option<BlockHash>,
    args: SpArgs,
    r: Result<Start, SeedError>,
)
    requires
        args.command == (Commands::Create {
            network,
            birthday_height,
            birthday_hash,
            genesis_hash: genesis,
        }),
        call_ensures(init_or_load, (args,), r),
    ensures
        exists|seed: [u8; 32]|
            {
                &&& #[trigger] call_ensures(crate::command::random_seed, (), seed)
                &&& master_key_for(network, seed@) matches Err(why) ==> (r matches Err(error)
                    && texts(error.reasons@) == why)
                &&& master_key_for(network, seed@) matches Ok(key) ==> {
                    &&& r matches Ok(Start::Create(wallet))
                    &&& wallet.tr_xprv@ == "tr(["@ + key.0 + "]"@ + key.1 + ")"@
                    &&& wallet.report@ == pretty(map!["tr_xprv"@ => Json::Text(wallet.tr_xprv@)])
                    &&& wallet.birthday.height == birthday_height
                    &&& wallet.birthday.hash == birthday_hash
                    &&& wallet.network == network
                    &&& genesis matches Some(hash) ==> wallet.genesis == hash
                    &&& genesis is None ==> hash_text(wallet.genesis@) == genesis_text(network)
                }
            },
{
    let birthday = BlockId { height: birthday_height, hash: birthday_hash };
    let seed = choose|seed: [u8; 32]| #[trigger]
        call_ensures(crate::command::random_seed, (), seed) && seed_leads_to(
            seed@,
            network,
            birthday,
            genesis,
            r,
        );
    if let Ok(Start::Create(wallet)) = r {
        assert(no_fields().insert("tr_xprv"@, Json::Text(wallet.tr_xprv@))
            =~= map!["tr_xprv"@ => Json::Text(wallet.tr_xprv@)]);
    }
    assert(call_ensures(crate::command::random_seed, (), seed));
}

/// Every other command loads the wallet, with the arguments as they were given.
pub proof fn law_load(args: SpArgs, r: Result<Start, SeedError>)
    requires
        !(args.command is Create),
        call_ensures(init_or_load, (args,), r),
    ensures
        r matches Ok(Start::Load(a)) && a == args,
{
}

/// A run begins with the arguments, the wallet and the store as they came; without a wallet in
/// the store there is an empty message, and without a store one that says so.
pub proof fn law_load_outcome<W, D>(
    args: SpArgs,
    opened: Option<(Option<W>, D)>,
    r: Result<Init<W, D>, String>,
)
    requires
        call_ensures(load_outcome::<W, D>, (args, opened), r),
    ensures
        opened matches Some((Some(w), d)) ==> (r matches Ok(init) && init.args == args
            && init.wallet == w && init.db == d),
        opened matches Some((None, _)) ==> (r matches Err(message) && message@.len() == 0),
        opened is None ==> (r matches Err(message) && message@ == "could not open file store"@),
{
}

/// The same for a store that was opened.
pub proof fn law_loaded<W, D>(
    args: SpArgs,
    wallet: Option<W>,
    db: D,
    r: Result<Init<W, D>, String>,
)
    requires
        call_ensures(loaded::<W, D>, (args, wallet, db), r),
    ensures
        wallet matches Some(w) ==> (r matches Ok(init) && init.args == args && init.wallet == w
            && init.db == db),
        wallet is None ==> (r matches Err(message) && message@.len() == 0),
{
}

/// The store is at the path that was given, else at one of its own.
pub proof fn law_db_path(given: Option<String>, r: String)
    requires
        call_ensures(db_path, (given,), r),
    ensures
        given matches Some(path) ==> r == path,
        given is None ==> r@ == ".bdk_example_silentpayments.db"@,
{
}

} // verus!
