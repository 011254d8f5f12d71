//! Blocks that are put together from a header and the transactions of interest.

use vstd::prelude::*;

use crate::bytes::{
    decode_hex, hash_bytes, hex_bytes, hex_value, is_hex_digit, parse_block_hash, BlockHash,
};
use crate::frigate::DUMMY_COINBASE;
use crate::transaction::{decode_transaction, decoded, Transaction, TransactionView};

verus! {

/// A transaction as a server sends it: the hash of its block and its encoding, both in
/// hexadecimal.
#[derive(Clone, Debug, PartialEq, Eq)]
pub struct FetchedTx {
    pub block_hash: String,
    pub hex: String,
}

/// A block: the encoding of its header, its transactions and its hash.
#[derive(Clone, Debug, PartialEq, Eq)]
pub struct AssembledBlock {
    pub header: Vec<u8>,
    pub txdata: Vec<Transaction>,
    pub hash: BlockHash,
}

/// What is wrong with a transaction that a server sent.
#[derive(Clone, Copy, Debug, PartialEq, Eq, Structural)]
pub enum TxFault {
    /// It is not in hexadecimal.
    Hex,
    /// The bytes are no transaction.
    Decode,
    /// The hash of its block is no hash.
    BlockHash,
}

/// Why a block cannot be put together.
#[derive(Clone, Copy, Debug, PartialEq, Eq, Structural)]
pub enum BlockError {
    /// The coinbase that stands in is no transaction.
    Coinbase,
    /// The header is not in hexadecimal.
    HeaderHex,
    /// The bytes of the header are no header.
    Header,
    /// A transaction is of no use.
    Transaction(usize, TxFault),
}

/// Some bytes are the consensus encoding of a block.
pub uninterp spec fn is_block(bytes: Seq<u8>) -> bool;

/// `bitcoin::consensus::deserialize::<bitcoin::Block>`, and the encoding of the header of
/// the block: a header takes up the first 80 bytes, and 80 bytes and a count of zero
/// transactions are always a block.
#[verifier::external_body]
fn decode_block_header(bytes: &[u8]) -> (r: Option<Vec<u8>>)
    ensures
        r is Some <==> is_block(bytes@),
        bytes@.len() == 81 && bytes@[80] == 0 ==> r is Some,
        r matches Some(header) ==> bytes@.len() > 80 && header@ == bytes@.take(80),
{
    let block: bitcoin::Block = bitcoin::consensus::deserialize(bytes).ok()?;
    Some(bitcoin::consensus::serialize(&block.header))
}

/// The transaction that a hexadecimal text is.
pub open spec fn hex_transaction(hex: Seq<char>) -> Option<TransactionView> {
    match hex_bytes(hex) {
        Some(bytes) => decoded(bytes),
        None => None,
    }
}

/// What is wrong with a transaction that a server sent, if anything is.
pub open spec fn tx_fault(tx: FetchedTx) -> Option<TxFault> {
    if hex_bytes(tx.hex@) is None {
        Some(TxFault::Hex)
    } else if hex_transaction(tx.hex@) is None {
        Some(TxFault::Decode)
    } else if hash_bytes(tx.block_hash@) is None {
        Some(TxFault::BlockHash)
    } else {
        None
    }
}

/// All of the transactions are of use.
pub open spec fn no_fault(txs: Seq<FetchedTx>) -> bool {
    forall|i: int| 0 <= i < txs.len() ==> tx_fault(#[trigger] txs[i]) is None
}

/// The header in hexadecimal with a count of zero transactions behind it.
pub open spec fn empty_block_hex(header: Seq<char>) -> Seq<char> {
    header + "00"@
}

/// The hash of the block that the last of the transactions is in; all zeros if there is
/// none.
pub open spec fn last_block_hash(txs: Seq<FetchedTx>) -> Seq<u8> {
    if txs.len() == 0 {
        Seq::new(32, |i: int| 0u8)
    } else {
        hash_bytes(txs.last().block_hash@)->0
    }
}

/// Decodes a transaction that a server sent.
fn decode_fetched(tx: &FetchedTx) -> (r: Result<(Transaction, BlockHash), TxFault>)
    ensures
        match tx_fault(*tx) {
            Some(fault) => r == Err::<(Transaction, BlockHash), TxFault>(fault),
            None => r matches Ok(p) && p.0@ == hex_transaction(tx.hex@)->0 && p.1@ == hash_bytes(
                tx.block_hash@,
            )->0,
        },
{
    match decode_hex(tx.hex.as_str()) {
        Err(_) => Err(TxFault::Hex),
        Ok(bytes) => match decode_transaction(bytes.as_slice()) {
            None => Err(TxFault::Decode),
            Some(transaction) => match parse_block_hash(tx.block_hash.as_str()) {
                None => Err(TxFault::BlockHash),
                Some(hash) => Ok((transaction, hash)),
            },
        },
    }
}

/// The block of a header, a coinbase and further transactions; its hash is the last of
/// the hashes of the blocks that the further transactions are in, and all zeros if there
/// is none.
pub fn block_from_parts(
    header: Vec<u8>,
    coinbase: Transaction,
    transactions: Vec<Transaction>,
    hashes: &Vec<BlockHash>,
) -> (r: AssembledBlock)
    ensures
        r.header == header,
        r.txdata@ == seq![coinbase] + transactions@,
        r.hash@ == if hashes@.len() == 0 {
            Seq::new(32, |i: int| 0u8)
        } else {
            hashes@.last()@
        },
{
    let mut rest: Vec<Transaction> = transactions;
    let mut txdata: Vec<Transaction> = Vec::new();
    txdata.push(coinbase);
    txdata.append(&mut rest);
    let hash: BlockHash = if hashes.len() == 0 {
        BlockHash { bytes: [0;32] }
    } else {
        hashes[hashes.len() - 1]
    };
    proof {
        assert(txdata@ =~= seq![coinbase] + transactions@);
        if hashes@.len() == 0 {
            assert(hash@ =~= Seq::new(32, |i: int| 0u8));
        }
    }
    AssembledBlock { header, txdata, hash }
}

/// Puts a block together: the header, a coinbase that stands in for the real one, and the
/// transactions of interest in their order.
pub fn assemble_block(header_hex: &str, txs: &Vec<FetchedTx>) -> (r: Result<
    AssembledBlock,
    BlockError,
>)
    ensures
        hex_bytes(header_hex@) matches Some(b) && b.len() == 80 ==> !(r matches Err(
            BlockError::HeaderHex,
        )) && !(r matches Err(BlockError::Header)),
        hex_transaction(DUMMY_COINBASE@) is None ==> r == Err::<AssembledBlock, BlockError>(
            BlockError::Coinbase,
        ),
        hex_transaction(DUMMY_COINBASE@) is Some ==> match hex_bytes(
            empty_block_hex(header_hex@),
        ) {
            None => r == Err::<AssembledBlock, BlockError>(BlockError::HeaderHex),
            Some(bytes) => if !is_block(bytes) {
                r == Err::<AssembledBlock, BlockError>(BlockError::Header)
            } else if no_fault(txs@) {
                &&& r matches Ok(block)
                &&& block.header@ == bytes.take(80)
                &&& block.txdata@.len() == txs@.len() + 1
                &&& block.txdata@[0]@ == hex_transaction(DUMMY_COINBASE@)->0
                &&& forall|i: int|
                    0 <= i < txs@.len() ==> (#[trigger] block.txdata@[i + 1])@ == hex_transaction(
                        txs@[i].hex@,
                    )->0
                &&& block.hash@ == last_block_hash(txs@)
            } else {
                &&& r matches Err(BlockError::Transaction(at, fault))
                &&& at < txs@.len()
                &&& no_fault(txs@.take(at as int))
                &&& tx_fault(txs@[at as int]) == Some(fault)
            },
        },
{
    let coinbase: Transaction = match decode_hex(DUMMY_COINBASE) {
        Err(_) => {
            return Err(BlockError::Coinbase);
        },
        Ok(bytes) => match decode_transaction(bytes.as_slice()) {
            None => {
                return Err(BlockError::Coinbase);
            },
            Some(tx) => tx,
        },
    };
    proof {
        if let Some(bytes) = hex_bytes(header_hex@) {
            if bytes.len() == 80 {
                law_header_hex(header_hex@, bytes);
            }
        }
    }
    let mut raw: String = header_hex.to_string();
    raw.append("00");
    let header: Vec<u8> = match decode_hex(raw.as_str()) {
        Err(_) => {
            return Err(BlockError::HeaderHex);
        },
        Ok(bytes) => match decode_block_header(bytes.as_slice()) {
            None => {
                return Err(BlockError::Header);
            },
            Some(header) => header,
        },
    };
    let mut transactions: Vec<Transaction> = Vec::new();
    let mut hashes: Vec<BlockHash> = Vec::new();
    let mut i: usize = 0;
    while i < txs.len()
        invariant
            i <= txs@.len(),
            no_fault(txs@.take(i as int)),
            transactions@.len() == i,
            hashes@.len() == i,
            forall|j: int|
                0 <= j < i ==> (#[trigger] transactions@[j])@ == hex_transaction(
                    txs@[j].hex@,
                )->0,
            forall|j: int|
                0 <= j < i ==> (#[trigger] hashes@[j])@ == hash_bytes(txs@[j].block_hash@)->0,
            hex_transaction(DUMMY_COINBASE@) is Some,
            hex_bytes(empty_block_hex(header_hex@)) is Some,
            is_block(hex_bytes(empty_block_hex(header_hex@))->0),
        decreases txs@.len() - i,
    {
        match decode_fetched(&txs[i]) {
            Err(fault) => {
                return Err(BlockError::Transaction(i, fault));
            },
            Ok((tx, block_hash)) => {
                transactions.push(tx);
                hashes.push(block_hash);
            },
        }
        proof {
            let now = txs@.take(i + 1);
            assert(now.last() == txs@[i as int]);
            assert forall|j: int| 0 <= j < now.len() implies tx_fault(#[trigger] now[j]) is None by {
                if j < i {
                    assert(txs@.take(i as int)[j] == now[j]);
                }
            }
        }
        i = i + 1;
    }
    proof {
        assert(txs@.take(i as int) =~= txs@);
    }
    let ghost found = transactions@;
    let block: AssembledBlock = block_from_parts(header, coinbase, transactions, &hashes);
    proof {
        assert forall|j: int| 0 <= j < txs@.len() implies (#[trigger] block.txdata@[j + 1])@
            == hex_transaction(txs@[j].hex@)->0 by {
            assert(block.txdata@[j + 1] == found[j]);
        }
    }
    Ok(block)
}

/// 80 bytes in hexadecimal are the header of a block without transactions.
pub proof fn law_header_hex(header: Seq<char>, bytes: Seq<u8>)
    requires
        hex_bytes(header) == Some(bytes),
        bytes.len() == 80,
    ensures
        hex_bytes(empty_block_hex(header)) == Some(bytes.push(0)),
        bytes.push(0).len() == 81,
        bytes.push(0).take(80) == bytes,
{
    reveal_strlit("00");
    let s = empty_block_hex(header);
    assert(header.len() % 2 == 0 && header.len() / 2 == 80);
    assert(s.len() == 162);
    assert forall|i: int| 0 <= i < s.len() implies is_hex_digit(#[trigger] s[i]) by {
        if i < 160 {
            assert(is_hex_digit(header[i]));
        }
    }
    assert forall|i: int| 0 <= i < 81 implies (16 * hex_value(s[2 * i]) + hex_value(
        s[2 * i + 1],
    )) as u8 == #[trigger] bytes.push(0)[i] by {
        if i < 80 {
            assert(s[2 * i] == header[2 * i] && s[2 * i + 1] == header[2 * i + 1]);
            assert(bytes[i] == hex_bytes(header)->0[i]);
        }
    }
    assert(hex_bytes(s)->0 =~= bytes.push(0));
    assert(bytes.push(0).take(80) =~= bytes);
}

/// The hash of a block is that of the block in which the last of the transactions is; it is all
/// zeros only if there is none.
pub proof fn law_block_hash(
    header_hex: &str,
    txs: &Vec<FetchedTx>,
    r: Result<AssembledBlock, BlockError>,
)
    requires
        call_ensures(assemble_block, (header_hex, txs), r),
    ensures
        r matches Ok(block) ==> {
            &&& txs@.len() > 0 ==> hash_bytes(txs@.last().block_hash@) == Some(block.hash.bytes@)
            &&& txs@.len() == 0 ==> forall|i: int|
                0 <= i < 32 ==> #[trigger] block.hash.bytes@[i] == 0
        },
{
    if txs@.len() > 0 && r is Ok {
        assert(tx_fault(txs@[txs@.len() - 1]) is None);
    }
}

/// A block holds the header, the coinbase that stands in, and every transaction in its order,
/// each decoded from the text that was sent for it; all of them could be decoded.
pub proof fn law_assembled(
    header_hex: &str,
    txs: &Vec<FetchedTx>,
    r: Result<AssembledBlock, BlockError>,
)
    requires
        call_ensures(assemble_block, (header_hex, txs), r),
    ensures
        r matches Ok(block) ==> {
            &&& hex_bytes(header_hex@ + "00"@) matches Some(bytes) && is_block(bytes)
                && block.header@ == bytes.take(80)
            &&& hex_bytes(DUMMY_COINBASE@) matches Some(bytes) && decoded(bytes) == Some(
                block.txdata@[0]@,
            )
            &&& block.txdata@.len() == txs@.len() + 1
            &&& forall|i: int|
                #![trigger txs@[i]]
                0 <= i < txs@.len() ==> hex_bytes(txs@[i].hex@) is Some && decoded(
                    hex_bytes(txs@[i].hex@)->0,
                ) == Some(block.txdata@[i + 1]@)
            &&& forall|i: int|
                0 <= i < txs@.len() ==> hash_bytes((#[trigger] txs@[i]).block_hash@) is Some
        },
{
    if let Ok(block) = r {
        assert forall|i: int|
            #![trigger txs@[i]]
            0 <= i < txs@.len() implies hex_bytes(txs@[i].hex@) is Some && decoded(
            hex_bytes(txs@[i].hex@)->0,
        ) == Some(block.txdata@[i + 1]@) && hash_bytes(txs@[i].block_hash@) is Some by {
            assert(tx_fault(txs@[i]) is None);
        }
    }
}

/// A block is put together whenever the header is 80 bytes in hexadecimal and everything can be
/// decoded, and the header of the block is then those bytes.
pub proof fn law_good_parts_assemble(
    header_hex: &str,
    header: Seq<u8>,
    txs: &Vec<FetchedTx>,
    r: Result<AssembledBlock, BlockError>,
)
    requires
        call_ensures(assemble_block, (header_hex, txs), r),
        hex_bytes(header_hex@) == Some(header),
        header.len() == 80,
        hex_bytes(DUMMY_COINBASE@) matches Some(bytes) && decoded(bytes) is Some,
        forall|i: int|
            #![trigger txs@[i]]
            0 <= i < txs@.len() ==> hex_bytes(txs@[i].hex@) is Some && decoded(
                hex_bytes(txs@[i].hex@)->0,
            ) is Some && hash_bytes(txs@[i].block_hash@) is Some,
    ensures
        r matches Ok(block) && block.header@ == header,
{
    law_header_hex(header_hex@, header);
    assert(no_fault(txs@)) by {
        assert forall|i: int| 0 <= i < txs@.len() implies tx_fault(#[trigger] txs@[i]) is None by {
            assert(hex_bytes(txs@[i].hex@) is Some);
        }
    }
}

/// A block is refused for the first transaction that is of no use, and for what comes first
/// with it: the hexadecimal text, the transaction, or the hash of its block.
pub proof fn law_first_fault(
    header_hex: &str,
    header: Seq<u8>,
    txs: &Vec<FetchedTx>,
    at: int,
    r: Result<AssembledBlock, BlockError>,
)
    requires
        call_ensures(assemble_block, (header_hex, txs), r),
        hex_bytes(header_hex@) == Some(header),
        header.len() == 80,
        hex_bytes(DUMMY_COINBASE@) matches Some(bytes) && decoded(bytes) is Some,
        0 <= at < txs@.len(),
        forall|i: int|
            #![trigger txs@[i]]
            0 <= i < at ==> hex_bytes(txs@[i].hex@) is Some && decoded(
                hex_bytes(txs@[i].hex@)->0,
            ) is Some && hash_bytes(txs@[i].block_hash@) is Some,
    ensures
        hex_bytes(txs@[at].hex@) is None ==> (r matches Err(BlockError::Transaction(i, fault)) && i
            == at && fault == TxFault::Hex),
        hex_bytes(txs@[at].hex@) matches Some(bytes) ==> decoded(bytes) is None ==> (
        r matches Err(BlockError::Transaction(i, fault)) && i == at && fault == TxFault::Decode),
        hex_bytes(txs@[at].hex@) matches Some(bytes) ==> decoded(bytes) is Some && hash_bytes(
            txs@[at].block_hash@,
        ) is None ==> (r matches Err(BlockError::Transaction(i, fault)) && i == at && fault
            == TxFault::BlockHash),
{
    if tx_fault(txs@[at]) is Some {
        assert(!no_fault(txs@));
        if let Err(BlockError::Transaction(i, fault)) = r {
            if i < at {
                assert(hex_bytes(txs@[i as int].hex@) is Some);
            } else if i > at {
                assert(txs@.take(i as int)[at] == txs@[at]);
            }
        }
    }
}

/// Once the coinbase is decoded, a block is refused for its header if and only if the header
/// with a count of zero behind it is not hexadecimal, or is no block.
pub proof fn law_bad_header(
    header_hex: &str,
    txs: &Vec<FetchedTx>,
    r: Result<AssembledBlock, BlockError>,
)
    requires
        call_ensures(assemble_block, (header_hex, txs), r),
    ensures
        (r matches Err(BlockError::Coinbase)) <==> !(hex_bytes(DUMMY_COINBASE@) matches Some(bytes)
            && decoded(bytes) is Some),
        !(r matches Err(BlockError::Coinbase)) ==> {
            &&& (r matches Err(BlockError::HeaderHex)) <==> hex_bytes(header_hex@ + "00"@) is None
            &&& (r matches Err(BlockError::Header)) <==> (hex_bytes(
                header_hex@ + "00"@,
            ) matches Some(bytes) && !is_block(bytes))
        },
{
}

/// The parts of a block keep their order, with the coinbase first; its hash is the last one that
/// was given, and all zeros if there is none.
pub proof fn law_block_from_parts(
    header: Vec<u8>,
    coinbase: Transaction,
    transactions: Vec<Transaction>,
    hashes: &Vec<BlockHash>,
    r: AssembledBlock,
)
    requires
        call_ensures(block_from_parts, (header, coinbase, transactions, hashes), r),
    ensures
        r.header == header,
        r.txdata@.len() == transactions@.len() + 1,
        r.txdata@[0] == coinbase,
        forall|i: int|
            #![trigger transactions@[i]]
            0 <= i < transactions@.len() ==> r.txdata@[i + 1] == transactions@[i],
        hashes@.len() > 0 ==> r.hash.bytes@ == hashes@.last().bytes@,
        hashes@.len() == 0 ==> forall|i: int| 0 <= i < 32 ==> #[trigger] r.hash.bytes@[i] == 0,
{
}

} // verus!
