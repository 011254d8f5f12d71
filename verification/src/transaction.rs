//! Transactions, as far as a scan reads them.

use vstd::prelude::*;

use crate::bytes::{copy_bytes, decode_hex, hex_bytes, hex_error, Txid};
use crate::text::texts;
use bitcoin::consensus::{serialize, Decodable};

verus! {

/// An output of an earlier transaction.
#[derive(Clone, Copy, Debug, PartialEq, Eq)]
pub struct OutPoint {
    pub txid: Txid,
    pub vout: u32,
}

/// An output: an amount in satoshis and the script that guards it.
#[derive(Clone, Debug, PartialEq, Eq)]
pub struct TxOut {
    pub value: u64,
    pub script_pubkey: Vec<u8>,
}

/// A transaction: its id, the outputs that it spends, the outputs that it makes, and its
/// consensus encoding.
#[derive(Clone, Debug, PartialEq, Eq)]
pub struct Transaction {
    pub txid: Txid,
    pub input: Vec<OutPoint>,
    pub output: Vec<TxOut>,
    pub raw: Vec<u8>,
}

pub struct OutPointView {
    pub txid: Seq<u8>,
    pub vout: u32,
}

#[verifier::ext_equal]
pub struct TxOutView {
    pub value: u64,
    pub script_pubkey: Seq<u8>,
}

#[verifier::ext_equal]
pub struct TransactionView {
    pub txid: Seq<u8>,
    pub input: Seq<OutPointView>,
    pub output: Seq<TxOutView>,
    pub raw: Seq<u8>,
}

impl View for OutPoint {
    type V = OutPointView;

    open spec fn view(&self) -> OutPointView {
        OutPointView { txid: self.txid@, vout: self.vout }
    }
}

impl View for TxOut {
    type V = TxOutView;

    open spec fn view(&self) -> TxOutView {
        TxOutView { value: self.value, script_pubkey: self.script_pubkey@ }
    }
}

/// What a list of outputs holds.
pub open spec fn outputs_view(outputs: Seq<TxOut>) -> Seq<TxOutView> {
    outputs.map_values(|o: TxOut| o@)
}

impl View for Transaction {
    type V = TransactionView;

    open spec fn view(&self) -> TransactionView {
        TransactionView {
            txid: self.txid@,
            input: self.input@.map_values(|o: OutPoint| o@),
            output: outputs_view(self.output@),
            raw: self.raw@,
        }
    }
}

/// The transaction whose consensus encoding some bytes are.
pub uninterp spec fn decoded(bytes: Seq<u8>) -> Option<TransactionView>;

/// The transaction whose consensus encoding some bytes begin with, or why there is none: the
/// text of the error, and those of its causes.
pub uninterp spec fn decoded_prefix(bytes: Seq<u8>) -> Result<TransactionView, Seq<Seq<char>>>;

/// `bitcoin::consensus::deserialize::<bitcoin::Transaction>`, with the `compute_txid`, the
/// inputs, the outputs and the encoding of the transaction; all of it follows from the
/// bytes.
#[verifier::external_body]
pub(crate) fn decode_transaction(bytes: &[u8]) -> (r: Option<Transaction>)
    ensures
        r is Some <==> decoded(bytes@) is Some,
        r matches Some(tx) ==> tx@ == decoded(bytes@)->0,
{
    let tx: bitcoin::Transaction = bitcoin::consensus::deserialize(bytes).ok()?;
    let outpoint = |i: &bitcoin::TxIn| OutPoint {
        txid: Txid { bytes: *i.previous_output.txid.as_ref() },
        vout: i.previous_output.vout,
    };
    let out = |o: &bitcoin::TxOut| TxOut {
        value: o.value.to_sat(),
        script_pubkey: o.script_pubkey.to_bytes(),
    };
    let txid = Txid { bytes: *tx.compute_txid().as_ref() };
    let raw = serialize(&tx);
    let input = tx.input.iter().map(outpoint).collect();
    Some(Transaction { txid, input, output: tx.output.iter().map(out).collect(), raw })
}

/// `bitcoin::Transaction::consensus_decode_from_finite_reader` on bytes, of which some may
/// be left over, with the `compute_txid`, the inputs, the outputs and the encoding of the
/// transaction, or with the text of the error and those of its causes, one after the other
/// as `anyhow::Error::chain` goes through them; all of it follows from the bytes.
#[verifier::external_body]
fn decode_transaction_prefix(bytes: &[u8]) -> (r: Result<Transaction, Vec<String>>)
    ensures
        r is Ok <==> decoded_prefix(bytes@) is Ok,
        r matches Ok(tx) ==> tx@ == decoded_prefix(bytes@)->Ok_0,
        r matches Err(reasons) ==> texts(reasons@) == decoded_prefix(bytes@)->Err_0,
{
    let outpoint = |i: &bitcoin::TxIn| OutPoint {
        txid: Txid { bytes: *i.previous_output.txid.as_ref() },
        vout: i.previous_output.vout,
    };
    let out = |o: &bitcoin::TxOut| TxOut {
        value: o.value.to_sat(),
        script_pubkey: o.script_pubkey.to_bytes(),
    };
    let read = bitcoin::Transaction::consensus_decode_from_finite_reader(&mut &bytes[..]);
    read.map(|tx| Transaction {
        txid: Txid { bytes: *tx.compute_txid().as_ref() },
        input: tx.input.iter().map(outpoint).collect(),
        output: tx.output.iter().map(out).collect(),
        raw: serialize(&tx),
    }).map_err(|e| anyhow::Error::new(e).chain().map(ToString::to_string).collect())
}

impl TxOut {
    pub fn copy(&self) -> (r: TxOut)
        ensures
            r@ == self@,
    {
        TxOut { value: self.value, script_pubkey: copy_bytes(self.script_pubkey.as_slice()) }
    }
}

/// Where the transaction of a command comes from.
#[derive(Clone, Debug, PartialEq, Eq)]
pub enum TxSource {
    /// It was given in hexadecimal.
    Hex(String),
    /// It is asked from a node.
    Node(Txid),
}

/// Why there is no transaction.
#[derive(Clone, Debug, PartialEq, Eq)]
pub enum TxError {
    /// Neither a transaction nor an id was given.
    Missing,
    /// The text is not hexadecimal: the text of the error, and those of its causes.
    Hex(Vec<String>),
    /// The bytes are no transaction: the text of the error, and those of its causes.
    Decode(Vec<String>),
}

impl TxError {
    /// What the error says, and after it what its causes say.
    pub open spec fn spec_messages(self) -> Seq<Seq<char>> {
        match self {
            TxError::Missing => seq!["Should provide a txid to request tx or the serialized tx"@],
            TxError::Hex(reasons) => texts(reasons@),
            TxError::Decode(reasons) => texts(reasons@),
        }
    }

    pub fn messages(self) -> (r: Vec<String>)
        ensures
            texts(r@) == self.spec_messages(),
    {
        match self {
            TxError::Missing => {
                let mut messages: Vec<String> = Vec::new();
                messages.push(
                    "Should provide a txid to request tx or the serialized tx".to_string(),
                );
                proof {
                    assert(texts(messages@) =~= self.spec_messages());
                }
                messages
            },
            TxError::Hex(reasons) => reasons,
            TxError::Decode(reasons) => reasons,
        }
    }
}

/// Where to take the transaction from: what was given in hexadecimal comes first.
pub fn transaction_source(tx_hex: Option<String>, txid: Option<Txid>) -> (r: Result<
    TxSource,
    TxError,
>)
    ensures
        match (tx_hex, txid) {
            (Some(hex), _) => r == Ok::<TxSource, TxError>(TxSource::Hex(hex)),
            (None, Some(id)) => r == Ok::<TxSource, TxError>(TxSource::Node(id)),
            (None, None) => r == Err::<TxSource, TxError>(TxError::Missing),
        },
{
    match tx_hex {
        Some(hex) => Ok(TxSource::Hex(hex)),
        None => match txid {
            Some(id) => Ok(TxSource::Node(id)),
            None => Err(TxError::Missing),
        },
    }
}

/// The transaction that a hexadecimal text begins with.
pub fn transaction_from_hex(hex: &str) -> (r: Result<Transaction, TxError>)
    ensures
        match hex_bytes(hex@) {
            None => r matches Err(TxError::Hex(reasons)) && texts(reasons@) == hex_error(hex@),
            Some(bytes) => match decoded_prefix(bytes) {
                Err(why) => r matches Err(TxError::Decode(reasons)) && texts(reasons@) == why,
                Ok(view) => r matches Ok(tx) && tx@ == view,
            },
        },
{
    match decode_hex(hex) {
        Err(reasons) => Err(TxError::Hex(reasons)),
        Ok(bytes) => match decode_transaction_prefix(bytes.as_slice()) {
            Err(reasons) => Err(TxError::Decode(reasons)),
            Ok(tx) => Ok(tx),
        },
    }
}

/// A pay-to-taproot script: a push of 32 bytes after the opcode of witness version one.
pub open spec fn is_taproot(script: Seq<u8>) -> bool {
    script.len() == 34 && script[0] == 0x51 && script[1] == 0x20
}

pub fn is_p2tr(script: &Vec<u8>) -> (r: bool)
    ensures
        r == is_taproot(script@),
{
    script.len() == 34 && script[0] == 0x51 && script[1] == 0x20
}

/// What is said of a transaction speaks of each of its fields: the id, the inputs, the outputs
/// and the encoding, in their order.
pub proof fn law_views(tx: Transaction)
    ensures
        tx@.txid == tx.txid.bytes@,
        tx@.raw == tx.raw@,
        tx@.input.len() == tx.input@.len(),
        tx@.output.len() == tx.output@.len(),
        forall|i: int|
            0 <= i < tx.input@.len() ==> (#[trigger] tx@.input[i]).txid == tx.input@[i].txid.bytes@
                && tx@.input[i].vout == tx.input@[i].vout,
        forall|i: int|
            0 <= i < tx.output@.len() ==> (#[trigger] tx@.output[i]).value == tx.output@[i].value
                && tx@.output[i].script_pubkey == tx.output@[i].script_pubkey@,
{
}

/// A copy of an output has its amount and its script.
pub proof fn law_copy(output: TxOut, r: TxOut)
    requires
        call_ensures(TxOut::copy, (&output,), r),
    ensures
        r.value == output.value,
        r.script_pubkey@ == output.script_pubkey@,
{
    assert(r@ == output@);
}

/// A transaction that was given comes before an id, and one of the two is needed.
pub proof fn law_transaction_source(
    tx_hex: Option<String>,
    txid: Option<Txid>,
    r: Result<TxSource, TxError>,
)
    requires
        call_ensures(transaction_source, (tx_hex, txid), r),
    ensures
        tx_hex matches Some(hex) ==> (r matches Ok(TxSource::Hex(h)) && h == hex),
        tx_hex is None ==> (txid matches Some(id) ==> r matches Ok(TxSource::Node(t)) && t == id),
        tx_hex is None && txid is None ==> (r matches Err(TxError::Missing)),
{
}

/// A text that is no transaction is refused for the one of two reasons, and any other gives the
/// transaction that its bytes begin with.
pub proof fn law_transaction_from_hex(hex: &str, r: Result<Transaction, TxError>)
    requires
        call_ensures(transaction_from_hex, (hex,), r),
    ensures
        (r matches Err(TxError::Hex(_))) <==> hex_bytes(hex@) is None,
        r matches Err(TxError::Hex(reasons)) ==> texts(reasons@) == hex_error(hex@),
        hex_bytes(hex@) matches Some(bytes) ==> {
            &&& r is Ok <==> decoded_prefix(bytes) is Ok
            &&& r matches Ok(tx) ==> tx@ == decoded_prefix(bytes)->Ok_0
            &&& decoded_prefix(bytes) matches Err(why) ==> (r matches Err(TxError::Decode(reasons))
                && texts(reasons@) == why)
        },
{
}

/// An error says what it was made with; one for a missing transaction says so in one message.
pub proof fn law_messages(error: TxError, r: Vec<String>)
    requires
        call_ensures(TxError::messages, (error,), r),
    ensures
        error matches TxError::Hex(reasons) ==> texts(r@) == texts(reasons@),
        error matches TxError::Decode(reasons) ==> texts(r@) == texts(reasons@),
        error is Missing ==> r@.len() == 1 && r@[0]@
            == "Should provide a txid to request tx or the serialized tx"@,
{
    if error is Missing {
        assert(texts(r@).len() == r@.len());
        assert(error.spec_messages().len() == 1);
        assert(texts(r@)[0] == r@[0]@);
    }
}

/// A script is taproot if and only if it is 34 bytes long and begins with the two bytes for
/// witness version one and a push of 32 bytes.
pub proof fn law_is_p2tr(script: &Vec<u8>, r: bool)
    requires
        call_ensures(is_p2tr, (script,), r),
    ensures
        r == is_taproot(script@),
        r <==> script@.len() == 34 && script@[0] == 0x51 && script@[1] == 0x20,
{
}

} // verus!
