//! A new transaction: what it pays, to whom, and on what terms.

use vstd::prelude::*;

use crate::bytes::{copy_bytes, same_bytes, PublicKey, SecretKey};
use crate::network::Network;
use crate::recipient::{Address, SilentPaymentCode};
use crate::transaction::{outputs_view, TxOut, TxOutView};
use bitcoin::script::PushBytesBuf;

verus! {

/// The bytes of a text in UTF-8.
pub open spec fn text_bytes(s: Seq<char>) -> Seq<u8> {
    vstd::utf8::encode_utf8(s)
}

/// The opcode and the length that go before a push of `n` bytes.
pub open spec fn push_prefix(n: int) -> Seq<u8> {
    if n < 0x4c {
        seq![n as u8]
    } else if n < 0x100 {
        seq![0x4cu8, n as u8]
    } else if n < 0x10000 {
        seq![0x4du8, (n % 0x100) as u8, (n / 0x100) as u8]
    } else {
        seq![
            0x4eu8,
            (n % 0x100) as u8,
            (n / 0x100 % 0x100) as u8,
            (n / 0x10000 % 0x100) as u8,
            (n / 0x1000000) as u8,
        ]
    }
}

/// The script that carries data and cannot be spent.
pub open spec fn data_script(data: Seq<u8>) -> Seq<u8> {
    seq![0x6au8] + push_prefix(data.len() as int) + data
}

/// `bitcoin::ScriptBuf::new_op_return` of a `PushBytesBuf`: the opcode `OP_RETURN` and a
/// push of the data, which is shorter than 2^32 bytes.
#[verifier::external_body]
fn op_return_script(data: Vec<u8>) -> (r: Vec<u8>)
    requires
        data@.len() < 0x1_0000_0000,
    ensures
        r@ == data_script(data@),
{
    bitcoin::ScriptBuf::new_op_return(PushBytesBuf::try_from(data).unwrap()).into_bytes()
}

/// The size of the count that goes before a sequence of `n` items.
pub open spec fn count_size(n: int) -> int {
    if n < 0xfd {
        1
    } else if n < 0x1_0000 {
        3
    } else if n < 0x1_0000_0000 {
        5
    } else {
        9
    }
}

/// The size of a script in a transaction.
pub open spec fn script_size(script: Seq<u8>) -> int {
    count_size(script.len() as int) + script.len()
}

/// A script that carries data and cannot be spent.
pub open spec fn is_data(script: Seq<u8>) -> bool {
    script.len() > 0 && script[0] == 0x6a
}

/// A witness program: a version and a push of 2 to 40 bytes.
pub open spec fn is_witness_program(script: Seq<u8>) -> bool {
    &&& 4 <= script.len() <= 42
    &&& script[0] == 0 || 0x51 <= script[0] <= 0x60
    &&& script[1] == script.len() - 2
}

/// The smallest amount that is worth spending from an output with this script, at three
/// satoshis for each byte of the output and of the input that spends it.
pub open spec fn dust_limit(script: Seq<u8>) -> int {
    3000 * (if is_data(script) {
        0
    } else if is_witness_program(script) {
        75 + script_size(script)
    } else {
        156 + script_size(script)
    }) / 1000
}

/// `bitcoin::Script::minimal_non_dust`, in satoshis; it multiplies the sizes by the fee
/// rate before it divides, and the product has to be a 64-bit number.
#[verifier::external_body]
fn minimal_non_dust(script: &Vec<u8>) -> (r: u64)
    requires
        3000 * (156 + script_size(script@)) <= u64::MAX,
    ensures
        r == dust_limit(script@),
{
    bitcoin::Script::from_bytes(script).minimal_non_dust().to_sat()
}

/// The weight of an output with this script: four units for each byte.
pub open spec fn output_weight(script: Seq<u8>) -> int {
    4 * (8 + script_size(script))
}

/// `bitcoin::TxOut::weight`, in weight units, which has to be a 64-bit number.
#[verifier::external_body]
fn txout_weight(script: &Vec<u8>) -> (r: u64)
    requires
        4 * (8 + script_size(script@)) <= u64::MAX,
    ensures
        r == output_weight(script@),
{
    let script_pubkey = bitcoin::ScriptBuf::from_bytes(script.clone());
    bitcoin::TxOut { script_pubkey, value: bitcoin::Amount::ZERO }.weight().to_wu()
}

/// `bitcoin::FeeRate::from_sat_per_vb_unchecked`, in satoshis for a thousand weight units:
/// a virtual byte is four of them.
#[allow(deprecated)]
#[verifier::external_body]
fn fee_per_kwu(sat_per_vb: u64) -> (r: u64)
    requires
        sat_per_vb * 250 <= u64::MAX,
    ensures
        r == sat_per_vb * 250,
{
    bitcoin::FeeRate::from_sat_per_vb_unchecked(sat_per_vb).to_sat_per_kwu()
}

/// The public key for a secret key; not every number is one.
pub uninterp spec fn public_key_for(secret: Seq<u8>) -> Option<Seq<u8>>;

/// `bitcoin::PrivateKey::public_key` of a secret key, which does not depend on the
/// network; it follows from the bytes of the secret key.
#[verifier::external_body]
fn derive_public_key(secret: &SecretKey) -> (r: Option<PublicKey>)
    ensures
        r is Some <==> public_key_for(secret@) is Some,
        r matches Some(key) ==> key@ == public_key_for(secret@)->0,
{
    let secp = bitcoin::key::Secp256k1::new();
    let inner = bitcoin::secp256k1::SecretKey::from_slice(&secret.bytes).ok()?;
    let private = bitcoin::PrivateKey::new(inner, bitcoin::NetworkKind::Main);
    Some(PublicKey { bytes: private.public_key(&secp).inner.serialize() })
}

/// Whether the secret key is the one behind the wallet's public spend key.
pub fn spend_key_matches(secret: &SecretKey, public: &PublicKey) -> (r: bool)
    ensures
        r == (public_key_for(secret@) == Some(public@)),
{
    match derive_public_key(secret) {
        Some(key) => same_bytes(key.bytes.as_slice(), public.bytes.as_slice()),
        None => false,
    }
}

/// When a transaction gets a change output, and what that output weighs.
#[derive(Clone, Copy, Debug, PartialEq, Eq, Structural)]
pub struct ChangePolicy {
    pub min_value: u64,
    pub output_weight: u64,
    pub spend_weight: u64,
    pub n_outputs: usize,
}

/// The script is short enough for its weight and its dust limit to be computed.
pub open spec fn measurable(script: Seq<u8>) -> bool {
    3000 * (156 + script_size(script)) <= u64::MAX
}

/// The policy for change to a script: one output, of no less than the dust limit, that
/// will take `spend_weight` to spend.
pub fn change_policy(script: &Vec<u8>, spend_weight: u64) -> (r: ChangePolicy)
    requires
        measurable(script@),
    ensures
        r.min_value == dust_limit(script@),
        r.output_weight == output_weight(script@),
        r.spend_weight == spend_weight,
        r.n_outputs == 1,
{
    ChangePolicy {
        min_value: minimal_non_dust(script),
        output_weight: txout_weight(script),
        spend_weight,
        n_outputs: 1,
    }
}

/// The fee rates of a transaction, in satoshis for a thousand weight units: the one to
/// pay, and the one that is expected in the long term, at a satoshi for a virtual byte.
pub fn fee_rates(sat_per_vb: u64) -> (r: (u64, u64))
    requires
        sat_per_vb * 250 <= u64::MAX,
    ensures
        r.0 == sat_per_vb * 250,
        r.1 == 250,
{
    (fee_per_kwu(sat_per_vb), fee_per_kwu(1))
}

/// What a new transaction pays: its outputs, and the silent payment codes behind them,
/// of which the first one is for change.
#[derive(Clone, Debug, PartialEq, Eq)]
pub struct PaymentPlan {
    pub outputs: Vec<TxOut>,
    pub sp_recipients: Vec<SilentPaymentCode>,
}

/// What an optional list holds, with nothing for a list that was not given.
pub open spec fn listed<T>(list: Option<Vec<T>>) -> Seq<T> {
    match list {
        Some(items) => items@,
        None => Seq::empty(),
    }
}

/// Every address may be paid on the network.
pub open spec fn all_on_network(addresses: Seq<(Address, u64)>, network: Network) -> bool {
    forall|i: int|
        0 <= i < addresses.len() ==> (#[trigger] addresses[i]).0.networks.has_network(network)
}

/// Whether every address may be paid on the network.
pub fn addresses_on_network(addresses: &Option<Vec<(Address, u64)>>, network: Network) -> (r: bool)
    ensures
        r == all_on_network(listed(*addresses), network),
{
    match addresses {
        None => true,
        Some(list) => {
            let mut i: usize = 0;
            while i < list.len()
                invariant
                    listed(*addresses) == list@,
                    i <= list@.len(),
                    all_on_network(list@.take(i as int), network),
                decreases list@.len() - i,
            {
                if !list[i].0.networks.contains(network) {
                    proof {
                        assert(!list@[i as int].0.networks.has_network(network));
                    }
                    return false;
                }
                proof {
                    let now = list@.take(i + 1);
                    assert forall|j: int| 0 <= j < now.len() implies (
                    #[trigger] now[j]).0.networks.has_network(network) by {
                        if j < i {
                            assert(list@.take(i as int)[j] == now[j]);
                        }
                    }
                }
                i = i + 1;
            }
            proof {
                assert(list@.take(i as int) =~= list@);
            }
            true
        },
    }
}

/// The outputs for some addresses.
pub open spec fn address_outputs(addresses: Seq<(Address, u64)>) -> Seq<TxOutView> {
    addresses.map_values(
        |p: (Address, u64)| TxOutView { value: p.1, script_pubkey: p.0.script_pubkey@ },
    )
}

/// The outputs for some silent payment codes, with the placeholder scripts that are
/// replaced once the inputs are known.
pub open spec fn code_outputs(codes: Seq<(SilentPaymentCode, u64)>) -> Seq<TxOutView> {
    codes.map_values(
        |p: (SilentPaymentCode, u64)|
            TxOutView { value: p.1, script_pubkey: p.0.placeholder_script@ },
    )
}

/// The output for data that goes with the payment.
pub open spec fn data_outputs(data: Option<String>) -> Seq<TxOutView> {
    match data {
        Some(text) => seq![
            TxOutView { value: 0, script_pubkey: data_script(text_bytes(text@)) },
        ],
        None => Seq::empty(),
    }
}

/// The first code that may not be paid on the network is at `i`.
pub open spec fn first_off_network(
    codes: Seq<(SilentPaymentCode, u64)>,
    network: Network,
    i: int,
) -> bool {
    &&& 0 <= i < codes.len()
    &&& !codes[i].0.networks.has_network(network)
    &&& forall|j: int| 0 <= j < i ==> (#[trigger] codes[j]).0.networks.has_network(network)
}

/// Every code may be paid on the network.
pub open spec fn codes_on_network(
    codes: Seq<(SilentPaymentCode, u64)>,
    network: Network,
) -> bool {
    forall|i: int|
        0 <= i < codes.len() ==> (#[trigger] codes[i]).0.networks.has_network(network)
}

/// The message on a code for another network.
pub open spec fn off_network_text(code: Seq<char>, network: Network) -> Seq<char> {
    "silent payment code "@ + code + " cannot be paid from a "@ + network.spec_name() + " wallet"@
}

fn off_network_message(code: &str, network: Network) -> (r: String)
    ensures
        r@ == off_network_text(code@, network),
{
    let mut message: String = "silent payment code ".to_string();
    message.append(code);
    message.append(" cannot be paid from a ");
    message.append(network.name());
    message.append(" wallet");
    message
}

/// The data is short enough to be pushed in a script.
pub open spec fn data_fits(data: Option<String>) -> bool {
    data matches Some(text) ==> text_bytes(text@).len() < 0x1_0000_0000
}

/// Whether the data is short enough to be pushed in a script.
pub fn has_fitting_data(data: &Option<String>) -> (r: bool)
    ensures
        r == data_fits(*data),
{
    match data {
        Some(text) => text.as_str().as_bytes().len() as u64 <= 0xffff_ffff,
        None => true,
    }
}

/// The outputs for the addresses of a payment.
fn pay_addresses(addresses: Option<Vec<(Address, u64)>>, network: Network) -> (r: Vec<TxOut>)
    requires
        all_on_network(listed(addresses), network),
    ensures
        outputs_view(r@) == address_outputs(listed(addresses)),
{
    let mut outputs: Vec<TxOut> = Vec::new();
    if let Some(list) = addresses {
        let mut rest: Vec<(Address, u64)> = list;
        let ghost all = rest@;
        while rest.len() > 0
            invariant
                all_on_network(all, network),
                rest@ == all.skip(outputs@.len() as int),
                outputs@.len() <= all.len(),
                outputs_view(outputs@) == address_outputs(all.take(outputs@.len() as int)),
            decreases rest@.len(),
        {
            let ghost n = outputs@.len() as int;
            let ghost before = outputs_view(outputs@);
            let (address, value): (Address, u64) = rest.remove(0);
            proof {
                assert(all[n] == (address, value));
                assert(all[n].0.networks.has_network(network));
            }
            let script_pubkey: Vec<u8> = address.require_network(network).unwrap();
            outputs.push(TxOut { value, script_pubkey });
            proof {
                assert(rest@ =~= all.skip(n + 1));
                assert(outputs_view(outputs@) =~= before.push(outputs@.last()@));
                assert(address_outputs(all.take(n + 1)) =~= address_outputs(all.take(n)).push(
                    outputs@.last()@,
                ));
            }
        }
        proof {
            assert(all.take(outputs@.len() as int) =~= all);
        }
    } else {
        proof {
            assert(outputs_view(outputs@) =~= address_outputs(listed(addresses)));
        }
    }
    outputs
}

/// The outputs and the recipients of a payment: addresses first, silent payment codes
/// after them, and the data that goes with it last. There is nothing to do without
/// recipients; a code for another network is refused.
pub fn plan_payment(
    addresses: Option<Vec<(Address, u64)>>,
    sp_codes: Option<Vec<(SilentPaymentCode, u64)>>,
    data: Option<String>,
    change: SilentPaymentCode,
    network: Network,
) -> (r: Result<Option<PaymentPlan>, String>)
    requires
        all_on_network(listed(addresses), network),
        codes_on_network(listed(sp_codes), network) && listed(addresses).len() + listed(
            sp_codes,
        ).len() > 0 ==> data_fits(data),
    ensures
        ({
            let codes = listed(sp_codes);
            let paid = address_outputs(listed(addresses)) + code_outputs(codes);
            if codes_on_network(codes, network) {
                if paid.len() == 0 {
                    r matches Ok(None)
                } else {
                    &&& r matches Ok(Some(plan))
                    &&& outputs_view(plan.outputs@) == paid + data_outputs(data)
                    &&& plan.sp_recipients@ == seq![change] + codes.map_values(
                        |p: (SilentPaymentCode, u64)| p.0,
                    )
                }
            } else {
                r matches Err(message) && exists|i: int| #[trigger]
                    first_off_network(codes, network, i) && message@ == off_network_text(
                        codes[i].0.text@,
                        network,
                    )
            }
        }),
{
    let ghost codes = listed(sp_codes);
    let ghost to_addresses = address_outputs(listed(addresses));
    let mut outputs: Vec<TxOut> = pay_addresses(addresses, network);
    let mut sp_recipients: Vec<SilentPaymentCode> = Vec::new();
    sp_recipients.push(change);
    let mut rest: Vec<(SilentPaymentCode, u64)> = match sp_codes {
        Some(list) => list,
        None => Vec::new(),
    };
    let ghost mut n: int = 0;
    let ghost receiver = |p: (SilentPaymentCode, u64)| p.0;
    proof {
        assert(rest@ =~= codes.skip(0));
        assert(outputs_view(outputs@) =~= to_addresses + code_outputs(codes.take(0)));
        assert(sp_recipients@ =~= seq![change] + codes.take(0).map_values(receiver));
    }
    while rest.len() > 0
        invariant
            codes == listed(sp_codes),
            to_addresses == address_outputs(listed(addresses)),
            receiver == (|p: (SilentPaymentCode, u64)| p.0),
            0 <= n <= codes.len(),
            rest@ == codes.skip(n),
            codes_on_network(codes.take(n), network),
            outputs_view(outputs@) == to_addresses + code_outputs(codes.take(n)),
            sp_recipients@ == seq![change] + codes.take(n).map_values(receiver),
        decreases rest@.len(),
    {
        let ghost before = outputs_view(outputs@);
        let ghost known = sp_recipients@;
        let (code, value): (SilentPaymentCode, u64) = rest.remove(0);
        proof {
            assert(codes[n] == (code, value));
        }
        if !code.networks.contains(network) {
            proof {
                assert forall|j: int| 0 <= j < n implies (
                #[trigger] codes[j]).0.networks.has_network(network) by {
                    assert(codes.take(n)[j] == codes[j]);
                }
                assert(first_off_network(codes, network, n));
                assert(!codes_on_network(codes, network));
            }
            return Err(off_network_message(code.text.as_str(), network));
        }
        let script_pubkey: Vec<u8> = copy_bytes(code.placeholder_script.as_slice());
        outputs.push(TxOut { value, script_pubkey });
        sp_recipients.push(code);
        proof {
            let now = codes.take(n + 1);
            assert(rest@ =~= codes.skip(n + 1));
            assert forall|j: int| 0 <= j < now.len() implies (
            #[trigger] now[j]).0.networks.has_network(network) by {
                if j < n {
                    assert(codes.take(n)[j] == now[j]);
                }
            }
            assert(outputs_view(outputs@) =~= before.push(outputs@.last()@));
            assert(code_outputs(now) =~= code_outputs(codes.take(n)).push(outputs@.last()@));
            assert(to_addresses + code_outputs(now) =~= before.push(outputs@.last()@));
            assert(now.map_values(receiver) =~= codes.take(n).map_values(receiver).push(code));
            assert(sp_recipients@ =~= seq![change] + now.map_values(receiver));
            n = n + 1;
        }
    }
    proof {
        assert(codes.take(n) =~= codes);
    }
    let ghost paid = to_addresses + code_outputs(codes);
    proof {
        assert(outputs_view(outputs@).len() == outputs@.len());
    }
    if outputs.len() == 0 {
        return Ok(None);
    }
    if let Some(text) = data {
        let bytes: Vec<u8> = text.as_str().as_bytes_vec();
        let script_pubkey: Vec<u8> = op_return_script(bytes);
        outputs.push(TxOut { value: 0, script_pubkey });
        proof {
            assert(outputs_view(outputs@) =~= paid.push(outputs@.last()@));
            assert(paid.push(outputs@.last()@) =~= paid + data_outputs(data));
        }
    } else {
        proof {
            assert(paid + data_outputs(data) =~= paid);
        }
    }
    Ok(Some(PaymentPlan { outputs, sp_recipients }))
}

/// The sum of the amounts of some outputs.
pub open spec fn total(outputs: Seq<TxOutView>) -> int
    decreases outputs.len(),
{
    if outputs.len() == 0 {
        0
    } else {
        total(outputs.drop_last()) + outputs.last().value
    }
}

/// The sum of the amounts that some recipients are to get.
pub open spec fn requested<T>(recipients: Seq<(T, u64)>) -> int
    decreases recipients.len(),
{
    if recipients.len() == 0 {
        0
    } else {
        requested(recipients.drop_last()) + recipients.last().1
    }
}

proof fn lemma_total_concat(a: Seq<TxOutView>, b: Seq<TxOutView>)
    ensures
        total(a + b) == total(a) + total(b),
    decreases b.len(),
{
    if b.len() == 0 {
        assert(a + b =~= a);
    } else {
        lemma_total_concat(a, b.drop_last());
        assert((a + b).drop_last() =~= a + b.drop_last());
    }
}

proof fn lemma_total_addresses(addresses: Seq<(Address, u64)>)
    ensures
        total(address_outputs(addresses)) == requested(addresses),
    decreases addresses.len(),
{
    if addresses.len() > 0 {
        lemma_total_addresses(addresses.drop_last());
        assert(address_outputs(addresses).drop_last() =~= address_outputs(addresses.drop_last()));
    }
}

proof fn lemma_total_codes(codes: Seq<(SilentPaymentCode, u64)>)
    ensures
        total(code_outputs(codes)) == requested(codes),
    decreases codes.len(),
{
    if codes.len() > 0 {
        lemma_total_codes(codes.drop_last());
        assert(code_outputs(codes).drop_last() =~= code_outputs(codes.drop_last()));
    }
}

/// The outputs of a plan pay exactly what was asked for: one output for each recipient
/// and one for the data, if there is any, which gets nothing.
pub proof fn law_plan_pays_what_was_asked(
    addresses: Seq<(Address, u64)>,
    codes: Seq<(SilentPaymentCode, u64)>,
    data: Option<String>,
)
    ensures
        ({
            let outputs = address_outputs(addresses) + code_outputs(codes) + data_outputs(data);
            &&& outputs.len() == addresses.len() + codes.len() + if data is Some {
                1int
            } else {
                0int
            }
            &&& total(outputs) == requested(addresses) + requested(codes)
        }),
{
    lemma_total_addresses(addresses);
    lemma_total_codes(codes);
    lemma_total_concat(address_outputs(addresses), code_outputs(codes));
    lemma_total_concat(address_outputs(addresses) + code_outputs(codes), data_outputs(data));
    reveal_with_fuel(total, 2);
}

/// Data in a script that cannot be spent stands behind the opcode 0x6a and its own length, which
/// takes one byte below 76, and after an opcode that says so one, two or four bytes, the low one
/// first; the data itself is unchanged.
pub proof fn law_data_script(data: Seq<u8>)
    requires
        data.len() < 0x1_0000_0000,
    ensures
        ({
            let s = data_script(data);
            let n = data.len();
            &&& s.len() > n && s.skip(s.len() - n) == data
            &&& s[0] == 0x6a
            &&& n < 0x4c ==> s.len() == n + 2 && s[1] == n
            &&& 0x4c <= n < 0x100 ==> s.len() == n + 3 && s[1] == 0x4c && s[2] == n
            &&& 0x100 <= n < 0x1_0000 ==> s.len() == n + 4 && s[1] == 0x4d && s[2] + 0x100 * s[3]
                == n
            &&& 0x1_0000 <= n ==> s.len() == n + 6 && s[1] == 0x4e && s[2] + 0x100 * s[3]
                + 0x1_0000 * s[4] + 0x100_0000 * s[5] == n
        }),
{
    let s = data_script(data);
    assert(s.skip(s.len() - data.len()) =~= data);
}

/// Change needs to be worth what its output and the input that spends it cost at three satoshis
/// for a byte, and weighs four units for each byte of its output. For a taproot script that is
/// 330 satoshis and 172 units.
pub proof fn law_change_policy(script: &Vec<u8>, spend_weight: u64, r: ChangePolicy)
    requires
        call_ensures(change_policy, (script, spend_weight), r),
    ensures
        r.spend_weight == spend_weight,
        r.n_outputs == 1,
        script@.len() == 34 && script@[0] == 0x51 && script@[1] == 0x20 ==> r.min_value == 330
            && r.output_weight == 172,
        ({
            let n = script@.len();
            let size = n + if n < 0xfd {
                1int
            } else if n < 0x1_0000 {
                3
            } else if n < 0x1_0000_0000 {
                5
            } else {
                9
            };
            let witness = 4 <= n <= 42 && (script@[0] == 0 || 0x51 <= script@[0] <= 0x60)
                && script@[1] == n - 2;
            &&& r.output_weight == 4 * (8 + size)
            &&& n > 0 && script@[0] == 0x6a ==> r.min_value == 0
            &&& !(n > 0 && script@[0] == 0x6a) && witness ==> r.min_value == 3 * (75 + size)
            &&& !(n > 0 && script@[0] == 0x6a) && !witness ==> r.min_value == 3 * (156 + size)
        }),
{
}

/// A satoshi for a virtual byte is 250 for a thousand weight units, for the rate to pay as for
/// the one of the long term.
pub proof fn law_fee_rates(sat_per_vb: u64, r: (u64, u64))
    requires
        call_ensures(fee_rates, (sat_per_vb,), r),
    ensures
        4 * r.0 == 1000 * sat_per_vb,
        4 * r.1 == 1000,
{
}

/// A secret key is the wallet's if and only if its public key is, byte for byte.
pub proof fn law_spend_key(secret: &SecretKey, public: &PublicKey, r: bool)
    requires
        call_ensures(spend_key_matches, (secret, public), r),
    ensures
        r <==> (public_key_for(secret.bytes@) matches Some(key) && key == public.bytes@),
{
}

/// All addresses are on a network if and only if each of them may be paid there.
pub proof fn law_addresses_on_network(
    addresses: &Option<Vec<(Address, u64)>>,
    network: Network,
    r: bool,
)
    requires
        call_ensures(addresses_on_network, (addresses, network), r),
    ensures
        addresses is None ==> r,
        addresses matches Some(list) ==> (r <==> forall|i: int|
            0 <= i < list@.len() ==> (#[trigger] list@[i]).0.networks.has_network(network)),
{
}

/// Data fits if and only if there is none, or its bytes are fewer than 2^32.
pub proof fn law_fitting_data(data: &Option<String>, r: bool)
    requires
        call_ensures(has_fitting_data, (data,), r),
    ensures
        data is None ==> r,
        data matches Some(text) ==> (r <==> vstd::utf8::encode_utf8(text@).len() < 0x1_0000_0000),
{
}

/// What was given of an optional list.
pub open spec fn given<T>(list: Option<Vec<T>>) -> Seq<T> {
    if list is Some {
        list->0@
    } else {
        Seq::empty()
    }
}

/// The outputs of a plan are one for each address, one for each silent payment code, and one for
/// the data, in this order. The output of an address has its amount and its script; that of a
/// code has the amount and the placeholder script of that same code; that of the data has no
/// amount. The recipients are the change and each code in its order.
pub proof fn law_planned_outputs(
    addresses: Option<Vec<(Address, u64)>>,
    sp_codes: Option<Vec<(SilentPaymentCode, u64)>>,
    data: Option<String>,
    change: SilentPaymentCode,
    network: Network,
    r: Result<Option<PaymentPlan>, String>,
)
    requires
        call_ensures(plan_payment, (addresses, sp_codes, data, change, network), r),
    ensures
        r matches Ok(Some(plan)) ==> {
            let a = given(addresses);
            let c = given(sp_codes);
            &&& plan.outputs@.len() == a.len() + c.len() + if data is Some {
                1int
            } else {
                0
            }
            &&& forall|i: int|
                #![trigger a[i]]
                0 <= i < a.len() ==> plan.outputs@[i].value == a[i].1
                    && plan.outputs@[i].script_pubkey@ == a[i].0.script_pubkey@
            &&& forall|i: int|
                #![trigger c[i]]
                0 <= i < c.len() ==> plan.outputs@[a.len() + i].value == c[i].1
                    && plan.outputs@[a.len() + i].script_pubkey@ == c[i].0.placeholder_script@
            &&& data matches Some(text) ==> plan.outputs@.last().value == 0
                && plan.outputs@.last().script_pubkey@ == data_script(
                vstd::utf8::encode_utf8(text@),
            )
            &&& plan.sp_recipients@.len() == c.len() + 1
            &&& plan.sp_recipients@[0] == change
            &&& forall|i: int|
                #![trigger c[i]]
                0 <= i < c.len() ==> plan.sp_recipients@[i + 1] == c[i].0
        },
{
    if let Ok(Some(plan)) = r {
        let a = given(addresses);
        let c = given(sp_codes);
        let all = outputs_view(plan.outputs@);
        assert(a =~= listed(addresses));
        assert(c =~= listed(sp_codes));
        assert(all.len() == plan.outputs@.len());
        assert forall|i: int|
            #![trigger a[i]]
            0 <= i < a.len() implies plan.outputs@[i].value == a[i].1
            && plan.outputs@[i].script_pubkey@ == a[i].0.script_pubkey@ by {
            assert(all[i] == plan.outputs@[i]@);
        }
        assert forall|i: int|
            #![trigger c[i]]
            0 <= i < c.len() implies plan.outputs@[a.len() + i].value == c[i].1
            && plan.outputs@[a.len() + i].script_pubkey@ == c[i].0.placeholder_script@ by {
            assert(all[a.len() + i] == plan.outputs@[a.len() + i]@);
        }
        if data is Some {
            let last = plan.outputs@.len() - 1;
            assert(all[last] == plan.outputs@[last]@);
        }
    }
}

/// A payment is planned if and only if every code may be paid on the network, and there is
/// nothing to plan only without any recipient; otherwise the first code that may not be paid is
/// named, together with the network.
pub proof fn law_refused_payments(
    addresses: Option<Vec<(Address, u64)>>,
    sp_codes: Option<Vec<(SilentPaymentCode, u64)>>,
    data: Option<String>,
    change: SilentPaymentCode,
    network: Network,
    r: Result<Option<PaymentPlan>, String>,
)
    requires
        call_ensures(plan_payment, (addresses, sp_codes, data, change, network), r),
    ensures
        ({
            let a = given(addresses);
            let c = given(sp_codes);
            &&& r is Ok <==> forall|i: int|
                0 <= i < c.len() ==> (#[trigger] c[i]).0.networks.has_network(network)
            &&& r is Ok ==> ((r matches Ok(None)) <==> a.len() + c.len() == 0)
            &&& r matches Err(message) ==> exists|i: int|
                {
                    &&& 0 <= i < c.len()
                    &&& !(#[trigger] c[i]).0.networks.has_network(network)
                    &&& forall|j: int|
                        0 <= j < i ==> (#[trigger] c[j]).0.networks.has_network(network)
                    &&& message@ == "silent payment code "@ + c[i].0.text@
                        + " cannot be paid from a "@ + network.spec_name() + " wallet"@
                }
        }),
{
    let c = given(sp_codes);
    assert(given(addresses) =~= listed(addresses));
    assert(c =~= listed(sp_codes));
    if let Err(message) = r {
        let i = choose|i: int| #[trigger]
            first_off_network(c, network, i) && message@ == off_network_text(c[i].0.text@, network);
        assert(!c[i].0.networks.has_network(network));
    }
}

} // verus!
