//! Partial secrets: for each transaction of interest, the public key from which the
//! wallet finds its own outputs in it.

use vstd::prelude::*;

use crate::bytemap::ByteMap;
use crate::bytes::{BlockHash, PublicKey, SecretKey, Txid};
use crate::frigate::History;
use crate::scan::{filter_block, frigate_step, BlockUpdate, ScanAction, ScanUpdate, StreamEvent};
use crate::transaction::{is_p2tr, is_taproot, Transaction, TxOut};
use std::collections::HashMap;
use vstd::std_specs::iter::IteratorSpec;

verus! {

/// The partial secrets of a block, by transaction id.
pub type PartialSecrets = ByteMap<32, PublicKey>;

/// The public keys by which a server found scripts of interest, by taproot script.
pub type TweakMap = ByteMap<34, PublicKey>;

/// A taproot output whose script is in `tweaks`.
pub open spec fn is_match(output: TxOut, tweaks: Map<Seq<u8>, PublicKey>) -> bool {
    is_taproot(output.script_pubkey@) && tweaks.contains_key(output.script_pubkey@)
}

/// The key for the first output with a match, if there is one.
pub open spec fn matched_tweak(
    output: Seq<TxOut>,
    tweaks: Map<Seq<u8>, PublicKey>,
) -> Option<PublicKey>
    decreases output.len(),
{
    if output.len() == 0 {
        None
    } else if is_match(output[0], tweaks) {
        Some(tweaks[output[0].script_pubkey@])
    } else {
        matched_tweak(output.drop_first(), tweaks)
    }
}

/// The keys of the transactions with a match, by their ids.
pub open spec fn matched_secrets(
    txs: Seq<Transaction>,
    tweaks: Map<Seq<u8>, PublicKey>,
) -> Map<Seq<u8>, PublicKey>
    decreases txs.len(),
{
    if txs.len() == 0 {
        Map::empty()
    } else {
        let before = matched_secrets(txs.drop_last(), tweaks);
        match matched_tweak(txs.last().output@, tweaks) {
            Some(key) => before.insert(txs.last().txid@, key),
            None => before,
        }
    }
}

/// The key for a transaction: that of its first taproot output with a known script.
pub fn find_tweak(tx: &Transaction, tweaks: &TweakMap) -> (r: Option<PublicKey>)
    ensures
        r == matched_tweak(tx.output@, tweaks@),
{
    let mut i: usize = 0;
    proof {
        assert(tx.output@.skip(0) =~= tx.output@);
    }
    while i < tx.output.len()
        invariant
            i <= tx.output@.len(),
            matched_tweak(tx.output@, tweaks@) == matched_tweak(tx.output@.skip(i as int), tweaks@),
        decreases tx.output@.len() - i,
    {
        let output: &TxOut = &tx.output[i];
        proof {
            assert(tx.output@.skip(i as int)[0] == tx.output@[i as int]);
            assert(tx.output@.skip(i as int).drop_first() =~= tx.output@.skip(i + 1));
        }
        if is_p2tr(&output.script_pubkey) {
            if let Some(key) = tweaks.get(output.script_pubkey.as_slice()) {
                return Some(*key);
            }
        }
        i = i + 1;
    }
    None
}

/// The partial secrets of a block in which a filter matched: one for each transaction
/// with a taproot output whose script is in `tweaks`; none if no output is taproot.
pub fn block_secrets(txdata: &Vec<Transaction>, tweaks: &TweakMap) -> (r: PartialSecrets)
    ensures
        r@ == matched_secrets(txdata@, tweaks@),
{
    let mut secrets: PartialSecrets = ByteMap::new();
    let mut i: usize = 0;
    while i < txdata.len()
        invariant
            i <= txdata@.len(),
            secrets@ == matched_secrets(txdata@.take(i as int), tweaks@),
        decreases txdata@.len() - i,
    {
        let tx: &Transaction = &txdata[i];
        proof {
            assert(txdata@.take(i + 1).drop_last() =~= txdata@.take(i as int));
        }
        if let Some(key) = find_tweak(tx, tweaks) {
            secrets.insert(tx.txid.bytes, key);
        }
        i = i + 1;
    }
    proof {
        assert(txdata@.take(i as int) =~= txdata@);
    }
    secrets
}

/// The partial secrets of the transactions that have one, by their ids.
pub open spec fn paired_secrets(
    txids: Seq<Txid>,
    secrets: Seq<Option<PublicKey>>,
) -> Map<Seq<u8>, PublicKey>
    decreases txids.len(),
{
    if txids.len() == 0 {
        Map::empty()
    } else {
        let before = paired_secrets(txids.drop_last(), secrets.drop_last());
        match secrets.last() {
            Some(key) => before.insert(txids.last()@, key),
            None => before,
        }
    }
}

/// The partial secrets of a block that a node sent: `secrets` holds what was computed for
/// each transaction but the coinbase, which is the first and spends nothing.
pub fn node_block_secrets(txids: &Vec<Txid>, secrets: &Vec<Option<PublicKey>>) -> (r:
    PartialSecrets)
    requires
        txids@.len() == 0 ==> secrets@.len() == 0,
        txids@.len() > 0 ==> secrets@.len() == txids@.len() - 1,
    ensures
        txids@.len() == 0 ==> r@ == Map::<Seq<u8>, PublicKey>::empty(),
        txids@.len() > 0 ==> r@ == paired_secrets(txids@.drop_first(), secrets@),
{
    let mut r: PartialSecrets = ByteMap::new();
    let ghost rest = txids@.drop_first();
    let mut i: usize = 0;
    while i < secrets.len()
        invariant
            txids@.len() > 0 ==> secrets@.len() == txids@.len() - 1,
            txids@.len() == 0 ==> secrets@.len() == 0,
            rest == txids@.drop_first(),
            i <= secrets@.len(),
            txids@.len() == 0 ==> r@ == Map::<Seq<u8>, PublicKey>::empty(),
            txids@.len() > 0 ==> r@ == paired_secrets(rest.take(i as int), secrets@.take(i as int)),
        decreases secrets@.len() - i,
    {
        proof {
            assert(rest.take(i + 1).drop_last() =~= rest.take(i as int));
            assert(secrets@.take(i + 1).drop_last() =~= secrets@.take(i as int));
            assert(rest.take(i + 1).last() == txids@[i + 1]);
        }
        if let Some(key) = secrets[i] {
            r.insert(txids[i + 1].bytes, key);
        }
        i = i + 1;
    }
    proof {
        if txids@.len() > 0 {
            assert(rest.take(i as int) =~= rest);
            assert(secrets@.take(i as int) =~= secrets@);
        }
    }
    r
}

/// The secrets that a server found in the blocks at one height.
#[derive(Debug, PartialEq, Eq)]
pub struct HeightSecrets {
    pub height: u32,
    pub secrets: PartialSecrets,
}

/// The keys of the transactions at a height, by their ids; of two entries for one
/// transaction the later one counts.
pub open spec fn secrets_at(histories: Seq<History>, height: u32) -> Map<Seq<u8>, PublicKey>
    decreases histories.len(),
{
    if histories.len() == 0 {
        Map::empty()
    } else {
        let before = secrets_at(histories.drop_last(), height);
        let last = histories.last();
        if last.height == height {
            before.insert(last.tx_hash@, last.tweak_key)
        } else {
            before
        }
    }
}

/// Some entry is for a transaction at `height`.
pub open spec fn has_height(histories: Seq<History>, height: u32) -> bool {
    exists|i: int| 0 <= i < histories.len() && (#[trigger] histories[i]).height == height
}

/// Some group is for `height`.
pub open spec fn has_group(groups: Seq<HeightSecrets>, height: u32) -> bool {
    exists|i: int| 0 <= i < groups.len() && (#[trigger] groups[i]).height == height
}

/// The groups hold the secrets of `histories` at the heights for which `keep` holds, one
/// group for each such height that occurs.
pub open spec fn grouped(
    groups: Seq<HeightSecrets>,
    histories: Seq<History>,
    keep: spec_fn(u32) -> bool,
) -> bool {
    &&& forall|i: int, j: int|
        0 <= i < groups.len() && 0 <= j < groups.len() && i != j ==> (
        #[trigger] groups[i]).height != (#[trigger] groups[j]).height
    &&& forall|i: int|
        0 <= i < groups.len() ==> (#[trigger] groups[i]).secrets@ == secrets_at(
            histories,
            groups[i].height,
        )
    &&& forall|height: u32| #[trigger]
        has_group(groups, height) <==> has_height(histories, height) && keep(height)
}

proof fn lemma_no_secrets(histories: Seq<History>, height: u32)
    requires
        !has_height(histories, height),
    ensures
        secrets_at(histories, height) == Map::<Seq<u8>, PublicKey>::empty(),
    decreases histories.len(),
{
    if histories.len() > 0 {
        let before = histories.drop_last();
        assert(histories[histories.len() - 1].height != height);
        assert forall|i: int| 0 <= i < before.len() implies (#[trigger] before[i]).height
            != height by {
            assert(histories[i].height != height);
        }
        lemma_no_secrets(before, height);
    }
}

/// The map holds the secrets of `histories` at each height that occurs.
pub open spec fn is_by_height(map: Map<u32, PartialSecrets>, histories: Seq<History>) -> bool {
    forall|height: u32|
        {
            &&& #[trigger] map.contains_key(height) <==> has_height(histories, height)
            &&& map.contains_key(height) ==> map[height]@ == secrets_at(histories, height)
        }
}

/// Groups the entries of a server by the height of their transactions.
pub fn group_by_height(histories: &Vec<History>) -> (r: HashMap<u32, PartialSecrets>)
    ensures
        is_by_height(r@, histories@),
{
    broadcast use vstd::std_specs::hash::group_hash_axioms;

    let mut map: HashMap<u32, PartialSecrets> = HashMap::new();
    let mut i: usize = 0;
    while i < histories.len()
        invariant
            i <= histories@.len(),
            is_by_height(map@, histories@.take(i as int)),
        decreases histories@.len() - i,
    {
        let entry: History = histories[i];
        let ghost before = map@;
        let ghost seen = histories@.take(i as int);
        let ghost now = histories@.take(i + 1);
        let mut secrets: PartialSecrets = match map.remove(&entry.height) {
            Some(secrets) => secrets,
            None => ByteMap::new(),
        };
        proof {
            assert(now.drop_last() =~= seen);
            assert(now =~= seen.push(entry));
            if !before.contains_key(entry.height) {
                lemma_no_secrets(seen, entry.height);
            }
        }
        secrets.insert(entry.tx_hash.bytes, entry.tweak_key);
        map.insert(entry.height, secrets);
        proof {
            assert forall|height: u32|
                {
                    &&& #[trigger] map@.contains_key(height) <==> has_height(now, height)
                    &&& map@.contains_key(height) ==> map@[height]@ == secrets_at(now, height)
                } by {
                lemma_has_height(seen, entry, now, height);
                assert(before.contains_key(height) <==> has_height(seen, height));
            }
        }
        i = i + 1;
    }
    proof {
        assert(histories@.take(i as int) =~= histories@);
    }
    map
}

proof fn lemma_has_height(seen: Seq<History>, entry: History, now: Seq<History>, height: u32)
    requires
        now == seen.push(entry),
    ensures
        has_height(now, height) <==> has_height(seen, height) || entry.height == height,
{
    if has_height(seen, height) {
        let k = choose|k: int| 0 <= k < seen.len() && (#[trigger] seen[k]).height == height;
        assert(now[k].height == height);
    }
    if entry.height == height {
        assert(now[seen.len() as int].height == height);
    }
    if has_height(now, height) {
        let k = choose|k: int| 0 <= k < now.len() && (#[trigger] now[k]).height == height;
        if k < seen.len() {
            assert(seen[k].height == height);
        }
    }
}

/// The heights of a map, each once.
fn heights_of(map: &HashMap<u32, PartialSecrets>) -> (r: Vec<u32>)
    ensures
        r@.no_duplicates(),
        forall|height: u32| r@.contains(height) <==> #[trigger] map@.contains_key(height),
{
    broadcast use vstd::std_specs::hash::group_hash_axioms;

    let mut heights: Vec<u32> = Vec::new();
    let ghost keys = map.keys().remaining().unref();
    for height in it: map.keys()
        invariant
            it.seq().unref() == keys,
            heights@ == keys.take(it.index()),
    {
        heights.push(*height);
    }
    proof {
        assert(heights@ =~= keys);
        assert forall|height: u32| heights@.contains(height) <==> #[trigger] map@.contains_key(
            height,
        ) by {
            assert(heights@.to_set().contains(height) <==> heights@.contains(height));
        }
    }
    heights
}

/// The groups of a server's entries that are in a block; transactions that wait in the
/// mempool have height zero and are left out. The groups come in no particular order.
pub fn confirmed_secrets(histories: &Vec<History>) -> (r: Vec<HeightSecrets>)
    ensures
        grouped(r@, histories@, |height: u32| height > 0),
{
    broadcast use vstd::std_specs::hash::group_hash_axioms;

    let mut map: HashMap<u32, PartialSecrets> = group_by_height(histories);
    let heights: Vec<u32> = heights_of(&map);
    let ghost all = map@;
    let mut groups: Vec<HeightSecrets> = Vec::new();
    let mut i: usize = 0;
    while i < heights.len()
        invariant
            i <= heights@.len(),
            heights@.no_duplicates(),
            forall|height: u32| heights@.contains(height) <==> #[trigger] all.contains_key(height),
            forall|j: int|
                i <= j < heights@.len() ==> map@.contains_key(#[trigger] heights@[j])
                    && map@[heights@[j]] == all[heights@[j]],
            forall|a: int, b: int|
                0 <= a < groups@.len() && 0 <= b < groups@.len() && a != b ==> (
                #[trigger] groups@[a]).height != (#[trigger] groups@[b]).height,
            forall|a: int|
                0 <= a < groups@.len() ==> {
                    &&& (#[trigger] groups@[a]).height > 0
                    &&& heights@.take(i as int).contains(groups@[a].height)
                    &&& groups@[a].secrets == all[groups@[a].height]
                },
            forall|j: int|
                0 <= j < i && #[trigger] heights@[j] > 0 ==> has_group(groups@, heights@[j]),
        decreases heights@.len() - i,
    {
        let height: u32 = heights[i];
        let ghost before = groups@;
        let ghost seen = heights@.take(i as int);
        let ghost now = heights@.take(i + 1);
        proof {
            assert(now =~= seen.push(height));
            assert forall|h: u32| seen.contains(h) implies #[trigger] now.contains(h) by {
                let k = seen.index_of(h);
                assert(now[k] == h);
            }
            assert(now[i as int] == height);
            assert(!seen.contains(height));
        }
        if height > 0 {
            if let Some(secrets) = map.remove(&height) {
                groups.push(HeightSecrets { height, secrets });
            }
        }
        proof {
            assert forall|h: u32| has_group(before, h) implies #[trigger] has_group(groups@, h) by {
                let a = choose|a: int| 0 <= a < before.len() && (#[trigger] before[a]).height == h;
                assert(groups@[a].height == h);
            }
            if height > 0 {
                assert(groups@[before.len() as int].height == height);
            }
        }
        i = i + 1;
    }
    proof {
        let keep = |height: u32| height > 0;
        assert(heights@.take(i as int) =~= heights@);
        assert forall|height: u32| #[trigger]
            has_group(groups@, height) <==> has_height(histories@, height) && keep(height) by {
            assert(all.contains_key(height) <==> has_height(histories@, height));
            if has_group(groups@, height) {
                let a = choose|a: int|
                    0 <= a < groups@.len() && (#[trigger] groups@[a]).height == height;
                assert(heights@.contains(height));
            }
            if all.contains_key(height) && height > 0 {
                let j = heights@.index_of(height);
                assert(heights@[j] == height);
            }
        }
        assert forall|a: int| 0 <= a < groups@.len() implies (#[trigger] groups@[a]).secrets@
            == secrets_at(histories@, groups@[a].height) by {
            assert(all.contains_key(groups@[a].height));
        }
    }
    groups
}

/// `tx` has a taproot output whose script is in `tweaks`, and `key` is the key for it.
pub open spec fn pays(tx: Transaction, tweaks: Map<Seq<u8>, PublicKey>, key: PublicKey) -> bool {
    exists|j: int|
        0 <= j < tx.output@.len() && is_match(#[trigger] tx.output@[j], tweaks) && key
            == tweaks[tx.output@[j].script_pubkey@]
}

/// `tx` has a taproot output whose script is in `tweaks`.
pub open spec fn has_match(tx: Transaction, tweaks: Map<Seq<u8>, PublicKey>) -> bool {
    exists|j: int| 0 <= j < tx.output@.len() && is_match(#[trigger] tx.output@[j], tweaks)
}

proof fn lemma_matched_tweak(output: Seq<TxOut>, tweaks: Map<Seq<u8>, PublicKey>)
    ensures
        matched_tweak(output, tweaks) matches Some(key) ==> exists|j: int|
            0 <= j < output.len() && is_match(#[trigger] output[j], tweaks) && key
                == tweaks[output[j].script_pubkey@],
        matched_tweak(output, tweaks) is None ==> forall|j: int|
            0 <= j < output.len() ==> !is_match(#[trigger] output[j], tweaks),
    decreases output.len(),
{
    if output.len() > 0 && !is_match(output[0], tweaks) {
        let rest = output.drop_first();
        lemma_matched_tweak(rest, tweaks);
        if let Some(key) = matched_tweak(output, tweaks) {
            let j = choose|j: int|
                0 <= j < rest.len() && is_match(#[trigger] rest[j], tweaks) && key
                    == tweaks[rest[j].script_pubkey@];
            assert(output[j + 1] == rest[j]);
        } else {
            assert forall|j: int| 0 <= j < output.len() implies !is_match(
                #[trigger] output[j],
                tweaks,
            ) by {
                if j > 0 {
                    assert(rest[j - 1] == output[j]);
                }
            }
        }
    }
}

/// A transaction of a block has a partial secret if and only if one with its id has a
/// taproot output with a known script, and the secret is the key for such an output.
pub proof fn law_block_secrets(
    txs: Seq<Transaction>,
    tweaks: Map<Seq<u8>, PublicKey>,
    id: Seq<u8>,
)
    ensures
        matched_secrets(txs, tweaks).contains_key(id) <==> exists|i: int|
            0 <= i < txs.len() && (#[trigger] txs[i]).txid@ == id && has_match(txs[i], tweaks),
        matched_secrets(txs, tweaks).contains_key(id) ==> exists|i: int|
            0 <= i < txs.len() && (#[trigger] txs[i]).txid@ == id && pays(
                txs[i],
                tweaks,
                matched_secrets(txs, tweaks)[id],
            ),
    decreases txs.len(),
{
    let all = matched_secrets(txs, tweaks);
    if txs.len() > 0 {
        let before = txs.drop_last();
        let last = txs.last();
        law_block_secrets(before, tweaks, id);
        lemma_matched_tweak(last.output@, tweaks);
        assert(txs[txs.len() - 1] == last);
        if matched_secrets(before, tweaks).contains_key(id) {
            let i = choose|i: int|
                0 <= i < before.len() && (#[trigger] before[i]).txid@ == id && has_match(
                    before[i],
                    tweaks,
                );
            assert(txs[i] == before[i]);
            let k = choose|k: int|
                0 <= k < before.len() && (#[trigger] before[k]).txid@ == id && pays(
                    before[k],
                    tweaks,
                    matched_secrets(before, tweaks)[id],
                );
            assert(txs[k] == before[k]);
        }
        if exists|i: int|
            0 <= i < txs.len() && (#[trigger] txs[i]).txid@ == id && has_match(txs[i], tweaks) {
            let i = choose|i: int|
                0 <= i < txs.len() && (#[trigger] txs[i]).txid@ == id && has_match(txs[i], tweaks);
            if i < txs.len() - 1 {
                assert(before[i] == txs[i]);
            }
        }
    }
}

/// A block without taproot outputs has no partial secrets.
pub proof fn law_no_taproot_no_secrets(txs: Seq<Transaction>, tweaks: Map<Seq<u8>, PublicKey>)
    requires
        forall|i: int, j: int|
            0 <= i < txs.len() && 0 <= j < txs[i].output@.len() ==> !is_taproot(
                (#[trigger] txs[i].output@[j]).script_pubkey@,
            ),
    ensures
        matched_secrets(txs, tweaks) == Map::<Seq<u8>, PublicKey>::empty(),
{
    assert forall|id: Seq<u8>| !(#[trigger] matched_secrets(txs, tweaks).contains_key(id)) by {
        law_block_secrets(txs, tweaks, id);
    }
    assert(matched_secrets(txs, tweaks) =~= Map::<Seq<u8>, PublicKey>::empty());
}

/// A transaction of a block that a node sent has a partial secret if and only if one was
/// computed for a transaction with its id, and the secret is one of those.
pub proof fn law_paired_secrets(
    txids: Seq<Txid>,
    secrets: Seq<Option<PublicKey>>,
    id: Seq<u8>,
)
    requires
        txids.len() == secrets.len(),
    ensures
        paired_secrets(txids, secrets).contains_key(id) <==> exists|i: int|
            0 <= i < txids.len() && (#[trigger] txids[i])@ == id && secrets[i] is Some,
        paired_secrets(txids, secrets).contains_key(id) ==> exists|i: int|
            0 <= i < txids.len() && (#[trigger] txids[i])@ == id && secrets[i] == Some(
                paired_secrets(txids, secrets)[id],
            ),
    decreases txids.len(),
{
    if txids.len() > 0 {
        let ids = txids.drop_last();
        let keys = secrets.drop_last();
        law_paired_secrets(ids, keys, id);
        let last = txids.len() - 1;
        assert(txids[last] == txids.last() && secrets[last] == secrets.last());
        if paired_secrets(ids, keys).contains_key(id) {
            let i = choose|i: int|
                0 <= i < ids.len() && (#[trigger] ids[i])@ == id && keys[i] == Some(
                    paired_secrets(ids, keys)[id],
                );
            assert(txids[i] == ids[i] && secrets[i] == keys[i]);
        }
        if exists|i: int|
            0 <= i < txids.len() && (#[trigger] txids[i])@ == id && secrets[i] is Some {
            let i = choose|i: int|
                0 <= i < txids.len() && (#[trigger] txids[i])@ == id && secrets[i] is Some;
            if i < last {
                assert(ids[i] == txids[i] && keys[i] == secrets[i]);
            }
        }
    }
}

/// An entry of a server for a transaction at a height.
pub open spec fn is_entry(entry: History, height: u32, id: Seq<u8>) -> bool {
    entry.height == height && entry.tx_hash@ == id
}

/// A transaction has a secret at a height if and only if the server has an entry for it
/// there.
pub proof fn law_secrets_at(histories: Seq<History>, height: u32, id: Seq<u8>)
    ensures
        secrets_at(histories, height).contains_key(id) <==> exists|i: int|
            0 <= i < histories.len() && is_entry(#[trigger] histories[i], height, id),
    decreases histories.len(),
{
    if histories.len() > 0 {
        let before = histories.drop_last();
        law_secrets_at(before, height, id);
        assert(histories[histories.len() - 1] == histories.last());
        if secrets_at(before, height).contains_key(id) {
            let i = choose|i: int|
                0 <= i < before.len() && is_entry(#[trigger] before[i], height, id);
            assert(histories[i] == before[i]);
        }
        if exists|i: int|
            0 <= i < histories.len() && is_entry(#[trigger] histories[i], height, id) {
            let i = choose|i: int|
                0 <= i < histories.len() && is_entry(#[trigger] histories[i], height, id);
            if i < histories.len() - 1 {
                assert(before[i] == histories[i]);
            }
        }
    }
}

/// Of several entries for one transaction at one height the last one counts.
pub proof fn law_last_entry_counts(histories: Seq<History>, i: int)
    requires
        0 <= i < histories.len(),
        forall|j: int|
            i < j < histories.len() ==> !is_entry(
                #[trigger] histories[j],
                histories[i].height,
                histories[i].tx_hash@,
            ),
    ensures
        secrets_at(histories, histories[i].height)[histories[i].tx_hash@] == histories[i].tweak_key,
    decreases histories.len(),
{
    let n = histories.len() - 1;
    if i < n {
        let before = histories.drop_last();
        assert(before[i] == histories[i]);
        assert(!is_entry(histories[n], histories[i].height, histories[i].tx_hash@));
        assert forall|j: int| i < j < before.len() implies !is_entry(
            #[trigger] before[j],
            before[i].height,
            before[i].tx_hash@,
        ) by {
            assert(before[j] == histories[j]);
        }
        law_last_entry_counts(before, i);
    }
}

/// Every confirmed entry of a server is in the group of its height, and no group is for
/// the mempool.
pub proof fn law_confirmed(groups: Seq<HeightSecrets>, histories: Seq<History>)
    requires
        grouped(groups, histories, |height: u32| height > 0),
    ensures
        !has_group(groups, 0),
        forall|i: int|
            0 <= i < histories.len() && (#[trigger] histories[i]).height > 0 ==> exists|g: int|
                0 <= g < groups.len() && (#[trigger] groups[g]).height == histories[i].height
                    && groups[g].secrets@.contains_key(histories[i].tx_hash@),
{
    let keep = |height: u32| height > 0;
    assert(has_group(groups, 0) <==> has_height(histories, 0) && keep(0));
    assert forall|i: int|
        0 <= i < histories.len() && (#[trigger] histories[i]).height > 0 implies exists|g: int|
        0 <= g < groups.len() && (#[trigger] groups[g]).height == histories[i].height
            && groups[g].secrets@.contains_key(histories[i].tx_hash@) by {
        let height = histories[i].height;
        let id = histories[i].tx_hash@;
        assert(has_height(histories, height) && keep(height));
        assert(has_group(groups, height));
        let g = choose|g: int| 0 <= g < groups.len() && (#[trigger] groups[g]).height == height;
        law_secrets_at(histories, height, id);
        assert(is_entry(histories[i], height, id));
        assert(groups[g].secrets@ == secrets_at(histories, height));
    }
}

/// A transaction has a key if and only if one of its outputs has a script of 34 bytes that
/// begins with 0x51 0x20 and is a key of `tweaks`, whatever the amount of the output and
/// wherever it stands; the key is the one that `tweaks` has for such a script.
pub proof fn law_find_tweak(tx: &Transaction, tweaks: &TweakMap, r: Option<PublicKey>)
    requires
        call_ensures(find_tweak, (tx, tweaks), r),
    ensures
        r is Some <==> exists|j: int|
            0 <= j < tx.output@.len() && (#[trigger] tx.output@[j]).script_pubkey@.len() == 34
                && tx.output@[j].script_pubkey@[0] == 0x51 && tx.output@[j].script_pubkey@[1]
                == 0x20 && tweaks@.contains_key(tx.output@[j].script_pubkey@),
        r matches Some(key) ==> exists|j: int|
            0 <= j < tx.output@.len() && (#[trigger] tx.output@[j]).script_pubkey@.len() == 34
                && tx.output@[j].script_pubkey@[0] == 0x51 && tx.output@[j].script_pubkey@[1]
                == 0x20 && tweaks@.contains_key(tx.output@[j].script_pubkey@) && key
                == tweaks@[tx.output@[j].script_pubkey@],
{
    lemma_matched_tweak(tx.output@, tweaks@);
    if let Some(key) = r {
        let j = choose|j: int|
            0 <= j < tx.output@.len() && is_match(#[trigger] tx.output@[j], tweaks@) && key
                == tweaks@[tx.output@[j].script_pubkey@];
        assert(tx.output@[j].script_pubkey@.len() == 34);
    } else {
        assert forall|j: int| 0 <= j < tx.output@.len() implies !((
        #[trigger] tx.output@[j]).script_pubkey@.len() == 34 && tx.output@[j].script_pubkey@[0]
            == 0x51 && tx.output@[j].script_pubkey@[1] == 0x20 && tweaks@.contains_key(
            tx.output@[j].script_pubkey@,
        )) by {
            assert(!is_match(tx.output@[j], tweaks@));
        }
    }
}

proof fn lemma_matched_secrets(
    txs: Seq<Transaction>,
    tweaks: Map<Seq<u8>, PublicKey>,
    id: Seq<u8>,
)
    ensures
        matched_secrets(txs, tweaks).contains_key(id) <==> exists|i: int, j: int|
            0 <= i < txs.len() && 0 <= j < txs[i].output@.len() && txs[i].txid.bytes@ == id && (
            #[trigger] txs[i].output@[j]).script_pubkey@.len() == 34
                && txs[i].output@[j].script_pubkey@[0] == 0x51
                && txs[i].output@[j].script_pubkey@[1] == 0x20 && tweaks.contains_key(
                txs[i].output@[j].script_pubkey@,
            ),
        matched_secrets(txs, tweaks).contains_key(id) ==> exists|i: int, j: int|
            0 <= i < txs.len() && 0 <= j < txs[i].output@.len() && txs[i].txid.bytes@ == id && (
            #[trigger] txs[i].output@[j]).script_pubkey@.len() == 34
                && txs[i].output@[j].script_pubkey@[0] == 0x51
                && txs[i].output@[j].script_pubkey@[1] == 0x20 && tweaks.contains_key(
                txs[i].output@[j].script_pubkey@,
            ) && matched_secrets(txs, tweaks)[id] == tweaks[txs[i].output@[j].script_pubkey@],
{
    law_block_secrets(txs, tweaks, id);
    let all = matched_secrets(txs, tweaks);
    if all.contains_key(id) {
        let i = choose|i: int|
            0 <= i < txs.len() && (#[trigger] txs[i]).txid@ == id && pays(
                txs[i],
                tweaks,
                all[id],
            );
        let j = choose|j: int|
            0 <= j < txs[i].output@.len() && is_match(#[trigger] txs[i].output@[j], tweaks)
                && all[id] == tweaks[txs[i].output@[j].script_pubkey@];
        assert(txs[i].output@[j].script_pubkey@.len() == 34);
    } else {
        assert forall|i: int, j: int|
            0 <= i < txs.len() && 0 <= j < txs[i].output@.len() implies !(txs[i].txid.bytes@ == id
            && (#[trigger] txs[i].output@[j]).script_pubkey@.len() == 34
            && txs[i].output@[j].script_pubkey@[0] == 0x51 && txs[i].output@[j].script_pubkey@[1]
            == 0x20 && tweaks.contains_key(txs[i].output@[j].script_pubkey@)) by {
            if is_match(txs[i].output@[j], tweaks) && txs[i].txid@ == id {
                assert(has_match(txs[i], tweaks));
            }
        }
    }
}

/// A transaction of a block has a partial secret if and only if one with its id has an output
/// with a script of 34 bytes that begins with 0x51 0x20 and is a key of `tweaks`, whatever its
/// amount; the secret is the key for such a script.
pub proof fn law_matched_block(
    txdata: &Vec<Transaction>,
    tweaks: &TweakMap,
    r: PartialSecrets,
    id: Seq<u8>,
)
    requires
        call_ensures(block_secrets, (txdata, tweaks), r),
    ensures
        r@.contains_key(id) <==> exists|i: int, j: int|
            0 <= i < txdata@.len() && 0 <= j < txdata@[i].output@.len() && txdata@[i].txid.bytes@
                == id && (#[trigger] txdata@[i].output@[j]).script_pubkey@.len() == 34
                && txdata@[i].output@[j].script_pubkey@[0] == 0x51
                && txdata@[i].output@[j].script_pubkey@[1] == 0x20 && tweaks@.contains_key(
                txdata@[i].output@[j].script_pubkey@,
            ),
        r@.contains_key(id) ==> exists|i: int, j: int|
            0 <= i < txdata@.len() && 0 <= j < txdata@[i].output@.len() && txdata@[i].txid.bytes@
                == id && (#[trigger] txdata@[i].output@[j]).script_pubkey@.len() == 34
                && txdata@[i].output@[j].script_pubkey@[0] == 0x51
                && txdata@[i].output@[j].script_pubkey@[1] == 0x20 && tweaks@.contains_key(
                txdata@[i].output@[j].script_pubkey@,
            ) && r@[id] == tweaks@[txdata@[i].output@[j].script_pubkey@],
{
    lemma_matched_secrets(txdata@, tweaks@, id);
}

/// The same for a block that was asked for by its hash; its place in the chain is the hash and
/// the height that came with it.
pub proof fn law_filter_block(
    hash: BlockHash,
    height: u32,
    txdata: &Vec<Transaction>,
    tweaks: &TweakMap,
    r: BlockUpdate,
    id: Seq<u8>,
)
    requires
        call_ensures(filter_block, (hash, height, txdata, tweaks), r),
    ensures
        r.checkpoint.height == height,
        r.checkpoint.hash == hash,
        r.secrets@.contains_key(id) <==> exists|i: int, j: int|
            0 <= i < txdata@.len() && 0 <= j < txdata@[i].output@.len() && txdata@[i].txid.bytes@
                == id && (#[trigger] txdata@[i].output@[j]).script_pubkey@.len() == 34
                && txdata@[i].output@[j].script_pubkey@[0] == 0x51
                && txdata@[i].output@[j].script_pubkey@[1] == 0x20 && tweaks@.contains_key(
                txdata@[i].output@[j].script_pubkey@,
            ),
        r.secrets@.contains_key(id) ==> exists|i: int, j: int|
            0 <= i < txdata@.len() && 0 <= j < txdata@[i].output@.len() && txdata@[i].txid.bytes@
                == id && (#[trigger] txdata@[i].output@[j]).script_pubkey@.len() == 34
                && txdata@[i].output@[j].script_pubkey@[0] == 0x51
                && txdata@[i].output@[j].script_pubkey@[1] == 0x20 && tweaks@.contains_key(
                txdata@[i].output@[j].script_pubkey@,
            ) && r.secrets@[id] == tweaks@[txdata@[i].output@[j].script_pubkey@],
{
    lemma_matched_secrets(txdata@, tweaks@, id);
}

proof fn lemma_last_secret(txids: Seq<Txid>, secrets: Seq<Option<PublicKey>>, i: int)
    requires
        txids.len() == secrets.len(),
        0 <= i < txids.len(),
        secrets[i] is Some,
        forall|j: int|
            i < j < txids.len() && (#[trigger] txids[j])@ == txids[i]@ ==> secrets[j] is None,
    ensures
        paired_secrets(txids, secrets).contains_key(txids[i]@),
        paired_secrets(txids, secrets)[txids[i]@] == secrets[i]->0,
    decreases txids.len(),
{
    let n = txids.len() - 1;
    if i < n {
        let ids = txids.drop_last();
        let keys = secrets.drop_last();
        assert forall|j: int|
            i < j < ids.len() && (#[trigger] ids[j])@ == ids[i]@ implies keys[j] is None by {
            assert(txids[j]@ == txids[i]@);
        }
        lemma_last_secret(ids, keys, i);
        assert(txids[n] == txids.last());
    }
}

/// A transaction of a block that a node sent has a partial secret if and only if one was
/// computed for a transaction with its id other than the first one of the block, and of several
/// the last one counts.
pub proof fn law_node_block_secrets(
    txids: &Vec<Txid>,
    secrets: &Vec<Option<PublicKey>>,
    r: PartialSecrets,
    id: Seq<u8>,
)
    requires
        call_ensures(node_block_secrets, (txids, secrets), r),
        secrets@.len() == if txids@.len() > 0 {
            txids@.len() - 1
        } else {
            0
        },
    ensures
        r@.contains_key(id) <==> exists|i: int|
            1 <= i < txids@.len() && (#[trigger] txids@[i]).bytes@ == id && secrets@[i - 1] is Some,
        forall|i: int|
            1 <= i < txids@.len() && (#[trigger] txids@[i]).bytes@ == id && secrets@[i
                - 1] is Some && (forall|j: int|
                i < j < txids@.len() && (#[trigger] txids@[j]).bytes@ == id ==> secrets@[j
                    - 1] is None) ==> r@[id] == secrets@[i - 1]->0,
{
    let rest = if txids@.len() > 0 {
        txids@.drop_first()
    } else {
        Seq::empty()
    };
    law_paired_secrets(rest, secrets@, id);
    if r@.contains_key(id) {
        let i = choose|i: int|
            0 <= i < rest.len() && (#[trigger] rest[i])@ == id && secrets@[i] is Some;
        assert(txids@[i + 1].bytes@ == id);
    }
    assert forall|i: int|
        1 <= i < txids@.len() && (#[trigger] txids@[i]).bytes@ == id && secrets@[i
            - 1] is Some implies r@.contains_key(id) by {
        assert(rest[i - 1]@ == id);
    }
    assert forall|i: int|
        1 <= i < txids@.len() && (#[trigger] txids@[i]).bytes@ == id && secrets@[i - 1] is Some && (
        forall|j: int|
            i < j < txids@.len() && (#[trigger] txids@[j]).bytes@ == id ==> secrets@[j
                - 1] is None) implies r@[id] == secrets@[i - 1]->0 by {
        assert forall|j: int|
            i - 1 < j < rest.len() && (#[trigger] rest[j])@ == rest[i - 1]@ implies
            secrets@[j] is None by {
            assert(txids@[j + 1].bytes@ == id);
        }
        lemma_last_secret(rest, secrets@, i - 1);
    }
}

/// A height has secrets if and only if the server has an entry there; a transaction has one at a
/// height if and only if the server has an entry for it there, and of several the last one
/// counts.
pub proof fn law_group_by_height(
    histories: &Vec<History>,
    r: HashMap<u32, PartialSecrets>,
    height: u32,
    id: Seq<u8>,
)
    requires
        call_ensures(group_by_height, (histories,), r),
    ensures
        r@.contains_key(height) <==> exists|i: int|
            0 <= i < histories@.len() && (#[trigger] histories@[i]).height == height,
        r@.contains_key(height) ==> {
            &&& r@[height]@.contains_key(id) <==> exists|i: int|
                0 <= i < histories@.len() && (#[trigger] histories@[i]).height == height
                    && histories@[i].tx_hash.bytes@ == id
            &&& forall|i: int|
                0 <= i < histories@.len() && (#[trigger] histories@[i]).height == height
                    && histories@[i].tx_hash.bytes@ == id && (forall|j: int|
                    i < j < histories@.len() && (#[trigger] histories@[j]).height == height
                        ==> histories@[j].tx_hash.bytes@ != id) ==> r@[height]@[id]
                    == histories@[i].tweak_key
        },
{
    assert(r@.contains_key(height) <==> has_height(histories@, height));
    lemma_secrets_at(histories@, height, id);
}

proof fn lemma_secrets_at(histories: Seq<History>, height: u32, id: Seq<u8>)
    ensures
        secrets_at(histories, height).contains_key(id) <==> exists|i: int|
            0 <= i < histories.len() && (#[trigger] histories[i]).height == height
                && histories[i].tx_hash.bytes@ == id,
        forall|i: int|
            0 <= i < histories.len() && (#[trigger] histories[i]).height == height
                && histories[i].tx_hash.bytes@ == id && (forall|j: int|
                i < j < histories.len() && (#[trigger] histories[j]).height == height
                    ==> histories[j].tx_hash.bytes@ != id) ==> secrets_at(histories, height)[id]
                == histories[i].tweak_key,
{
    law_secrets_at(histories, height, id);
    if secrets_at(histories, height).contains_key(id) {
        let i = choose|i: int|
            0 <= i < histories.len() && is_entry(#[trigger] histories[i], height, id);
        assert(histories[i].height == height);
    }
    assert forall|i: int|
        0 <= i < histories.len() && (#[trigger] histories[i]).height == height
            && histories[i].tx_hash.bytes@ == id implies secrets_at(
        histories,
        height,
    ).contains_key(id) by {
        assert(is_entry(histories[i], height, id));
    }
    assert forall|i: int|
        0 <= i < histories.len() && (#[trigger] histories[i]).height == height
            && histories[i].tx_hash.bytes@ == id && (forall|j: int|
            i < j < histories.len() && (#[trigger] histories[j]).height == height
                ==> histories[j].tx_hash.bytes@ != id) implies secrets_at(histories, height)[id]
        == histories[i].tweak_key by {
        assert forall|j: int| i < j < histories.len() implies !is_entry(
            #[trigger] histories[j],
            histories[i].height,
            histories[i].tx_hash@,
        ) by {
            assert(histories[j].height == height ==> histories[j].tx_hash.bytes@ != id);
        }
        law_last_entry_counts(histories, i);
    }
}

proof fn lemma_grouped(groups: Seq<HeightSecrets>, histories: Seq<History>, id: Seq<u8>)
    requires
        grouped(groups, histories, |height: u32| height > 0),
    ensures
        forall|a: int, b: int|
            0 <= a < b < groups.len() ==> (#[trigger] groups[a]).height != (
            #[trigger] groups[b]).height,
        forall|g: int| 0 <= g < groups.len() ==> (#[trigger] groups[g]).height > 0,
        forall|i: int|
            0 <= i < histories.len() && (#[trigger] histories[i]).height > 0 ==> exists|g: int|
                0 <= g < groups.len() && (#[trigger] groups[g]).height == histories[i].height,
        forall|g: int|
            0 <= g < groups.len() ==> ((#[trigger] groups[g]).secrets@.contains_key(id)
                <==> exists|i: int|
                0 <= i < histories.len() && (#[trigger] histories[i]).height == groups[g].height
                    && histories[i].tx_hash.bytes@ == id),
        forall|g: int, i: int|
            0 <= g < groups.len() && 0 <= i < histories.len() && (#[trigger] histories[i]).height
                == (#[trigger] groups[g]).height && histories[i].tx_hash.bytes@ == id && (
            forall|j: int|
                i < j < histories.len() && (#[trigger] histories[j]).height == groups[g].height
                    ==> histories[j].tx_hash.bytes@ != id) ==> groups[g].secrets@[id]
                == histories[i].tweak_key,
{
    let keep = |height: u32| height > 0;
    assert forall|g: int| 0 <= g < groups.len() implies (#[trigger] groups[g]).height > 0 by {
        assert(has_group(groups, groups[g].height));
        assert(keep(groups[g].height));
    }
    assert forall|i: int|
        0 <= i < histories.len() && (#[trigger] histories[i]).height > 0 implies exists|g: int|
        0 <= g < groups.len() && (#[trigger] groups[g]).height == histories[i].height by {
        assert(has_height(histories, histories[i].height) && keep(histories[i].height));
        assert(has_group(groups, histories[i].height));
    }
    assert forall|g: int| 0 <= g < groups.len() implies ((
    #[trigger] groups[g]).secrets@.contains_key(id) <==> exists|i: int|
        0 <= i < histories.len() && (#[trigger] histories[i]).height == groups[g].height
            && histories[i].tx_hash.bytes@ == id) by {
        lemma_secrets_at(histories, groups[g].height, id);
    }
    assert forall|g: int, i: int|
        0 <= g < groups.len() && 0 <= i < histories.len() && (#[trigger] histories[i]).height == (
        #[trigger] groups[g]).height && histories[i].tx_hash.bytes@ == id && (forall|j: int|
            i < j < histories.len() && (#[trigger] histories[j]).height == groups[g].height
                ==> histories[j].tx_hash.bytes@ != id) implies groups[g].secrets@[id]
        == histories[i].tweak_key by {
        lemma_secrets_at(histories, groups[g].height, id);
    }
}

/// The groups are one for each height above zero at which the server has an entry. A
/// transaction has a secret in the group of a height if and only if the server has an entry for
/// it there, and of several the last one counts.
pub proof fn law_confirmed_secrets(
    histories: &Vec<History>,
    r: Vec<HeightSecrets>,
    id: Seq<u8>,
)
    requires
        call_ensures(confirmed_secrets, (histories,), r),
    ensures
        forall|a: int, b: int|
            0 <= a < b < r@.len() ==> (#[trigger] r@[a]).height != (#[trigger] r@[b]).height,
        forall|g: int| 0 <= g < r@.len() ==> (#[trigger] r@[g]).height > 0,
        forall|i: int|
            0 <= i < histories@.len() && (#[trigger] histories@[i]).height > 0 ==> exists|g: int|
                0 <= g < r@.len() && (#[trigger] r@[g]).height == histories@[i].height,
        forall|g: int|
            0 <= g < r@.len() ==> ((#[trigger] r@[g]).secrets@.contains_key(id) <==> exists|i: int|
                0 <= i < histories@.len() && (#[trigger] histories@[i]).height == r@[g].height
                    && histories@[i].tx_hash.bytes@ == id),
        forall|g: int, i: int|
            0 <= g < r@.len() && 0 <= i < histories@.len() && (#[trigger] histories@[i]).height == (
            #[trigger] r@[g]).height && histories@[i].tx_hash.bytes@ == id && (forall|j: int|
                i < j < histories@.len() && (#[trigger] histories@[j]).height == r@[g].height
                    ==> histories@[j].tx_hash.bytes@ != id) ==> r@[g].secrets@[id]
                == histories@[i].tweak_key,
{
    lemma_grouped(r@, histories@, id);
}

/// The same for a notification of a server, whose groups are indexed; the scan stops after them
/// if and only if the notification says that it is complete.
pub proof fn law_frigate_message(
    update: ScanUpdate,
    scan_priv_key: SecretKey,
    spend_pub_key: PublicKey,
    r: ScanAction,
    id: Seq<u8>,
)
    requires
        call_ensures(
            frigate_step,
            (StreamEvent::Message(Some(update)), scan_priv_key, spend_pub_key),
            r,
        ),
    ensures
        r matches ScanAction::Index { groups, complete } && {
            let histories = update.histories@;
            &&& complete == update.complete
            &&& forall|a: int, b: int|
                0 <= a < b < groups@.len() ==> (#[trigger] groups@[a]).height != (
                #[trigger] groups@[b]).height
            &&& forall|g: int| 0 <= g < groups@.len() ==> (#[trigger] groups@[g]).height > 0
            &&& forall|i: int|
                0 <= i < histories.len() && (#[trigger] histories[i]).height > 0 ==> exists|g: int|
                    0 <= g < groups@.len() && (#[trigger] groups@[g]).height == histories[i].height
            &&& forall|g: int|
                0 <= g < groups@.len() ==> ((#[trigger] groups@[g]).secrets@.contains_key(id)
                    <==> exists|i: int|
                    0 <= i < histories.len() && (#[trigger] histories[i]).height
                        == groups@[g].height && histories[i].tx_hash.bytes@ == id)
            &&& forall|g: int, i: int|
                0 <= g < groups@.len() && 0 <= i < histories.len() && (
                #[trigger] histories[i]).height == (#[trigger] groups@[g]).height
                    && histories[i].tx_hash.bytes@ == id && (forall|j: int|
                    i < j < histories.len() && (#[trigger] histories[j]).height
                        == groups@[g].height ==> histories[j].tx_hash.bytes@ != id)
                    ==> groups@[g].secrets@[id] == histories[i].tweak_key
        },
{
    if let ScanAction::Index { groups, complete } = r {
        lemma_grouped(groups@, update.histories@, id);
    }
}

} // verus!
