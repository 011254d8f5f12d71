//! The outputs that a transaction spends, looked up one after the other.

use vstd::prelude::*;

use crate::bytes::Txid;
use crate::transaction::{
    decode_transaction, decoded, outputs_view, OutPoint, OutPointView, Transaction, TxOut,
    TxOutView,
};

verus! {

/// What a lookup needs next.
pub enum Lookup {
    /// The transaction with this id.
    Fetch(Txid),
    /// Nothing: the outputs are complete.
    Complete,
    /// Nothing: an output could not be found.
    Failed,
}

/// The outputs that a transaction spends, as far as they are known.
#[derive(Clone, Debug, PartialEq, Eq)]
pub struct PrevoutLookup {
    inputs: Vec<OutPoint>,
    prevouts: Vec<TxOut>,
    failed: bool,
}

/// The outputs that `inputs` refer to, given what was found for the transactions of the
/// inputs in turn (the outputs of each, or nothing): the output of each input, in the
/// order of the inputs, unless a transaction was not found or has no such output.
pub open spec fn spent_outputs(
    inputs: Seq<OutPointView>,
    found: Seq<Option<Seq<TxOutView>>>,
) -> Option<Seq<TxOutView>> {
    if forall|i: int|
        0 <= i < found.len() ==> (#[trigger] found[i]) is Some && inputs[i].vout
            < found[i]->0.len() {
        Some(Seq::new(found.len(), |i: int| found[i]->0[inputs[i].vout as int]))
    } else {
        None
    }
}

/// The outputs of a transaction that was found.
pub open spec fn found_outputs(found: Option<&Transaction>) -> Option<Seq<TxOutView>> {
    match found {
        Some(tx) => Some(tx@.output),
        None => None,
    }
}

/// The outputs of a transaction that a node sent by its encoding; there are none if it sent
/// nothing, or bytes that are no transaction.
pub open spec fn sent_outputs(reply: Option<&[u8]>) -> Option<Seq<TxOutView>> {
    match reply {
        Some(bytes) => match decoded(bytes@) {
            Some(tx) => Some(tx.output),
            None => None,
        },
        None => None,
    }
}

impl PrevoutLookup {
    pub closed spec fn spec_inputs(self) -> Seq<OutPointView> {
        self.inputs@.map_values(|o: OutPoint| o@)
    }

    /// The outputs that were found so far, unless one could not be found.
    pub closed spec fn spec_known(self) -> Option<Seq<TxOutView>> {
        if self.failed {
            None
        } else {
            Some(outputs_view(self.prevouts@))
        }
    }

    /// There are no more outputs than inputs.
    pub closed spec fn wf(self) -> bool {
        self.prevouts@.len() <= self.inputs@.len()
    }

    /// Starts the lookup for the inputs of a transaction.
    pub fn new(tx: &Transaction) -> (r: Self)
        ensures
            r.wf(),
            r.spec_inputs() == tx@.input,
            r.spec_known() == Some(Seq::<TxOutView>::empty()),
    {
        let mut inputs: Vec<OutPoint> = Vec::new();
        let mut i: usize = 0;
        while i < tx.input.len()
            invariant
                i <= tx.input@.len(),
                inputs@ == tx.input@.take(i as int),
            decreases tx.input@.len() - i,
        {
            inputs.push(tx.input[i]);
            i = i + 1;
        }
        let r: PrevoutLookup = PrevoutLookup { inputs, prevouts: Vec::new(), failed: false };
        proof {
            assert(r.spec_inputs() =~= tx@.input);
            assert(outputs_view(r.prevouts@) =~= Seq::<TxOutView>::empty());
        }
        r
    }

    /// What is needed next: the transaction of the first input whose output is not known.
    pub fn next(&self) -> (r: Lookup)
        requires
            self.wf(),
        ensures
            match self.spec_known() {
                None => r is Failed,
                Some(known) => if known.len() < self.spec_inputs().len() {
                    r matches Lookup::Fetch(txid) && txid@
                        == self.spec_inputs()[known.len() as int].txid
                } else {
                    r is Complete
                },
            },
    {
        if self.failed {
            Lookup::Failed
        } else if self.prevouts.len() < self.inputs.len() {
            Lookup::Fetch(self.inputs[self.prevouts.len()].txid)
        } else {
            Lookup::Complete
        }
    }

    /// Takes the transaction that was asked for, or notes that there is none.
    pub fn supply(&mut self, found: Option<&Transaction>)
        requires
            old(self).wf(),
            old(self).spec_known() matches Some(known) && known.len() < old(
                self,
            ).spec_inputs().len(),
        ensures
            final(self).wf(),
            final(self).spec_inputs() == old(self).spec_inputs(),
            final(self).spec_known() == known_after(
                old(self).spec_inputs(),
                old(self).spec_known(),
                found_outputs(found),
            ),
    {
        let ghost before = outputs_view(self.prevouts@);
        match found {
            None => {
                self.failed = true;
            },
            Some(tx) => {
                let vout: u32 = self.inputs[self.prevouts.len()].vout;
                if (vout as usize) < tx.output.len() {
                    let output: TxOut = tx.output[vout as usize].copy();
                    self.prevouts.push(output);
                    proof {
                        assert(outputs_view(self.prevouts@) =~= before.push(
                            tx@.output[vout as int],
                        ));
                    }
                } else {
                    self.failed = true;
                }
            },
        }
    }

    /// Takes the encoding of the transaction that was asked for, as a node sent it.
    pub fn supply_raw(&mut self, reply: Option<&[u8]>)
        requires
            old(self).wf(),
            old(self).spec_known() matches Some(known) && known.len() < old(
                self,
            ).spec_inputs().len(),
        ensures
            final(self).wf(),
            final(self).spec_inputs() == old(self).spec_inputs(),
            final(self).spec_known() == known_after(
                old(self).spec_inputs(),
                old(self).spec_known(),
                sent_outputs(reply),
            ),
    {
        let found: Option<Transaction> = match reply {
            Some(bytes) => decode_transaction(bytes),
            None => None,
        };
        match &found {
            Some(tx) => self.supply(Some(tx)),
            None => self.supply(None),
        }
    }

    /// The outputs of all inputs, if every one of them was found.
    pub fn finish(self) -> (r: Option<Vec<TxOut>>)
        requires
            self.wf(),
        ensures
            match self.spec_known() {
                Some(known) => if known.len() == self.spec_inputs().len() {
                    r matches Some(outputs) && outputs_view(outputs@) == known
                } else {
                    r is None
                },
                None => r is None,
            },
    {
        if !self.failed && self.prevouts.len() == self.inputs.len() {
            Some(self.prevouts)
        } else {
            None
        }
    }
}

/// What is known after one more answer, as `PrevoutLookup::supply` leaves it.
pub open spec fn known_after(
    inputs: Seq<OutPointView>,
    known: Option<Seq<TxOutView>>,
    found: Option<Seq<TxOutView>>,
) -> Option<Seq<TxOutView>> {
    match (known, found) {
        (Some(k), Some(outputs)) => {
            let vout = inputs[k.len() as int].vout;
            if vout < outputs.len() {
                Some(k.push(outputs[vout as int]))
            } else {
                None
            }
        },
        _ => None,
    }
}

/// What is known after a series of answers.
pub open spec fn known_after_all(
    inputs: Seq<OutPointView>,
    found: Seq<Option<Seq<TxOutView>>>,
) -> Option<Seq<TxOutView>>
    decreases found.len(),
{
    if found.len() == 0 {
        Some(Seq::empty())
    } else {
        known_after(inputs, known_after_all(inputs, found.drop_last()), found.last())
    }
}

/// A lookup that took an answer for each of the first inputs knows their outputs, each of
/// them the one that its input refers to, if and only if every answer held it.
pub proof fn law_lookup(inputs: Seq<OutPointView>, found: Seq<Option<Seq<TxOutView>>>)
    requires
        found.len() <= inputs.len(),
    ensures
        known_after_all(inputs, found) == spent_outputs(inputs, found),
    decreases found.len(),
{
    if found.len() == 0 {
        assert(spent_outputs(inputs, found)->0 =~= Seq::<TxOutView>::empty());
    } else {
        let before = found.drop_last();
        law_lookup(inputs, before);
        let n = found.len() - 1;
        match spent_outputs(inputs, before) {
            Some(known) => {
                assert forall|i: int| 0 <= i < n implies (#[trigger] found[i]) is Some
                    && inputs[i].vout < found[i]->0.len() by {
                    assert(before[i] == found[i]);
                }
                if found[n] is Some && inputs[n].vout < found[n]->0.len() {
                    assert(spent_outputs(inputs, found) is Some);
                    assert(spent_outputs(inputs, found)->0 =~= known.push(
                        found[n]->0[inputs[n].vout as int],
                    ));
                } else {
                    assert(!(found[n] is Some && inputs[n].vout < found[n]->0.len()));
                }
            },
            None => {
                let i = choose|i: int|
                    0 <= i < before.len() && !((#[trigger] before[i]) is Some && inputs[i].vout
                        < before[i]->0.len());
                assert(found[i] == before[i]);
            },
        }
    }
}

/// A new lookup has the inputs of the transaction in their order, and knows no output.
pub proof fn law_new(tx: &Transaction, r: PrevoutLookup)
    requires
        call_ensures(PrevoutLookup::new, (tx,), r),
    ensures
        r.wf(),
        r.spec_inputs().len() == tx.input@.len(),
        forall|i: int|
            0 <= i < tx.input@.len() ==> (#[trigger] r.spec_inputs()[i]).txid
                == tx.input@[i].txid.bytes@ && r.spec_inputs()[i].vout == tx.input@[i].vout,
        r.spec_known() matches Some(known) && known.len() == 0,
{
}

/// A lookup asks for the transaction of the first input whose output it does not know; it is
/// complete when it knows them all, and failed when one could not be found.
pub proof fn law_next(lookup: PrevoutLookup, r: Lookup)
    requires
        call_ensures(PrevoutLookup::next, (&lookup,), r),
    ensures
        r is Failed <==> lookup.spec_known() is None,
        lookup.spec_known() matches Some(known) ==> {
            &&& r is Complete <==> known.len() >= lookup.spec_inputs().len()
            &&& known.len() < lookup.spec_inputs().len() ==> (r matches Lookup::Fetch(txid)
                && txid.bytes@ == lookup.spec_inputs()[known.len() as int].txid)
        },
{
}

/// With the transaction that was asked for, what is known grows by the output that the input
/// refers to, whichever it is; without the transaction or the output the lookup has failed.
pub proof fn law_supply(lookup: &mut PrevoutLookup, found: Option<&Transaction>)
    requires
        call_ensures(PrevoutLookup::supply, (lookup, found), ()),
        lookup.spec_known() matches Some(known) && known.len() < lookup.spec_inputs().len(),
    ensures
        final(lookup).wf(),
        final(lookup).spec_inputs() == old(lookup).spec_inputs(),
        ({
            let known = old(lookup).spec_known()->0;
            let vout = old(lookup).spec_inputs()[known.len() as int].vout;
            &&& found is None ==> final(lookup).spec_known() is None
            &&& found matches Some(tx) ==> vout >= tx.output@.len()
                ==> final(lookup).spec_known() is None
            &&& found matches Some(tx) ==> vout < tx.output@.len() ==> {
                &&& final(lookup).spec_known() matches Some(now)
                &&& now.len() == known.len() + 1
                &&& forall|i: int| 0 <= i < known.len() ==> #[trigger] now[i] == known[i]
                &&& now.last().value == tx.output@[vout as int].value
                &&& now.last().script_pubkey == tx.output@[vout as int].script_pubkey@
            }
        }),
{
    let known = lookup.spec_known()->0;
    let vout = lookup.spec_inputs()[known.len() as int].vout;
    if let Some(tx) = found {
        if vout < tx.output@.len() {
            assert(tx@.output[vout as int] == tx.output@[vout as int]@);
        }
    }
}

/// With the encoding of the transaction that was asked for, what is known grows by the output
/// of the decoded transaction that the input refers to, whichever it is; without a reply, with
/// one that is no transaction, or with one that has no such output the lookup has failed.
pub proof fn law_supply_raw(lookup: &mut PrevoutLookup, reply: Option<&[u8]>)
    requires
        call_ensures(PrevoutLookup::supply_raw, (lookup, reply), ()),
        lookup.spec_known() matches Some(known) && known.len() < lookup.spec_inputs().len(),
    ensures
        final(lookup).wf(),
        final(lookup).spec_inputs() == old(lookup).spec_inputs(),
        ({
            let known = old(lookup).spec_known()->0;
            let vout = old(lookup).spec_inputs()[known.len() as int].vout;
            &&& reply is None ==> final(lookup).spec_known() is None
            &&& reply matches Some(bytes) ==> decoded(bytes@) is None
                ==> final(lookup).spec_known() is None
            &&& reply matches Some(bytes) ==> decoded(bytes@) matches Some(tx) ==> {
                &&& vout >= tx.output.len() ==> final(lookup).spec_known() is None
                &&& vout < tx.output.len() ==> final(lookup).spec_known() == Some(
                    known.push(tx.output[vout as int]),
                )
            }
        }),
{
}

/// What a node sent by its encoding counts with all of its outputs, in their order.
pub proof fn law_sent_outputs(reply: Option<&[u8]>)
    ensures
        reply is None ==> sent_outputs(reply) is None,
        reply matches Some(bytes) ==> {
            &&& decoded(bytes@) is None ==> sent_outputs(reply) is None
            &&& decoded(bytes@) matches Some(tx) ==> (sent_outputs(reply) matches Some(outputs)
                && outputs.len() == tx.output.len() && forall|i: int|
                0 <= i < tx.output.len() ==> #[trigger] outputs[i] == tx.output[i])
        },
{
}

/// A lookup gives the outputs of all inputs, in their order and with their amounts and scripts,
/// if and only if it knows them all.
pub proof fn law_finish(lookup: PrevoutLookup, r: Option<Vec<TxOut>>)
    requires
        call_ensures(PrevoutLookup::finish, (lookup,), r),
    ensures
        r is Some <==> (lookup.spec_known() matches Some(known) && known.len()
            == lookup.spec_inputs().len()),
        r matches Some(outputs) ==> {
            &&& outputs@.len() == lookup.spec_inputs().len()
            &&& forall|i: int|
                0 <= i < outputs@.len() ==> (#[trigger] outputs@[i]).value
                    == lookup.spec_known()->0[i].value && outputs@[i].script_pubkey@
                    == lookup.spec_known()->0[i].script_pubkey
        },
{
    if let Some(outputs) = r {
        let known = lookup.spec_known()->0;
        assert(outputs_view(outputs@).len() == outputs@.len());
        assert forall|i: int| 0 <= i < outputs@.len() implies (#[trigger] outputs@[i]).value
            == known[i].value && outputs@[i].script_pubkey@ == known[i].script_pubkey by {
            assert(outputs_view(outputs@)[i] == outputs@[i]@);
        }
    }
}

} // verus!
