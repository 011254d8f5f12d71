//! What the commands report: JSON objects as indented text.

use vstd::prelude::*;

use crate::bytes::{
    block_hash_text, encode_hex, hash_text, hex_text, txid_text, PublicKey, Txid,
};
use crate::chain::BlockId;
use crate::json::{
    fields, new_object, no_fields, pretty, put_number, put_object, put_text, render, Json,
};
use crate::text::{decimal, format_number};

verus! {

/// A script in words, as `bitcoin::ScriptBuf` displays it.
pub uninterp spec fn script_words(script: Seq<u8>) -> Seq<char>;

/// `Display` of `bitcoin::ScriptBuf`: the opcodes and pushes of the script; the text
/// follows from the bytes.
#[verifier::external_body]
fn script_text(script: &Vec<u8>) -> (r: String)
    ensures
        r@ == script_words(script@),
{
    bitcoin::ScriptBuf::from_bytes(script.clone()).to_string()
}

/// An output that a transaction makes for the wallet, and what it was derived from.
#[derive(Clone, Debug, PartialEq, Eq)]
pub struct DerivedOutput {
    pub txid: Txid,
    pub script_pubkey: Vec<u8>,
    pub partial_secret: PublicKey,
    pub ecdh_shared_secret: PublicKey,
    pub order: u32,
    pub label: Option<PublicKey>,
}

impl DerivedOutput {
    /// The fields of the report, once the script is in words.
    pub open spec fn report_fields(self, words: Seq<char>) -> Map<Seq<char>, Json> {
        let always = no_fields().insert("txid"@, Json::Text(hash_text(self.txid@))).insert(
            "script_pubkey"@,
            Json::Text(words),
        ).insert("script_pubkey_hex"@, Json::Text(hex_text(self.script_pubkey@))).insert(
            "partial_secret"@,
            Json::Text(hex_text(self.partial_secret@)),
        ).insert("ecdh_shared_secret"@, Json::Text(hex_text(self.ecdh_shared_secret@))).insert(
            "order"@,
            Json::Text(decimal(self.order as nat)),
        );
        match self.label {
            Some(label) => always.insert("label"@, Json::Text(hex_text(label@))),
            None => always,
        }
    }

    /// The report on the output.
    pub fn report(&self) -> (r: String)
        ensures
            r@ == pretty(self.report_fields(script_words(self.script_pubkey@))),
    {
        let words: String = script_text(&self.script_pubkey);
        self.report_with(words)
    }

    /// The report on the output, with the script in the given words.
    pub fn report_with(&self, words: String) -> (r: String)
        ensures
            r@ == pretty(self.report_fields(words@)),
    {
        let mut object = new_object();
        put_text(&mut object, "txid", txid_text(&self.txid));
        put_text(&mut object, "script_pubkey", words);
        put_text(&mut object, "script_pubkey_hex", encode_hex(self.script_pubkey.as_slice()));
        put_text(
            &mut object,
            "partial_secret",
            encode_hex(self.partial_secret.bytes.as_slice()),
        );
        put_text(
            &mut object,
            "ecdh_shared_secret",
            encode_hex(self.ecdh_shared_secret.bytes.as_slice()),
        );
        put_text(&mut object, "order", format_number(self.order as u64));
        if let Some(label) = &self.label {
            put_text(&mut object, "label", encode_hex(label.bytes.as_slice()));
        }
        render(&object)
    }
}

/// The report of a silent payment code; there is none where no code could be made for a
/// label.
pub fn code_report(address: Option<String>) -> (r: Option<String>)
    ensures
        match address {
            Some(text) => r matches Some(report) && report@ == pretty(
                no_fields().insert("silent_payment_code"@, Json::Text(text@)),
            ),
            None => r is None,
        },
{
    match address {
        Some(text) => {
            let mut object = new_object();
            put_text(&mut object, "silent_payment_code", text);
            Some(render(&object))
        },
        None => None,
    }
}

/// The report of a wallet's birthday.
pub fn birthday_report(birthday: &BlockId) -> (r: String)
    ensures
        r@ == pretty(
            no_fields().insert("height"@, Json::Number(birthday.height as u64)).insert(
                "hash"@,
                Json::Text(hash_text(birthday.hash@)),
            ),
        ),
{
    let mut object = new_object();
    put_number(&mut object, "height", birthday.height as u64);
    put_text(&mut object, "hash", block_hash_text(&birthday.hash));
    render(&object)
}

/// The report of a new transaction, given by its encoding.
pub fn transaction_report(raw: &Vec<u8>) -> (r: String)
    ensures
        r@ == pretty(no_fields().insert("tx"@, Json::Text(hex_text(raw@)))),
{
    let mut object = new_object();
    put_text(&mut object, "tx", encode_hex(raw.as_slice()));
    render(&object)
}

/// The report of the descriptor of a new wallet.
pub fn descriptor_report(tr_xprv: &str) -> (r: String)
    ensures
        r@ == pretty(no_fields().insert("tr_xprv"@, Json::Text(tr_xprv@))),
{
    let mut object = new_object();
    put_text(&mut object, "tr_xprv", tr_xprv.to_string());
    render(&object)
}

/// Named amounts as fields; of two amounts with one name the later one counts.
pub open spec fn amount_fields(items: Seq<(&str, u64)>) -> Map<Seq<char>, Json>
    decreases items.len(),
{
    if items.len() == 0 {
        no_fields()
    } else {
        amount_fields(items.drop_last()).insert(items.last().0@, Json::Number(items.last().1))
    }
}

/// The report of some amounts in satoshis under a title.
pub fn print_balances(title_str: &str, items: &Vec<(&str, u64)>) -> (r: String)
    ensures
        r@ == pretty(no_fields().insert(title_str@, Json::Object(amount_fields(items@)))),
{
    let mut inner = new_object();
    let mut i: usize = 0;
    while i < items.len()
        invariant
            i <= items@.len(),
            fields(inner) == amount_fields(items@.take(i as int)),
        decreases items@.len() - i,
    {
        proof {
            assert(items@.take(i + 1).drop_last() =~= items@.take(i as int));
        }
        put_number(&mut inner, items[i].0, items[i].1);
        i = i + 1;
    }
    proof {
        assert(items@.take(i as int) =~= items@);
    }
    let mut object = new_object();
    put_object(&mut object, title_str, inner);
    render(&object)
}

/// What a wallet holds, in satoshis.
#[derive(Clone, Copy, Debug, PartialEq, Eq, Structural)]
pub struct Balance {
    /// Coinbase outputs that are not matured yet.
    pub immature: u64,
    /// Unconfirmed outputs of the wallet's own transactions.
    pub trusted_pending: u64,
    /// Unconfirmed outputs of others' transactions.
    pub untrusted_pending: u64,
    /// Confirmed outputs that can be spent.
    pub confirmed: u64,
}

impl Balance {
    /// The two totals are amounts.
    pub open spec fn totals_fit(self) -> bool {
        &&& self.confirmed + self.immature <= u64::MAX
        &&& self.untrusted_pending + self.trusted_pending <= u64::MAX
    }

    /// Whether the two totals are amounts.
    pub fn has_totals(&self) -> (r: bool)
        ensures
            r == self.totals_fit(),
    {
        self.confirmed <= u64::MAX - self.immature && self.untrusted_pending <= u64::MAX
            - self.trusted_pending
    }

    /// The confirmed amounts: what can be spent, what is not matured yet, and the sum.
    pub open spec fn confirmed_fields(self) -> Map<Seq<char>, Json> {
        no_fields().insert(
            "total"@,
            Json::Number((self.confirmed + self.immature) as u64),
        ).insert("spendable"@, Json::Number(self.confirmed)).insert(
            "immature"@,
            Json::Number(self.immature),
        )
    }

    /// The unconfirmed amounts: the wallet's own, those of others, and the sum.
    pub open spec fn unconfirmed_fields(self) -> Map<Seq<char>, Json> {
        no_fields().insert(
            "total"@,
            Json::Number((self.untrusted_pending + self.trusted_pending) as u64),
        ).insert("trusted"@, Json::Number(self.trusted_pending)).insert(
            "untrusted"@,
            Json::Number(self.untrusted_pending),
        )
    }

    /// The reports of the confirmed and of the unconfirmed amounts.
    pub fn reports(&self) -> (r: (String, String))
        requires
            self.totals_fit(),
        ensures
            r.0@ == pretty(
                no_fields().insert("confirmed"@, Json::Object(self.confirmed_fields())),
            ),
            r.1@ == pretty(
                no_fields().insert("unconfirmed"@, Json::Object(self.unconfirmed_fields())),
            ),
    {
        let confirmed_total: u64 = self.confirmed + self.immature;
        let unconfirmed_total: u64 = self.untrusted_pending + self.trusted_pending;
        let mut items: Vec<(&str, u64)> = Vec::new();
        items.push(("total", confirmed_total));
        items.push(("spendable", self.confirmed));
        items.push(("immature", self.immature));
        proof {
            lemma_three_amounts(items@);
        }
        let confirmed: String = print_balances("confirmed", &items);
        let mut items: Vec<(&str, u64)> = Vec::new();
        items.push(("total", unconfirmed_total));
        items.push(("trusted", self.trusted_pending));
        items.push(("untrusted", self.untrusted_pending));
        proof {
            lemma_three_amounts(items@);
        }
        let unconfirmed: String = print_balances("unconfirmed", &items);
        (confirmed, unconfirmed)
    }
}

proof fn lemma_three_amounts(items: Seq<(&str, u64)>)
    requires
        items.len() == 3,
    ensures
        amount_fields(items) == no_fields().insert(items[0].0@, Json::Number(items[0].1)).insert(
            items[1].0@,
            Json::Number(items[1].1),
        ).insert(items[2].0@, Json::Number(items[2].1)),
{
    reveal_with_fuel(amount_fields, 4);
}

proof fn lemma_report_names()
    ensures
        "txid"@.len() == 4,
        "script_pubkey"@.len() == 13,
        "script_pubkey_hex"@.len() == 17,
        "partial_secret"@.len() == 14,
        "ecdh_shared_secret"@.len() == 18,
        "order"@.len() == 5,
        "label"@.len() == 5,
        "order"@ != "label"@,
{
    reveal_strlit("txid");
    reveal_strlit("script_pubkey");
    reveal_strlit("script_pubkey_hex");
    reveal_strlit("partial_secret");
    reveal_strlit("ecdh_shared_secret");
    reveal_strlit("order");
    reveal_strlit("label");
    assert("order"@[0] == 'o' && "label"@[0] == 'l');
}

/// The report on an output has a field for each thing that is known of it and no other: the
/// transaction, the script in words and in hexadecimal, the two secrets, the place as a decimal
/// number, and the label if there is one.
pub proof fn law_output_report(output: DerivedOutput, words: String, r: String)
    requires
        call_ensures(DerivedOutput::report_with, (&output, words), r),
    ensures
        exists|f: Map<Seq<char>, Json>|
            {
                &&& r@ == #[trigger] pretty(f)
                &&& f["txid"@] == Json::Text(hash_text(output.txid.bytes@))
                &&& f["script_pubkey"@] == Json::Text(words@)
                &&& f["script_pubkey_hex"@] == Json::Text(hex_text(output.script_pubkey@))
                &&& f["partial_secret"@] == Json::Text(hex_text(output.partial_secret.bytes@))
                &&& f["ecdh_shared_secret"@] == Json::Text(
                    hex_text(output.ecdh_shared_secret.bytes@),
                )
                &&& f["order"@] == Json::Text(decimal(output.order as nat))
                &&& output.label matches Some(label) ==> f["label"@] == Json::Text(
                    hex_text(label.bytes@),
                )
                &&& forall|name: Seq<char>| #[trigger]
                    f.contains_key(name) <==> {
                        ||| name == "txid"@
                        ||| name == "script_pubkey"@
                        ||| name == "script_pubkey_hex"@
                        ||| name == "partial_secret"@
                        ||| name == "ecdh_shared_secret"@
                        ||| name == "order"@
                        ||| name == "label"@ && output.label is Some
                    }
            },
{
    lemma_report_names();
    let f = output.report_fields(words@);
    assert(r@ == pretty(f));
}

/// A report shows the script of the output in the words that the script has.
pub proof fn law_report(output: DerivedOutput, words: String, r: String, with: String)
    requires
        call_ensures(DerivedOutput::report, (&output,), r),
        call_ensures(DerivedOutput::report_with, (&output, words), with),
        words@ == script_words(output.script_pubkey@),
    ensures
        r@ == with@,
{
}

/// An object with a single text is shown for a code, for a transaction and for a descriptor.
pub proof fn law_single_reports(
    address: Option<String>,
    raw: &Vec<u8>,
    tr_xprv: &str,
    code: Option<String>,
    transaction: String,
    descriptor: String,
)
    requires
        call_ensures(code_report, (address,), code),
        call_ensures(transaction_report, (raw,), transaction),
        call_ensures(descriptor_report, (tr_xprv,), descriptor),
    ensures
        code is Some <==> address is Some,
        address matches Some(text) ==> (code matches Some(report) && report@ == pretty(
            map!["silent_payment_code"@ => Json::Text(text@)],
        )),
        transaction@ == pretty(map!["tx"@ => Json::Text(hex_text(raw@))]),
        descriptor@ == pretty(map!["tr_xprv"@ => Json::Text(tr_xprv@)]),
{
    if let Some(text) = address {
        assert(no_fields().insert("silent_payment_code"@, Json::Text(text@))
            =~= map!["silent_payment_code"@ => Json::Text(text@)]);
    }
    assert(no_fields().insert("tx"@, Json::Text(hex_text(raw@)))
        =~= map!["tx"@ => Json::Text(hex_text(raw@))]);
    assert(no_fields().insert("tr_xprv"@, Json::Text(tr_xprv@))
        =~= map!["tr_xprv"@ => Json::Text(tr_xprv@)]);
}

/// A birthday is shown by its height as a number and by its hash as hashes are written.
pub proof fn law_birthday_report(birthday: &BlockId, r: String)
    requires
        call_ensures(birthday_report, (birthday,), r),
    ensures
        r@ == pretty(
            map![
                "height"@ => Json::Number(birthday.height as u64),
                "hash"@ => Json::Text(hash_text(birthday.hash.bytes@)),
            ],
        ),
{
    assert(no_fields().insert("height"@, Json::Number(birthday.height as u64)).insert(
        "hash"@,
        Json::Text(hash_text(birthday.hash@)),
    ) =~= map![
        "height"@ => Json::Number(birthday.height as u64),
        "hash"@ => Json::Text(hash_text(birthday.hash.bytes@)),
    ]);
}

proof fn lemma_amounts(items: Seq<(&str, u64)>, name: Seq<char>)
    ensures
        amount_fields(items).contains_key(name) <==> exists|i: int|
            0 <= i < items.len() && (#[trigger] items[i]).0@ == name,
        forall|i: int|
            0 <= i < items.len() && (#[trigger] items[i]).0@ == name && (forall|j: int|
                i < j < items.len() ==> (#[trigger] items[j]).0@ != name) ==> amount_fields(
                items,
            )[name] == Json::Number(items[i].1),
    decreases items.len(),
{
    if items.len() > 0 {
        let before = items.drop_last();
        let n = items.len() - 1;
        lemma_amounts(before, name);
        assert(items[n] == items.last());
        if amount_fields(before).contains_key(name) {
            let i = choose|i: int| 0 <= i < before.len() && (#[trigger] before[i]).0@ == name;
            assert(items[i].0@ == name);
        }
        assert forall|i: int| 0 <= i < items.len() && (#[trigger] items[i]).0@ == name implies
            amount_fields(items).contains_key(name) by {
            if i < n {
                assert(before[i].0@ == name);
            }
        }
        assert forall|i: int|
            0 <= i < items.len() && (#[trigger] items[i]).0@ == name && (forall|j: int|
                i < j < items.len() ==> (#[trigger] items[j]).0@ != name) implies amount_fields(
            items,
        )[name] == Json::Number(items[i].1) by {
            if i < n {
                assert(before[i].0@ == name);
                assert(items[n].0@ != name);
                assert forall|j: int| i < j < before.len() implies (#[trigger] before[j]).0@
                    != name by {
                    assert(items[j].0@ != name);
                }
            }
        }
    }
}

/// An object with some fields under a title.
pub open spec fn titled(title: Seq<char>, f: Map<Seq<char>, Json>) -> Map<Seq<char>, Json> {
    map![title => Json::Object(f)]
}

/// Amounts are shown under their title, each by its name, and of two with one name the later.
pub proof fn law_print_balances(
    title_str: &str,
    items: &Vec<(&str, u64)>,
    name: Seq<char>,
    r: String,
)
    requires
        call_ensures(print_balances, (title_str, items), r),
    ensures
        exists|f: Map<Seq<char>, Json>|
            {
                &&& r@ == pretty(#[trigger] titled(title_str@, f))
                &&& f.contains_key(name) <==> exists|i: int|
                    0 <= i < items@.len() && (#[trigger] items@[i]).0@ == name
                &&& forall|i: int|
                    0 <= i < items@.len() && (#[trigger] items@[i]).0@ == name && (forall|j: int|
                        i < j < items@.len() ==> (#[trigger] items@[j]).0@ != name) ==> f[name]
                        == Json::Number(items@[i].1)
            },
{
    lemma_amounts(items@, name);
    let f = amount_fields(items@);
    assert(no_fields().insert(title_str@, Json::Object(f)) =~= titled(title_str@, f));
}

/// The totals of a balance are shown beside what they are made of: what can be spent and what is
/// not matured yet, and what is pending of the wallet's own and of others.
pub proof fn law_balance_reports(balance: Balance, fits: bool, r: (String, String))
    requires
        call_ensures(Balance::has_totals, (&balance,), fits),
        fits ==> call_ensures(Balance::reports, (&balance,), r),
    ensures
        fits <==> balance.confirmed + balance.immature <= u64::MAX && balance.trusted_pending
            + balance.untrusted_pending <= u64::MAX,
        fits ==> r.0@ == pretty(
            map![
                "confirmed"@ => Json::Object(
                    map![
                        "total"@ => Json::Number((balance.confirmed + balance.immature) as u64),
                        "spendable"@ => Json::Number(balance.confirmed),
                        "immature"@ => Json::Number(balance.immature),
                    ],
                ),
            ],
        ),
        fits ==> r.1@ == pretty(
            map![
                "unconfirmed"@ => Json::Object(
                    map![
                        "total"@ => Json::Number(
                            (balance.trusted_pending + balance.untrusted_pending) as u64,
                        ),
                        "trusted"@ => Json::Number(balance.trusted_pending),
                        "untrusted"@ => Json::Number(balance.untrusted_pending),
                    ],
                ),
            ],
        ),
{
    let confirmed = map![
        "total"@ => Json::Number((balance.confirmed + balance.immature) as u64),
        "spendable"@ => Json::Number(balance.confirmed),
        "immature"@ => Json::Number(balance.immature),
    ];
    let unconfirmed = map![
        "total"@ => Json::Number((balance.trusted_pending + balance.untrusted_pending) as u64),
        "trusted"@ => Json::Number(balance.trusted_pending),
        "untrusted"@ => Json::Number(balance.untrusted_pending),
    ];
    assert(balance.confirmed_fields() =~= confirmed);
    assert(balance.unconfirmed_fields() =~= unconfirmed);
    assert(no_fields().insert("confirmed"@, Json::Object(confirmed))
        =~= map!["confirmed"@ => Json::Object(confirmed)]);
    assert(no_fields().insert("unconfirmed"@, Json::Object(unconfirmed))
        =~= map!["unconfirmed"@ => Json::Object(unconfirmed)]);
}

} // verus!
