//! Recipients as they are given on the command line: `key:value`, an address or a silent
//! payment code and an amount in satoshis.

use vstd::prelude::*;

use crate::network::{Network, Networks};
use crate::text::{
    blank, decimal, is_digit, law_blanks_are_trimmed, law_number_roundtrip, lemma_decimal_digits,
    number, parse_number, split, split_on, trim, trim_back, trim_front, trimmed, white_space,
};
use bitcoin::address::NetworkUnchecked;
use std::str::FromStr;

verus! {

/// An address whose network has not been checked yet: its text, the script that it stands
/// for, and the networks on which it may be paid.
#[derive(Clone, Debug, PartialEq, Eq)]
pub struct Address {
    pub text: String,
    pub script_pubkey: Vec<u8>,
    pub networks: Networks,
}

pub struct AddressView {
    pub text: Seq<char>,
    pub script_pubkey: Seq<u8>,
    pub networks: Networks,
}

impl View for Address {
    type V = AddressView;

    open spec fn view(&self) -> AddressView {
        AddressView {
            text: self.text@,
            script_pubkey: self.script_pubkey@,
            networks: self.networks,
        }
    }
}

/// A text that can be the key of a recipient: it has no colon, and no white space at its
/// ends.
pub open spec fn is_key(s: Seq<char>) -> bool {
    &&& forall|i: int| 0 <= i < s.len() ==> s[i] != ':'
    &&& trimmed(s) == s
}

impl AddressView {
    /// The text of the address can be the key of a recipient, and it is read as the address.
    pub open spec fn wf(self) -> bool {
        &&& is_key(self.text)
        &&& parsed_address(self.text) == Some(self)
    }
}

/// A silent payment code: its text, the placeholder script that reserves its output, and
/// the networks on which it may be paid.
#[derive(Clone, Debug, PartialEq, Eq)]
pub struct SilentPaymentCode {
    pub text: String,
    pub placeholder_script: Vec<u8>,
    pub networks: Networks,
}

/// What `bitcoin::Address::from_str` reads in a text.
pub uninterp spec fn parsed_address(s: Seq<char>) -> Option<AddressView>;

/// `bitcoin::Address::<NetworkUnchecked>::from_str`, with the text that `Display` gives for
/// the address, its `script_pubkey` and the networks for which `is_valid_for_network` holds;
/// all of it follows from the text that was read. The displayed text is in base58 or bech32,
/// which have neither colons nor white space, and it is read back as the same address.
#[verifier::external_body]
fn parse_address(s: &str) -> (r: Option<Address>)
    ensures
        r is Some <==> parsed_address(s@) is Some,
        r matches Some(a) ==> a@ == parsed_address(s@)->0,
        r matches Some(a) ==> a@.wf(),
{
    let address = bitcoin::Address::<NetworkUnchecked>::from_str(s).ok()?;
    let networks = Networks {
        bitcoin: address.is_valid_for_network(bitcoin::Network::Bitcoin),
        testnet: address.is_valid_for_network(bitcoin::Network::Testnet),
        testnet4: address.is_valid_for_network(bitcoin::Network::Testnet4),
        signet: address.is_valid_for_network(bitcoin::Network::Signet),
        regtest: address.is_valid_for_network(bitcoin::Network::Regtest),
    };
    let address = address.assume_checked();
    let script_pubkey = address.script_pubkey().to_bytes();
    Some(Address { text: address.to_string(), script_pubkey, networks })
}

/// The trimmed key and the value of a recipient; only a text with exactly one colon has
/// them.
pub open spec fn recipient_parts(s: Seq<char>) -> Option<(Seq<char>, Seq<char>)> {
    let parts = split_on(s, ':');
    if parts.len() == 2 {
        Some((trimmed(parts[0]), parts[1]))
    } else {
        None
    }
}

pub open spec fn bad_format(s: Seq<char>) -> Seq<char> {
    "Invalid format '"@ + s + "'. Expected 'key:value'"@
}

pub open spec fn bad_address(key: Seq<char>) -> Seq<char> {
    "Invalid address: "@ + key
}

pub open spec fn bad_code(key: Seq<char>) -> Seq<char> {
    "Invalid silent payment address: "@ + key
}

pub open spec fn bad_number(value: Seq<char>, key: Seq<char>) -> Seq<char> {
    "Invalid number '"@ + value + "' for key '"@ + key + "'"@
}

/// The message on a value that is no number.
fn number_message(value: &str, key: &str) -> (r: String)
    ensures
        r@ == bad_number(value@, key@),
{
    let mut message: String = "Invalid number '".to_string();
    message.append(value);
    message.append("' for key '");
    message.append(key);
    message.append("'");
    message
}

/// The trimmed key and the value of a recipient.
pub fn split_recipient(s: &str) -> (r: Result<(String, String), String>)
    ensures
        match recipient_parts(s@) {
            Some(parts) => r matches Ok(p) && p.0@ == parts.0 && p.1@ == parts.1,
            None => r matches Err(m) && m@ == bad_format(s@),
        },
{
    let mut parts: Vec<String> = split(s, ':');
    if parts.len() != 2 {
        let mut message: String = "Invalid format '".to_string();
        message.append(s);
        message.append("'. Expected 'key:value'");
        return Err(message);
    }
    let value: String = match parts.pop() {
        Some(v) => v,
        None => String::new(),
    };
    Ok((trim(parts[0].as_str()), value))
}

/// The recipient for a key and a value, once it is known what address the key is.
pub fn address_recipient(key: &str, value: &str, address: Option<Address>) -> (r: Result<
    (Address, u64),
    String,
>)
    ensures
        match address {
            None => r matches Err(m) && m@ == bad_address(key@),
            Some(a) => match number(trimmed(value@)) {
                None => r matches Err(m) && m@ == bad_number(value@, key@),
                Some(n) => r matches Ok(p) && p.0 == a && p.1 == n,
            },
        },
{
    match address {
        None => {
            let mut message: String = "Invalid address: ".to_string();
            message.append(key);
            Err(message)
        },
        Some(a) => match parse_number(trim(value).as_str()) {
            None => Err(number_message(value, key)),
            Some(n) => Ok((a, n)),
        },
    }
}

/// What a text says as a recipient with an address for its key, or what is wrong with it.
pub open spec fn read_recipient(s: Seq<char>) -> Result<(AddressView, u64), Seq<char>> {
    match recipient_parts(s) {
        None => Err(bad_format(s)),
        Some(parts) => match parsed_address(parts.0) {
            None => Err(bad_address(parts.0)),
            Some(address) => match number(trimmed(parts.1)) {
                None => Err(bad_number(parts.1, parts.0)),
                Some(n) => Ok((address, n)),
            },
        },
    }
}

/// Reads a recipient with an address for its key.
pub fn parse_recipients(s: &str) -> (r: Result<(Address, u64), String>)
    ensures
        match read_recipient(s@) {
            Ok(p) => r matches Ok(q) && q.0@ == p.0 && q.1 == p.1 && q.0@.wf(),
            Err(text) => r matches Err(m) && m@ == text,
        },
{
    match split_recipient(s) {
        Err(message) => Err(message),
        Ok((key, value)) => {
            let address: Option<Address> = parse_address(key.as_str());
            address_recipient(key.as_str(), value.as_str(), address)
        },
    }
}

/// What a text says as a recipient with a silent payment code for its key, or what is wrong
/// with it; `decoded` is the code that the trimmed key stands for, if it is one.
pub open spec fn read_sp_recipient(s: Seq<char>, decoded: Option<SilentPaymentCode>) -> Result<
    (SilentPaymentCode, u64),
    Seq<char>,
> {
    match recipient_parts(s) {
        None => Err(bad_format(s)),
        Some(parts) => match decoded {
            None => Err(bad_code(parts.0)),
            Some(code) => match number(trimmed(parts.1)) {
                None => Err(bad_number(parts.1, code.text@)),
                Some(n) => Ok((code, n)),
            },
        },
    }
}

/// Reads a recipient with a silent payment code for its key; `decoded` is the code that
/// the trimmed key of `s` stands for, if it is one.
pub fn parse_sp_recipients(s: &str, decoded: Option<SilentPaymentCode>) -> (r: Result<
    (SilentPaymentCode, u64),
    String,
>)
    ensures
        match read_sp_recipient(s@, decoded) {
            Ok(p) => r matches Ok(q) && q == p,
            Err(text) => r matches Err(m) && m@ == text,
        },
{
    let (key, value): (String, String) = match split_recipient(s) {
        Err(message) => {
            return Err(message);
        },
        Ok(parts) => parts,
    };
    match decoded {
        None => {
            let mut message: String = "Invalid silent payment address: ".to_string();
            message.append(key.as_str());
            Err(message)
        },
        Some(code) => match parse_number(trim(value.as_str()).as_str()) {
            None => Err(number_message(value.as_str(), code.text.as_str())),
            Some(n) => Ok((code, n)),
        },
    }
}

impl Address {
    /// The script of the address, if it may be paid on `network`.
    pub fn require_network(self, network: Network) -> (r: Option<Vec<u8>>)
        ensures
            r is Some <==> self.networks.has_network(network),
            r matches Some(script) ==> script == self.script_pubkey,
    {
        if self.networks.contains(network) {
            Some(self.script_pubkey)
        } else {
            None
        }
    }
}

/// The number of colons in a text.
pub open spec fn colons(s: Seq<char>) -> nat
    decreases s.len(),
{
    if s.len() == 0 {
        0
    } else {
        colons(s.drop_last()) + if s.last() == ':' {
            1nat
        } else {
            0nat
        }
    }
}

proof fn lemma_pieces(s: Seq<char>)
    ensures
        split_on(s, ':').len() == colons(s) + 1,
    decreases s.len(),
{
    if s.len() > 0 {
        lemma_pieces(s.drop_last());
    }
}

/// A text is a key and a value if and only if it has exactly one colon.
pub proof fn law_one_colon(s: Seq<char>)
    ensures
        recipient_parts(s) is Some <==> colons(s) == 1,
{
    lemma_pieces(s);
}

proof fn lemma_split_without(s: Seq<char>)
    requires
        forall|i: int| 0 <= i < s.len() ==> s[i] != ':',
    ensures
        split_on(s, ':') =~= seq![s],
    decreases s.len(),
{
    if s.len() > 0 {
        lemma_split_without(s.drop_last());
        assert(s.last() != ':');
        assert(s.drop_last().push(s.last()) =~= s);
    } else {
        assert(s =~= Seq::<char>::empty());
    }
}

proof fn lemma_split_one(key: Seq<char>, value: Seq<char>)
    requires
        forall|i: int| 0 <= i < key.len() ==> key[i] != ':',
        forall|i: int| 0 <= i < value.len() ==> value[i] != ':',
    ensures
        split_on(key.push(':') + value, ':') =~= seq![key, value],
    decreases value.len(),
{
    let s = key.push(':') + value;
    if value.len() == 0 {
        assert(s.drop_last() =~= key);
        assert(value =~= Seq::<char>::empty());
        lemma_split_without(key);
    } else {
        assert(s.last() == value.last() && value.last() != ':');
        assert(s.drop_last() =~= key.push(':') + value.drop_last());
        lemma_split_one(key, value.drop_last());
        assert(value.drop_last().push(value.last()) =~= value);
    }
}

proof fn lemma_colons_concat(a: Seq<char>, b: Seq<char>)
    ensures
        colons(a + b) == colons(a) + colons(b),
    decreases b.len(),
{
    if b.len() == 0 {
        assert(a + b =~= a);
    } else {
        assert((a + b).drop_last() =~= a + b.drop_last());
        lemma_colons_concat(a, b.drop_last());
    }
}

proof fn lemma_no_colons(s: Seq<char>)
    ensures
        colons(s) == 0 <==> forall|i: int| 0 <= i < s.len() ==> s[i] != ':',
    decreases s.len(),
{
    if s.len() > 0 {
        let before = s.drop_last();
        lemma_no_colons(before);
        assert(s[s.len() - 1] == s.last());
        if colons(s) == 0 {
            assert forall|i: int| 0 <= i < s.len() implies s[i] != ':' by {
                if i < before.len() {
                    assert(before[i] == s[i]);
                }
            }
        }
        if forall|i: int| 0 <= i < s.len() ==> s[i] != ':' {
            assert forall|i: int| 0 <= i < before.len() implies before[i] != ':' by {
                assert(before[i] == s[i]);
            }
        }
    }
}

proof fn lemma_blank_around(before: Seq<char>, s: Seq<char>, after: Seq<char>)
    requires
        blank(before),
        blank(after),
    ensures
        colons(before + s + after) == colons(s),
        trimmed(before + s + after) == trimmed(s),
{
    assert forall|i: int| 0 <= i < before.len() implies before[i] != ':' by {
        assert(white_space(before[i]));
    }
    assert forall|i: int| 0 <= i < after.len() implies after[i] != ':' by {
        assert(white_space(after[i]));
    }
    lemma_no_colons(before);
    lemma_no_colons(after);
    lemma_colons_concat(before, s);
    lemma_colons_concat(before + s, after);
    law_blanks_are_trimmed(before, s, after);
}

proof fn lemma_parts(key: Seq<char>, value: Seq<char>)
    ensures
        recipient_parts(key.push(':') + value) == if colons(key) == 0 && colons(value) == 0 {
            Some((trimmed(key), value))
        } else {
            None::<(Seq<char>, Seq<char>)>
        },
{
    let s = key.push(':') + value;
    lemma_no_colons(key);
    lemma_no_colons(value);
    if colons(key) == 0 && colons(value) == 0 {
        lemma_split_one(key, value);
    } else {
        assert(key.push(':').drop_last() =~= key);
        assert(colons(key.push(':')) == colons(key) + 1);
        lemma_colons_concat(key.push(':'), value);
        law_one_colon(s);
    }
}

/// White space around the key and around the value of a recipient matters neither to whether
/// it is read nor to what is read, with an address or with a silent payment code for its key.
pub proof fn law_blanks_do_not_matter(
    key: Seq<char>,
    value: Seq<char>,
    blanks: (Seq<char>, Seq<char>, Seq<char>, Seq<char>),
    decoded: Option<SilentPaymentCode>,
)
    requires
        blank(blanks.0),
        blank(blanks.1),
        blank(blanks.2),
        blank(blanks.3),
    ensures
        ({
            let plain = key.push(':') + value;
            let spaced = (blanks.0 + key + blanks.1).push(':') + (blanks.2 + value + blanks.3);
            &&& recipient_parts(spaced) is Some <==> recipient_parts(plain) is Some
            &&& recipient_parts(plain) matches Some(p) ==> recipient_parts(spaced) matches Some(q)
                && p.0 == q.0
            &&& read_recipient(spaced) is Ok <==> read_recipient(plain) is Ok
            &&& read_recipient(plain) is Ok ==> read_recipient(spaced) == read_recipient(plain)
            &&& read_sp_recipient(spaced, decoded) is Ok <==> read_sp_recipient(
                plain,
                decoded,
            ) is Ok
            &&& read_sp_recipient(plain, decoded) is Ok ==> read_sp_recipient(spaced, decoded)
                == read_sp_recipient(plain, decoded)
        }),
{
    lemma_blank_around(blanks.0, key, blanks.1);
    lemma_blank_around(blanks.2, value, blanks.3);
    lemma_parts(key, value);
    lemma_parts(blanks.0 + key + blanks.1, blanks.2 + value + blanks.3);
}

/// A key, a colon and a number in decimal are read back as that key and that number.
pub proof fn law_recipient_roundtrip(key: Seq<char>, n: u64)
    requires
        is_key(key),
    ensures
        recipient_parts(key.push(':') + decimal(n as nat)) == Some((key, decimal(n as nat))),
        number(trimmed(decimal(n as nat))) == Some(n),
{
    let value = decimal(n as nat);
    lemma_decimal_digits(n as nat);
    law_number_roundtrip(n);
    assert forall|i: int| 0 <= i < value.len() implies value[i] != ':' by {
        assert(is_digit(value[i]));
    }
    lemma_split_one(key, value);
    assert(is_digit(value[0]) && is_digit(value.last()));
    assert(trim_front(value) == value);
    assert(trim_back(value) == value);
}

/// The text of an address of any network, a colon and any amount in decimal are read back as
/// that address and that amount.
pub proof fn law_address_roundtrip(address: AddressView, n: u64)
    requires
        address.wf(),
    ensures
        read_recipient(address.text.push(':') + decimal(n as nat)) == Ok::<
            (AddressView, u64),
            Seq<char>,
        >((address, n)),
{
    law_recipient_roundtrip(address.text, n);
}

/// The colon at `i` is the only one.
pub open spec fn only_colon(s: Seq<char>, i: int) -> bool {
    &&& 0 <= i < s.len()
    &&& s[i] == ':'
    &&& forall|j: int| 0 <= j < s.len() && j != i ==> s[j] != ':'
}

proof fn lemma_only_colon(s: Seq<char>, i: int)
    requires
        only_colon(s, i),
    ensures
        recipient_parts(s) == Some((trimmed(s.take(i)), s.skip(i + 1))),
{
    let key = s.take(i);
    let value = s.skip(i + 1);
    assert(s =~= key.push(':') + value);
    assert forall|j: int| 0 <= j < key.len() implies key[j] != ':' by {
        assert(s[j] != ':');
    }
    assert forall|j: int| 0 <= j < value.len() implies value[j] != ':' by {
        assert(s[i + 1 + j] != ':');
    }
    lemma_no_colons(key);
    lemma_no_colons(value);
    lemma_parts(key, value);
}

proof fn lemma_one_colon(s: Seq<char>) -> (i: int)
    requires
        colons(s) == 1,
    ensures
        only_colon(s, i),
    decreases s.len(),
{
    let before = s.drop_last();
    let last = s.len() - 1;
    assert(s[last] == s.last());
    if s.last() == ':' {
        lemma_no_colons(before);
        assert forall|j: int| 0 <= j < s.len() && j != last implies s[j] != ':' by {
            assert(before[j] == s[j]);
        }
        last
    } else {
        let i = lemma_one_colon(before);
        assert(before[i] == s[i]);
        assert forall|j: int| 0 <= j < s.len() && j != i implies s[j] != ':' by {
            if j < last {
                assert(before[j] == s[j]);
            }
        }
        i
    }
}

proof fn lemma_no_pair(s: Seq<char>)
    requires
        forall|i: int| !only_colon(s, i),
    ensures
        recipient_parts(s) is None,
{
    law_one_colon(s);
    if colons(s) == 1 {
        let i = lemma_one_colon(s);
        assert(only_colon(s, i));
    }
}

/// A recipient is parted at its only colon, and its key is trimmed.
pub proof fn law_split_recipient(s: &str, i: int, r: Result<(String, String), String>)
    requires
        call_ensures(split_recipient, (s,), r),
        only_colon(s@, i),
    ensures
        r matches Ok(p) && p.0@ == trimmed(s@.take(i)) && p.1@ == s@.skip(i + 1),
{
    lemma_only_colon(s@, i);
}

/// A text without a colon or with several is refused as a recipient, with the same message
/// wherever it is read.
pub proof fn law_no_recipient(
    s: &str,
    decoded: Option<SilentPaymentCode>,
    parts: Result<(String, String), String>,
    to_address: Result<(Address, u64), String>,
    to_code: Result<(SilentPaymentCode, u64), String>,
)
    requires
        forall|i: int| !only_colon(s@, i),
        call_ensures(split_recipient, (s,), parts),
        call_ensures(parse_recipients, (s,), to_address),
        call_ensures(parse_sp_recipients, (s, decoded), to_code),
    ensures
        ({
            let message = "Invalid format '"@ + s@ + "'. Expected 'key:value'"@;
            &&& parts matches Err(m) && m@ == message
            &&& to_address matches Err(m) && m@ == message
            &&& to_code matches Err(m) && m@ == message
        }),
{
    lemma_no_pair(s@);
}

/// What is read before and after the only colon of a recipient: the address that the trimmed
/// key stands for, and the number that the trimmed value denotes, whatever they are; the
/// messages show the trimmed key and the value as it was given.
pub proof fn law_recipient(s: &str, i: int, r: Result<(Address, u64), String>)
    requires
        call_ensures(parse_recipients, (s,), r),
        only_colon(s@, i),
    ensures
        ({
            let key = trimmed(s@.take(i));
            let value = s@.skip(i + 1);
            &&& parsed_address(key) is None ==> (r matches Err(m) && m@ == "Invalid address: "@
                + key)
            &&& parsed_address(key) is Some && number(trimmed(value)) is None ==> (
            r matches Err(m) && m@ == "Invalid number '"@ + value + "' for key '"@ + key + "'"@)
            &&& parsed_address(key) matches Some(a) ==> number(trimmed(value)) matches Some(n)
                ==> (r matches Ok(p) && p.0.script_pubkey@ == a.script_pubkey && p.0.networks
                == a.networks && p.0.text@ == a.text && p.1 == n)
        }),
{
    lemma_only_colon(s@, i);
}

/// The same for an address that is already known.
pub proof fn law_address_recipient(
    key: &str,
    value: &str,
    address: Option<Address>,
    r: Result<(Address, u64), String>,
)
    requires
        call_ensures(address_recipient, (key, value, address), r),
    ensures
        address is None ==> (r matches Err(m) && m@ == "Invalid address: "@ + key@),
        address is Some && number(trimmed(value@)) is None ==> (r matches Err(m) && m@
            == "Invalid number '"@ + value@ + "' for key '"@ + key@ + "'"@),
        address matches Some(a) ==> number(trimmed(value@)) matches Some(n) ==> (
        r matches Ok(p) && p.0 == a && p.1 == n),
{
}

/// The text of an address of any network, a colon and any amount in decimal are read back as
/// that address and that amount.
pub proof fn law_parse_address_roundtrip(
    address: AddressView,
    n: u64,
    s: &str,
    r: Result<(Address, u64), String>,
)
    requires
        address.wf(),
        s@ == address.text.push(':') + decimal(n as nat),
        call_ensures(parse_recipients, (s,), r),
    ensures
        r matches Ok(p) && p.0@ == address && p.1 == n,
{
    law_address_roundtrip(address, n);
}

/// The same for a silent payment code: what was decoded from the trimmed key comes back with
/// the number after the only colon; the messages show the trimmed key, or the text of the code
/// and the value as it was given.
pub proof fn law_sp_recipient(
    s: &str,
    decoded: Option<SilentPaymentCode>,
    i: int,
    r: Result<(SilentPaymentCode, u64), String>,
)
    requires
        call_ensures(parse_sp_recipients, (s, decoded), r),
        only_colon(s@, i),
    ensures
        ({
            let key = trimmed(s@.take(i));
            let value = s@.skip(i + 1);
            &&& decoded is None ==> (r matches Err(m) && m@
                == "Invalid silent payment address: "@ + key)
            &&& decoded matches Some(code) ==> number(trimmed(value)) is None ==> (
            r matches Err(m) && m@ == "Invalid number '"@ + value + "' for key '"@ + code.text@
                + "'"@)
            &&& decoded matches Some(code) ==> number(trimmed(value)) matches Some(n) ==> (
            r matches Ok(p) && p.0 == code && p.1 == n)
        }),
{
    lemma_only_colon(s@, i);
}

/// Any key without a colon, a colon and any amount in decimal are read back as the code that
/// the key stands for and that amount.
pub proof fn law_sp_roundtrip(
    key: Seq<char>,
    code: SilentPaymentCode,
    n: u64,
    s: &str,
    r: Result<(SilentPaymentCode, u64), String>,
)
    requires
        forall|i: int| 0 <= i < key.len() ==> key[i] != ':',
        s@ == key.push(':') + decimal(n as nat),
        call_ensures(parse_sp_recipients, (s, Some(code)), r),
    ensures
        read_sp_recipient(s@, Some(code)) == Ok::<(SilentPaymentCode, u64), Seq<char>>((code, n)),
        r matches Ok(p) && p.0 == code && p.1 == n,
{
    let value = decimal(n as nat);
    lemma_decimal_digits(n as nat);
    law_number_roundtrip(n);
    assert forall|i: int| 0 <= i < value.len() implies value[i] != ':' by {
        assert(is_digit(value[i]));
    }
    lemma_split_one(key, value);
    assert(is_digit(value[0]) && is_digit(value.last()));
    assert(trim_front(value) == value);
    assert(trim_back(value) == value);
}

/// An address gives its script on the networks on which it may be paid, and nothing elsewhere.
pub proof fn law_require_network(address: Address, network: Network, r: Option<Vec<u8>>)
    requires
        call_ensures(Address::require_network, (address, network), r),
    ensures
        ({
            let allowed = match network {
                Network::Bitcoin => address.networks.bitcoin,
                Network::Testnet => address.networks.testnet,
                Network::Testnet4 => address.networks.testnet4,
                Network::Signet => address.networks.signet,
                Network::Regtest => address.networks.regtest,
            };
            &&& allowed ==> (r matches Some(script) && script == address.script_pubkey)
            &&& !allowed ==> r is None
        }),
{
}

/// Whatever address was read once is read again from its own text, with any other amount.
pub proof fn law_read_again(
    first: &str,
    again: &str,
    n: u64,
    r: Result<(Address, u64), String>,
    s: Result<(Address, u64), String>,
)
    requires
        call_ensures(parse_recipients, (first,), r),
        r matches Ok(p) && again@ == p.0.text@.push(':') + decimal(n as nat),
        call_ensures(parse_recipients, (again,), s),
    ensures
        r matches Ok(p) && s matches Ok(q) && q.0.text@ == p.0.text@ && q.0.script_pubkey@
            == p.0.script_pubkey@ && q.0.networks == p.0.networks && q.1 == n,
{
    if let Ok(p) = r {
        law_address_roundtrip(p.0@, n);
    }
}

} // verus!
