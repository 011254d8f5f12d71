//! Hashes and keys as byte strings, and their hexadecimal text.

use vstd::prelude::*;

use crate::text::{decimal, texts};
use bitcoin::hex::{DisplayHex, FromHex};
use std::str::FromStr;

verus! {

/// A transaction id, in the order in which its hash is computed.
#[derive(Clone, Copy, Debug, PartialEq, Eq)]
pub struct Txid {
    pub bytes: [u8; 32],
}

/// A block hash, in the order in which it is computed.
#[derive(Clone, Copy, Debug, PartialEq, Eq)]
pub struct BlockHash {
    pub bytes: [u8; 32],
}

/// A public key in its compressed encoding.
#[derive(Clone, Copy, Debug, PartialEq, Eq)]
pub struct PublicKey {
    pub bytes: [u8; 33],
}

/// A secret key as a big-endian number.
#[derive(Clone, Copy, Debug, PartialEq, Eq)]
pub struct SecretKey {
    pub bytes: [u8; 32],
}

impl View for Txid {
    type V = Seq<u8>;

    open spec fn view(&self) -> Seq<u8> {
        self.bytes@
    }
}

impl View for BlockHash {
    type V = Seq<u8>;

    open spec fn view(&self) -> Seq<u8> {
        self.bytes@
    }
}

impl View for PublicKey {
    type V = Seq<u8>;

    open spec fn view(&self) -> Seq<u8> {
        self.bytes@
    }
}

impl View for SecretKey {
    type V = Seq<u8>;

    open spec fn view(&self) -> Seq<u8> {
        self.bytes@
    }
}

pub open spec fn is_hex_digit(c: char) -> bool {
    '0' <= c <= '9' || 'a' <= c <= 'f' || 'A' <= c <= 'F'
}

/// The value of a hexadecimal digit of either case.
pub open spec fn hex_value(c: char) -> int {
    if '0' <= c <= '9' {
        c as int - '0' as int
    } else if 'a' <= c <= 'f' {
        c as int - 'a' as int + 10
    } else {
        c as int - 'A' as int + 10
    }
}

/// The bytes that a hexadecimal text denotes: two digits for each byte, the high one
/// first, and nothing else.
pub open spec fn hex_bytes(s: Seq<char>) -> Option<Seq<u8>> {
    if s.len() % 2 == 0 && (forall|i: int| 0 <= i < s.len() ==> is_hex_digit(#[trigger] s[i])) {
        Some(
            Seq::new(
                s.len() / 2,
                |i: int| (16 * hex_value(s[2 * i]) + hex_value(s[2 * i + 1])) as u8,
            ),
        )
    } else {
        None
    }
}

/// The lower-case hexadecimal digit for a value below sixteen.
pub open spec fn hex_digit(n: int) -> char {
    if n < 10 {
        ('0' as int + n) as char
    } else {
        ('a' as int + n - 10) as char
    }
}

/// The lower-case hexadecimal text of some bytes.
pub open spec fn hex_text(b: Seq<u8>) -> Seq<char> {
    Seq::new(
        2 * b.len(),
        |i: int|
            hex_digit(
                if i % 2 == 0 {
                    b[i / 2] as int / 16
                } else {
                    b[i / 2] as int % 16
                },
            ),
    )
}

/// The text by which hashes are known: hexadecimal, with the bytes in reverse.
pub open spec fn hash_text(b: Seq<u8>) -> Seq<char> {
    hex_text(b.reverse())
}

/// The hash of 32 bytes that a text denotes.
pub open spec fn hash_bytes(s: Seq<char>) -> Option<Seq<u8>> {
    match hex_bytes(s) {
        Some(b) => if b.len() == 32 {
            Some(b.reverse())
        } else {
            None
        },
        None => None,
    }
}

/// A byte that is a hexadecimal digit.
pub open spec fn is_hex_byte(b: u8) -> bool {
    0x30 <= b <= 0x39 || 0x41 <= b <= 0x46 || 0x61 <= b <= 0x66
}

/// The first byte that is no hexadecimal digit.
pub open spec fn first_non_hex(b: Seq<u8>) -> u8
    decreases b.len(),
{
    if b.len() > 0 && is_hex_byte(b[0]) {
        first_non_hex(b.drop_first())
    } else {
        b[0]
    }
}

/// Why a text is not hexadecimal, and the cause of it: its length in bytes is odd, or else one
/// of its bytes is no digit.
pub open spec fn hex_error(s: Seq<char>) -> Seq<Seq<char>> {
    let b = vstd::utf8::encode_utf8(s);
    if b.len() % 2 == 1 {
        seq![
            "odd length, failed to create bytes from hex"@,
            "odd hex string length "@ + decimal(b.len()),
        ]
    } else {
        seq![
            "invalid char, failed to create bytes from hex"@,
            "invalid hex char "@ + decimal(first_non_hex(b) as nat),
        ]
    }
}

/// `<Vec<u8> as bitcoin::hex::FromHex>::from_hex`: the bytes of a text with an even
/// number of hexadecimal digits of either case; any other text is an error, which comes
/// back as its text and that of its cause, one after the other as `anyhow::Error::chain`
/// goes through them.
#[verifier::external_body]
pub(crate) fn decode_hex(s: &str) -> (r: Result<Vec<u8>, Vec<String>>)
    ensures
        r is Ok <==> hex_bytes(s@) is Some,
        r matches Ok(b) ==> b@ == hex_bytes(s@)->0,
        r matches Err(reasons) ==> texts(reasons@) == hex_error(s@),
{
    Vec::<u8>::from_hex(s).map_err(
        |e| anyhow::Error::new(e).chain().map(ToString::to_string).collect(),
    )
}

/// `bitcoin::hex::DisplayHex::as_hex`, displayed: two lower-case hexadecimal digits for
/// each byte.
#[verifier::external_body]
pub(crate) fn encode_hex(b: &[u8]) -> (r: String)
    ensures
        r@ == hex_text(b@),
{
    b.as_hex().to_string()
}

/// `Display` of `bitcoin::Txid`: the bytes in reverse, in lower-case hexadecimal.
#[verifier::external_body]
pub(crate) fn txid_text(txid: &Txid) -> (r: String)
    ensures
        r@ == hash_text(txid@),
{
    <bitcoin::Txid as bitcoin::hashes::Hash>::from_byte_array(txid.bytes).to_string()
}

/// `Display` of `bitcoin::BlockHash`: the bytes in reverse, in lower-case hexadecimal.
#[verifier::external_body]
pub(crate) fn block_hash_text(hash: &BlockHash) -> (r: String)
    ensures
        r@ == hash_text(hash@),
{
    <bitcoin::BlockHash as bitcoin::hashes::Hash>::from_byte_array(hash.bytes).to_string()
}

/// `FromStr` of `bitcoin::BlockHash`: exactly 64 hexadecimal digits of either case, for
/// the 32 bytes in reverse; any other text is an error.
#[verifier::external_body]
pub(crate) fn parse_block_hash(s: &str) -> (r: Option<BlockHash>)
    ensures
        r is Some <==> hash_bytes(s@) is Some,
        r matches Some(h) ==> h@ == hash_bytes(s@)->0,
{
    bitcoin::BlockHash::from_str(s).ok().map(|h| BlockHash { bytes: *h.as_ref() })
}

/// Whether two byte strings are equal.
pub fn same_bytes(a: &[u8], b: &[u8]) -> (r: bool)
    ensures
        r == (a@ == b@),
{
    if a.len() != b.len() {
        return false;
    }
    let mut i: usize = 0;
    while i < a.len()
        invariant
            a@.len() == b@.len(),
            i <= a@.len(),
            forall|j: int| 0 <= j < i ==> a@[j] == b@[j],
        decreases a@.len() - i,
    {
        if a[i] != b[i] {
            return false;
        }
        i = i + 1;
    }
    proof {
        assert(a@ =~= b@);
    }
    true
}

/// A copy of a byte string.
pub fn copy_bytes(b: &[u8]) -> (r: Vec<u8>)
    ensures
        r@ == b@,
{
    let mut r: Vec<u8> = Vec::new();
    let mut i: usize = 0;
    while i < b.len()
        invariant
            i <= b@.len(),
            r@ == b@.take(i as int),
        decreases b@.len() - i,
    {
        r.push(b[i]);
        i = i + 1;
    }
    r
}

/// Decoding the hexadecimal text of some bytes gives the bytes.
pub proof fn law_hex_roundtrip(b: Seq<u8>)
    ensures
        hex_bytes(hex_text(b)) == Some(b),
{
    let s = hex_text(b);
    assert forall|i: int| 0 <= i < s.len() implies is_hex_digit(#[trigger] s[i]) by {
        assert(b[i / 2] as int / 16 < 16);
    }
    assert(s.len() / 2 == b.len());
    assert forall|i: int| 0 <= i < b.len() implies (16 * hex_value(s[2 * i]) + hex_value(
        s[2 * i + 1],
    )) as u8 == #[trigger] b[i] by {
        assert((2 * i) / 2 == i && (2 * i) % 2 == 0);
        assert((2 * i + 1) / 2 == i && (2 * i + 1) % 2 == 1);
        assert(hex_value(s[2 * i]) == b[i] as int / 16);
        assert(hex_value(s[2 * i + 1]) == b[i] as int % 16);
    }
    assert(hex_bytes(s)->0 =~= b);
}

/// Reading the text of a hash gives the hash.
pub proof fn law_hash_text_roundtrip(b: Seq<u8>)
    requires
        b.len() == 32,
    ensures
        hash_bytes(hash_text(b)) == Some(b),
{
    law_hex_roundtrip(b.reverse());
    assert(b.reverse().reverse() =~= b);
}

/// Two byte strings are the same if and only if they have the same length and the same byte at
/// every place.
pub proof fn law_same_bytes(a: &[u8], b: &[u8], r: bool)
    requires
        call_ensures(same_bytes, (a, b), r),
    ensures
        r <==> a@.len() == b@.len() && forall|i: int|
            0 <= i < a@.len() ==> #[trigger] a@[i] == b@[i],
{
    if a@.len() == b@.len() && forall|i: int| 0 <= i < a@.len() ==> #[trigger] a@[i] == b@[i] {
        assert(a@ =~= b@);
    }
}

/// A copy has the length and the bytes of what was copied.
pub proof fn law_copy_bytes(b: &[u8], r: Vec<u8>)
    requires
        call_ensures(copy_bytes, (b,), r),
    ensures
        r@.len() == b@.len(),
        forall|i: int| 0 <= i < b@.len() ==> #[trigger] r@[i] == b@[i],
{
}

/// The value of a hexadecimal digit in words: of its place among the digits, in either case.
pub open spec fn is_worth(c: char, n: int) -> bool {
    ||| 0 <= n < 10 && c as int == '0' as int + n
    ||| 10 <= n < 16 && c as int == 'a' as int + n - 10
    ||| 10 <= n < 16 && c as int == 'A' as int + n - 10
}

/// A text is hexadecimal if and only if it has an even number of characters, each of which is a
/// digit of either case; each byte is worth sixteen times its first digit and once its second.
pub proof fn law_hex_bytes(s: Seq<char>)
    ensures
        hex_bytes(s) is Some <==> s.len() % 2 == 0 && forall|i: int|
            0 <= i < s.len() ==> ('0' <= #[trigger] s[i] <= '9' || 'a' <= s[i] <= 'f' || 'A' <= s[i]
                <= 'F'),
        hex_bytes(s) matches Some(b) ==> b.len() * 2 == s.len() && forall|i: int|
            0 <= i < b.len() ==> is_worth(s[2 * i], #[trigger] b[i] as int / 16) && is_worth(
                s[2 * i + 1],
                b[i] as int % 16,
            ),
{
    if s.len() % 2 == 0 && forall|i: int|
        0 <= i < s.len() ==> ('0' <= #[trigger] s[i] <= '9' || 'a' <= s[i] <= 'f' || 'A' <= s[i]
            <= 'F') {
        assert forall|i: int| 0 <= i < s.len() implies is_hex_digit(#[trigger] s[i]) by {}
    }
    if hex_bytes(s) is Some {
        assert forall|i: int| 0 <= i < s.len() implies ('0' <= #[trigger] s[i] <= '9' || 'a' <= s[i]
            <= 'f' || 'A' <= s[i] <= 'F') by {
            assert(is_hex_digit(s[i]));
        }
    }
    if let Some(b) = hex_bytes(s) {
        assert forall|i: int| 0 <= i < b.len() implies is_worth(
            s[2 * i],
            #[trigger] b[i] as int / 16,
        ) && is_worth(s[2 * i + 1], b[i] as int % 16) by {
            let high = hex_value(s[2 * i]);
            let low = hex_value(s[2 * i + 1]);
            assert(is_hex_digit(s[2 * i]) && is_hex_digit(s[2 * i + 1]));
            assert(0 <= high < 16 && 0 <= low < 16);
            assert(b[i] == 16 * high + low);
        }
    }
}

/// A hash is 64 hexadecimal digits, and its bytes are those of the text from the end.
pub proof fn law_hash_bytes(s: Seq<char>)
    ensures
        hash_bytes(s) is Some <==> s.len() == 64 && forall|i: int|
            0 <= i < s.len() ==> ('0' <= #[trigger] s[i] <= '9' || 'a' <= s[i] <= 'f' || 'A' <= s[i]
                <= 'F'),
        hash_bytes(s) matches Some(b) ==> b.len() == 32 && forall|i: int|
            0 <= i < 32 ==> is_worth(s[62 - 2 * i], #[trigger] b[i] as int / 16) && is_worth(
                s[63 - 2 * i],
                b[i] as int % 16,
            ),
{
    law_hex_bytes(s);
    if let Some(b) = hash_bytes(s) {
        let forward = hex_bytes(s)->0;
        assert forall|i: int| 0 <= i < 32 implies is_worth(
            s[62 - 2 * i],
            #[trigger] b[i] as int / 16,
        ) && is_worth(s[63 - 2 * i], b[i] as int % 16) by {
            assert(b[i] == forward[31 - i]);
        }
    }
}

/// Bytes are written with two lower-case digits each, the one for the high half first, and
/// hashes from the last byte to the first.
pub proof fn law_hex_text(b: Seq<u8>)
    ensures
        hex_text(b).len() == 2 * b.len(),
        forall|i: int|
            0 <= i < b.len() ==> is_worth(hex_text(b)[2 * i], #[trigger] b[i] as int / 16)
                && is_worth(hex_text(b)[2 * i + 1], b[i] as int % 16),
        forall|i: int|
            0 <= i < hex_text(b).len() ==> !('A' <= #[trigger] hex_text(b)[i] <= 'F'),
        hash_text(b).len() == 2 * b.len(),
        forall|i: int|
            0 <= i < b.len() ==> is_worth(
                hash_text(b)[2 * (b.len() - 1 - i)],
                #[trigger] b[i] as int / 16,
            ) && is_worth(hash_text(b)[2 * (b.len() - 1 - i) + 1], b[i] as int % 16),
{
    let s = hex_text(b);
    assert forall|i: int| 0 <= i < b.len() implies is_worth(s[2 * i], #[trigger] b[i] as int / 16)
        && is_worth(s[2 * i + 1], b[i] as int % 16) by {
        assert((2 * i) / 2 == i && (2 * i) % 2 == 0);
        assert((2 * i + 1) / 2 == i && (2 * i + 1) % 2 == 1);
    }
    assert forall|i: int| 0 <= i < s.len() implies !('A' <= #[trigger] s[i] <= 'F') by {
        assert(b[i / 2] as int / 16 < 16);
    }
    let back = b.reverse();
    let t = hash_text(b);
    assert forall|i: int| 0 <= i < b.len() implies is_worth(
        t[2 * (b.len() - 1 - i)],
        #[trigger] b[i] as int / 16,
    ) && is_worth(t[2 * (b.len() - 1 - i) + 1], b[i] as int % 16) by {
        let k = b.len() - 1 - i;
        assert(back[k] == b[i]);
        assert((2 * k) / 2 == k && (2 * k) % 2 == 0);
        assert((2 * k + 1) / 2 == k && (2 * k + 1) % 2 == 1);
    }
}

} // verus!
