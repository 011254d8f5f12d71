//! Text as sequences of characters: splitting, trimming, decimal numbers and search.

use vstd::prelude::*;

verus! {

/// `String::push` appends the given character to the end of the string.
pub assume_specification[ String::push ](s: &mut String, c: char)
    ensures
        final(s)@ == old(s)@.push(c),
;

/// The pieces of `s` between the occurrences of `sep`; one more piece than there are
/// separators, some of them possibly empty.
pub open spec fn split_on(s: Seq<char>, sep: char) -> Seq<Seq<char>>
    decreases s.len(),
{
    if s.len() == 0 {
        seq![Seq::<char>::empty()]
    } else {
        let before = split_on(s.drop_last(), sep);
        if s.last() == sep {
            before.push(Seq::<char>::empty())
        } else {
            before.update(before.len() - 1, before.last().push(s.last()))
        }
    }
}

/// The characters with the Unicode property White_Space.
pub open spec fn white_space(c: char) -> bool {
    let n = c as u32;
    ||| 0x9 <= n <= 0xd
    ||| n == 0x20
    ||| n == 0x85
    ||| n == 0xa0
    ||| n == 0x1680
    ||| 0x2000 <= n <= 0x200a
    ||| n == 0x2028
    ||| n == 0x2029
    ||| n == 0x202f
    ||| n == 0x205f
    ||| n == 0x3000
}

/// `s` without its leading white space.
pub open spec fn trim_front(s: Seq<char>) -> Seq<char>
    decreases s.len(),
{
    if s.len() > 0 && white_space(s[0]) {
        trim_front(s.drop_first())
    } else {
        s
    }
}

/// `s` without its trailing white space.
pub open spec fn trim_back(s: Seq<char>) -> Seq<char>
    decreases s.len(),
{
    if s.len() > 0 && white_space(s.last()) {
        trim_back(s.drop_last())
    } else {
        s
    }
}

/// `s` without leading and trailing white space.
pub open spec fn trimmed(s: Seq<char>) -> Seq<char> {
    trim_back(trim_front(s))
}

pub open spec fn is_digit(c: char) -> bool {
    '0' <= c <= '9'
}

pub open spec fn all_digits(s: Seq<char>) -> bool {
    forall|i: int| 0 <= i < s.len() ==> is_digit(#[trigger] s[i])
}

/// The number that a string of decimal digits denotes.
pub open spec fn digits_value(s: Seq<char>) -> nat
    decreases s.len(),
{
    if s.len() == 0 {
        0
    } else {
        digits_value(s.drop_last()) * 10 + (s.last() as nat - '0' as nat) as nat
    }
}

/// `s` without one leading plus sign.
pub open spec fn without_plus(s: Seq<char>) -> Seq<char> {
    if s.len() > 0 && s[0] == '+' {
        s.drop_first()
    } else {
        s
    }
}

/// The number that `s` denotes: an optional plus sign and at least one decimal digit,
/// with a value of at most 64 bits.
pub open spec fn number(s: Seq<char>) -> Option<u64> {
    let digits = without_plus(s);
    if digits.len() > 0 && all_digits(digits) && digits_value(digits) <= u64::MAX {
        Some(digits_value(digits) as u64)
    } else {
        None
    }
}

/// The decimal digits of `n`, without leading zeros.
pub open spec fn decimal(n: nat) -> Seq<char>
    decreases n,
{
    if n < 10 {
        seq![('0' as nat + n) as char]
    } else {
        decimal(n / 10).push(('0' as nat + n % 10) as char)
    }
}

/// `needle` occurs in `hay` at position `at`.
pub open spec fn occurs_at(hay: Seq<char>, needle: Seq<char>, at: int) -> bool {
    &&& 0 <= at
    &&& at + needle.len() <= hay.len()
    &&& hay.subrange(at, at + needle.len()) == needle
}

pub open spec fn occurs_in(hay: Seq<char>, needle: Seq<char>) -> bool {
    exists|at: int| occurs_at(hay, needle, at)
}

/// What a list of texts holds.
pub open spec fn texts(list: Seq<String>) -> Seq<Seq<char>> {
    list.map_values(|s: String| s@)
}

/// Nothing but white space.
pub open spec fn blank(s: Seq<char>) -> bool {
    forall|i: int| 0 <= i < s.len() ==> white_space(#[trigger] s[i])
}

/// The characters of `s`.
pub fn chars_of(s: &str) -> (r: Vec<char>)
    ensures
        r@ == s@,
{
    let mut r: Vec<char> = Vec::new();
    for c in it: s.chars()
        invariant
            r@ == s@.take(it.index()),
            it.seq() == s@,
    {
        r.push(c);
    }
    r
}

/// The pieces of `s` between the occurrences of `sep`.
pub fn split(s: &str, sep: char) -> (r: Vec<String>)
    ensures
        r@.len() == split_on(s@, sep).len(),
        forall|i: int| 0 <= i < r@.len() ==> (#[trigger] r@[i])@ == split_on(s@, sep)[i],
{
    let cs: Vec<char> = chars_of(s);
    let mut done: Vec<String> = Vec::new();
    let mut cur: String = String::new();
    let mut i: usize = 0;
    while i < cs.len()
        invariant
            cs@ == s@,
            i <= cs.len(),
            split_on(s@.take(i as int), sep).len() == done@.len() + 1,
            split_on(s@.take(i as int), sep).last() == cur@,
            forall|j: int|
                0 <= j < done@.len() ==> (#[trigger] done@[j])@ == split_on(
                    s@.take(i as int),
                    sep,
                )[j],
        decreases cs.len() - i,
    {
        let c: char = cs[i];
        proof {
            assert(s@.take(i + 1).drop_last() == s@.take(i as int));
            assert(s@.take(i + 1).last() == c);
        }
        if c == sep {
            done.push(cur);
            cur = String::new();
        } else {
            cur.push(c);
        }
        i = i + 1;
    }
    proof {
        assert(s@.take(i as int) == s@);
    }
    done.push(cur);
    done
}

pub fn is_whitespace(c: char) -> (r: bool)
    ensures
        r == white_space(c),
{
    let n: u32 = c as u32;
    (0x9 <= n && n <= 0xd) || n == 0x20 || n == 0x85 || n == 0xa0 || n == 0x1680 || (0x2000 <= n
        && n <= 0x200a) || n == 0x2028 || n == 0x2029 || n == 0x202f || n == 0x205f || n == 0x3000
}

/// `s` without leading and trailing white space.
pub fn trim(s: &str) -> (r: String)
    ensures
        r@ == trimmed(s@),
{
    let cs: Vec<char> = chars_of(s);
    let mut from: usize = 0;
    proof {
        assert(s@.skip(0) == s@);
    }
    while from < cs.len() && is_whitespace(cs[from])
        invariant
            cs@ == s@,
            from <= cs.len(),
            trim_front(s@) == trim_front(s@.skip(from as int)),
        decreases cs.len() - from,
    {
        proof {
            assert(s@.skip(from as int).drop_first() == s@.skip(from + 1));
        }
        from = from + 1;
    }
    let mut to: usize = cs.len();
    proof {
        assert(trim_front(s@) == s@.skip(from as int));
        assert(s@.skip(from as int) == s@.subrange(from as int, to as int));
    }
    while from < to && is_whitespace(cs[to - 1])
        invariant
            cs@ == s@,
            from <= to <= cs.len(),
            trimmed(s@) == trim_back(s@.subrange(from as int, to as int)),
        decreases to,
    {
        proof {
            assert(s@.subrange(from as int, to as int).drop_last() == s@.subrange(
                from as int,
                to - 1,
            ));
        }
        to = to - 1;
    }
    let r: &str = s.substring_char(from, to);
    r.to_string()
}

proof fn lemma_digits_value_push(s: Seq<char>, c: char)
    ensures
        digits_value(s.push(c)) == digits_value(s) * 10 + (c as nat - '0' as nat) as nat,
{
    assert(s.push(c).drop_last() == s);
}

/// More digits never make a number smaller.
proof fn lemma_digits_value_grows(s: Seq<char>, i: int)
    requires
        0 <= i <= s.len(),
    ensures
        digits_value(s.take(i)) <= digits_value(s),
    decreases s.len() - i,
{
    if i < s.len() {
        lemma_digits_value_grows(s, i + 1);
        assert(s.take(i + 1).drop_last() == s.take(i));
    } else {
        assert(s.take(i) == s);
    }
}

/// Reads a 64-bit number in decimal, with an optional plus sign before it.
pub fn parse_number(s: &str) -> (r: Option<u64>)
    ensures
        r == number(s@),
{
    let cs: Vec<char> = chars_of(s);
    let start: usize = if cs.len() > 0 && cs[0] == '+' {
        1
    } else {
        0
    };
    let ghost digits = without_plus(s@);
    proof {
        assert(digits == s@.skip(start as int));
    }
    if start == cs.len() {
        return None;
    }
    let mut value: u64 = 0;
    let mut i: usize = start;
    while i < cs.len()
        invariant
            cs@ == s@,
            start <= i <= cs.len(),
            digits == s@.skip(start as int),
            digits == without_plus(s@),
            all_digits(digits.take(i - start)),
            value == digits_value(digits.take(i - start)),
        decreases cs.len() - i,
    {
        let c: char = cs[i];
        proof {
            assert(digits[i - start] == c);
            assert(digits.take(i - start + 1).drop_last() == digits.take(i - start));
        }
        if c < '0' || '9' < c {
            proof {
                assert(!is_digit(digits[i - start]));
            }
            return None;
        }
        let d: u64 = (c as u32 - '0' as u32) as u64;
        proof {
            lemma_digits_value_grows(digits, i - start + 1);
        }
        let next: Option<u64> = match value.checked_mul(10) {
            Some(tens) => tens.checked_add(d),
            None => None,
        };
        match next {
            Some(v) => {
                value = v;
            },
            None => {
                return None;
            },
        }
        i = i + 1;
        proof {
            assert forall|j: int| 0 <= j < i - start implies is_digit(
                #[trigger] digits.take(i - start)[j],
            ) by {
                if j < i - start - 1 {
                    assert(is_digit(digits.take(i - start - 1)[j]));
                }
            }
        }
    }
    proof {
        assert(digits.take(i - start) == digits);
    }
    Some(value)
}

/// Writes a number in decimal.
pub fn format_number(n: u64) -> (r: String)
    ensures
        r@ == decimal(n as nat),
    decreases n,
{
    let mut r: String = if n < 10 {
        String::new()
    } else {
        format_number(n / 10)
    };
    let d: u8 = (n % 10) as u8;
    let c: char = (0x30u8 + d) as char;
    proof {
        if n < 10 {
            assert(r@.push(c) =~= seq![c]);
        }
    }
    r.push(c);
    r
}

/// Whether `needle` occurs in `hay`.
pub fn contains(hay: &str, needle: &str) -> (r: bool)
    ensures
        r == occurs_in(hay@, needle@),
{
    let h: Vec<char> = chars_of(hay);
    let n: Vec<char> = chars_of(needle);
    if n.len() > h.len() {
        return false;
    }
    let last: usize = h.len() - n.len();
    let mut at: usize = 0;
    loop
        invariant
            h@ == hay@,
            n@ == needle@,
            last == h.len() - n.len(),
            at <= last,
            forall|k: int| 0 <= k < at ==> !occurs_at(hay@, needle@, k),
        decreases last - at,
    {
        let mut same: usize = 0;
        while same < n.len() && h[at + same] == n[same]
            invariant
                h@ == hay@,
                n@ == needle@,
                last == h.len() - n.len(),
                at <= last,
                same <= n.len(),
                forall|k: int| 0 <= k < same ==> h@[at + k] == n@[k],
            decreases n.len() - same,
        {
            same = same + 1;
        }
        if same == n.len() {
            proof {
                assert(hay@.subrange(at as int, at + needle@.len()) =~= needle@);
                assert(occurs_at(hay@, needle@, at as int));
            }
            return true;
        }
        proof {
            if occurs_at(hay@, needle@, at as int) {
                assert(hay@.subrange(at as int, at + needle@.len())[same as int]
                    == needle@[same as int]);
            }
        }
        if at == last {
            return false;
        }
        at = at + 1;
    }
}

proof fn lemma_trim_front_blank(w: Seq<char>, s: Seq<char>)
    requires
        blank(w),
    ensures
        trim_front(w + s) == trim_front(s),
    decreases w.len(),
{
    if w.len() == 0 {
        assert(w + s =~= s);
    } else {
        assert(white_space(w[0]) && (w + s)[0] == w[0]);
        assert((w + s).drop_first() =~= w.drop_first() + s);
        assert forall|i: int| 0 <= i < w.drop_first().len() implies white_space(
            #[trigger] w.drop_first()[i],
        ) by {
            assert(white_space(w[i + 1]));
        }
        lemma_trim_front_blank(w.drop_first(), s);
    }
}

proof fn lemma_trim_back_blank(s: Seq<char>, w: Seq<char>)
    requires
        blank(w),
    ensures
        trim_back(s + w) == trim_back(s),
    decreases w.len(),
{
    if w.len() == 0 {
        assert(s + w =~= s);
    } else {
        assert(white_space(w.last()) && (s + w).last() == w.last());
        assert((s + w).drop_last() =~= s + w.drop_last());
        assert forall|i: int| 0 <= i < w.drop_last().len() implies white_space(
            #[trigger] w.drop_last()[i],
        ) by {
            assert(white_space(w[i]));
        }
        lemma_trim_back_blank(s, w.drop_last());
    }
}

proof fn lemma_trim_front_before(s: Seq<char>, w: Seq<char>)
    requires
        blank(w),
    ensures
        trim_back(trim_front(s + w)) == trim_back(trim_front(s)),
    decreases s.len(),
{
    if s.len() == 0 {
        assert(s + w =~= w + s);
        lemma_trim_front_blank(w, s);
    } else if white_space(s[0]) {
        assert((s + w).drop_first() =~= s.drop_first() + w);
        lemma_trim_front_before(s.drop_first(), w);
    } else {
        lemma_trim_back_blank(s, w);
    }
}

/// White space before and after a text makes no difference once it is trimmed.
pub proof fn law_blanks_are_trimmed(before: Seq<char>, s: Seq<char>, after: Seq<char>)
    requires
        blank(before),
        blank(after),
    ensures
        trimmed(before + s + after) == trimmed(s),
{
    assert(before + s + after =~= before + (s + after));
    lemma_trim_front_blank(before, s + after);
    lemma_trim_front_before(s, after);
}

/// Reading back a written number gives the number.
pub proof fn law_number_roundtrip(n: u64)
    ensures
        number(decimal(n as nat)) == Some(n),
{
    lemma_decimal_digits(n as nat);
}

pub proof fn lemma_decimal_digits(n: nat)
    ensures
        decimal(n).len() > 0,
        all_digits(decimal(n)),
        digits_value(decimal(n)) == n,
    decreases n,
{
    if n < 10 {
        assert(decimal(n).drop_last() =~= Seq::<char>::empty());
        assert(digits_value(Seq::<char>::empty()) == 0);
    } else {
        lemma_decimal_digits(n / 10);
        lemma_digits_value_push(decimal(n / 10), ('0' as nat + n % 10) as char);
        assert forall|j: int| 0 <= j < decimal(n).len() implies is_digit(
            #[trigger] decimal(n)[j],
        ) by {
            if j < decimal(n / 10).len() {
                assert(is_digit(decimal(n / 10)[j]));
            }
        }
    }
}

/// `whole` is `middle` with something before it and something after it.
pub open spec fn made_of(
    whole: Seq<char>,
    before: Seq<char>,
    middle: Seq<char>,
    after: Seq<char>,
) -> bool {
    whole == before + middle + after
}

/// The pieces one after the other, with `sep` between them.
pub open spec fn joined(pieces: Seq<Seq<char>>, sep: char) -> Seq<char>
    decreases pieces.len(),
{
    if pieces.len() == 0 {
        Seq::empty()
    } else if pieces.len() == 1 {
        pieces[0]
    } else {
        joined(pieces.drop_last(), sep).push(sep) + pieces.last()
    }
}

proof fn lemma_split_joined(s: Seq<char>, sep: char)
    ensures
        split_on(s, sep).len() > 0,
        joined(split_on(s, sep), sep) == s,
        forall|i: int, j: int|
            0 <= i < split_on(s, sep).len() && 0 <= j < split_on(s, sep)[i].len()
                ==> #[trigger] split_on(s, sep)[i][j] != sep,
    decreases s.len(),
{
    let pieces = split_on(s, sep);
    if s.len() == 0 {
        assert(pieces[0] =~= s);
    } else {
        let before = split_on(s.drop_last(), sep);
        lemma_split_joined(s.drop_last(), sep);
        if s.last() == sep {
            assert(pieces.drop_last() =~= before);
            assert(joined(pieces, sep) =~= s);
        } else {
            let last = before.len() - 1;
            assert(pieces.drop_last() =~= before.drop_last());
            assert(pieces.last() == before.last().push(s.last()));
            assert(s =~= s.drop_last().push(s.last()));
            if before.len() > 1 {
                let rest = joined(before.drop_last(), sep).push(sep);
                assert(rest + pieces.last() =~= (rest + before.last()).push(s.last()));
            }
            assert forall|i: int, j: int|
                0 <= i < pieces.len() && 0 <= j < pieces[i].len() implies #[trigger] pieces[i][j]
                != sep by {
                if i < last {
                    assert(before[i][j] != sep);
                } else if j < before[last].len() {
                    assert(before[last][j] != sep);
                }
            }
        }
    }
}

/// The pieces of a text hold no separator, and with separators between them they are the text.
pub proof fn law_split(s: &str, sep: char, r: Vec<String>)
    requires
        call_ensures(split, (s, sep), r),
    ensures
        r@.len() > 0,
        joined(texts(r@), sep) == s@,
        forall|i: int, j: int|
            0 <= i < r@.len() && 0 <= j < r@[i]@.len() ==> #[trigger] r@[i]@[j] != sep,
{
    lemma_split_joined(s@, sep);
    assert(texts(r@) =~= split_on(s@, sep));
    assert forall|i: int, j: int|
        0 <= i < r@.len() && 0 <= j < r@[i]@.len() implies #[trigger] r@[i]@[j] != sep by {
        assert(split_on(s@, sep)[i][j] != sep);
    }
}

/// White space is the tabs, the line ends, the separators and the spaces of Unicode.
pub proof fn law_white_space(c: char, r: bool)
    requires
        call_ensures(is_whitespace, (c,), r),
    ensures
        r == white_space(c),
        white_space(c) <==> {
            ||| '\u{9}' <= c <= '\u{d}'
            ||| c == ' '
            ||| c == '\u{85}'
            ||| c == '\u{a0}'
            ||| c == '\u{1680}'
            ||| '\u{2000}' <= c <= '\u{200a}'
            ||| c == '\u{2028}'
            ||| c == '\u{2029}'
            ||| c == '\u{202f}'
            ||| c == '\u{205f}'
            ||| c == '\u{3000}'
        },
{
}

proof fn lemma_trim_front_parts(s: Seq<char>) -> (before: Seq<char>)
    ensures
        s == before + trim_front(s),
        blank(before),
        trim_front(s).len() > 0 ==> !white_space(trim_front(s)[0]),
    decreases s.len(),
{
    if s.len() > 0 && white_space(s[0]) {
        let rest = lemma_trim_front_parts(s.drop_first());
        let before = seq![s[0]] + rest;
        let t = trim_front(s.drop_first());
        assert(s =~= seq![s[0]] + s.drop_first());
        assert(seq![s[0]] + (rest + t) =~= before + t);
        assert forall|i: int| 0 <= i < before.len() implies white_space(#[trigger] before[i]) by {
            if i > 0 {
                assert(white_space(rest[i - 1]));
            }
        }
        before
    } else {
        assert(s =~= Seq::<char>::empty() + s);
        Seq::empty()
    }
}

proof fn lemma_trim_back_parts(s: Seq<char>) -> (after: Seq<char>)
    ensures
        s == trim_back(s) + after,
        blank(after),
        trim_back(s).len() > 0 ==> trim_back(s)[0] == s[0] && !white_space(trim_back(s).last()),
    decreases s.len(),
{
    if s.len() > 0 && white_space(s.last()) {
        let rest = lemma_trim_back_parts(s.drop_last());
        let after = rest.push(s.last());
        let t = trim_back(s.drop_last());
        assert(s =~= s.drop_last().push(s.last()));
        assert((t + rest).push(s.last()) =~= t + after);
        assert forall|i: int| 0 <= i < after.len() implies white_space(#[trigger] after[i]) by {
            if i < rest.len() {
                assert(white_space(rest[i]));
            }
        }
        after
    } else {
        assert(s =~= s + Seq::<char>::empty());
        Seq::empty()
    }
}

/// A text is its trimmed text with white space around it, and the trimmed text neither
/// begins nor ends with white space.
pub proof fn law_trim(s: &str, r: String)
    requires
        call_ensures(trim, (s,), r),
    ensures
        exists|before: Seq<char>, after: Seq<char>|
            blank(before) && blank(after) && #[trigger] made_of(s@, before, r@, after),
        r@.len() > 0 ==> !white_space(r@[0]) && !white_space(r@.last()),
{
    let before = lemma_trim_front_parts(s@);
    let after = lemma_trim_back_parts(trim_front(s@));
    assert(before + (r@ + after) =~= before + r@ + after);
    assert(made_of(s@, before, r@, after));
}

/// A number is read digit by digit: a further digit makes it ten times as large and adds
/// itself, as long as that fits in 64 bits; nothing but digits may come, after one plus sign.
pub proof fn law_number_digit(s: Seq<char>, c: char)
    ensures
        number(Seq::empty()) is None,
        s.len() == 0 || s == seq!['+'] ==> number(s.push(c)) == if '0' <= c <= '9' {
            Some((c as u64 - '0' as u64) as u64)
        } else {
            None
        },
        s.len() > 0 && s != seq!['+'] ==> number(s.push(c)) == match number(s) {
            Some(n) => if '0' <= c <= '9' && n * 10 + (c as int - '0' as int) <= u64::MAX {
                Some((n * 10 + (c as int - '0' as int)) as u64)
            } else {
                None
            },
            None => None,
        },
{
    let digits = without_plus(s);
    let more = without_plus(s.push(c));
    assert(digits_value(Seq::<char>::empty()) == 0);
    if s.len() == 0 {
        if c == '+' {
            assert(more =~= Seq::<char>::empty());
        } else {
            assert(more =~= seq![c]);
            assert(more.drop_last() =~= Seq::<char>::empty());
            assert(more[0] == c);
        }
    } else {
        assert(more =~= digits.push(c));
        assert(more.drop_last() =~= digits);
        assert(more.last() == c);
        if s == seq!['+'] {
            assert(digits =~= Seq::<char>::empty());
            assert(more[0] == c);
        } else {
            if s[0] == '+' && s.len() == 1 {
                assert(s =~= seq!['+']);
            }
            assert(digits.len() > 0);
            if all_digits(more) {
                assert forall|i: int| 0 <= i < digits.len() implies is_digit(
                    #[trigger] digits[i],
                ) by {
                    assert(is_digit(more[i]));
                }
                assert(is_digit(more[digits.len() as int]));
            } else if all_digits(digits) {
                assert forall|i: int| 0 <= i < more.len() && is_digit(c) implies is_digit(
                    #[trigger] more[i],
                ) by {
                    if i < digits.len() {
                        assert(is_digit(digits[i]));
                    }
                }
            }
        }
    }
}

/// Reading a number gives what the text denotes.
pub proof fn law_parse_number(s: &str, r: Option<u64>)
    requires
        call_ensures(parse_number, (s,), r),
    ensures
        r == number(s@),
{
}

/// A written number has only digits, has no leading zero, and is read back as the number.
pub proof fn law_format_number(n: u64, r: String)
    requires
        call_ensures(format_number, (n,), r),
    ensures
        r@ == decimal(n as nat),
        number(r@) == Some(n),
        forall|i: int| 0 <= i < r@.len() ==> '0' <= #[trigger] r@[i] <= '9',
        r@.len() > 1 ==> r@[0] != '0',
{
    law_number_roundtrip(n);
    lemma_decimal_digits(n as nat);
    lemma_no_leading_zero(n as nat);
    assert forall|i: int| 0 <= i < r@.len() implies '0' <= #[trigger] r@[i] <= '9' by {
        assert(is_digit(decimal(n as nat)[i]));
    }
}

proof fn lemma_no_leading_zero(n: nat)
    ensures
        n > 0 ==> decimal(n)[0] != '0',
        n < 10 <==> decimal(n).len() == 1,
        decimal(n).len() > 0,
    decreases n,
{
    if n >= 10 {
        lemma_no_leading_zero(n / 10);
        assert(decimal(n)[0] == decimal(n / 10)[0]);
    }
}

/// A text is found in another if and only if the other is made of it and of something before
/// and after it.
pub proof fn law_contains(hay: &str, needle: &str, r: bool)
    requires
        call_ensures(contains, (hay, needle), r),
    ensures
        r <==> exists|before: Seq<char>, after: Seq<char>| #[trigger]
            made_of(hay@, before, needle@, after),
{
    law_occurs_in(hay@, needle@);
}

/// A text occurs in another if and only if the other is made of it and of something before
/// and after it.
pub proof fn law_occurs_in(hay: Seq<char>, needle: Seq<char>)
    ensures
        occurs_in(hay, needle) <==> exists|before: Seq<char>, after: Seq<char>| #[trigger]
            made_of(hay, before, needle, after),
{
    if occurs_in(hay, needle) {
        let at = choose|at: int| occurs_at(hay, needle, at);
        let before = hay.take(at);
        let after = hay.skip(at + needle.len());
        assert(hay =~= before + needle + after);
        assert(made_of(hay, before, needle, after));
    }
    if exists|before: Seq<char>, after: Seq<char>| #[trigger]
        made_of(hay, before, needle, after) {
        let (before, after) = choose|before: Seq<char>, after: Seq<char>| #[trigger]
            made_of(hay, before, needle, after);
        let at = before.len() as int;
        assert(hay.subrange(at, at + needle.len()) =~= needle);
        assert(occurs_at(hay, needle, at));
    }
}

} // verus!
