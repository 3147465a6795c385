//! Text out of bytes, whitespace trimming and decimal parsing.
//!
//! Version tokens and process ids both arrive as the bytes of a small file or
//! object. This module says which text such bytes hold and, over `Seq<char>`,
//! what the trimmed form of a text is and which integer a decimal text
//! denotes, and computes all three.
use vstd::prelude::*;
use vstd::string::*;
use vstd::utf8::*;

verus! {

/// The text that `bytes` hold: their decoding, where they are UTF-8.
pub open spec fn text_of(bytes: Seq<u8>) -> Option<Seq<char>> {
    if valid_utf8(bytes) {
        Some(decode_utf8(bytes))
    } else {
        None
    }
}

/// The bytes of a text hold that text.
pub proof fn lemma_text_of_encoding(text: Seq<char>)
    ensures
        text_of(encode_utf8(text)) == Some(text),
{
    encode_utf8_valid_utf8(text);
    encode_utf8_decode_utf8(text);
}

/// Whether `c` carries the Unicode property `White_Space`.
pub open spec fn is_whitespace(c: char) -> bool {
    let n = c as u32;
    ||| 0x09 <= n <= 0x0D
    ||| n == 0x20
    ||| n == 0x85
    ||| n == 0xA0
    ||| n == 0x1680
    ||| 0x2000 <= n <= 0x200A
    ||| n == 0x2028
    ||| n == 0x2029
    ||| n == 0x202F
    ||| n == 0x205F
    ||| n == 0x3000
}

/// `s` without its leading whitespace.
pub open spec fn trim_start(s: Seq<char>) -> Seq<char>
    decreases s.len(),
{
    if s.len() > 0 && is_whitespace(s.first()) {
        trim_start(s.drop_first())
    } else {
        s
    }
}

/// `s` without its trailing whitespace.
pub open spec fn trim_end(s: Seq<char>) -> Seq<char>
    decreases s.len(),
{
    if s.len() > 0 && is_whitespace(s.last()) {
        trim_end(s.drop_last())
    } else {
        s
    }
}

/// `s` without its leading and trailing whitespace.
pub open spec fn trimmed(s: Seq<char>) -> Seq<char> {
    trim_end(trim_start(s))
}

/// `s[i..j]` is `s` with exactly its surrounding whitespace cut off.
pub open spec fn is_trim_bounds(s: Seq<char>, i: int, j: int) -> bool {
    &&& 0 <= i <= j <= s.len()
    &&& forall|k: int| 0 <= k < i ==> is_whitespace(#[trigger] s[k])
    &&& forall|k: int| j <= k < s.len() ==> is_whitespace(#[trigger] s[k])
    &&& i < j ==> !is_whitespace(s[i]) && !is_whitespace(s[j - 1])
    &&& i == j ==> i == 0
}

proof fn lemma_trim_start_at(s: Seq<char>, i: int)
    requires
        0 <= i <= s.len(),
        forall|k: int| 0 <= k < i ==> is_whitespace(#[trigger] s[k]),
        i < s.len() ==> !is_whitespace(s[i]),
    ensures
        trim_start(s) == s.subrange(i, s.len() as int),
    decreases i,
{
    if i == 0 {
        assert(s.subrange(0, s.len() as int) =~= s);
    } else {
        let rest = s.drop_first();
        assert(is_whitespace(s[0]));
        assert forall|k: int| 0 <= k < i - 1 implies is_whitespace(#[trigger] rest[k]) by {
            assert(rest[k] == s[k + 1]);
        }
        lemma_trim_start_at(rest, i - 1);
        assert(rest.subrange(i - 1, rest.len() as int) =~= s.subrange(i, s.len() as int));
    }
}

proof fn lemma_trim_end_at(s: Seq<char>, j: int)
    requires
        0 <= j <= s.len(),
        forall|k: int| j <= k < s.len() ==> is_whitespace(#[trigger] s[k]),
        0 < j ==> !is_whitespace(s[j - 1]),
    ensures
        trim_end(s) == s.subrange(0, j),
    decreases s.len() - j,
{
    if j == s.len() {
        assert(s.subrange(0, j) =~= s);
    } else {
        let rest = s.drop_last();
        assert(is_whitespace(s[s.len() - 1]));
        lemma_trim_end_at(rest, j);
        assert(rest.subrange(0, j) =~= s.subrange(0, j));
    }
}

/// Cutting `s` at trim bounds gives its trimmed form.
pub proof fn lemma_trim_bounds_give_trimmed(s: Seq<char>, i: int, j: int)
    requires
        is_trim_bounds(s, i, j),
    ensures
        trimmed(s) == s.subrange(i, j),
{
    let n = s.len() as int;
    if i == j {
        assert forall|k: int| 0 <= k < n implies is_whitespace(#[trigger] s[k]) by {}
        lemma_trim_start_at(s, n);
        assert(s.subrange(n, n) =~= Seq::<char>::empty());
        assert(s.subrange(i, j) =~= Seq::<char>::empty());
    } else {
        lemma_trim_start_at(s, i);
        let t = s.subrange(i, n);
        assert forall|k: int| j - i <= k < t.len() implies is_whitespace(#[trigger] t[k]) by {
            assert(t[k] == s[k + i]);
        }
        assert(t[j - i - 1] == s[j - 1]);
        lemma_trim_end_at(t, j - i);
        assert(t.subrange(0, j - i) =~= s.subrange(i, j));
    }
}

proof fn lemma_trim_start_head(s: Seq<char>)
    ensures
        trim_start(s).len() <= s.len(),
        trim_start(s).len() > 0 ==> !is_whitespace(trim_start(s).first()),
    decreases s.len(),
{
    if s.len() > 0 && is_whitespace(s.first()) {
        lemma_trim_start_head(s.drop_first());
    }
}

proof fn lemma_trim_end_tail(s: Seq<char>)
    ensures
        trim_end(s).len() <= s.len(),
        trim_end(s).len() > 0 ==> !is_whitespace(trim_end(s).last()),
        s.len() > 0 && !is_whitespace(s.first()) ==> trim_end(s).len() > 0 && trim_end(s).first()
            == s.first(),
    decreases s.len(),
{
    if s.len() > 0 && is_whitespace(s.last()) {
        lemma_trim_end_tail(s.drop_last());
    }
}

/// A trimmed text neither begins nor ends with whitespace, and is no longer
/// than the text it was cut from.
pub proof fn lemma_trimmed_ends(s: Seq<char>)
    ensures
        trimmed(s).len() <= s.len(),
        trimmed(s).len() > 0 ==> !is_whitespace(trimmed(s).first()) && !is_whitespace(
            trimmed(s).last(),
        ),
{
    lemma_trim_start_head(s);
    lemma_trim_end_tail(trim_start(s));
}

/// Trimming is idempotent: a trimmed text is its own trimmed form.
pub proof fn lemma_trimmed_idempotent(s: Seq<char>)
    ensures
        trimmed(trimmed(s)) == trimmed(s),
{
    lemma_trimmed_ends(s);
}

/// Whether `c` is one of the ASCII digits `0` to `9`.
pub open spec fn is_digit(c: char) -> bool {
    0x30 <= c as u32 <= 0x39
}

/// The number that the ASCII digit `c` stands for.
pub open spec fn digit_value(c: char) -> int {
    c as u32 - 0x30
}

/// Whether `s` holds ASCII digits only.
pub open spec fn all_digits(s: Seq<char>) -> bool {
    forall|i: int| 0 <= i < s.len() ==> is_digit(#[trigger] s[i])
}

/// The number that the digit string `s` denotes in base ten; 0 for the empty string.
pub open spec fn digits_value(s: Seq<char>) -> int
    decreases s.len(),
{
    if s.len() == 0 {
        0
    } else {
        10 * digits_value(s.drop_last()) + digit_value(s.last())
    }
}

/// Whether `s` begins with a sign, `+` or `-`.
pub open spec fn has_sign(s: Seq<char>) -> bool {
    s.len() > 0 && (s[0] == '+' || s[0] == '-')
}

/// The integer that `s` denotes: an optional sign, then one or more ASCII
/// digits, and nothing else. `None` for any other text.
pub open spec fn signed_decimal(s: Seq<char>) -> Option<int> {
    let digits = if has_sign(s) {
        s.drop_first()
    } else {
        s
    };
    if digits.len() > 0 && all_digits(digits) {
        if s[0] == '-' {
            Some(-digits_value(digits))
        } else {
            Some(digits_value(digits))
        }
    } else {
        None
    }
}

/// The `i32` that `s` denotes, if it denotes an integer and that integer fits.
pub open spec fn decimal_i32(s: Seq<char>) -> Option<i32> {
    match signed_decimal(s) {
        Some(v) => if i32::MIN <= v <= i32::MAX {
            Some(v as i32)
        } else {
            None
        },
        None => None,
    }
}

/// A digit string denotes at least what any of its prefixes denotes.
pub proof fn lemma_digits_value_grows(s: Seq<char>, k: int)
    requires
        all_digits(s),
        0 <= k <= s.len(),
    ensures
        0 <= digits_value(s.subrange(0, k)) <= digits_value(s),
    decreases s.len(),
{
    if k == s.len() {
        assert(s.subrange(0, k) =~= s);
        if s.len() > 0 {
            lemma_digits_value_grows(s.drop_last(), k - 1);
        }
    } else {
        let rest = s.drop_last();
        lemma_digits_value_grows(rest, k);
        assert(rest.subrange(0, k) =~= s.subrange(0, k));
        assert(is_digit(s.last()));
    }
}

/// A text has at most as many characters as its UTF-8 encoding has bytes.
pub proof fn lemma_chars_within_bytes(chars: Seq<char>)
    ensures
        chars.len() <= encode_utf8(chars).len(),
    decreases chars.len(),
{
    if chars.len() > 0 {
        lemma_chars_within_bytes(chars.drop_first());
    }
}

/// `String::from_utf8` of std. It succeeds exactly on UTF-8, and the string
/// it gives then has the given bytes as its encoding.
#[verifier::external_body]
fn string_from_utf8(bytes: Vec<u8>) -> (r: Option<String>)
    ensures
        r is Some <==> valid_utf8(bytes@),
        r matches Some(text) ==> encode_utf8(text@) == bytes@,
{
    match String::from_utf8(bytes) {
        Ok(text) => Some(text),
        Err(_) => None,
    }
}

/// Reads `bytes` as text: `None` where they are not UTF-8.
pub fn text_from_bytes(bytes: Vec<u8>) -> (r: Option<String>)
    ensures
        match text_of(bytes@) {
            Some(text) => r matches Some(found) && found@ == text,
            None => r is None,
        },
{
    let r = string_from_utf8(bytes);
    proof {
        if r is Some {
            encode_utf8_decode_utf8(r->0@);
        }
    }
    r
}

/// Tells whether `c` is a whitespace character.
pub fn char_is_whitespace(c: char) -> (r: bool)
    ensures
        r == is_whitespace(c),
{
    let n: u32 = c as u32;
    (0x09 <= n && n <= 0x0D) || n == 0x20 || n == 0x85 || n == 0xA0 || n == 0x1680 || (0x2000 <= n
        && n <= 0x200A) || n == 0x2028 || n == 0x2029 || n == 0x202F || n == 0x205F || n == 0x3000
}

/// The part of `s` that is left when leading and trailing whitespace is cut off.
pub fn trim(s: &str) -> (r: &str)
    ensures
        r@ == trimmed(s@),
{
    let bytes: usize = s.as_bytes().len();
    proof {
        lemma_chars_within_bytes(s@);
    }
    let mut start: usize = 0;
    let mut end: usize = 0;
    let mut i: usize = 0;
    for c in it: s.chars()
        invariant
            it.seq() == s@,
            i == it.index(),
            s@.len() <= bytes,
            is_trim_bounds(s@.subrange(0, i as int), start as int, end as int),
    {
        let ghost before = s@.subrange(0, i as int);
        let ghost after = s@.subrange(0, i + 1);
        assert(c == s@[i as int]);
        assert(forall|k: int| 0 <= k < i ==> before[k] == after[k]);
        if !char_is_whitespace(c) {
            if start == end {
                start = i;
            }
            end = i + 1;
        }
        i = i + 1;
        assert(is_trim_bounds(after, start as int, end as int));
    }
    proof {
        assert(s@.subrange(0, i as int) =~= s@);
        lemma_trim_bounds_give_trimmed(s@, start as int, end as int);
    }
    s.substring_char(start, end)
}

/// Reads `s` as a decimal `i32`: an optional sign and then digits, with no
/// other character before, between or after them.
pub fn parse_i32(s: &str) -> (r: Option<i32>)
    ensures
        r == decimal_i32(s@),
{
    let limit: i64 = 0x8000_0000;
    let bytes: usize = s.as_bytes().len();
    proof {
        lemma_chars_within_bytes(s@);
    }
    let mut negative: bool = false;
    let mut first: usize = 0;
    let mut value: i64 = 0;
    let mut i: usize = 0;
    for c in it: s.chars()
        invariant
            it.seq() == s@,
            i == it.index(),
            s@.len() <= bytes,
            limit == 0x8000_0000,
            first <= 1,
            first as int == (if has_sign(s@) { 1int } else { 0int }) || i == 0,
            i == 0 ==> first == 0 && !negative,
            i > 0 ==> negative == (s@[0] == '-'),
            i > 0 ==> first <= i,
            all_digits(s@.subrange(first as int, i as int)),
            value == digits_value(s@.subrange(first as int, i as int)),
            0 <= value <= limit,
    {
        assert(c == s@[i as int]);
        let n: u32 = c as u32;
        if i == 0 && (c == '+' || c == '-') {
            negative = c == '-';
            first = 1;
            assert(s@.subrange(1, 1) =~= Seq::<char>::empty());
        } else {
            let ghost digits = if has_sign(s@) { s@.drop_first() } else { s@ };
            let ghost seen = s@.subrange(first as int, i as int);
            let ghost next = s@.subrange(first as int, i + 1);
            assert(digits =~= s@.subrange(first as int, s@.len() as int));
            if n < 0x30 || n > 0x39 {
                assert(!is_digit(digits[i - first]));
                return None;
            }
            assert(next.drop_last() =~= seen);
            assert(next.last() == c);
            let grown: i64 = value * 10 + (n - 0x30) as i64;
            assert(grown == digits_value(next));
            if grown > limit {
                proof {
                    if all_digits(digits) {
                        lemma_digits_value_grows(digits, i + 1 - first);
                        assert(digits.subrange(0, i + 1 - first) =~= next);
                    }
                }
                return None;
            }
            value = grown;
        }
        i = i + 1;
    }
    proof {
        let digits = if has_sign(s@) { s@.drop_first() } else { s@ };
        assert(digits =~= s@.subrange(first as int, s@.len() as int));
    }
    if i == first {
        None
    } else if negative {
        Some((0 - value) as i32)
    } else if value == limit {
        None
    } else {
        Some(value as i32)
    }
}

} // verus!
