//! Reading and writing the small pieces of text that the proxy deals in.
use vstd::prelude::*;
use vstd::string::StringExecFns;

verus! {

/// `String::push` appends one character to the end of a string.
pub assume_specification[ String::push ](s: &mut String, c: char)
    ensures
        final(s)@ == old(s)@.push(c),
;

/// A byte that may occur in text taken from a header value: printable ASCII or a tab.
pub open spec fn is_visible(b: u8) -> bool {
    32 <= b < 127 || b == 9
}

/// The characters that ASCII bytes stand for.
pub open spec fn ascii_chars(bytes: Seq<u8>) -> Seq<char> {
    bytes.map_values(|b: u8| b as char)
}

/// The text that a header value holds, if all of it is visible.
pub open spec fn visible_text(bytes: Seq<u8>) -> Option<Seq<char>> {
    if forall|i: int| 0 <= i < bytes.len() ==> is_visible(#[trigger] bytes[i]) {
        Some(ascii_chars(bytes))
    } else {
        None
    }
}

/// The view of an optional string.
pub open spec fn text_view(text: Option<String>) -> Option<Seq<char>> {
    match text {
        Some(s) => Some(s@),
        None => None,
    }
}

/// Reads a header value as text; a value with any other than visible bytes is not text.
pub fn to_text(bytes: &Vec<u8>) -> (text: Option<String>)
    ensures
        text_view(text) == visible_text(bytes@),
{
    let mut s = String::new();
    for i in 0..bytes.len()
        invariant
            forall|j: int| 0 <= j < i ==> is_visible(#[trigger] bytes@[j]),
            s@ == ascii_chars(bytes@.take(i as int)),
    {
        let b: u8 = bytes[i];
        if !(32 <= b && b < 127 || b == 9) {
            assert(!is_visible(bytes@[i as int]));
            return None;
        }
        s.push(b as char);
        assert(s@ =~= ascii_chars(bytes@.take(i + 1)));
    }
    assert(bytes@.take(bytes@.len() as int) =~= bytes@);
    Some(s)
}

/// Whether `bytes` begins with `prefix`.
pub fn starts_with(bytes: &Vec<u8>, prefix: &[u8]) -> (r: bool)
    ensures
        r == prefix@.is_prefix_of(bytes@),
{
    if bytes.len() < prefix.len() {
        return false;
    }
    for i in 0..prefix.len()
        invariant
            prefix@.len() <= bytes@.len(),
            forall|j: int| 0 <= j < i ==> prefix@[j] == bytes@[j],
    {
        if prefix[i] != bytes[i] {
            assert(bytes@.take(prefix@.len() as int)[i as int] != prefix@[i as int]);
            return false;
        }
    }
    assert(prefix@ =~= bytes@.subrange(0, prefix@.len() as int));
    true
}

/// Whether `part` stands in `bytes` at a given place.
pub open spec fn holds_at(bytes: Seq<u8>, at: int, part: Seq<u8>) -> bool {
    at + part.len() <= bytes.len() && bytes.subrange(at, at + part.len()) == part
}

/// Tests whether `part` stands in `bytes` at a given place.
pub fn has_at(bytes: &Vec<u8>, at: usize, part: &[u8]) -> (r: bool)
    ensures
        r == holds_at(bytes@, at as int, part@),
{
    if bytes.len() < at || bytes.len() - at < part.len() {
        return false;
    }
    let ghost there = bytes@.subrange(at as int, at + part@.len());
    for i in 0..part.len()
        invariant
            at + part@.len() <= bytes.len(),
            there == bytes@.subrange(at as int, at + part@.len()),
            forall|j: int| 0 <= j < i ==> there[j] == part@[j],
    {
        if bytes[at + i] != part[i] {
            assert(there[i as int] != part@[i as int]);
            return false;
        }
    }
    assert(there =~= part@);
    true
}

/// Bytes begin with ASCII text exactly if their characters do.
pub proof fn lemma_ascii_prefix(prefix: Seq<char>, bytes: Seq<u8>)
    requires
        vstd::utf8::is_ascii_chars(prefix),
    ensures
        prefix.is_prefix_of(ascii_chars(bytes)) <==> vstd::utf8::encode_utf8(prefix).is_prefix_of(
            bytes,
        ),
{
    vstd::utf8::is_ascii_chars_encode_utf8(prefix);
    let encoded = vstd::utf8::encode_utf8(prefix);
    if prefix.is_prefix_of(ascii_chars(bytes)) {
        assert forall|i: int| 0 <= i < encoded.len() implies encoded[i] == bytes[i] by {
            assert(prefix[i] == ascii_chars(bytes).subrange(0, prefix.len() as int)[i]);
        }
        assert(encoded =~= bytes.subrange(0, encoded.len() as int));
    }
    if encoded.is_prefix_of(bytes) {
        assert forall|i: int| 0 <= i < prefix.len() implies prefix[i] == ascii_chars(bytes)[i] by {
            assert(encoded[i] == bytes.subrange(0, encoded.len() as int)[i]);
        }
        assert(prefix =~= ascii_chars(bytes).subrange(0, prefix.len() as int));
    }
}

/// The number that decimal digits stand for.
pub open spec fn decimal_value(digits: Seq<u8>) -> nat
    decreases digits.len(),
{
    if digits.len() == 0 {
        0
    } else {
        decimal_value(digits.drop_last()) * 10 + (digits.last() - 48) as nat
    }
}

/// A sequence of one or more decimal digits.
pub open spec fn is_decimal(digits: Seq<u8>) -> bool {
    &&& digits.len() > 0
    &&& forall|i: int| 0 <= i < digits.len() ==> 48 <= #[trigger] digits[i] <= 57
}

/// `text` without a leading plus sign.
pub open spec fn without_plus(text: Seq<u8>) -> Seq<u8> {
    if text.len() > 0 && text[0] == 43 {
        text.skip(1)
    } else {
        text
    }
}

/// The 32-bit number that `text` spells: decimal digits, optionally after a plus sign.
pub open spec fn spelled_u32(text: Seq<u8>) -> Option<u32> {
    let digits = without_plus(text);
    if is_decimal(digits) && decimal_value(digits) <= u32::MAX {
        Some(decimal_value(digits) as u32)
    } else {
        None
    }
}

proof fn lemma_decimal_value_of_prefix(digits: Seq<u8>, n: int)
    requires
        0 <= n <= digits.len(),
    ensures
        decimal_value(digits.take(n)) <= decimal_value(digits),
    decreases digits.len() - n,
{
    if n < digits.len() {
        lemma_decimal_value_of_prefix(digits, n + 1);
        assert(digits.take(n + 1).drop_last() =~= digits.take(n));
    } else {
        assert(digits.take(n) =~= digits);
    }
}

/// Reads a 32-bit number.
pub fn parse_u32(text: &Vec<u8>) -> (n: Option<u32>)
    ensures
        n == spelled_u32(text@),
{
    let start: usize = if text.len() > 0 && text[0] == 43 {
        1
    } else {
        0
    };
    let ghost digits = without_plus(text@);
    assert(digits =~= text@.skip(start as int));
    if start == text.len() {
        return None;
    }
    let mut value: u32 = 0;
    let mut i: usize = start;
    while i < text.len()
        invariant
            start <= i <= text@.len(),
            start < text@.len(),
            digits == text@.skip(start as int),
            digits == without_plus(text@),
            forall|j: int| 0 <= j < i - start ==> 48 <= #[trigger] digits[j] <= 57,
            value == decimal_value(digits.take(i - start)),
        decreases text@.len() - i,
    {
        let b: u8 = text[i];
        assert(b == digits[i - start]);
        if b < 48 || b > 57 {
            return None;
        }
        let next: u64 = value as u64 * 10 + (b - 48) as u64;
        proof {
            assert(digits.take(i - start + 1).drop_last() =~= digits.take(i - start));
            lemma_decimal_value_of_prefix(digits, i - start + 1);
        }
        if next > u32::MAX as u64 {
            return None;
        }
        value = next as u32;
        i = i + 1;
    }
    assert(digits.take(i - start) =~= digits);
    Some(value)
}

/// The character for a decimal digit.
pub open spec fn digit_char(d: nat) -> char {
    (48 + d) as char
}

/// A number written in decimal.
pub open spec fn decimal(n: nat) -> Seq<char>
    decreases n,
{
    if n < 10 {
        seq![digit_char(n)]
    } else {
        decimal(n / 10).push(digit_char(n % 10))
    }
}

/// Appends a number in decimal.
pub fn push_decimal(s: &mut String, n: u64)
    ensures
        final(s)@ == old(s)@ + decimal(n as nat),
    decreases n,
{
    let ghost before = s@;
    let d: u8 = (n % 10) as u8;
    if n >= 10 {
        push_decimal(s, n / 10);
    }
    s.push((48u8 + d) as char);
    assert(s@ =~= before + decimal(n as nat));
}

/// Whether two strings are the same.
pub fn same_text(a: &str, b: &str) -> (r: bool)
    ensures
        r == (a@ == b@),
{
    String::from_str(a) == String::from_str(b)
}

/// Lower-case form of an ASCII letter; any other byte is left as it is.
pub open spec fn lower_byte(b: u8) -> u8 {
    if 65 <= b <= 90 {
        (b + 32) as u8
    } else {
        b
    }
}

/// Makes an ASCII letter lower case.
pub fn to_lower_byte(b: u8) -> (r: u8)
    ensures
        r == lower_byte(b),
{
    if 65 <= b && b <= 90 {
        b + 32
    } else {
        b
    }
}

/// Whether two byte strings differ in the case of ASCII letters at most.
pub open spec fn same_but_for_case(a: Seq<u8>, b: Seq<u8>) -> bool {
    &&& a.len() == b.len()
    &&& forall|i: int| 0 <= i < a.len() ==> lower_byte(#[trigger] a[i]) == lower_byte(b[i])
}

/// Compares two byte strings without regard to the case of ASCII letters.
pub fn eq_ignore_case(a: &[u8], b: &[u8]) -> (r: bool)
    ensures
        r == same_but_for_case(a@, b@),
{
    if a.len() != b.len() {
        return false;
    }
    for i in 0..a.len()
        invariant
            a@.len() == b@.len(),
            forall|j: int| 0 <= j < i ==> lower_byte(#[trigger] a@[j]) == lower_byte(b@[j]),
    {
        if to_lower_byte(a[i]) != to_lower_byte(b[i]) {
            assert(lower_byte(a@[i as int]) != lower_byte(b@[i as int]));
            return false;
        }
    }
    true
}

/// A header value is read as text exactly if all of its bytes are printable ASCII or tabs, and
/// then byte for byte.
pub proof fn readable_values_are_text(bytes: Vec<u8>, r: Option<String>)
    requires
        call_ensures(to_text, (&bytes,), r),
    ensures
        r is Some <==> forall|i: int|
            0 <= i < bytes@.len() ==> (32 <= #[trigger] bytes@[i] <= 126 || bytes@[i] == 9),
        r matches Some(s) ==> s@.len() == bytes@.len() && forall|i: int|
            0 <= i < s@.len() ==> #[trigger] s@[i] == bytes@[i] as char,
{
}

/// Bytes begin with a prefix exactly if they are as long at least and agree with it where it is.
pub proof fn prefixes_agree(bytes: Vec<u8>, prefix: &[u8], r: bool)
    requires
        call_ensures(starts_with, (&bytes, prefix), r),
    ensures
        r <==> prefix@.len() <= bytes@.len() && forall|i: int|
            0 <= i < prefix@.len() ==> #[trigger] prefix@[i] == bytes@[i],
{
    if prefix@.len() <= bytes@.len() {
        let there = bytes@.subrange(0, prefix@.len() as int);
        if r {
            assert forall|i: int| 0 <= i < prefix@.len() implies #[trigger] prefix@[i]
                == bytes@[i] by {
                assert(there[i] == bytes@[i]);
            }
        } else if forall|i: int| 0 <= i < prefix@.len() ==> #[trigger] prefix@[i] == bytes@[i] {
            assert(there =~= prefix@);
        }
    }
}

/// A part is found at a place exactly if the bytes from there on agree with it.
pub proof fn parts_are_found_where_they_are(bytes: Vec<u8>, at: usize, part: &[u8], r: bool)
    requires
        call_ensures(has_at, (&bytes, at, part), r),
    ensures
        r <==> at + part@.len() <= bytes@.len() && forall|i: int|
            0 <= i < part@.len() ==> #[trigger] part@[i] == bytes@[at + i],
{
    if at + part@.len() <= bytes@.len() {
        let there = bytes@.subrange(at as int, at + part@.len());
        if r {
            assert forall|i: int| 0 <= i < part@.len() implies #[trigger] part@[i]
                == bytes@[at + i] by {
                assert(there[i] == bytes@[at + i]);
            }
        } else if forall|i: int| 0 <= i < part@.len() ==> #[trigger] part@[i] == bytes@[at + i] {
            assert(there =~= part@);
        }
    }
}

/// The bytes of a number in decimal.
pub open spec fn digits_of(n: nat) -> Seq<u8>
    decreases n,
{
    if n < 10 {
        seq![(48 + n) as u8]
    } else {
        digits_of(n / 10).push((48 + n % 10) as u8)
    }
}

proof fn lemma_digits(n: nat)
    ensures
        is_decimal(digits_of(n)),
        decimal_value(digits_of(n)) == n,
        decimal(n) == digits_of(n).map_values(|b: u8| b as char),
    decreases n,
{
    let digits = digits_of(n);
    if n >= 10 {
        lemma_digits(n / 10);
        assert(digits.drop_last() =~= digits_of(n / 10));
        assert(decimal(n) =~= digits.map_values(|b: u8| b as char));
    } else {
        assert(digits.drop_last() =~= Seq::empty());
        assert(decimal_value(digits.drop_last()) == 0);
        assert(decimal(n) =~= digits.map_values(|b: u8| b as char));
    }
}

/// A number that is written in decimal is read back as itself, with a plus sign before it or
/// without, as long as it has 32 bits at most.
pub proof fn numbers_are_read_as_written(n: u64, text: Vec<u8>, s: &mut String, r: Option<u32>)
    requires
        call_ensures(push_decimal, (s, n), ()),
        old(s)@.len() == 0,
        call_ensures(parse_u32, (&text,), r),
        final(s)@ == text@.map_values(|b: u8| b as char) || seq!['+'] + final(s)@
            == text@.map_values(|b: u8| b as char),
        forall|i: int| 0 <= i < text@.len() ==> #[trigger] text@[i] < 128,
    ensures
        n <= u32::MAX ==> r == Some(n as u32),
        n > u32::MAX ==> r is None,
{
    lemma_digits(n as nat);
    let digits = digits_of(n as nat);
    assert(final(s)@ =~= decimal(n as nat));
    let chars = text@.map_values(|b: u8| b as char);
    if final(s)@ == chars {
        assert(text@ =~= digits) by {
            assert(chars.len() == digits.len());
            assert forall|i: int| 0 <= i < digits.len() implies text@[i] == digits[i] by {
                assert(chars[i] == digits[i] as char);
                assert(chars[i] == text@[i] as char);
                assert(text@[i] < 128);
                assert(48 <= digits[i] <= 57);
            }
        }
        assert(48 <= digits[0] <= 57);
    } else {
        let all = seq!['+'] + final(s)@;
        assert(chars.len() == digits.len() + 1);
        assert(text@[0] == 43) by {
            assert(chars[0] == '+');
            assert(chars[0] == text@[0] as char);
            assert(text@[0] < 128);
        }
        assert(text@.skip(1) =~= digits) by {
            assert forall|i: int| 0 <= i < digits.len() implies text@[i + 1] == digits[i] by {
                assert(chars[i + 1] == all[i + 1]);
                assert(chars[i + 1] == digits[i] as char);
                assert(chars[i + 1] == text@[i + 1] as char);
                assert(text@[i + 1] < 128);
                assert(48 <= digits[i] <= 57);
            }
        }
    }
}

/// What is read as a number is nothing but digits, after a plus sign at most: with any other byte
/// or with none there is no number.
pub proof fn only_digits_are_read(text: Vec<u8>, r: Option<u32>, i: int)
    requires
        call_ensures(parse_u32, (&text,), r),
        r is Some,
        0 <= i < text@.len(),
    ensures
        48 <= text@[i] <= 57 || (i == 0 && text@[i] == 43),
        text@ != seq![43u8],
{
    let digits = without_plus(text@);
    if text@[0] == 43 {
        if i > 0 {
            assert(digits[i - 1] == text@[i]);
        }
        assert(digits.len() == text@.len() - 1);
    } else {
        assert(digits[i] == text@[i]);
    }
}

/// Two texts are found to be the same exactly if they are, and two byte strings are compared
/// without regard to the case of ASCII letters and with regard to everything else.
pub proof fn texts_are_compared(a: &str, b: &str, r: bool, x: &[u8], y: &[u8], s: bool)
    requires
        call_ensures(same_text, (a, b), r),
        call_ensures(eq_ignore_case, (x, y), s),
    ensures
        r <==> a@ == b@,
        x@ == y@ ==> s,
        s ==> x@.len() == y@.len(),
        s ==> forall|i: int|
            0 <= i < x@.len() ==> (#[trigger] x@[i] == y@[i] || (65 <= x@[i] <= 90 && y@[i]
                == x@[i] + 32) || (65 <= y@[i] <= 90 && x@[i] == y@[i] + 32)),
{
}

} // verus!
