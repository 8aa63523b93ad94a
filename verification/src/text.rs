use vstd::prelude::*;
use vstd::string::StrSliceExecFns;

verus! {

/// `String::push`: the string gains the character at its end. The contract
/// states exactly that of the string's characters.
#[verifier::external_body]
pub(crate) fn push_char(text: &mut String, c: char)
    ensures
        final(text)@ == old(text)@.push(c),
{
    text.push(c);
}

/// `String::push_str`: the string gains the slice's characters at its end.
/// The contract states exactly that of the string's characters.
#[verifier::external_body]
pub(crate) fn push_str(text: &mut String, tail: &str)
    ensures
        final(text)@ == old(text)@ + tail@,
{
    text.push_str(tail);
}

pub open spec fn digit_char(d: int) -> char {
    if d == 0 {
        '0'
    } else if d == 1 {
        '1'
    } else if d == 2 {
        '2'
    } else if d == 3 {
        '3'
    } else if d == 4 {
        '4'
    } else if d == 5 {
        '5'
    } else if d == 6 {
        '6'
    } else if d == 7 {
        '7'
    } else if d == 8 {
        '8'
    } else {
        '9'
    }
}

/// The decimal digits of `n`, without leading zeros (`0` is written `0`).
pub open spec fn spec_decimal(n: nat) -> Seq<char>
    decreases n,
{
    if n < 10 {
        seq![digit_char(n as int)]
    } else {
        spec_decimal(n / 10).push(digit_char((n % 10) as int))
    }
}

/// `n` in decimal, left-padded with zeros to at least `width` characters.
pub open spec fn spec_padded_decimal(n: nat, width: nat) -> Seq<char> {
    let digits = spec_decimal(n);
    if digits.len() >= width {
        digits
    } else {
        Seq::new((width - digits.len()) as nat, |i: int| '0') + digits
    }
}

pub fn digit(d: u64) -> (c: char)
    requires
        d < 10,
    ensures
        c == digit_char(d as int),
{
    match d {
        0 => '0',
        1 => '1',
        2 => '2',
        3 => '3',
        4 => '4',
        5 => '5',
        6 => '6',
        7 => '7',
        8 => '8',
        _ => '9',
    }
}

/// Appends the decimal digits of `n`.
pub fn push_decimal(text: &mut String, n: u64)
    ensures
        final(text)@ == old(text)@ + spec_decimal(n as nat),
    decreases n,
{
    if n >= 10 {
        push_decimal(text, n / 10);
    }
    push_char(text, digit(n % 10));
    proof {
        assert(old(text)@ + spec_decimal(n as nat) =~= final(text)@) by {
            if n >= 10 {
                assert(spec_decimal(n as nat) == spec_decimal((n / 10) as nat).push(
                    digit_char((n % 10) as int),
                ));
            }
        }
    }
}

/// Number of decimal digits of `n`.
pub fn decimal_length(n: u64) -> (length: usize)
    ensures
        length == spec_decimal(n as nat).len(),
        1 <= length <= 20,
    decreases n,
{
    if n < 10 {
        1
    } else {
        let rest = decimal_length(n / 10);
        proof {
            assert(spec_decimal(n as nat).len() == spec_decimal((n / 10) as nat).len() + 1);
            lemma_decimal_length_bound(n as nat);
        }
        rest + 1
    }
}

proof fn lemma_decimal_length_bound(n: nat)
    requires
        n <= u64::MAX,
    ensures
        spec_decimal(n).len() <= 20,
{
    reveal_with_fuel(pow10, 21);
    assert(pow10(20) == 100_000_000_000_000_000_000nat);
    lemma_decimal_length_below(n, 20);
}

spec fn pow10(k: nat) -> nat
    decreases k,
{
    if k == 0 { 1 } else { 10 * pow10((k - 1) as nat) }
}

/// A number below `10^k` has at most `k` digits.
proof fn lemma_decimal_length_below(n: nat, k: nat)
    requires
        k >= 1,
        n < pow10(k),
    ensures
        spec_decimal(n).len() <= k,
    decreases n,
{
    if n >= 10 {
        assert(k >= 2) by {
            if k == 1 {
                reveal_with_fuel(pow10, 2);
            }
        }
        assert(n / 10 < pow10((k - 1) as nat)) by {
            assert(pow10(k) == 10 * pow10((k - 1) as nat));
        }
        lemma_decimal_length_below(n / 10, (k - 1) as nat);
    }
}

/// Appends `n` in decimal, left-padded with zeros to at least `width` characters.
pub fn push_padded_decimal(text: &mut String, n: u64, width: usize)
    ensures
        final(text)@ == old(text)@ + spec_padded_decimal(n as nat, width as nat),
{
    let length = decimal_length(n);
    let mut padding: usize = if length < width { width - length } else { 0 };
    let ghost start = text@;
    let ghost zeros = Seq::new(padding as nat, |i: int| '0');
    while padding > 0
        invariant
            text@ == start + Seq::new((zeros.len() - padding) as nat, |i: int| '0'),
            padding <= zeros.len(),
            zeros.len() == (if length < width { width - length } else { 0 }),
        decreases padding,
    {
        push_char(text, '0');
        padding = padding - 1;
        proof {
            assert(text@ =~= start + Seq::new((zeros.len() - padding) as nat, |i: int| '0'));
        }
    }
    push_decimal(text, n);
    proof {
        if length >= width {
            assert(text@ =~= start + spec_padded_decimal(n as nat, width as nat));
        } else {
            assert(text@ =~= start + spec_padded_decimal(n as nat, width as nat));
        }
    }
}

pub open spec fn is_decimal_digit(c: char) -> bool {
    '0' <= c <= '9'
}

pub open spec fn all_decimal_digits(s: Seq<char>) -> bool {
    forall|i: int| 0 <= i < s.len() ==> is_decimal_digit(s[i])
}

/// The number written by a string of decimal digits.
pub open spec fn digits_value(s: Seq<char>) -> int
    decreases s.len(),
{
    if s.len() == 0 {
        0
    } else {
        digits_value(s.drop_last()) * 10 + (s.last() as int - '0' as int)
    }
}

/// What `str::parse::<i32>` accepts: an optional `+` or `-`, then one or more
/// decimal digits, naming a value in the range of `i32`.
pub open spec fn spec_parse_i32(s: Seq<char>) -> Option<i32> {
    let negative = s.len() > 0 && s[0] == '-';
    let digits = if s.len() > 0 && (s[0] == '-' || s[0] == '+') { s.drop_first() } else { s };
    if digits.len() == 0 || !all_decimal_digits(digits) {
        None
    } else {
        let value = if negative { -digits_value(digits) } else { digits_value(digits) };
        if i32::MIN <= value <= i32::MAX { Some(value as i32) } else { None }
    }
}

proof fn lemma_digits_value_take(s: Seq<char>, k: int)
    requires
        0 <= k < s.len(),
    ensures
        digits_value(s.take(k + 1)) == digits_value(s.take(k)) * 10 + (s[k] as int - '0' as int),
{
    assert(s.take(k + 1).drop_last() =~= s.take(k));
}

proof fn lemma_digits_value_grows(s: Seq<char>, k: int)
    requires
        0 <= k <= s.len(),
        all_decimal_digits(s),
    ensures
        digits_value(s.take(k)) <= digits_value(s),
        digits_value(s.take(k)) >= 0,
    decreases s.len() - k,
{
    if k < s.len() {
        lemma_digits_value_take(s, k);
        lemma_digits_value_grows(s, k + 1);
        assert(s[k] as int - '0' as int >= 0);
    } else {
        assert(s.take(k) =~= s);
        lemma_digits_value_nonnegative(s);
    }
}

proof fn lemma_digits_value_nonnegative(s: Seq<char>)
    requires
        all_decimal_digits(s),
    ensures
        digits_value(s) >= 0,
    decreases s.len(),
{
    if s.len() > 0 {
        lemma_digits_value_nonnegative(s.drop_last());
    }
}

/// Parses a whole number the way `str::parse::<i32>` does.
#[verifier::spinoff_prover]
#[verifier::rlimit(40)]
pub fn parse_i32(text: &str) -> (value: Option<i32>)
    ensures
        value == spec_parse_i32(text@),
{
    let length = text.unicode_len();
    let ghost s = text@;
    let mut index: usize = 0;
    let mut negative = false;
    if length > 0 {
        let first = text.get_char(0);
        if first == '-' {
            negative = true;
            index = 1;
        } else if first == '+' {
            index = 1;
        }
    }
    let ghost digits = if s.len() > 0 && (s[0] == '-' || s[0] == '+') { s.drop_first() } else { s };
    let start = index;
    if start == length {
        return None;
    }
    let mut magnitude: i64 = 0;
    while index < length
        invariant
            s == text@,
            length == s.len(),
            start <= index <= length,
            start == s.len() - digits.len(),
            digits == s.subrange(start as int, s.len() as int),
            digits == (if s.len() > 0 && (s[0] == '-' || s[0] == '+') { s.drop_first() } else { s }),
            negative == (s.len() > 0 && s[0] == '-'),
            all_decimal_digits(digits.take(index - start)),
            magnitude == digits_value(digits.take(index - start)),
            0 <= magnitude <= 0x8000_0000,
        decreases length - index,
    {
        let c = text.get_char(index);
        if !('0' <= c && c <= '9') {
            proof {
                assert(digits[index - start] == c);
                assert(!is_decimal_digit(digits[index - start]));
                assert(!all_decimal_digits(digits));
                assert(spec_parse_i32(s) is None);
            }
            return None;
        }
        proof {
            assert(digits[index - start] == c);
            lemma_digits_value_take(digits, index - start);
            assert(all_decimal_digits(digits.take(index - start + 1))) by {
                assert forall|i: int| 0 <= i < index - start + 1 implies is_decimal_digit(
                    #[trigger] digits.take(index - start + 1)[i],
                ) by {
                    if i < index - start {
                        assert(digits.take(index - start + 1)[i] == digits.take(index - start)[i]);
                    }
                }
            }
        }
        let d: i64 = (c as u32 - '0' as u32) as i64;
        magnitude = magnitude * 10 + d;
        index = index + 1;
        if magnitude > 0x8000_0000 {
            proof {
                assert(magnitude == digits_value(digits.take(index - start)));
                if all_decimal_digits(digits) {
                    lemma_digits_value_grows(digits, index - start);
                    assert(digits_value(digits) > 0x8000_0000);
                }
                assert(digits.len() > 0);
                assert(spec_parse_i32(s) is None);
            }
            return None;
        }
    }
    proof {
        assert(digits.take(index - start) =~= digits);
    }
    if negative {
        Some((-magnitude) as i32)
    } else if magnitude > 0x7fff_ffff {
        None
    } else {
        Some(magnitude as i32)
    }
}

/// The characters of a string slice, one by one.
pub fn chars_of(text: &str) -> (chars: Vec<char>)
    ensures
        chars@ == text@,
{
    let length = text.unicode_len();
    let mut chars: Vec<char> = Vec::new();
    let mut index: usize = 0;
    while index < length
        invariant
            length == text@.len(),
            index <= length,
            chars@ == text@.take(index as int),
        decreases length - index,
    {
        chars.push(text.get_char(index));
        index = index + 1;
        assert(chars@ =~= text@.take(index as int));
    }
    assert(chars@ =~= text@);
    chars
}

/// A string holding these characters.
pub fn string_of(chars: &Vec<char>) -> (text: String)
    ensures
        text@ == chars@,
{
    let mut text = String::new();
    let mut index: usize = 0;
    while index < chars.len()
        invariant
            index <= chars@.len(),
            text@ == chars@.take(index as int),
        decreases chars@.len() - index,
    {
        push_char(&mut text, chars[index]);
        index = index + 1;
        assert(text@ =~= chars@.take(index as int));
    }
    assert(text@ =~= chars@);
    text
}

/// The Unicode `White_Space` characters, which `char::is_whitespace` and
/// `str::trim` go by.
pub open spec fn is_unicode_whitespace(c: char) -> bool {
    ||| '\u{9}' <= c <= '\u{d}'
    ||| c == ' '
    ||| c == '\u{85}'
    ||| c == '\u{a0}'
    ||| c == '\u{1680}'
    ||| '\u{2000}' <= c <= '\u{200a}'
    ||| c == '\u{2028}'
    ||| c == '\u{2029}'
    ||| c == '\u{202f}'
    ||| c == '\u{205f}'
    ||| c == '\u{3000}'
}

pub fn is_whitespace(c: char) -> (whitespace: bool)
    ensures
        whitespace == is_unicode_whitespace(c),
{
    ('\u{9}' <= c && c <= '\u{d}') || c == ' ' || c == '\u{85}' || c == '\u{a0}' || c == '\u{1680}'
        || ('\u{2000}' <= c && c <= '\u{200a}') || c == '\u{2028}' || c == '\u{2029}' || c
        == '\u{202f}' || c == '\u{205f}' || c == '\u{3000}'
}

/// `s` without leading and trailing white space, as `str::trim` gives it.
pub open spec fn spec_trim(s: Seq<char>) -> Seq<char> {
    spec_trim_end(spec_trim_start(s))
}

pub open spec fn spec_trim_start(s: Seq<char>) -> Seq<char>
    decreases s.len(),
{
    if s.len() > 0 && is_unicode_whitespace(s[0]) {
        spec_trim_start(s.drop_first())
    } else {
        s
    }
}

pub open spec fn spec_trim_end(s: Seq<char>) -> Seq<char>
    decreases s.len(),
{
    if s.len() > 0 && is_unicode_whitespace(s.last()) {
        spec_trim_end(s.drop_last())
    } else {
        s
    }
}

/// The characters of `s` without leading and trailing white space.
pub fn trim_chars(s: &Vec<char>) -> (trimmed: Vec<char>)
    ensures
        trimmed@ == spec_trim(s@),
{
    let mut start: usize = 0;
    assert(s@.subrange(0, s@.len() as int) =~= s@);
    while start < s.len() && is_whitespace(s[start])
        invariant
            start <= s@.len(),
            spec_trim_start(s@.subrange(start as int, s@.len() as int)) == spec_trim_start(s@),
        decreases s@.len() - start,
    {
        assert(s@.subrange(start as int + 1, s@.len() as int) =~= s@.subrange(
            start as int,
            s@.len() as int,
        ).drop_first());
        start = start + 1;
    }
    let ghost rest = s@.subrange(start as int, s@.len() as int);
    assert(spec_trim_start(rest) == rest);
    let mut end: usize = s.len();
    while end > start && is_whitespace(s[end - 1])
        invariant
            start <= end <= s@.len(),
            rest == s@.subrange(start as int, s@.len() as int),
            spec_trim_end(s@.subrange(start as int, end as int)) == spec_trim_end(rest),
        decreases end,
    {
        assert(s@.subrange(start as int, end - 1) =~= s@.subrange(start as int, end as int).drop_last());
        end = end - 1;
    }
    assert(spec_trim_end(s@.subrange(start as int, end as int)) == s@.subrange(start as int, end as int));
    let mut trimmed: Vec<char> = Vec::new();
    let mut index: usize = start;
    while index < end
        invariant
            start <= index <= end <= s@.len(),
            trimmed@ == s@.subrange(start as int, index as int),
        decreases end - index,
    {
        trimmed.push(s[index]);
        index = index + 1;
        assert(trimmed@ =~= s@.subrange(start as int, index as int));
    }
    trimmed
}

pub open spec fn ascii_lower(c: char) -> char {
    if 'A' <= c <= 'Z' { ((c as u32) + 32) as char } else { c }
}

/// `str::eq_ignore_ascii_case`: equal once ASCII letters are lowercased.
pub open spec fn spec_eq_ignore_ascii_case(a: Seq<char>, b: Seq<char>) -> bool {
    a.len() == b.len() && forall|i: int| 0 <= i < a.len() ==> ascii_lower(a[i]) == ascii_lower(b[i])
}

fn lower_ascii_char(c: char) -> (lower: char)
    ensures
        lower == ascii_lower(c),
{
    if 'A' <= c && c <= 'Z' {
        ((c as u8) + 32) as char
    } else {
        c
    }
}

pub fn eq_ignore_ascii_case(a: &Vec<char>, b: &Vec<char>) -> (equal: bool)
    ensures
        equal == spec_eq_ignore_ascii_case(a@, b@),
{
    if a.len() != b.len() {
        return false;
    }
    let mut index: usize = 0;
    while index < a.len()
        invariant
            a@.len() == b@.len(),
            index <= a@.len(),
            forall|i: int| 0 <= i < index ==> ascii_lower(a@[i]) == ascii_lower(b@[i]),
        decreases a@.len() - index,
    {
        if lower_ascii_char(a[index]) != lower_ascii_char(b[index]) {
            return false;
        }
        index = index + 1;
    }
    true
}

/// Whether `needle` occurs as a contiguous part of `haystack`.
pub open spec fn spec_contains_part(haystack: Seq<char>, needle: Seq<char>) -> bool {
    exists|start: int|
        0 <= start && start + needle.len() <= haystack.len() && #[trigger] haystack.subrange(
            start,
            start + needle.len(),
        ) == needle
}

fn matches_at(haystack: &Vec<char>, needle: &Vec<char>, start: usize) -> (found: bool)
    requires
        start + needle@.len() <= haystack@.len(),
    ensures
        found == (haystack@.subrange(start as int, start + needle@.len()) == needle@),
{
    let mut index: usize = 0;
    let _total: usize = haystack.len();
    while index < needle.len()
        invariant
            start + needle@.len() <= haystack@.len(),
            haystack@.len() <= usize::MAX,
            index <= needle@.len(),
            forall|i: int| 0 <= i < index ==> haystack@[start + i] == needle@[i],
        decreases needle@.len() - index,
    {
        if haystack[start + index] != needle[index] {
            assert(haystack@.subrange(start as int, start + needle@.len())[index as int]
                != needle@[index as int]);
            return false;
        }
        index = index + 1;
    }
    assert(haystack@.subrange(start as int, start + needle@.len()) =~= needle@);
    true
}

/// `str::contains` for a string pattern.
pub fn contains_part(haystack: &Vec<char>, needle: &Vec<char>) -> (found: bool)
    ensures
        found == spec_contains_part(haystack@, needle@),
{
    if needle.len() > haystack.len() {
        return false;
    }
    if needle.len() == 0 {
        assert(haystack@.subrange(0, 0 + needle@.len() as int) =~= needle@);
        return true;
    }
    let last: usize = haystack.len() - needle.len();
    let mut start: usize = 0;
    while start <= last
        invariant
            last == haystack@.len() - needle@.len(),
            needle@.len() > 0,
            haystack@.len() <= usize::MAX,
            start <= last + 1,
            forall|s: int|
                0 <= s < start ==> #[trigger] haystack@.subrange(s, s + needle@.len()) != needle@,
        decreases last + 1 - start,
    {
        if matches_at(haystack, needle, start) {
            return true;
        }
        start = start + 1;
    }
    false
}

/// What `str::parse::<usize>` accepts: an optional `+`, then one or more
/// decimal digits, naming a value that fits in `usize`.
pub open spec fn spec_parse_usize(s: Seq<char>) -> Option<usize> {
    let digits = if s.len() > 0 && s[0] == '+' { s.drop_first() } else { s };
    if digits.len() == 0 || !all_decimal_digits(digits) || digits_value(digits) > usize::MAX {
        None
    } else {
        Some(digits_value(digits) as usize)
    }
}

proof fn lemma_digits_value_monotone(s: Seq<char>, k: int)
    requires
        0 <= k <= s.len(),
        all_decimal_digits(s),
    ensures
        digits_value(s.take(k)) <= digits_value(s),
    decreases s.len() - k,
{
    if k < s.len() {
        lemma_digits_value_monotone(s, k + 1);
        lemma_digits_value_take(s, k);
        assert(digits_value(s.take(k)) >= 0) by {
            lemma_digits_value_nonnegative(s.take(k));
        }
    } else {
        assert(s.take(k) =~= s);
    }
}

pub fn parse_usize(text: &str) -> (value: Option<usize>)
    ensures
        value == spec_parse_usize(text@),
{
    let chars = chars_of(text);
    let ghost s = text@;
    let mut start: usize = 0;
    if chars.len() > 0 && chars[0] == '+' {
        start = 1;
    }
    let ghost digits = if s.len() > 0 && s[0] == '+' { s.drop_first() } else { s };
    assert(digits =~= chars@.subrange(start as int, chars@.len() as int));
    if start == chars.len() {
        return None;
    }
    let mut magnitude: usize = 0;
    let mut index: usize = start;
    while index < chars.len()
        invariant
            chars@ == s,
            s == text@,
            start <= index <= chars@.len(),
            digits == chars@.subrange(start as int, chars@.len() as int),
            digits == (if s.len() > 0 && s[0] == '+' { s.drop_first() } else { s }),
            all_decimal_digits(digits.take(index - start)),
            magnitude == digits_value(digits.take(index - start)),
        decreases chars@.len() - index,
    {
        let c = chars[index];
        proof {
            lemma_digits_value_take(digits, index - start);
        }
        assert(digits[index - start] == c);
        if !('0' <= c && c <= '9') {
            assert(!all_decimal_digits(digits));
            return None;
        }
        let d: usize = (c as u32 - '0' as u32) as usize;
        if magnitude > (usize::MAX - d) / 10 {
            proof {
                assert(digits_value(digits.take(index - start + 1)) > usize::MAX) by (nonlinear_arith)
                    requires
                        digits_value(digits.take(index - start + 1)) == magnitude * 10 + d,
                        magnitude > (usize::MAX - d) / 10,
                        0 <= d <= 9;
                if all_decimal_digits(digits) {
                    lemma_digits_value_monotone(digits, index - start + 1);
                }
            }
            return None;
        }
        assert(magnitude * 10 + d <= usize::MAX) by (nonlinear_arith)
            requires
                magnitude <= (usize::MAX - d) / 10,
                0 <= d <= 9;
        magnitude = magnitude * 10 + d;
        index = index + 1;
        assert(all_decimal_digits(digits.take(index - start)));
    }
    assert(digits.take(index - start) =~= digits);
    Some(magnitude)
}

/// Whether two strings hold the same characters.
pub fn same_text(a: &str, b: &str) -> (same: bool)
    ensures
        same == (a@ == b@),
{
    let left = chars_of(a);
    let right = chars_of(b);
    if left.len() != right.len() {
        return false;
    }
    let mut index: usize = 0;
    while index < left.len()
        invariant
            left@ == a@,
            right@ == b@,
            left@.len() == right@.len(),
            index <= left@.len(),
            forall|i: int| 0 <= i < index ==> left@[i] == right@[i],
        decreases left@.len() - index,
    {
        if left[index] != right[index] {
            return false;
        }
        index = index + 1;
    }
    assert(left@ =~= right@);
    true
}

/// Whether nothing but white space is in `text`, as `text.trim().is_empty()`.
pub fn is_blank(text: &str) -> (blank: bool)
    ensures
        blank == (spec_trim(text@).len() == 0),
{
    let chars = chars_of(text);
    let trimmed = trim_chars(&chars);
    trimmed.len() == 0
}

/// The Unicode lowercase mapping of a string, as `str::to_lowercase` gives it.
pub uninterp spec fn unicode_lowercase(text: Seq<char>) -> Seq<char>;

/// Lowercases a string with Unicode case mapping, through `str::to_lowercase`.
/// The contract names the result without spelling out the mapping tables;
/// on ASCII text, where Unicode lowercasing maps `A`-`Z` to `a`-`z` and keeps
/// every other character, it states the result character by character.
#[verifier::external_body]
pub(crate) fn to_lowercase(text: &str) -> (lower: String)
    ensures
        lower@ == unicode_lowercase(text@),
        (forall|i: int| 0 <= i < text@.len() ==> (#[trigger] text@[i] as u32) < 0x80) ==> (
        lower@.len() == text@.len() && forall|i: int|
            0 <= i < text@.len() ==> #[trigger] lower@[i] == ascii_lower(text@[i])),
{
    text.to_lowercase()
}

/// The character of a six-bit value in the standard base64 alphabet
/// (RFC 4648): `A`-`Z`, `a`-`z`, `0`-`9`, `+`, `/`.
pub open spec fn base64_symbol(value: int) -> char {
    if value < 26 {
        (65 + value) as char
    } else if value < 52 {
        (97 + value - 26) as char
    } else if value < 62 {
        (48 + value - 52) as char
    } else if value == 62 {
        '+'
    } else {
        '/'
    }
}

/// The standard base64 text of `bytes`, with padding: each group of three
/// bytes gives four characters, and a last group of one or two bytes is
/// filled out with `=`.
pub open spec fn standard_base64(bytes: Seq<u8>) -> Seq<char>
    decreases bytes.len(),
{
    if bytes.len() == 0 {
        Seq::empty()
    } else {
        let first = bytes[0] as int;
        let second = if bytes.len() > 1 { bytes[1] as int } else { 0 };
        let third = if bytes.len() > 2 { bytes[2] as int } else { 0 };
        let group = seq![
            base64_symbol(first / 4),
            base64_symbol((first % 4) * 16 + second / 16),
            if bytes.len() > 1 { base64_symbol((second % 16) * 4 + third / 64) } else { '=' },
            if bytes.len() > 2 { base64_symbol(third % 64) } else { '=' },
        ];
        if bytes.len() <= 3 {
            group
        } else {
            group + standard_base64(bytes.skip(3))
        }
    }
}

proof fn lemma_base64_symbol_injective(x: int, y: int)
    requires
        0 <= x < 64,
        0 <= y < 64,
        base64_symbol(x) == base64_symbol(y),
    ensures
        x == y,
        base64_symbol(x) != '=',
{
    assert(base64_symbol(x) as u32 == base64_symbol(y) as u32);
}

/// Two byte strings with the same standard base64 text are the same: the
/// text determines the bytes.
pub proof fn lemma_standard_base64_injective(a: Seq<u8>, b: Seq<u8>)
    requires
        standard_base64(a) == standard_base64(b),
    ensures
        a == b,
    decreases a.len(),
{
    let ea = standard_base64(a);
    let eb = standard_base64(b);
    if a.len() == 0 || b.len() == 0 {
        if a.len() != 0 || b.len() != 0 {
            assert(ea.len() >= 4 || eb.len() >= 4);
            assert(false);
        }
        assert(a =~= b);
    } else {
        let (a0, b0) = (a[0] as int, b[0] as int);
        let a1 = if a.len() > 1 { a[1] as int } else { 0 };
        let b1 = if b.len() > 1 { b[1] as int } else { 0 };
        let a2 = if a.len() > 2 { a[2] as int } else { 0 };
        let b2 = if b.len() > 2 { b[2] as int } else { 0 };
        assert(ea[0] == eb[0] && ea[1] == eb[1] && ea[2] == eb[2] && ea[3] == eb[3]);
        lemma_base64_symbol_injective(a0 / 4, b0 / 4);
        lemma_base64_symbol_injective((a0 % 4) * 16 + a1 / 16, (b0 % 4) * 16 + b1 / 16);
        assert(a0 == b0 && a1 / 16 == b1 / 16);
        if a.len() > 1 || b.len() > 1 {
            if a.len() > 1 && b.len() > 1 {
                lemma_base64_symbol_injective((a1 % 16) * 4 + a2 / 64, (b1 % 16) * 4 + b2 / 64);
            } else if a.len() > 1 {
                lemma_base64_symbol_injective((a1 % 16) * 4 + a2 / 64, 0);
            } else {
                lemma_base64_symbol_injective(0, (b1 % 16) * 4 + b2 / 64);
            }
            assert(a.len() > 1 && b.len() > 1);
            assert(a1 == b1 && a2 / 64 == b2 / 64);
        }
        if a.len() > 2 || b.len() > 2 {
            if a.len() > 2 && b.len() > 2 {
                lemma_base64_symbol_injective(a2 % 64, b2 % 64);
            } else if a.len() > 2 {
                lemma_base64_symbol_injective(a2 % 64, 0);
            } else {
                lemma_base64_symbol_injective(0, b2 % 64);
            }
            assert(a.len() > 2 && b.len() > 2);
            assert(a2 == b2);
        }
        if a.len() <= 3 || b.len() <= 3 {
            if a.len() > 3 {
                assert(standard_base64(a.skip(3)).len() >= 4);
                assert(ea.len() > 4);
            }
            if b.len() > 3 {
                assert(standard_base64(b.skip(3)).len() >= 4);
                assert(eb.len() > 4);
            }
            assert(a.len() == b.len());
            assert(a =~= b);
        } else {
            let group = ea.take(4);
            assert(ea.skip(4) =~= standard_base64(a.skip(3)));
            assert(eb.skip(4) =~= standard_base64(b.skip(3)));
            lemma_standard_base64_injective(a.skip(3), b.skip(3));
            assert(a =~= a.take(3) + a.skip(3));
            assert(b =~= b.take(3) + b.skip(3));
            assert(a.take(3) =~= b.take(3));
        }
    }
}

} // verus!
