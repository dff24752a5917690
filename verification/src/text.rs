//! Text helpers shared by every stage: comparing and building strings,
//! decimal rendering, and the recognisers for numeric literals.

use vstd::prelude::*;
use vstd::std_specs::iter::IteratorSpec;
use vstd::string::StringSliceAdditionalSpecFns;
use vstd::utf8::{char_is_scalar, encode_scalar, encode_utf8, encode_utf8_decode_utf8};

verus! {
/// `String::push`: the string grows by exactly the character given.
#[verifier::external_body]
pub(crate) fn push_char(s: &mut String, c: char)
    ensures
        final(s)@ == old(s)@.push(c),
{
    s.push(c);
}

/// The characters of the text, in order.
pub fn chars_of(s: &str) -> (r: Vec<char>)
    ensures
        r@ == s@,
{
    let mut out: Vec<char> = Vec::new();
    let mut it = s.chars();
    loop
        invariant
            it.obeys_prophetic_iter_laws(),
            it.decrease() is Some,
            out@ + it.remaining() == s@,
        ensures
            out@ == s@,
        decreases it.decrease()->0,
    {
        match it.next() {
            Some(c) => {
                out.push(c);
            },
            None => {
                break ;
            },
        }
    }
    out
}

/// Whether two texts hold the same characters: they do where their bytes
/// are the same.
pub fn same_text(a: &str, b: &str) -> (r: bool)
    ensures
        r == (a@ == b@),
{
    let x = a.as_bytes();
    let y = b.as_bytes();
    proof {
        encode_utf8_decode_utf8(a@);
        encode_utf8_decode_utf8(b@);
    }
    if x.len() != y.len() {
        return false;
    }
    let mut i: usize = 0;
    while i < x.len()
        invariant
            i <= x.len(),
            x.len() == y.len(),
            x@ == encode_utf8(a@),
            y@ == encode_utf8(b@),
            forall|k: int| 0 <= k < i ==> x@[k] == y@[k],
        decreases x.len() - i,
    {
        if x[i] != y[i] {
            assert(x@[i as int] != y@[i as int]);
            return false;
        }
        i = i + 1;
    }
    assert(x@ =~= y@);
    true
}

/// The text made of the characters of `v`.
pub fn text_of(v: &Vec<char>) -> (r: String)
    ensures
        r@ == v@,
{
    let mut out = String::new();
    let mut i: usize = 0;
    while i < v.len()
        invariant
            i <= v.len(),
            out@ == v@.take(i as int),
        decreases v.len() - i,
    {
        push_char(&mut out, v[i]);
        i = i + 1;
    }
    out
}

/// `n` copies of `c`.
pub open spec fn repeated(c: char, n: nat) -> Seq<char> {
    Seq::new(n, |i: int| c)
}

/// A text of `n` copies of `c`.
pub fn repeat_char(c: char, n: usize) -> (r: String)
    ensures
        r@ == repeated(c, n as nat),
{
    let mut out = String::new();
    let mut i: usize = 0;
    while i < n
        invariant
            i <= n,
            out@ == repeated(c, i as nat),
        decreases n - i,
    {
        push_char(&mut out, c);
        i = i + 1;
    }
    out
}

pub open spec fn is_digit(c: char) -> bool {
    '0' <= c && c <= '9'
}

pub open spec fn digit_value(c: char) -> int {
    c as int - '0' as int
}

pub open spec fn digit_char(d: int) -> char {
    if d == 0 {
        '0'
    } else if d == 1 {
        '1'
    } else if d == 2 {
        '2'
    } else if d == 3 {
        '3'
    } else if d == 4 {
        '4'
    } else if d == 5 {
        '5'
    } else if d == 6 {
        '6'
    } else if d == 7 {
        '7'
    } else if d == 8 {
        '8'
    } else {
        '9'
    }
}

/// How many decimal digits `n` takes: one for zero.
pub open spec fn digit_count(n: nat) -> nat
    decreases n,
{
    if n < 10 {
        1
    } else {
        1 + digit_count(n / 10)
    }
}

/// `n` in decimal, most significant digit first, without leading zeros.
pub open spec fn decimal_text(n: nat) -> Seq<char>
    decreases n,
{
    if n < 10 {
        seq![digit_char(n as int)]
    } else {
        decimal_text(n / 10).push(digit_char((n % 10) as int))
    }
}

/// A decimal text has as many characters as its number has digits.
pub proof fn lemma_decimal_len(n: nat)
    ensures
        decimal_text(n).len() == digit_count(n),
    decreases n,
{
    if n >= 10 {
        lemma_decimal_len(n / 10);
    }
}

fn digit_of(d: u64) -> (c: char)
    requires
        d < 10,
    ensures
        c == digit_char(d as int),
{
    if d == 0 {
        '0'
    } else if d == 1 {
        '1'
    } else if d == 2 {
        '2'
    } else if d == 3 {
        '3'
    } else if d == 4 {
        '4'
    } else if d == 5 {
        '5'
    } else if d == 6 {
        '6'
    } else if d == 7 {
        '7'
    } else if d == 8 {
        '8'
    } else {
        '9'
    }
}

/// The number of decimal digits of `n`.
pub fn count_digits(n: usize) -> (r: usize)
    ensures
        r == digit_count(n as nat),
        1 <= r <= 20,
{
    let mut rest: usize = n;
    let mut count: usize = 1;
    while rest >= 10
        invariant
            1 <= count <= 20,
            digit_count(n as nat) == (count - 1) + digit_count(rest as nat),
            rest as int * pow10((count - 1) as nat) <= n as int,
        decreases rest,
    {
        proof {
            lemma_pow10_step((count - 1) as nat);
            assert(rest as int * pow10((count - 1) as nat) >= 10 * pow10((count - 1) as nat))
                by (nonlinear_arith)
                requires
                    rest >= 10,
                    pow10((count - 1) as nat) > 0,
            ;
            assert((rest / 10) as int * pow10(count as nat) <= rest as int * pow10((count - 1) as nat))
                by (nonlinear_arith)
                requires
                    pow10(count as nat) == 10 * pow10((count - 1) as nat),
                    pow10((count - 1) as nat) > 0,
                    rest >= 0,
            ;
            if count >= 20 {
                lemma_pow10_19();
            }
        }
        rest = rest / 10;
        count = count + 1;
    }
    count
}

pub open spec fn pow10(e: nat) -> int
    decreases e,
{
    if e == 0 {
        1
    } else {
        10 * pow10((e - 1) as nat)
    }
}

proof fn lemma_pow10_step(e: nat)
    ensures
        pow10(e) > 0,
        pow10(e + 1) == 10 * pow10(e),
    decreases e,
{
    if e > 0 {
        lemma_pow10_step((e - 1) as nat);
    }
}

proof fn lemma_pow10_19()
    ensures
        pow10(19) == 10_000_000_000_000_000_000int,
{
    reveal_with_fuel(pow10, 20);
}

/// `n` rendered in decimal.
pub fn decimal(n: u64) -> (r: String)
    ensures
        r@ == decimal_text(n as nat),
    decreases n,
{
    if n < 10 {
        let mut out = String::new();
        push_char(&mut out, digit_of(n));
        out
    } else {
        let mut out = decimal(n / 10);
        push_char(&mut out, digit_of(n % 10));
        out
    }
}

pub open spec fn is_sign(c: char) -> bool {
    c == '+' || c == '-'
}

/// Where the digits of a numeric text begin: after its sign, if it has one.
pub open spec fn sign_len(s: Seq<char>) -> int {
    if s.len() > 0 && is_sign(s[0]) {
        1
    } else {
        0
    }
}

/// The index just past the run of digits that begins at `i`.
pub open spec fn digits_end(s: Seq<char>, i: int) -> int
    decreases s.len() - i,
{
    if 0 <= i < s.len() && is_digit(s[i]) {
        digits_end(s, i + 1)
    } else {
        i
    }
}

/// The number that a run of digits denotes.
pub open spec fn digits_value(s: Seq<char>) -> int
    decreases s.len(),
{
    if s.len() == 0 {
        0
    } else {
        digits_value(s.drop_last()) * 10 + digit_value(s.last())
    }
}

/// The integer that a text denotes: an optional sign, then one or more
/// digits and nothing else.
pub open spec fn int_text_value(s: Seq<char>) -> Option<int> {
    let start = sign_len(s);
    if start < s.len() && digits_end(s, start) == s.len() {
        let magnitude = digits_value(s.subrange(start, s.len() as int));
        Some(
            if s[0] == '-' {
                -magnitude
            } else {
                magnitude
            },
        )
    } else {
        None
    }
}

/// The 64-bit signed integer that a text denotes, if it denotes one that fits.
pub open spec fn i64_of_text(s: Seq<char>) -> Option<i64> {
    match int_text_value(s) {
        Some(v) => if i64::MIN <= v <= i64::MAX {
            Some(v as i64)
        } else {
            None
        },
        None => None,
    }
}

/// `c` is the letter given, in either case.
pub open spec fn is_letter(c: char, lower: char, upper: char) -> bool {
    c == lower || c == upper
}

/// The text from `i` on spells `inf`, `infinity` or `nan`, in any case.
pub open spec fn special_float_at(s: Seq<char>, i: int) -> bool {
    ||| {
        &&& s.len() == i + 3
        &&& is_letter(s[i], 'i', 'I')
        &&& is_letter(s[i + 1], 'n', 'N')
        &&& is_letter(s[i + 2], 'f', 'F')
    }
    ||| {
        &&& s.len() == i + 3
        &&& is_letter(s[i], 'n', 'N')
        &&& is_letter(s[i + 1], 'a', 'A')
        &&& is_letter(s[i + 2], 'n', 'N')
    }
    ||| {
        &&& s.len() == i + 8
        &&& is_letter(s[i], 'i', 'I')
        &&& is_letter(s[i + 1], 'n', 'N')
        &&& is_letter(s[i + 2], 'f', 'F')
        &&& is_letter(s[i + 3], 'i', 'I')
        &&& is_letter(s[i + 4], 'n', 'N')
        &&& is_letter(s[i + 5], 'i', 'I')
        &&& is_letter(s[i + 6], 't', 'T')
        &&& is_letter(s[i + 7], 'y', 'Y')
    }
}

/// The text from `i` to its end is an exponent: `e` or `E`, an optional
/// sign, then one or more digits.
pub open spec fn exponent_at(s: Seq<char>, i: int) -> bool {
    &&& 0 <= i < s.len()
    &&& is_letter(s[i], 'e', 'E')
    &&& {
        let j = if i + 1 < s.len() && is_sign(s[i + 1]) {
            i + 2
        } else {
            i + 1
        };
        j < digits_end(s, j) == s.len()
    }
}

/// The text from `i` to its end is a decimal number: digits, an optional
/// point with further digits, at least one digit in all, and an optional
/// exponent.
pub open spec fn decimal_float_at(s: Seq<char>, i: int) -> bool {
    let whole_end = digits_end(s, i);
    let has_point = whole_end < s.len() && s[whole_end] == '.';
    let fraction_end = if has_point {
        digits_end(s, whole_end + 1)
    } else {
        whole_end
    };
    let digits = if has_point {
        (whole_end - i) + (fraction_end - (whole_end + 1))
    } else {
        whole_end - i
    };
    &&& digits > 0
    &&& (fraction_end == s.len() || exponent_at(s, fraction_end))
}

/// The text is a floating-point literal: an optional sign, then a decimal
/// number or one of the words `inf`, `infinity`, `nan`.
pub open spec fn is_float_text(s: Seq<char>) -> bool {
    let start = sign_len(s);
    start < s.len() && (decimal_float_at(s, start) || special_float_at(s, start))
}

proof fn lemma_digits_end_run(s: Seq<char>, i: int, j: int)
    requires
        0 <= i <= j <= s.len(),
        forall|k: int| i <= k < j ==> is_digit(s[k]),
    ensures
        digits_end(s, i) == digits_end(s, j),
    decreases j - i,
{
    if i < j {
        lemma_digits_end_run(s, i + 1, j);
    }
}

fn is_digit_char(c: char) -> (r: bool)
    ensures
        r == is_digit(c),
{
    c >= '0' && c <= '9'
}

fn digit_to_value(c: char) -> (r: u8)
    requires
        is_digit(c),
    ensures
        r as int == digit_value(c),
{
    (c as u32 - '0' as u32) as u8
}

/// Scans the run of digits that begins at `i`.
fn scan_digits(v: &Vec<char>, i: usize) -> (j: usize)
    requires
        i <= v.len(),
    ensures
        j == digits_end(v@, i as int),
        i <= j <= v.len(),
{
    let mut j: usize = i;
    while j < v.len() && is_digit_char(v[j])
        invariant
            i <= j <= v.len(),
            digits_end(v@, i as int) == digits_end(v@, j as int),
        decreases v.len() - j,
    {
        j = j + 1;
    }
    j
}

fn sign_length(v: &Vec<char>) -> (r: usize)
    ensures
        r == sign_len(v@),
{
    if v.len() > 0 && (v[0] == '+' || v[0] == '-') {
        1
    } else {
        0
    }
}

/// Reads a text as a 64-bit signed integer: `None` unless it is an optional
/// sign followed by digits alone, denoting a number in range.
pub fn parse_i64(s: &str) -> (r: Option<i64>)
    ensures
        r == i64_of_text(s@),
{
    let v = chars_of(s);
    let start = sign_length(&v);
    if start >= v.len() {
        return None;
    }
    let negative = v[0] == '-';
    let limit: u64 = 9223372036854775808;
    let mut acc: u64 = 0;
    let mut big = false;
    let mut i: usize = start;
    while i < v.len()
        invariant
            start <= i <= v.len(),
            start == sign_len(v@),
            v@ == s@,
            limit == 9223372036854775808,
            forall|k: int| start <= k < i ==> is_digit(v@[k]),
            !big ==> acc as int == digits_value(v@.subrange(start as int, i as int)),
            !big ==> acc <= limit,
            big ==> digits_value(v@.subrange(start as int, i as int)) > limit,
        decreases v.len() - i,
    {
        let c = v[i];
        if !is_digit_char(c) {
            proof {
                lemma_digits_end_run(v@, start as int, i as int);
            }
            return None;
        }
        let d = digit_to_value(c);
        proof {
            let next = v@.subrange(start as int, i as int + 1);
            assert(next.drop_last() =~= v@.subrange(start as int, i as int));
        }
        if !big {
            let wide: u128 = acc as u128 * 10 + d as u128;
            if wide > limit as u128 {
                big = true;
            } else {
                acc = wide as u64;
            }
        }
        i = i + 1;
    }
    proof {
        lemma_digits_end_run(v@, start as int, v.len() as int);
    }
    if big {
        None
    } else if negative {
        if acc == limit {
            Some(i64::MIN)
        } else {
            Some(0 - (acc as i64))
        }
    } else if acc < limit {
        Some(acc as i64)
    } else {
        None
    }
}

fn letter_is(c: char, lower: char, upper: char) -> (r: bool)
    ensures
        r == is_letter(c, lower, upper),
{
    c == lower || c == upper
}

fn special_float(v: &Vec<char>, i: usize) -> (r: bool)
    requires
        i <= v.len(),
    ensures
        r == special_float_at(v@, i as int),
{
    let n = v.len() - i;
    if n == 3 {
        (letter_is(v[i], 'i', 'I') && letter_is(v[i + 1], 'n', 'N') && letter_is(v[i + 2], 'f', 'F'))
            || (letter_is(v[i], 'n', 'N') && letter_is(v[i + 1], 'a', 'A') && letter_is(
            v[i + 2],
            'n',
            'N',
        ))
    } else if n == 8 {
        letter_is(v[i], 'i', 'I') && letter_is(v[i + 1], 'n', 'N') && letter_is(v[i + 2], 'f', 'F')
            && letter_is(v[i + 3], 'i', 'I') && letter_is(v[i + 4], 'n', 'N') && letter_is(
            v[i + 5],
            'i',
            'I',
        ) && letter_is(v[i + 6], 't', 'T') && letter_is(v[i + 7], 'y', 'Y')
    } else {
        false
    }
}

fn exponent(v: &Vec<char>, i: usize) -> (r: bool)
    requires
        i <= v.len(),
    ensures
        r == exponent_at(v@, i as int),
{
    if i >= v.len() || !letter_is(v[i], 'e', 'E') {
        return false;
    }
    let j: usize = if i + 1 < v.len() && (v[i + 1] == '+' || v[i + 1] == '-') {
        i + 2
    } else {
        i + 1
    };
    let k = scan_digits(v, j);
    j < k && k == v.len()
}

fn decimal_float(v: &Vec<char>, i: usize) -> (r: bool)
    requires
        i <= v.len(),
    ensures
        r == decimal_float_at(v@, i as int),
{
    let whole_end = scan_digits(v, i);
    let has_point = whole_end < v.len() && v[whole_end] == '.';
    if has_point {
        let fraction_end = scan_digits(v, whole_end + 1);
        let digits: usize = (whole_end - i) + (fraction_end - (whole_end + 1));
        digits > 0 && (fraction_end == v.len() || exponent(v, fraction_end))
    } else {
        whole_end - i > 0 && (whole_end == v.len() || exponent(v, whole_end))
    }
}

/// Whether a text is a floating-point literal.
pub fn float_text(s: &str) -> (r: bool)
    ensures
        r == is_float_text(s@),
{
    let v = chars_of(s);
    let start = sign_length(&v);
    start < v.len() && (decimal_float(&v, start) || special_float(&v, start))
}

/// `n` in decimal, with a leading minus sign when it is negative.
pub open spec fn signed_decimal_text(n: int) -> Seq<char> {
    if n < 0 {
        seq!['-'] + decimal_text((-n) as nat)
    } else {
        decimal_text(n as nat)
    }
}

/// `n` rendered in decimal, with its sign when negative.
pub fn signed_decimal(n: i64) -> (r: String)
    ensures
        r@ == signed_decimal_text(n as int),
{
    if n < 0 {
        let magnitude: u64 = if n == i64::MIN {
            9223372036854775808
        } else {
            (0 - n) as u64
        };
        let mut out = String::new();
        push_char(&mut out, '-');
        let digits = decimal(magnitude);
        out.append(digits.as_str());
        out
    } else {
        decimal(n as u64)
    }
}

/// The models of the values of a sequence, in order.
pub open spec fn models<T: View>(v: Seq<T>) -> Seq<T::V> {
    Seq::new(v.len(), |i: int| v[i]@)
}

/// The texts given, one after the other.
pub fn join2(a: &str, b: &str) -> (r: String)
    ensures
        r@ == a@ + b@,
{
    let mut out = a.to_owned();
    out.append(b);
    out
}

pub fn join3(a: &str, b: &str, c: &str) -> (r: String)
    ensures
        r@ == a@ + b@ + c@,
{
    let mut out = join2(a, b);
    out.append(c);
    out
}

pub fn join4(a: &str, b: &str, c: &str, d: &str) -> (r: String)
    ensures
        r@ == a@ + b@ + c@ + d@,
{
    let mut out = join3(a, b, c);
    out.append(d);
    out
}

pub fn join5(a: &str, b: &str, c: &str, d: &str, e: &str) -> (r: String)
    ensures
        r@ == a@ + b@ + c@ + d@ + e@,
{
    let mut out = join4(a, b, c, d);
    out.append(e);
    out
}

pub fn join7(a: &str, b: &str, c: &str, d: &str, e: &str, f: &str, g: &str) -> (r: String)
    ensures
        r@ == a@ + b@ + c@ + d@ + e@ + f@ + g@,
{
    let mut out = join5(a, b, c, d, e);
    out.append(f);
    out.append(g);
    out
}

/// The bytes that a character takes in UTF-8: one to four.
pub open spec fn utf8_width(c: char) -> int {
    encode_scalar(c as u32).len() as int
}

/// The number of bytes that a character takes in UTF-8.
pub fn char_width(c: char) -> (r: usize)
    ensures
        r == utf8_width(c),
        1 <= r <= 4,
{
    proof {
        char_is_scalar(c);
    }
    let v = c as u32;
    if v < 0x80 {
        1
    } else if v < 0x800 {
        2
    } else if v < 0x10000 {
        3
    } else {
        4
    }
}

/// The byte offset of the character at index `k`: the length of the
/// encoding of the characters before it.
pub open spec fn byte_offset(chars: Seq<char>, k: int) -> int {
    if k <= 0 {
        0
    } else if k >= chars.len() {
        encode_utf8(chars).len() as int
    } else {
        encode_utf8(chars.take(k)).len() as int
    }
}

/// The encoding of two texts in a row is their encodings in a row.
pub proof fn lemma_encode_concat(a: Seq<char>, b: Seq<char>)
    ensures
        encode_utf8(a + b) == encode_utf8(a) + encode_utf8(b),
    decreases a.len(),
{
    if a.len() == 0 {
    } else {
        lemma_encode_concat(a.drop_first(), b);
        assert((a + b).drop_first() =~= a.drop_first() + b);
    }
}

/// The encoding of one character.
pub proof fn lemma_encode_one(c: char)
    ensures
        encode_utf8(seq![c]) == encode_scalar(c as u32),
        1 <= utf8_width(c) <= 4,
{
    char_is_scalar(c);
    assert(seq![c].drop_first() =~= Seq::<char>::empty());
    assert(encode_utf8(Seq::<char>::empty()) =~= Seq::<u8>::empty());
}

/// Byte offsets grow by the width of each character passed.
pub proof fn lemma_byte_offset_step(chars: Seq<char>, k: int)
    requires
        0 <= k < chars.len(),
    ensures
        byte_offset(chars, k + 1) == byte_offset(chars, k) + utf8_width(chars[k]),
        byte_offset(chars, k) >= k,
        byte_offset(chars, k + 1) >= k + 1,
    decreases k,
{
    let c = chars[k];
    lemma_encode_one(c);
    lemma_encode_concat(chars.take(k), seq![c]);
    assert(chars.take(k) + seq![c] =~= chars.take(k + 1));
    assert(chars.take(chars.len() as int) =~= chars);
    if k > 0 {
        lemma_byte_offset_step(chars, k - 1);
    }
}

/// The bytes between two byte offsets encode the characters between the
/// two indices.
pub proof fn lemma_encode_subrange(chars: Seq<char>, a: int, b: int)
    requires
        0 <= a <= b <= chars.len(),
    ensures
        0 <= byte_offset(chars, a) <= byte_offset(chars, b) <= encode_utf8(chars).len(),
        encode_utf8(chars).subrange(byte_offset(chars, a), byte_offset(chars, b)) == encode_utf8(
            chars.subrange(a, b),
        ),
{
    let head = chars.take(a);
    let middle = chars.subrange(a, b);
    let tail = chars.skip(b);
    assert(head + middle =~= chars.take(b));
    assert(chars.take(b) + tail =~= chars);
    lemma_encode_concat(head, middle);
    lemma_encode_concat(chars.take(b), tail);
}

/// Byte offsets grow with indices: every character takes a byte at least.
pub proof fn lemma_byte_offset_grows(chars: Seq<char>, a: int, b: int)
    requires
        0 <= a <= b <= chars.len(),
    ensures
        byte_offset(chars, b) - byte_offset(chars, a) >= b - a,
    decreases b - a,
{
    if a < b {
        lemma_byte_offset_grows(chars, a, b - 1);
        lemma_byte_offset_step(chars, b - 1);
    }
}
} // verus!
