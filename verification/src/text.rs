//! Text as sequences of characters: conversion between strings and character
//! vectors, decimal integers, the literal grammar of 64-bit floats, and
//! splitting and joining on a delimiter.

use vstd::prelude::*;

verus! {

/// `String::push` appends one character to the end of the string.
pub assume_specification[ String::push ](s: &mut String, ch: char)
    ensures
        final(s)@ == old(s)@.push(ch),
;

/// The characters of `s`, in order.
pub fn chars_of(s: &str) -> (v: Vec<char>)
    ensures
        v@ == s@,
{
    let mut v: Vec<char> = Vec::new();
    let it = s.chars();
    for c in iter: it
        invariant
            iter.seq() == s@,
            v@ == s@.subrange(0, iter.index() as int),
    {
        v.push(c);
    }
    v
}

/// The string made of the characters `v[from..to]`, in order.
pub fn string_of(v: &Vec<char>, from: usize, to: usize) -> (s: String)
    requires
        from <= to <= v.len(),
    ensures
        s@ == v@.subrange(from as int, to as int),
{
    let mut s = String::new();
    let mut i: usize = from;
    while i < to
        invariant
            from <= i <= to <= v.len(),
            s@ == v@.subrange(from as int, i as int),
        decreases to - i,
    {
        s.push(v[i]);
        i += 1;
    }
    s
}

/// Appends the characters of `tail` to `s`.
pub fn push_chars(s: &mut String, tail: &Vec<char>)
    ensures
        final(s)@ == old(s)@ + tail@,
{
    let mut i: usize = 0;
    while i < tail.len()
        invariant
            i <= tail.len(),
            s@ == old(s)@ + tail@.subrange(0, i as int),
        decreases tail.len() - i,
    {
        s.push(tail[i]);
        i += 1;
    }
    assert(tail@.subrange(0, tail.len() as int) == tail@);
}

// ---------------------------------------------------------------------------
// Decimal digits
// ---------------------------------------------------------------------------

/// Whether `c` is one of the ten ASCII digits.
pub open spec fn is_digit(c: char) -> bool {
    48 <= c as u32 <= 57
}

/// The value of the digit `c`.
pub open spec fn digit_value(c: char) -> nat
    recommends
        is_digit(c),
{
    (c as u32 - 48) as nat
}

/// The ASCII digit that stands for `d`.
pub open spec fn digit_of(d: nat) -> char
    recommends
        d < 10,
{
    (48 + d) as u8 as char
}

/// Whether every character of `s` is a digit.
pub open spec fn all_digits(s: Seq<char>) -> bool {
    forall|i: int| 0 <= i < s.len() ==> is_digit(#[trigger] s[i])
}

/// The number that the digit string `s` writes in base ten; zero for the
/// empty string.
pub open spec fn decimal_value(s: Seq<char>) -> nat
    decreases s.len(),
{
    if s.len() == 0 {
        0
    } else {
        decimal_value(s.drop_last()) * 10 + digit_value(s.last())
    }
}

/// The shortest digit string that writes `n` in base ten.
pub open spec fn decimal_text(n: nat) -> Seq<char>
    decreases n,
{
    if n < 10 {
        seq![digit_of(n)]
    } else {
        decimal_text(n / 10).push(digit_of(n % 10))
    }
}

/// The text of the integer `n`: a minus sign where it is negative, then its
/// magnitude in base ten.
pub open spec fn integer_text(n: int) -> Seq<char> {
    if n < 0 {
        seq!['-'] + decimal_text((-n) as nat)
    } else {
        decimal_text(n as nat)
    }
}

/// `s` without one leading plus sign.
pub open spec fn without_plus(s: Seq<char>) -> Seq<char> {
    if s.len() > 0 && s[0] == '+' {
        s.skip(1)
    } else {
        s
    }
}

/// The unsigned integer that `s` writes, if it writes one of at most `limit`:
/// an optional plus sign and then one digit or more.
pub open spec fn parse_unsigned(s: Seq<char>, limit: nat) -> Option<nat> {
    let digits = without_plus(s);
    if digits.len() > 0 && all_digits(digits) && decimal_value(digits) <= limit {
        Some(decimal_value(digits))
    } else {
        None
    }
}

/// The signed integer that `s` writes, if it writes one from `min` to `max`:
/// an optional plus or minus sign and then one digit or more.
pub open spec fn parse_signed(s: Seq<char>, min: int, max: int) -> Option<int> {
    let negative = s.len() > 0 && s[0] == '-';
    let digits = if negative {
        s.skip(1)
    } else {
        without_plus(s)
    };
    let value = if negative {
        -(decimal_value(digits) as int)
    } else {
        decimal_value(digits) as int
    };
    if digits.len() > 0 && all_digits(digits) && min <= value <= max {
        Some(value)
    } else {
        None
    }
}

/// The number of digits that `s` starts with.
pub open spec fn leading_digits(s: Seq<char>) -> nat
    decreases s.len(),
{
    if s.len() > 0 && is_digit(s[0]) {
        1 + leading_digits(s.skip(1))
    } else {
        0
    }
}

/// A digit string is worth no less than any of its prefixes.
pub proof fn lemma_decimal_value_prefix(s: Seq<char>, k: int)
    requires
        0 <= k <= s.len(),
    ensures
        decimal_value(s.take(k)) <= decimal_value(s),
    decreases s.len(),
{
    if k == s.len() {
        assert(s.take(k) == s);
    } else {
        assert(s.drop_last().take(k) == s.take(k));
        lemma_decimal_value_prefix(s.drop_last(), k);
    }
}

/// The text of `n` is made of digits, one at least, and writes `n`.
pub proof fn lemma_decimal_text(n: nat)
    ensures
        decimal_text(n).len() > 0,
        all_digits(decimal_text(n)),
        decimal_value(decimal_text(n)) == n,
    decreases n,
{
    let s = decimal_text(n);
    if n < 10 {
        assert(s.drop_last().len() == 0);
        assert(decimal_value(s.drop_last()) == 0);
        assert(s.last() == digit_of(n));
        assert(digit_of(n) as u32 == 48 + n);
    } else {
        lemma_decimal_text(n / 10);
        assert(s.drop_last() == decimal_text(n / 10));
        assert(digit_of(n % 10) as u32 == 48 + n % 10);
        assert(s.last() == digit_of(n % 10));
        assert forall|i: int| 0 <= i < s.len() implies is_digit(#[trigger] s[i]) by {
            if i < s.len() - 1 {
                assert(s[i] == decimal_text(n / 10)[i]);
            }
        }
    }
    assert(decimal_value(s) == decimal_value(s.drop_last()) * 10 + digit_value(s.last()));
}

/// Reading the text of an integer gives the integer back.
pub proof fn lemma_parse_integer_text(n: int, min: int, max: int)
    requires
        min <= n <= max,
    ensures
        parse_signed(integer_text(n), min, max) == Some(n),
        n >= 0 ==> parse_unsigned(integer_text(n), max as nat) == Some(n as nat),
{
    let s = integer_text(n);
    if n < 0 {
        lemma_decimal_text((-n) as nat);
        assert(s.skip(1) == decimal_text((-n) as nat));
    } else {
        lemma_decimal_text(n as nat);
        assert(is_digit(s[0]));
        assert(without_plus(s) == s);
    }
}

/// The value of the digit `c`, or `None` where `c` is no digit.
pub fn digit_value_of(c: char) -> (d: Option<u8>)
    ensures
        d is Some <==> is_digit(c),
        d is Some ==> d->0 == digit_value(c),
{
    let code: u32 = c as u32;
    if 48 <= code && code <= 57 {
        Some((code - 48) as u8)
    } else {
        None
    }
}

/// Reads `v[from..]` as a string of digits worth at most `limit`.
pub fn read_digits(v: &Vec<char>, from: usize, limit: u64) -> (value: Option<u64>)
    requires
        from <= v.len(),
    ensures
        value is Some <==> from < v.len() && all_digits(v@.skip(from as int)) && decimal_value(
            v@.skip(from as int),
        ) <= limit,
        value is Some ==> value->0 == decimal_value(v@.skip(from as int)),
{
    let ghost digits = v@.skip(from as int);
    if from == v.len() {
        return None;
    }
    let mut acc: u64 = 0;
    let mut i: usize = from;
    while i < v.len()
        invariant
            from <= i <= v.len(),
            digits == v@.skip(from as int),
            all_digits(digits.take(i - from)),
            acc == decimal_value(digits.take(i - from)),
            acc <= limit,
        decreases v.len() - i,
    {
        let ghost before = digits.take(i - from);
        let ghost after = digits.take(i - from + 1);
        proof {
            assert(after.drop_last() == before);
            assert(after.last() == v@[i as int]);
        }
        match digit_value_of(v[i]) {
            None => {
                proof {
                    assert(digits[i - from] == v@[i as int]);
                }
                return None;
            },
            Some(d) => {
                if d as u64 > limit || acc > (limit - d as u64) / 10 {
                    proof {
                        assert(decimal_value(after) > limit);
                        lemma_decimal_value_prefix(digits, i - from + 1);
                    }
                    return None;
                }
                acc = acc * 10 + d as u64;
                proof {
                    assert forall|j: int| 0 <= j < after.len() implies is_digit(
                        #[trigger] after[j],
                    ) by {
                        if j < before.len() {
                            assert(after[j] == before[j]);
                        }
                    }
                }
            },
        }
        i += 1;
    }
    proof {
        assert(digits.take(i - from) == digits);
    }
    Some(acc)
}

/// Reads `s` as an unsigned integer of at most `limit`.
pub fn read_unsigned(v: &Vec<char>, limit: u64) -> (value: Option<u64>)
    ensures
        value is Some <==> parse_unsigned(v@, limit as nat) is Some,
        value is Some ==> value->0 == parse_unsigned(v@, limit as nat)->0,
{
    if v.len() > 0 && v[0] == '+' {
        read_digits(v, 1, limit)
    } else {
        proof {
            assert(v@.skip(0) == v@);
        }
        read_digits(v, 0, limit)
    }
}

/// Reads `s` as a signed 64-bit integer.
pub fn read_i64(v: &Vec<char>) -> (value: Option<i64>)
    ensures
        value is Some <==> parse_signed(v@, i64::MIN as int, i64::MAX as int) is Some,
        value is Some ==> value->0 == parse_signed(v@, i64::MIN as int, i64::MAX as int)->0,
{
    if v.len() > 0 && v[0] == '-' {
        match read_digits(v, 1, 0x8000_0000_0000_0000) {
            None => None,
            Some(magnitude) => {
                if magnitude == 0x8000_0000_0000_0000 {
                    Some(i64::MIN)
                } else {
                    Some(-(magnitude as i64))
                }
            },
        }
    } else {
        match read_unsigned(v, 0x7fff_ffff_ffff_ffff) {
            None => None,
            Some(magnitude) => Some(magnitude as i64),
        }
    }
}

/// Appends the digits of `n` to `out`.
pub fn push_decimal(out: &mut Vec<char>, n: u64)
    ensures
        final(out)@ == old(out)@ + decimal_text(n as nat),
    decreases n,
{
    if n >= 10 {
        push_decimal(out, n / 10);
    }
    let d: u8 = (n % 10) as u8;
    out.push((48u8 + d) as char);
    proof {
        assert(out@ =~= old(out)@ + decimal_text(n as nat));
    }
}

/// The text of `n`.
pub fn write_i64(n: i64) -> (v: Vec<char>)
    ensures
        v@ == integer_text(n as int),
{
    let mut v: Vec<char> = Vec::new();
    if n < 0 {
        v.push('-');
        let magnitude: u64 = if n == i64::MIN {
            0x8000_0000_0000_0000
        } else {
            (-n) as u64
        };
        push_decimal(&mut v, magnitude);
    } else {
        push_decimal(&mut v, n as u64);
    }
    v
}

/// The text of `n`.
pub fn write_u64(n: u64) -> (v: Vec<char>)
    ensures
        v@ == integer_text(n as int),
{
    let mut v: Vec<char> = Vec::new();
    push_decimal(&mut v, n);
    v
}

// ---------------------------------------------------------------------------
// Float literals
// ---------------------------------------------------------------------------

/// Whether `c` is a plus or a minus sign.
pub open spec fn is_sign(c: char) -> bool {
    c == '+' || c == '-'
}

/// `s` without one leading sign.
pub open spec fn without_sign(s: Seq<char>) -> Seq<char> {
    if s.len() > 0 && is_sign(s[0]) {
        s.skip(1)
    } else {
        s
    }
}

/// Whether `c` is the lower-case ASCII letter `letter` or its upper-case form.
pub open spec fn same_letter(c: char, letter: char) -> bool {
    c as u32 == letter as u32 || c as u32 + 32 == letter as u32
}

/// Whether `s` spells `word`, a word of lower-case ASCII letters, in any mix
/// of cases.
pub open spec fn spells(s: Seq<char>, word: Seq<char>) -> bool {
    s.len() == word.len() && forall|i: int|
        0 <= i < s.len() ==> same_letter(#[trigger] s[i], word[i])
}

/// The word `inf`.
pub open spec fn word_inf() -> Seq<char> {
    seq!['i', 'n', 'f']
}

/// The word `infinity`.
pub open spec fn word_infinity() -> Seq<char> {
    seq!['i', 'n', 'f', 'i', 'n', 'i', 't', 'y']
}

/// The word `nan`.
pub open spec fn word_nan() -> Seq<char> {
    seq!['n', 'a', 'n']
}

/// Whether `s` is an exponent: the letter `e`, an optional sign, and one
/// digit or more.
pub open spec fn is_exponent(s: Seq<char>) -> bool {
    s.len() > 0 && same_letter(s[0], 'e') && {
        let digits = without_sign(s.skip(1));
        digits.len() > 0 && all_digits(digits)
    }
}

/// Whether `s` is an unsigned decimal number: digits, optionally a point and
/// more digits, with one digit at least before or after the point, and
/// optionally an exponent.
pub open spec fn is_number(s: Seq<char>) -> bool {
    let whole = leading_digits(s);
    let after_whole = s.skip(whole as int);
    let has_point = after_whole.len() > 0 && after_whole[0] == '.';
    let fraction = if has_point {
        leading_digits(after_whole.skip(1))
    } else {
        0
    };
    let rest = if has_point {
        after_whole.skip(1 + fraction as int)
    } else {
        after_whole
    };
    whole + fraction >= 1 && (rest.len() == 0 || is_exponent(rest))
}

/// Whether `s` is the text of a 64-bit float: an optional sign, then `inf`,
/// `infinity` or `nan` in any mix of cases, or a decimal number.
pub open spec fn is_float_literal(s: Seq<char>) -> bool {
    let body = without_sign(s);
    spells(body, word_inf()) || spells(body, word_infinity()) || spells(body, word_nan())
        || is_number(body)
}

/// The digits that `s` starts with are digits, the character after them is
/// none, and there are no more of them than characters.
pub proof fn lemma_leading_digits(s: Seq<char>)
    ensures
        leading_digits(s) <= s.len(),
        forall|i: int| 0 <= i < leading_digits(s) ==> is_digit(#[trigger] s[i]),
        leading_digits(s) < s.len() ==> !is_digit(s[leading_digits(s) as int]),
        all_digits(s) <==> leading_digits(s) == s.len(),
    decreases s.len(),
{
    if s.len() > 0 && is_digit(s[0]) {
        let t = s.skip(1);
        lemma_leading_digits(t);
        assert forall|i: int| 0 <= i < leading_digits(s) implies is_digit(#[trigger] s[i]) by {
            if i > 0 {
                assert(s[i] == t[i - 1]);
            }
        }
        if leading_digits(s) < s.len() {
            assert(s[leading_digits(s) as int] == t[leading_digits(t) as int]);
        }
        if all_digits(s) {
            assert forall|i: int| 0 <= i < t.len() implies is_digit(#[trigger] t[i]) by {
                assert(t[i] == s[i + 1]);
            }
        }
    }
}

/// Every character of a float's text is an ASCII character.
pub proof fn lemma_float_literal_is_ascii(s: Seq<char>)
    requires
        is_float_literal(s),
    ensures
        forall|i: int| 0 <= i < s.len() ==> (#[trigger] s[i]) as u32 <= 127,
{
    let body = without_sign(s);
    assert forall|i: int| 0 <= i < body.len() implies (#[trigger] body[i]) as u32 <= 127 by {
        if spells(body, word_inf()) {
            assert(same_letter(body[i], word_inf()[i]));
        } else if spells(body, word_infinity()) {
            assert(same_letter(body[i], word_infinity()[i]));
        } else if spells(body, word_nan()) {
            assert(same_letter(body[i], word_nan()[i]));
        } else {
            let whole = leading_digits(body);
            lemma_leading_digits(body);
            let after_whole = body.skip(whole as int);
            let has_point = after_whole.len() > 0 && after_whole[0] == '.';
            if i < whole {
                assert(is_digit(body[i]));
            } else if has_point {
                let tail = after_whole.skip(1);
                let fraction = leading_digits(tail);
                lemma_leading_digits(tail);
                let rest = after_whole.skip(1 + fraction as int);
                if i == whole {
                    assert(body[i] == after_whole[0]);
                } else if i < whole + 1 + fraction {
                    assert(body[i] == tail[i - whole - 1]);
                    assert(is_digit(tail[i - whole - 1]));
                } else {
                    assert(body[i] == rest[i - whole - 1 - fraction]);
                    lemma_exponent_is_ascii(rest, i - whole - 1 - fraction);
                }
            } else {
                assert(body[i] == after_whole[i - whole]);
                lemma_exponent_is_ascii(after_whole, i - whole);
            }
        }
    }
    assert forall|i: int| 0 <= i < s.len() implies (#[trigger] s[i]) as u32 <= 127 by {
        if s.len() > 0 && is_sign(s[0]) {
            if i > 0 {
                assert(s[i] == body[i - 1]);
            }
        }
    }
}

/// Every character of an exponent is an ASCII character.
proof fn lemma_exponent_is_ascii(s: Seq<char>, i: int)
    requires
        is_exponent(s),
        0 <= i < s.len(),
    ensures
        s[i] as u32 <= 127,
{
    let tail = s.skip(1);
    let digits = without_sign(tail);
    if i > 0 {
        assert(s[i] == tail[i - 1]);
        if tail.len() > 0 && is_sign(tail[0]) {
            if i > 1 {
                assert(tail[i - 1] == digits[i - 2]);
                assert(is_digit(digits[i - 2]));
            }
        } else {
            assert(is_digit(digits[i - 1]));
        }
    }
}

/// The number of digits from `v[from]` on.
fn count_digits(v: &Vec<char>, from: usize) -> (n: usize)
    requires
        from <= v.len(),
    ensures
        n == leading_digits(v@.skip(from as int)),
        from + n <= v.len(),
{
    let mut j: usize = from;
    while j < v.len() && digit_value_of(v[j]).is_some()
        invariant
            from <= j <= v.len(),
            leading_digits(v@.skip(from as int)) == (j - from) + leading_digits(
                v@.skip(j as int),
            ),
        decreases v.len() - j,
    {
        proof {
            assert(v@.skip(j as int)[0] == v@[j as int]);
            assert(v@.skip(j as int).skip(1) == v@.skip(j + 1));
        }
        j += 1;
    }
    proof {
        if j < v.len() {
            assert(v@.skip(j as int)[0] == v@[j as int]);
        }
    }
    j - from
}

/// Whether `v[from..]` spells `word`.
fn spells_word(v: &Vec<char>, from: usize, word: &Vec<char>) -> (b: bool)
    requires
        from <= v.len(),
    ensures
        b == spells(v@.skip(from as int), word@),
{
    if v.len() - from != word.len() {
        return false;
    }
    let ghost s = v@.skip(from as int);
    let mut i: usize = 0;
    while i < word.len()
        invariant
            from <= v.len(),
            v.len() - from == word.len(),
            i <= word.len(),
            s == v@.skip(from as int),
            forall|k: int| 0 <= k < i ==> same_letter(#[trigger] s[k], word[k]),
        decreases word.len() - i,
    {
        let c = v[from + i];
        let l = word[i];
        proof {
            assert(s[i as int] == c);
        }
        let code: u32 = c as u32;
        let letter: u32 = l as u32;
        if !(code == letter || (letter >= 32 && code == letter - 32)) {
            return false;
        }
        i += 1;
    }
    true
}

/// Whether `v[from..]` is an exponent.
fn is_exponent_at(v: &Vec<char>, from: usize) -> (b: bool)
    requires
        from < v.len(),
    ensures
        b == is_exponent(v@.skip(from as int)),
{
    let ghost s = v@.skip(from as int);
    let ghost tail = s.skip(1);
    proof {
        assert(s[0] == v@[from as int]);
        assert(tail == v@.skip(from + 1));
    }
    let first: char = v[from];
    let code: u32 = first as u32;
    proof {
        assert('e' as u32 == 101);
        assert(s[0] == first);
    }
    if !(code == 101 || code == 69) {
        return false;
    }
    let mut start: usize = from + 1;
    if start < v.len() && (v[start] == '+' || v[start] == '-') {
        proof {
            assert(tail[0] == v@[start as int]);
            assert(tail.skip(1) == v@.skip(start + 1));
        }
        start += 1;
    } else {
        proof {
            if start < v.len() {
                assert(tail[0] == v@[start as int]);
            }
        }
    }
    let digits = count_digits(v, start);
    proof {
        assert(same_letter(s[0], 'e'));
        assert(without_sign(tail) == v@.skip(start as int));
        lemma_leading_digits(v@.skip(start as int));
    }
    digits > 0 && start + digits == v.len()
}

/// Whether `v` is the text of a 64-bit float.
pub fn is_float_text(v: &Vec<char>) -> (b: bool)
    ensures
        b == is_float_literal(v@),
{
    let mut start: usize = 0;
    if v.len() > 0 && (v[0] == '+' || v[0] == '-') {
        start = 1;
    }
    let ghost body = v@.skip(start as int);
    proof {
        assert(v@.skip(0) == v@);
        assert(body == without_sign(v@));
    }
    let inf = vec!['i', 'n', 'f'];
    let infinity = vec!['i', 'n', 'f', 'i', 'n', 'i', 't', 'y'];
    let nan = vec!['n', 'a', 'n'];
    proof {
        assert(inf@ == word_inf());
        assert(infinity@ == word_infinity());
        assert(nan@ == word_nan());
    }
    if spells_word(v, start, &inf) || spells_word(v, start, &infinity) || spells_word(
        v,
        start,
        &nan,
    ) {
        return true;
    }
    let whole = count_digits(v, start);
    let mut at: usize = start + whole;
    let ghost after_whole = body.skip(whole as int);
    proof {
        assert(after_whole == v@.skip(at as int));
    }
    let mut fraction: usize = 0;
    if at < v.len() && v[at] == '.' {
        proof {
            assert(after_whole[0] == v@[at as int]);
            assert(after_whole.skip(1) == v@.skip(at + 1));
        }
        fraction = count_digits(v, at + 1);
        proof {
            assert(after_whole.skip(1 + fraction) == v@.skip(at + 1 + fraction));
        }
        at = at + 1 + fraction;
    } else {
        proof {
            if at < v.len() {
                assert(after_whole[0] == v@[at as int]);
            }
        }
    }
    if whole + fraction == 0 {
        return false;
    }
    if at == v.len() {
        return true;
    }
    is_exponent_at(v, at)
}

// ---------------------------------------------------------------------------
// Splitting and joining
// ---------------------------------------------------------------------------

/// The index of the first `d` in `s`, or the length of `s` where it holds
/// none.
pub open spec fn first_index_of(s: Seq<char>, d: char) -> nat
    decreases s.len(),
{
    if s.len() == 0 || s[0] == d {
        0
    } else {
        1 + first_index_of(s.skip(1), d)
    }
}

/// The pieces of `s` between the occurrences of `d`: one more than there are
/// occurrences, none of which holds `d`.
pub open spec fn split(s: Seq<char>, d: char) -> Seq<Seq<char>>
    decreases s.len(),
{
    let i = first_index_of(s, d);
    if i >= s.len() {
        seq![s]
    } else {
        seq![s.take(i as int)] + split(s.skip(i as int + 1), d)
    }
}

/// The pieces `parts` with `d` between each two neighbours.
pub open spec fn join(parts: Seq<Seq<char>>, d: char) -> Seq<char>
    decreases parts.len(),
{
    if parts.len() == 0 {
        Seq::empty()
    } else if parts.len() == 1 {
        parts[0]
    } else {
        parts[0] + seq![d] + join(parts.drop_first(), d)
    }
}

/// Where the first `d` stands: nothing before it is `d`, and it is `d`.
pub proof fn lemma_first_index_of(s: Seq<char>, d: char)
    ensures
        first_index_of(s, d) <= s.len(),
        forall|k: int| 0 <= k < first_index_of(s, d) ==> #[trigger] s[k] != d,
        first_index_of(s, d) < s.len() ==> s[first_index_of(s, d) as int] == d,
        !s.contains(d) <==> first_index_of(s, d) == s.len(),
    decreases s.len(),
{
    if s.len() == 0 || s[0] == d {
    } else {
        let t = s.skip(1);
        lemma_first_index_of(t, d);
        assert forall|k: int| 0 <= k < first_index_of(s, d) implies #[trigger] s[k] != d by {
            if k > 0 {
                assert(s[k] == t[k - 1]);
            }
        }
        if first_index_of(s, d) < s.len() {
            assert(s[first_index_of(s, d) as int] == t[first_index_of(t, d) as int]);
        }
        if t.contains(d) {
            let k = choose|k: int| 0 <= k < t.len() && t[k] == d;
            assert(s[k + 1] == d);
        }
        if s.contains(d) {
            let k = choose|k: int| 0 <= k < s.len() && s[k] == d;
            assert(t[k - 1] == d);
        }
    }
}

/// The first `d` of a text that starts with a piece free of `d`, followed by
/// `d`, stands right after that piece.
pub proof fn lemma_first_index_after_piece(head: Seq<char>, d: char, tail: Seq<char>)
    requires
        !head.contains(d),
    ensures
        first_index_of(head + seq![d] + tail, d) == head.len(),
        first_index_of(head, d) == head.len(),
    decreases head.len(),
{
    let s = head + seq![d] + tail;
    if head.len() == 0 {
        assert(s[0] == d);
    } else {
        assert(head[0] != d);
        assert(s[0] == head[0]);
        let rest = head.skip(1);
        assert forall|k: int| 0 <= k < rest.len() implies rest[k] != d by {
            assert(rest[k] == head[k + 1]);
        }
        lemma_first_index_after_piece(rest, d, tail);
        assert(s.skip(1) == rest + seq![d] + tail);
    }
}

/// Splitting what was joined gives the pieces back, where there is a piece and
/// none of them holds the delimiter.
pub proof fn lemma_split_join(parts: Seq<Seq<char>>, d: char)
    requires
        parts.len() >= 1,
        forall|i: int| 0 <= i < parts.len() ==> !(#[trigger] parts[i]).contains(d),
    ensures
        split(join(parts, d), d) == parts,
    decreases parts.len(),
{
    let s = join(parts, d);
    if parts.len() == 1 {
        lemma_first_index_after_piece(parts[0], d, Seq::empty());
        assert(split(s, d) == seq![s]);
        assert(seq![s] == parts);
    } else {
        let rest = parts.drop_first();
        let tail = join(rest, d);
        assert forall|i: int| 0 <= i < rest.len() implies !(#[trigger] rest[i]).contains(d) by {
            assert(rest[i] == parts[i + 1]);
        }
        lemma_split_join(rest, d);
        lemma_first_index_after_piece(parts[0], d, tail);
        let i = parts[0].len();
        assert(s.take(i as int) == parts[0]);
        assert(s.skip(i as int + 1) == tail);
        assert(split(s, d) == seq![parts[0]] + rest);
        assert(seq![parts[0]] + rest == parts);
    }
}

/// What splitting gives: one piece at least, none of which holds the
/// delimiter, and which joined give the text back.
pub proof fn lemma_split(s: Seq<char>, d: char)
    ensures
        split(s, d).len() >= 1,
        forall|i: int| 0 <= i < split(s, d).len() ==> !(#[trigger] split(s, d)[i]).contains(d),
        join(split(s, d), d) == s,
    decreases s.len(),
{
    lemma_first_index_of(s, d);
    let i = first_index_of(s, d) as int;
    let parts = split(s, d);
    if i >= s.len() {
        assert(parts == seq![s]);
    } else {
        let head = s.take(i);
        let rest = s.skip(i + 1);
        lemma_split(rest, d);
        let others = split(rest, d);
        assert(parts == seq![head] + others);
        assert forall|k: int| 0 <= k < head.len() implies head[k] != d by {
            assert(head[k] == s[k]);
        }
        assert forall|k: int| 0 <= k < parts.len() implies !(#[trigger] parts[k]).contains(d) by {
            if k > 0 {
                assert(parts[k] == others[k - 1]);
            }
        }
        assert(parts.drop_first() == others);
        assert(join(parts, d) == head + seq![d] + join(others, d));
        assert(head + seq![d] + rest == s);
    }
}

/// The pieces of `v` between the occurrences of `d`.
pub fn split_on(v: &Vec<char>, d: char) -> (parts: Vec<Vec<char>>)
    ensures
        parts.len() == split(v@, d).len(),
        forall|i: int| 0 <= i < parts.len() ==> (#[trigger] parts[i])@ == split(v@, d)[i],
{
    let mut parts: Vec<Vec<char>> = Vec::new();
    let mut piece: Vec<char> = Vec::new();
    let ghost mut done: Seq<Seq<char>> = Seq::empty();
    let ghost mut start: int = 0;
    let mut i: usize = 0;
    proof {
        assert(v@.skip(0) == v@);
    }
    while i < v.len()
        invariant
            0 <= start <= i <= v.len(),
            piece@ == v@.subrange(start, i as int),
            !piece@.contains(d),
            parts.len() == done.len(),
            forall|k: int| 0 <= k < parts.len() ==> (#[trigger] parts[k])@ == done[k],
            split(v@, d) == done + split(v@.skip(start), d),
        decreases v.len() - i,
    {
        let c = v[i];
        if c == d {
            proof {
                let rest = v@.skip(start);
                let tail = v@.skip(i + 1);
                assert(rest == piece@ + seq![d] + tail);
                lemma_first_index_after_piece(piece@, d, tail);
                assert(rest.take(piece@.len() as int) == piece@);
                assert(rest.skip(piece@.len() as int + 1) == tail);
                assert(split(rest, d) == seq![piece@] + split(tail, d));
                assert(done + (seq![piece@] + split(tail, d)) == done.push(piece@) + split(
                    tail,
                    d,
                ));
                done = done.push(piece@);
                start = i + 1;
            }
            parts.push(piece);
            piece = Vec::new();
        } else {
            let ghost before = piece@;
            piece.push(c);
            proof {
                assert(piece@ == v@.subrange(start, i + 1));
                assert forall|k: int| 0 <= k < piece@.len() implies piece@[k] != d by {
                    if k < before.len() {
                        assert(before.contains(before[k]));
                    }
                }
            }
        }
        i += 1;
    }
    proof {
        let rest = v@.skip(start);
        assert(rest == piece@);
        lemma_first_index_after_piece(piece@, d, Seq::empty());
        assert(split(rest, d) == seq![piece@]);
        assert(done + seq![piece@] == done.push(piece@));
    }
    parts.push(piece);
    parts
}

} // verus!
