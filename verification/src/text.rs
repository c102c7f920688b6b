//! Characters, strings and the decimal notation of integers.

use vstd::prelude::*;

verus! {

/// `String::push` of the standard library appends one character to the end
/// of the string and leaves the rest as it was.
pub assume_specification[ std::string::String::push ](s: &mut std::string::String, c: char)
    ensures
        final(s)@ == old(s)@.push(c),
;

/// The characters of `s`, in order.
pub fn chars_of(s: &str) -> (chars: Vec<char>)
    ensures
        chars@ == s@,
{
    let mut chars: Vec<char> = Vec::new();
    for c in it: s.chars()
        invariant
            chars@ == it.seq().take(it.index() as int),
            it.seq() == s@,
    {
        chars.push(c);
    }
    chars
}

/// The string made of `chars[from..to]`.
pub(crate) fn string_of(chars: &[char], from: usize, to: usize) -> (s: String)
    requires
        from <= to <= chars@.len(),
    ensures
        s@ == chars@.subrange(from as int, to as int),
{
    let mut s = String::new();
    let mut i: usize = from;
    while i < to
        invariant
            from <= i <= to <= chars@.len(),
            s@ == chars@.subrange(from as int, i as int),
        decreases to - i,
    {
        s.push(chars[i]);
        i += 1;
    }
    s
}

/// Appends `chars[from..to]` to `out`.
pub(crate) fn push_chars(out: &mut Vec<char>, chars: &[char], from: usize, to: usize)
    requires
        from <= to <= chars@.len(),
    ensures
        final(out)@ == old(out)@ + chars@.subrange(from as int, to as int),
{
    let mut i: usize = from;
    while i < to
        invariant
            from <= i <= to <= chars@.len(),
            out@ == old(out)@ + chars@.subrange(from as int, i as int),
        decreases to - i,
    {
        out.push(chars[i]);
        i += 1;
    }
}

/// Whether `chars[from..to]` spells `word`.
pub(crate) fn spells(chars: &[char], from: usize, to: usize, word: &[char]) -> (b: bool)
    requires
        from <= to <= chars@.len(),
    ensures
        b == (chars@.subrange(from as int, to as int) == word@),
{
    if to - from != word.len() {
        return false;
    }
    let mut i: usize = 0;
    while i < word.len()
        invariant
            from <= to <= chars@.len(),
            to - from == word@.len(),
            i <= word@.len(),
            forall|j: int| 0 <= j < i ==> chars@[from + j] == word@[j],
        decreases word@.len() - i,
    {
        if chars[from + i] != word[i] {
            assert(chars@.subrange(from as int, to as int)[i as int] != word@[i as int]);
            return false;
        }
        i += 1;
    }
    assert(chars@.subrange(from as int, to as int) =~= word@);
    true
}


/// Whether `c` is one of the ten decimal digits.
pub open spec fn is_digit(c: char) -> bool {
    '0' <= c <= '9'
}

/// The number that the digit `c` stands for.
pub open spec fn digit_value(c: char) -> int {
    c as int - '0' as int
}

/// The digit that stands for `d`, for `d` below ten.
pub open spec fn digit_char(d: int) -> char {
    (d + '0' as int) as char
}

/// Whether `s` holds decimal digits only.
pub open spec fn all_digits(s: Seq<char>) -> bool {
    forall|i: int| 0 <= i < s.len() ==> is_digit(#[trigger] s[i])
}

/// The number written by the digits of `s`, most significant first.
pub open spec fn decimal_value(s: Seq<char>) -> int
    decreases s.len(),
{
    if s.len() == 0 {
        0
    } else {
        decimal_value(s.drop_last()) * 10 + digit_value(s.last())
    }
}

/// The number that `s` writes as an integer literal: an optional sign, then
/// one digit or more and nothing else. `None` where `s` is no such literal.
pub open spec fn integer_literal(s: Seq<char>) -> Option<int> {
    if s.len() > 0 && s[0] == '-' {
        if s.len() > 1 && all_digits(s.skip(1)) {
            Some(-decimal_value(s.skip(1)))
        } else {
            None
        }
    } else if s.len() > 0 && s[0] == '+' {
        if s.len() > 1 && all_digits(s.skip(1)) {
            Some(decimal_value(s.skip(1)))
        } else {
            None
        }
    } else if s.len() > 0 && all_digits(s) {
        Some(decimal_value(s))
    } else {
        None
    }
}

/// The 64-bit signed integer that `s` writes, `None` where `s` is no integer
/// literal or writes a number outside the type's range.
pub open spec fn signed_literal(s: Seq<char>) -> Option<i64> {
    match integer_literal(s) {
        Some(v) => if i64::MIN <= v <= i64::MAX {
            Some(v as i64)
        } else {
            None
        },
        None => None,
    }
}

/// The digits of `n`, most significant first, without leading zeros.
pub open spec fn digits_of(n: nat) -> Seq<char>
    decreases n,
{
    if n < 10 {
        seq![digit_char(n as int)]
    } else {
        digits_of(n / 10).push(digit_char((n % 10) as int))
    }
}

/// The decimal text of `v`: a minus sign where `v` is negative, then its
/// digits.
pub open spec fn decimal_text(v: int) -> Seq<char> {
    if v < 0 {
        seq!['-'] + digits_of((-v) as nat)
    } else {
        digits_of(v as nat)
    }
}

/// A longer run of digits writes a number that is at least as large as the
/// number written by any of its prefixes.
pub proof fn lemma_decimal_value_grows(s: Seq<char>, n: int)
    requires
        all_digits(s),
        0 <= n <= s.len(),
    ensures
        0 <= decimal_value(s.take(n)) <= decimal_value(s),
    decreases s.len() - n,
{
    if n == s.len() {
        assert(s.take(n) =~= s);
        lemma_decimal_value_nonnegative(s);
    } else {
        lemma_decimal_value_grows(s, n + 1);
        let t = s.take(n + 1);
        assert(t.drop_last() =~= s.take(n));
        assert(is_digit(t.last()));
        assert(all_digits(s.take(n))) by {
            assert forall|i: int| 0 <= i < s.take(n).len() implies is_digit(
                #[trigger] s.take(n)[i],
            ) by {
                assert(s.take(n)[i] == s[i]);
            }
        }
        lemma_decimal_value_nonnegative(s.take(n));
    }
}

/// A run of digits writes no negative number.
pub proof fn lemma_decimal_value_nonnegative(s: Seq<char>)
    requires
        all_digits(s),
    ensures
        0 <= decimal_value(s),
    decreases s.len(),
{
    if s.len() > 0 {
        assert(all_digits(s.drop_last())) by {
            assert forall|i: int| 0 <= i < s.drop_last().len() implies is_digit(
                #[trigger] s.drop_last()[i],
            ) by {
                assert(s.drop_last()[i] == s[i]);
            }
        }
        lemma_decimal_value_nonnegative(s.drop_last());
        assert(is_digit(s.last()));
    }
}

/// The digits of a number are digits, begin with no sign, and write that
/// number.
pub proof fn lemma_digits_of(n: nat)
    ensures
        digits_of(n).len() > 0,
        all_digits(digits_of(n)),
        decimal_value(digits_of(n)) == n,
    decreases n,
{
    if n < 10 {
        let s = digits_of(n);
        assert(s.drop_last() =~= Seq::<char>::empty());
        assert(decimal_value(s.drop_last()) == 0);
    } else {
        lemma_digits_of(n / 10);
        let s = digits_of(n);
        assert(s.drop_last() =~= digits_of(n / 10));
        assert forall|i: int| 0 <= i < s.len() implies is_digit(#[trigger] s[i]) by {
            if i < s.len() - 1 {
                assert(s[i] == digits_of(n / 10)[i]);
            }
        }
    }
}

/// Reading the decimal text of an integer gives that integer back.
pub proof fn lemma_decimal_text_reads_back(v: int)
    ensures
        integer_literal(decimal_text(v)) == Some(v),
{
    if v < 0 {
        let d = digits_of((-v) as nat);
        lemma_digits_of((-v) as nat);
        let s = decimal_text(v);
        assert(s.skip(1) =~= d);
    } else {
        lemma_digits_of(v as nat);
    }
}


/// Whether `c` is a decimal digit.
pub fn digit(c: char) -> (b: bool)
    ensures
        b == is_digit(c),
{
    '0' <= c && c <= '9'
}

/// The end of the run of digits that starts at `from`.
pub open spec fn digits_end(s: Seq<char>, from: int) -> int
    decreases s.len() - from,
{
    if 0 <= from < s.len() && is_digit(s[from]) {
        digits_end(s, from + 1)
    } else {
        from
    }
}

/// The run of digits that starts at `from` ends at `to`, where `to` is at or
/// past `from`, all between them are digits and the one at `to`, if any, is
/// none.
pub proof fn lemma_digits_end(s: Seq<char>, from: int, to: int)
    requires
        0 <= from <= to <= s.len(),
        forall|i: int| from <= i < to ==> is_digit(#[trigger] s[i]),
        to < s.len() ==> !is_digit(s[to]),
    ensures
        digits_end(s, from) == to,
    decreases to - from,
{
    if from < to {
        lemma_digits_end(s, from + 1, to);
    }
}

/// Finds the end of the run of digits that starts at `from`.
pub(crate) fn scan_digits(chars: &[char], from: usize) -> (to: usize)
    requires
        from <= chars@.len(),
    ensures
        to == digits_end(chars@, from as int),
        from <= to <= chars@.len(),
        forall|i: int| from <= i < to ==> is_digit(#[trigger] chars@[i]),
        to < chars@.len() ==> !is_digit(chars@[to as int]),
{
    let mut to: usize = from;
    while to < chars.len() && digit(chars[to])
        invariant
            from <= to <= chars@.len(),
            forall|i: int| from <= i < to ==> is_digit(#[trigger] chars@[i]),
        decreases chars@.len() - to,
    {
        to += 1;
    }
    proof {
        lemma_digits_end(chars@, from as int, to as int);
    }
    to
}

/// Reads `chars` as a 64-bit signed integer in decimal notation.
pub fn parse_signed(chars: &[char]) -> (r: Option<i64>)
    ensures
        r == signed_literal(chars@),
{
    let n = chars.len();
    if n == 0 {
        return None;
    }
    let negative = chars[0] == '-';
    let start: usize = if negative || chars[0] == '+' {
        1
    } else {
        0
    };
    if start == n {
        return None;
    }
    let ghost body = chars@.skip(start as int);
    let mut acc: i128 = 0;
    let mut i: usize = start;
    while i < n
        invariant
            start <= i <= n == chars@.len(),
            start < n,
            negative == (chars@[0] == '-'),
            start == if chars@[0] == '-' || chars@[0] == '+' {
                1usize
            } else {
                0usize
            },
            body == chars@.skip(start as int),
            forall|j: int| 0 <= j < i - start ==> is_digit(#[trigger] body[j]),
            acc == decimal_value(body.take(i - start)),
            0 <= acc <= 0x8000_0000_0000_0000,
        decreases n - i,
    {
        let c = chars[i];
        assert(c == body[i - start]);
        if !digit(c) {
            assert(start == 0 ==> body =~= chars@);
            return None;
        }
        let d: i128 = (c as u32 - '0' as u32) as i128;
        assert(d == digit_value(c));
        proof {
            let t = body.take(i - start + 1);
            assert(t.drop_last() =~= body.take(i - start));
            assert(t.last() == c);
        }
        acc = acc * 10 + d;
        i += 1;
        if acc > 0x8000_0000_0000_0000 {
            proof {
                assert(start == 0 ==> body =~= chars@);
                if all_digits(body) {
                    lemma_decimal_value_grows(body, i - start);
                }
            }
            return None;
        }
    }
    assert(body.take(n - start) =~= body);
    assert(all_digits(body));
    assert(start == 0 ==> body =~= chars@);
    if negative {
        Some((-acc) as i64)
    } else if acc == 0x8000_0000_0000_0000 {
        None
    } else {
        Some(acc as i64)
    }
}

/// Writes `n` in decimal notation.
pub fn write_unsigned(n: u64) -> (chars: Vec<char>)
    ensures
        chars@ == digits_of(n as nat),
{
    let mut rest: u64 = n;
    let ghost magnitude: nat = rest as nat;
    // The digits come out least significant first.
    let mut low_first: Vec<char> = Vec::new();
    low_first.push(digit_of((rest % 10) as u8));
    rest = rest / 10;
    while rest > 0
        invariant
            low_first@.len() > 0,
            rest > 0 ==> digits_of(magnitude) == digits_of(rest as nat) + low_first@.reverse(),
            rest == 0 ==> digits_of(magnitude) == low_first@.reverse(),
        decreases rest,
    {
        let ghost before = low_first@;
        let ghost r0 = rest;
        low_first.push(digit_of((rest % 10) as u8));
        rest = rest / 10;
        proof {
            assert(low_first@.reverse() =~= seq![digit_char((r0 % 10) as int)] + before.reverse());
            if rest > 0 {
                assert(digits_of(r0 as nat) == digits_of(rest as nat).push(
                    digit_char((r0 % 10) as int),
                ));
                assert(digits_of(magnitude) =~= digits_of(rest as nat) + low_first@.reverse());
            } else {
                assert(digits_of(r0 as nat) == seq![digit_char(r0 as int)]);
                assert(digits_of(magnitude) =~= low_first@.reverse());
            }
        }
    }
    let mut chars: Vec<char> = Vec::new();
    let mut k: usize = low_first.len();
    while k > 0
        invariant
            k <= low_first@.len(),
            chars@ == low_first@.reverse().take(low_first@.len() - k),
        decreases k,
    {
        k -= 1;
        chars.push(low_first[k]);
        assert(low_first@.reverse()[low_first@.len() - 1 - k] == low_first@[k as int]);
        assert(chars@ =~= low_first@.reverse().take(low_first@.len() - k));
    }
    assert(low_first@.reverse().take(low_first@.len() as int) =~= low_first@.reverse());
    chars
}

/// Writes `v` in decimal notation.
pub fn write_signed(v: i64) -> (chars: Vec<char>)
    ensures
        chars@ == decimal_text(v as int),
{
    if v < 0 {
        let digits = write_unsigned((-(v as i128)) as u64);
        let mut chars: Vec<char> = Vec::new();
        chars.push('-');
        push_chars(&mut chars, digits.as_slice(), 0, digits.len());
        assert(digits@.subrange(0, digits@.len() as int) =~= digits@);
        chars
    } else {
        write_unsigned(v as u64)
    }
}

/// The digit that stands for `d`.
fn digit_of(d: u8) -> (c: char)
    requires
        d < 10,
    ensures
        c == digit_char(d as int),
{
    (d + 48) as char
}

/// The small letter for a capital letter of the Latin alphabet; any other
/// character itself.
pub open spec fn lower(c: char) -> char {
    if 'A' <= c <= 'Z' {
        (c as int + 32) as char
    } else {
        c
    }
}

/// Whether what follows the first `from` characters of `s` spells `word`
/// when capitals count as small letters.
pub open spec fn word_at(s: Seq<char>, from: int, word: Seq<char>) -> bool {
    &&& s.len() - from == word.len()
    &&& forall|i: int| 0 <= i < word.len() ==> lower(#[trigger] s[from + i]) == word[i]
}

/// Whether an exponent follows the first `from` characters of `s` and ends
/// it: the letter `e`, an optional sign, then one digit or more.
pub open spec fn exponent_at(s: Seq<char>, from: int) -> bool {
    &&& 0 <= from < s.len()
    &&& lower(s[from]) == 'e'
    &&& {
        let digits = if from + 1 < s.len() && (s[from + 1] == '+' || s[from + 1] == '-') {
            from + 2
        } else {
            from + 1
        };
        digits < s.len() && digits_end(s, digits) == s.len()
    }
}

/// Whether an unsigned decimal number follows the first `from` characters
/// of `s` and ends it: digits with at most one point among them, at least
/// one digit, and an optional exponent after them.
pub open spec fn number_at(s: Seq<char>, from: int) -> bool {
    let whole_end = digits_end(s, from);
    let fraction_start = if whole_end < s.len() && s[whole_end] == '.' {
        whole_end + 1
    } else {
        whole_end
    };
    let fraction_end = digits_end(s, fraction_start);
    &&& (whole_end - from) + (fraction_end - fraction_start) > 0
    &&& fraction_end == s.len() || exponent_at(s, fraction_end)
}

/// Whether `s` writes a floating-point number: an optional sign, then a
/// decimal number, `inf`, `infinity` or `nan`, the words in any mix of
/// capitals and small letters.
pub open spec fn float_literal(s: Seq<char>) -> bool {
    let from: int = if s.len() > 0 && (s[0] == '+' || s[0] == '-') {
        1
    } else {
        0
    };
    ||| number_at(s, from)
    ||| word_at(s, from, seq!['i', 'n', 'f'])
    ||| word_at(s, from, seq!['n', 'a', 'n'])
    ||| word_at(s, from, seq!['i', 'n', 'f', 'i', 'n', 'i', 't', 'y'])
}

/// The small letter for `c`.
pub fn to_lower(c: char) -> (l: char)
    ensures
        l == lower(c),
{
    if 'A' <= c && c <= 'Z' {
        ((c as u8) + 32) as char
    } else {
        c
    }
}

/// Whether `chars[from..]` spells `word` when capitals count as small
/// letters.
fn spells_word(chars: &[char], from: usize, word: &[char]) -> (b: bool)
    requires
        from <= chars@.len(),
    ensures
        b == word_at(chars@, from as int, word@),
{
    let n = chars.len();
    if n - from != word.len() {
        return false;
    }
    let mut i: usize = 0;
    while i < word.len()
        invariant
            from + word@.len() == chars@.len() == n,
            i <= word@.len(),
            forall|j: int| 0 <= j < i ==> lower(#[trigger] chars@[from + j]) == word@[j],
        decreases word@.len() - i,
    {
        if to_lower(chars[from + i]) != word[i] {
            return false;
        }
        i += 1;
    }
    true
}

/// Whether an exponent follows `chars[..from]` and ends `chars`.
fn is_exponent(chars: &[char], from: usize) -> (b: bool)
    requires
        from <= chars@.len(),
    ensures
        b == exponent_at(chars@, from as int),
{
    let n = chars.len();
    if from >= n || to_lower(chars[from]) != 'e' {
        return false;
    }
    let digits: usize = if from + 1 < n && (chars[from + 1] == '+' || chars[from + 1] == '-') {
        from + 2
    } else {
        from + 1
    };
    digits < n && scan_digits(chars, digits) == n
}

/// Whether an unsigned decimal number follows `chars[..from]` and ends
/// `chars`.
fn is_number(chars: &[char], from: usize) -> (b: bool)
    requires
        from <= chars@.len(),
    ensures
        b == number_at(chars@, from as int),
{
    let n = chars.len();
    let whole_end = scan_digits(chars, from);
    let fraction_start: usize = if whole_end < n && chars[whole_end] == '.' {
        whole_end + 1
    } else {
        whole_end
    };
    let fraction_end = scan_digits(chars, fraction_start);
    if (whole_end - from) + (fraction_end - fraction_start) == 0 {
        return false;
    }
    fraction_end == n || is_exponent(chars, fraction_end)
}

/// Whether `chars` writes a floating-point number.
pub fn is_float(chars: &[char]) -> (b: bool)
    ensures
        b == float_literal(chars@),
{
    let n = chars.len();
    let from: usize = if n > 0 && (chars[0] == '+' || chars[0] == '-') {
        1
    } else {
        0
    };
    let inf = ['i', 'n', 'f'];
    let nan = ['n', 'a', 'n'];
    let infinity = ['i', 'n', 'f', 'i', 'n', 'i', 't', 'y'];
    assert(inf@ =~= seq!['i', 'n', 'f']);
    assert(nan@ =~= seq!['n', 'a', 'n']);
    assert(infinity@ =~= seq!['i', 'n', 'f', 'i', 'n', 'i', 't', 'y']);
    is_number(chars, from) || spells_word(chars, from, inf.as_slice()) || spells_word(
        chars,
        from,
        nan.as_slice(),
    ) || spells_word(chars, from, infinity.as_slice())
}

} // verus!
