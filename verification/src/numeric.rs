//! Reading numbers: digits in a radix, signs, digit separators and radix
//! prefixes.

use vstd::prelude::*;

verus! {

/// `char::from_u32` of std: the character with code point `i`, where `i` is
/// a Unicode scalar value (not above 0x10FFFF and no surrogate); nothing
/// otherwise.
pub assume_specification[ char::from_u32 ](i: u32) -> (r: Option<char>)
    ensures
        r == spec_char_from_u32(i),
;

/// Whether `i` is the code point of a character.
pub open spec fn is_scalar_value(i: int) -> bool {
    0 <= i <= 0xD7FF || 0xE000 <= i <= 0x10FFFF
}

/// The character with code point `i`, if there is one.
pub open spec fn spec_char_from_u32(i: u32) -> Option<char> {
    if is_scalar_value(i as int) {
        Some(i as char)
    } else {
        None
    }
}

/// The value of `c` as a digit: `0`-`9`, then `a`-`z` or `A`-`Z` for ten to
/// thirty-five.
pub open spec fn spec_digit_value(c: char) -> Option<int> {
    if '0' <= c && c <= '9' {
        Some(c as int - '0' as int)
    } else if 'a' <= c && c <= 'z' {
        Some(c as int - 'a' as int + 10)
    } else if 'A' <= c && c <= 'Z' {
        Some(c as int - 'A' as int + 10)
    } else {
        None
    }
}

/// The value of `c` as a digit in `radix`, if it is one.
pub open spec fn spec_digit_in(c: char, radix: int) -> Option<int> {
    match spec_digit_value(c) {
        Some(d) => if d < radix {
            Some(d)
        } else {
            None
        },
        None => None,
    }
}

/// The number that the digits `s` write in `radix`; zero for no digits;
/// nothing where a character is no digit in `radix`.
pub open spec fn spec_digits_acc(s: Seq<char>, radix: int) -> Option<int>
    decreases s.len(),
{
    if s.len() == 0 {
        Some(0)
    } else {
        match (spec_digits_acc(s.drop_last(), radix), spec_digit_in(s.last(), radix)) {
            (Some(a), Some(d)) => Some(a * radix + d),
            _ => None,
        }
    }
}

/// The number that `s` writes in `radix`: at least one character, each a
/// digit in `radix`.
pub open spec fn spec_digits_value(s: Seq<char>, radix: int) -> Option<int> {
    if s.len() == 0 {
        None
    } else {
        spec_digits_acc(s, radix)
    }
}

/// The number that `s` writes in `radix`, behind an optional `+`, or a `-`
/// where `signed` allows one.
pub open spec fn spec_integer_value(s: Seq<char>, radix: int, signed: bool) -> Option<int> {
    if s.len() == 0 {
        None
    } else if s[0] == '+' {
        spec_digits_value(s.subrange(1, s.len() as int), radix)
    } else if s[0] == '-' && signed {
        match spec_digits_value(s.subrange(1, s.len() as int), radix) {
            Some(v) => Some(-v),
            None => None,
        }
    } else {
        spec_digits_value(s, radix)
    }
}

/// `s` without its underscores.
pub open spec fn strip_underscores(s: Seq<char>) -> Seq<char>
    decreases s.len(),
{
    if s.len() == 0 {
        Seq::empty()
    } else if s.last() == '_' {
        strip_underscores(s.drop_last())
    } else {
        strip_underscores(s.drop_last()).push(s.last())
    }
}

/// The radix that the first two characters of `s` announce: 2 for `0b`,
/// 8 for `0o`, 16 for `0x`, else 10.
pub open spec fn spec_radix_of(s: Seq<char>) -> int {
    if s.len() >= 2 && s[0] == '0' && s[1] == 'b' {
        2
    } else if s.len() >= 2 && s[0] == '0' && s[1] == 'o' {
        8
    } else if s.len() >= 2 && s[0] == '0' && s[1] == 'x' {
        16
    } else {
        10
    }
}

/// What comes of reading an integer literal.
pub enum IntegerReading {
    /// The literal writes this number, and the number fits.
    Value(int),
    /// The literal announces no radix and writes no number that fits.
    NoValue,
    /// The literal announces a radix and writes no number that fits.
    Malformed,
}

/// Reads `text` as an integer between `min` and `max`: underscores are
/// dropped, a prefix `0b`, `0o` or `0x` sets the radix and is dropped, and
/// the rest is read in that radix, with a sign where `signed` allows it.
pub open spec fn spec_read_integer(text: Seq<char>, signed: bool, min: int, max: int)
    -> IntegerReading {
    let s = strip_underscores(text);
    let radix = spec_radix_of(s);
    let digits = if radix == 10 {
        s
    } else {
        s.subrange(2, s.len() as int)
    };
    match spec_integer_value(digits, radix, signed) {
        Some(v) if min <= v <= max => IntegerReading::Value(v),
        _ => if radix == 10 {
            IntegerReading::NoValue
        } else {
            IntegerReading::Malformed
        },
    }
}

/// Reads `text` as a boolean: `true` or `false`, nothing else.
pub open spec fn spec_read_bool(text: Seq<char>) -> Option<bool> {
    if text == seq!['t', 'r', 'u', 'e'] {
        Some(true)
    } else if text == seq!['f', 'a', 'l', 's', 'e'] {
        Some(false)
    } else {
        None
    }
}

/// Whether `text` is one of `nan`, `+nan`, `-nan`.
pub open spec fn spec_is_nan(text: Seq<char>) -> bool {
    text == seq!['n', 'a', 'n'] || text == seq!['+', 'n', 'a', 'n'] || text == seq![
        '-',
        'n',
        'a',
        'n',
    ]
}

/// A prefix of digits that write a number is digits that write a number,
/// and no greater one.
pub proof fn lemma_digits_prefix(s: Seq<char>, radix: int, k: int)
    requires
        radix >= 1,
        0 <= k <= s.len(),
        spec_digits_acc(s, radix) is Some,
    ensures
        spec_digits_acc(s.take(k), radix) is Some,
        0 <= spec_digits_acc(s.take(k), radix)->0 <= spec_digits_acc(s, radix)->0,
    decreases s.len() - k,
{
    lemma_digits_nonnegative(s.take(k), radix);
    if k == s.len() {
        assert(s.take(k) =~= s);
    } else {
        assert(s.drop_last().take(k) =~= s.take(k));
        lemma_digits_prefix(s.drop_last(), radix, k);
        let a = spec_digits_acc(s.drop_last(), radix)->0;
        lemma_digits_nonnegative(s.drop_last(), radix);
        assert(a * radix >= a) by (nonlinear_arith)
            requires
                a >= 0,
                radix >= 1,
        ;
    }
}

/// Digits write no negative number.
pub proof fn lemma_digits_nonnegative(s: Seq<char>, radix: int)
    requires
        radix >= 1,
    ensures
        spec_digits_acc(s, radix) is Some ==> spec_digits_acc(s, radix)->0 >= 0,
    decreases s.len(),
{
    if s.len() > 0 {
        lemma_digits_nonnegative(s.drop_last(), radix);
        if spec_digits_acc(s, radix) is Some {
            let a = spec_digits_acc(s.drop_last(), radix)->0;
            assert(a * radix >= 0) by (nonlinear_arith)
                requires
                    a >= 0,
                    radix >= 1,
            ;
        }
    }
}

/// The value of `c` as a digit in `radix`, if it is one.
pub fn digit_in(c: char, radix: u32) -> (r: Option<u32>)
    ensures
        match spec_digit_in(c, radix as int) {
            Some(d) => r == Some(d as u32),
            None => r is None,
        },
{
    let n = c as u32;
    let d: u32 = if c >= '0' && c <= '9' {
        n - ('0' as u32)
    } else if c >= 'a' && c <= 'z' {
        n - ('a' as u32) + 10
    } else if c >= 'A' && c <= 'Z' {
        n - ('A' as u32) + 10
    } else {
        return None;
    };
    if d < radix {
        Some(d)
    } else {
        None
    }
}

/// Reads the characters of `chars` from position `from` on as digits in
/// `radix`, up to `limit`.
pub(crate) fn parse_digits(chars: &Vec<char>, from: usize, radix: u32, limit: u128) -> (r: Option<u128>)
    requires
        from <= chars.len(),
        radix >= 1,
    ensures
        match spec_digits_value(chars@.subrange(from as int, chars.len() as int), radix as int) {
            Some(v) => if v <= limit {
                r == Some(v as u128)
            } else {
                r is None
            },
            None => r is None,
        },
{
    if from == chars.len() {
        return None;
    }
    let ghost s = chars@.subrange(from as int, chars.len() as int);
    let mut acc: u128 = 0;
    let mut i: usize = from;
    while i < chars.len()
        invariant
            from <= i <= chars.len(),
            radix >= 1,
            s == chars@.subrange(from as int, chars.len() as int),
            spec_digits_acc(s.take(i - from), radix as int) == Some(acc as int),
            acc <= limit,
        decreases chars.len() - i,
    {
        let ghost shorter = s.take(i - from);
        let ghost longer = s.take(i - from + 1);
        proof {
            assert(longer.drop_last() =~= shorter);
            assert(longer.last() == chars@[i as int]);
            if spec_digits_acc(s, radix as int) is Some {
                lemma_digits_prefix(s, radix as int, i - from + 1);
            }
        }
        match digit_in(chars[i], radix) {
            None => {
                return None;
            },
            Some(d) => {
                let next = match acc.checked_mul(radix as u128) {
                    Some(m) => m.checked_add(d as u128),
                    None => None,
                };
                match next {
                    Some(n) => {
                        if n <= limit {
                            acc = n;
                        } else {
                            return None;
                        }
                    },
                    None => {
                        return None;
                    },
                }
            },
        }
        i += 1;
    }
    assert(s.take(chars.len() - from) =~= s);
    Some(acc)
}

/// A number as its sign and its size.
#[derive(Clone, Copy, Debug)]
pub struct SignedMagnitude {
    pub negative: bool,
    pub magnitude: u128,
}

impl SignedMagnitude {
    /// The number.
    pub open spec fn value(self) -> int {
        if self.negative {
            -(self.magnitude as int)
        } else {
            self.magnitude as int
        }
    }
}

/// Reads the characters of `chars` from position `from` on as an integer in
/// `radix`, not above `max` and not below `-below`; a `-` is taken only
/// where `signed`.
pub(crate) fn parse_integer(
    chars: &Vec<char>,
    from: usize,
    radix: u32,
    signed: bool,
    max: u128,
    below: u128,
) -> (r: Option<SignedMagnitude>)
    requires
        from <= chars.len(),
        radix >= 1,
    ensures
        match spec_integer_value(
            chars@.subrange(from as int, chars.len() as int),
            radix as int,
            signed,
        ) {
            Some(v) => if -below <= v <= max {
                r is Some && r->0.value() == v
            } else {
                r is None
            },
            None => r is None,
        },
{
    let ghost s = chars@.subrange(from as int, chars.len() as int);
    if from == chars.len() {
        return None;
    }
    proof {
        assert(s[0] == chars@[from as int]);
        assert(s.subrange(1, s.len() as int) =~= chars@.subrange(from + 1, chars.len() as int));
        lemma_digits_nonnegative(s, radix as int);
        lemma_digits_nonnegative(s.subrange(1, s.len() as int), radix as int);
    }
    let first = chars[from];
    if first == '+' {
        match parse_digits(chars, from + 1, radix, max) {
            Some(magnitude) => Some(SignedMagnitude { negative: false, magnitude }),
            None => None,
        }
    } else if first == '-' && signed {
        match parse_digits(chars, from + 1, radix, below) {
            Some(magnitude) => Some(SignedMagnitude { negative: true, magnitude }),
            None => None,
        }
    } else {
        match parse_digits(chars, from, radix, max) {
            Some(magnitude) => Some(SignedMagnitude { negative: false, magnitude }),
            None => None,
        }
    }
}

/// `chars` without its underscores.
pub fn without_underscores(chars: &Vec<char>) -> (r: Vec<char>)
    ensures
        r@ == strip_underscores(chars@),
{
    let mut r: Vec<char> = Vec::new();
    let mut i: usize = 0;
    while i < chars.len()
        invariant
            i <= chars.len(),
            r@ == strip_underscores(chars@.take(i as int)),
        decreases chars.len() - i,
    {
        proof {
            assert(chars@.take(i + 1).drop_last() =~= chars@.take(i as int));
        }
        if chars[i] != '_' {
            r.push(chars[i]);
        }
        i += 1;
    }
    assert(chars@.take(chars.len() as int) =~= chars@);
    r
}

/// The radix that the first two characters of `chars` announce.
pub fn radix_of(chars: &Vec<char>) -> (r: u32)
    ensures
        r == spec_radix_of(chars@),
        r == 2 || r == 8 || r == 10 || r == 16,
{
    if chars.len() >= 2 && chars[0] == '0' {
        if chars[1] == 'b' {
            2
        } else if chars[1] == 'o' {
            8
        } else if chars[1] == 'x' {
            16
        } else {
            10
        }
    } else {
        10
    }
}

/// What comes of reading an integer literal: see [`spec_read_integer`].
#[derive(Clone, Copy, Debug)]
pub enum IntegerLiteral {
    Value(SignedMagnitude),
    NoValue,
    Malformed,
}

/// Reads `chars` as an integer not above `max` and not below `-below`.
pub fn read_integer(chars: &Vec<char>, signed: bool, max: u128, below: u128) -> (r: IntegerLiteral)
    ensures
        match spec_read_integer(chars@, signed, -below, max as int) {
            IntegerReading::Value(v) => r matches IntegerLiteral::Value(m) && m.value() == v,
            IntegerReading::NoValue => r is NoValue,
            IntegerReading::Malformed => r is Malformed,
        },
{
    let s = without_underscores(chars);
    let radix = radix_of(&s);
    let from: usize = if radix == 10 {
        0
    } else {
        2
    };
    proof {
        if radix == 10 {
            assert(s@.subrange(0, s@.len() as int) =~= s@);
        }
    }
    match parse_integer(&s, from, radix, signed, max, below) {
        Some(m) => IntegerLiteral::Value(m),
        None => if radix == 10 {
            IntegerLiteral::NoValue
        } else {
            IntegerLiteral::Malformed
        },
    }
}

/// Reads `chars` as a boolean.
pub fn read_bool(chars: &Vec<char>) -> (r: Option<bool>)
    ensures
        r == spec_read_bool(chars@),
{
    if chars.len() == 4 && chars[0] == 't' && chars[1] == 'r' && chars[2] == 'u' && chars[3]
        == 'e' {
        assert(chars@ =~= seq!['t', 'r', 'u', 'e']);
        Some(true)
    } else if chars.len() == 5 && chars[0] == 'f' && chars[1] == 'a' && chars[2] == 'l'
        && chars[3] == 's' && chars[4] == 'e' {
        assert(chars@ =~= seq!['f', 'a', 'l', 's', 'e']);
        Some(false)
    } else {
        assert(chars@ == seq!['t', 'r', 'u', 'e'] ==> chars@.len() == 4 && chars@[0] == 't'
            && chars@[1] == 'r' && chars@[2] == 'u' && chars@[3] == 'e');
        assert(chars@ == seq!['f', 'a', 'l', 's', 'e'] ==> chars@.len() == 5 && chars@[0] == 'f'
            && chars@[1] == 'a' && chars@[2] == 'l' && chars@[3] == 's' && chars@[4] == 'e');
        None
    }
}

/// Whether `chars` is one of `nan`, `+nan`, `-nan`.
pub fn is_nan(chars: &Vec<char>) -> (r: bool)
    ensures
        r == spec_is_nan(chars@),
{
    let n = chars.len();
    if n == 3 {
        let r = chars[0] == 'n' && chars[1] == 'a' && chars[2] == 'n';
        proof {
            if r {
                assert(chars@ =~= seq!['n', 'a', 'n']);
            } else {
                assert(chars@ == seq!['n', 'a', 'n'] ==> chars@[0] == 'n' && chars@[1] == 'a'
                    && chars@[2] == 'n');
            }
            assert(seq!['+', 'n', 'a', 'n'].len() == 4);
            assert(seq!['-', 'n', 'a', 'n'].len() == 4);
        }
        r
    } else if n == 4 {
        let r = (chars[0] == '+' || chars[0] == '-') && chars[1] == 'n' && chars[2] == 'a'
            && chars[3] == 'n';
        proof {
            if r {
                if chars[0] == '+' {
                    assert(chars@ =~= seq!['+', 'n', 'a', 'n']);
                } else {
                    assert(chars@ =~= seq!['-', 'n', 'a', 'n']);
                }
            } else {
                assert(chars@ == seq!['+', 'n', 'a', 'n'] ==> chars@[0] == '+' && chars@[1] == 'n'
                    && chars@[2] == 'a' && chars@[3] == 'n');
                assert(chars@ == seq!['-', 'n', 'a', 'n'] ==> chars@[0] == '-' && chars@[1] == 'n'
                    && chars@[2] == 'a' && chars@[3] == 'n');
            }
            assert(seq!['n', 'a', 'n'].len() == 3);
        }
        r
    } else {
        proof {
            assert(seq!['n', 'a', 'n'].len() == 3);
            assert(seq!['+', 'n', 'a', 'n'].len() == 4);
            assert(seq!['-', 'n', 'a', 'n'].len() == 4);
        }
        false
    }
}

} // verus!
