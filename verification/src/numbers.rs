//! Numeric text recognised by the parser.
//!
//! GPX carries latitude, longitude and elevation as decimal text, and the
//! route/track sequence number as unsigned integer text.  The library keeps
//! the decimal values as their verbatim document text, so the only question
//! the parser asks of them is whether the text denotes a decimal number at
//! all: a sign, a run of digits with at most one decimal point, and an
//! optional exponent.  Texts that denote no number make the parser drop the
//! point or leave the field unset, never fail the document.

use vstd::prelude::*;
use vstd::std_specs::iter::IteratorSpec;

verus! {

/// An ASCII decimal digit.
pub open spec fn is_digit(c: char) -> bool {
    48 <= c as u32 && c as u32 <= 57
}

/// The value of an ASCII decimal digit.
pub open spec fn digit_val(c: char) -> nat {
    (c as u32 - 48) as nat
}

/// Every character of `s` is an ASCII decimal digit.
pub open spec fn all_digits(s: Seq<char>) -> bool {
    forall|i: int| 0 <= i < s.len() ==> is_digit(#[trigger] s[i])
}

/// A mantissa: `D+`, `D+ . D*` or `D* . D+` for decimal digits `D`.
pub open spec fn is_mantissa(s: Seq<char>) -> bool {
    ||| (s.len() > 0 && all_digits(s))
    ||| (exists|i: int|
        #![trigger s[i]]
        0 <= i < s.len() && s[i] == '.' && s.len() >= 2 && all_digits(s.subrange(0, i))
            && all_digits(s.subrange(i + 1, s.len() as int)))
}

/// An exponent body: an optional sign followed by one or more digits.
pub open spec fn is_exponent(s: Seq<char>) -> bool {
    if s.len() > 0 && (s[0] == '+' || s[0] == '-') {
        s.len() > 1 && all_digits(s.subrange(1, s.len() as int))
    } else {
        s.len() > 0 && all_digits(s)
    }
}

/// The text with a leading `+` or `-` sign removed.
pub open spec fn strip_sign(s: Seq<char>) -> Seq<char> {
    if s.len() > 0 && (s[0] == '+' || s[0] == '-') {
        s.subrange(1, s.len() as int)
    } else {
        s
    }
}

/// The text with a leading `+` sign removed.
pub open spec fn strip_plus(s: Seq<char>) -> Seq<char> {
    if s.len() > 0 && s[0] == '+' {
        s.subrange(1, s.len() as int)
    } else {
        s
    }
}

/// An unsigned decimal number body: a mantissa with an optional `e`/`E`
/// exponent.
pub open spec fn is_number_body(t: Seq<char>) -> bool {
    ||| is_mantissa(t)
    ||| (exists|j: int|
        #![trigger t[j]]
        0 <= j < t.len() && (t[j] == 'e' || t[j] == 'E') && is_mantissa(t.subrange(0, j))
            && is_exponent(t.subrange(j + 1, t.len() as int)))
}

/// The text denotes a decimal number: an optional sign, a mantissa, and an
/// optional `e`/`E` exponent.  This is what the parser accepts for the
/// `lat` and `lon` attributes and for elevation text.
pub open spec fn is_decimal_number(s: Seq<char>) -> bool {
    is_number_body(strip_sign(s))
}

/// An ASCII hexadecimal digit.
pub open spec fn is_hex_digit(c: char) -> bool {
    ||| is_digit(c)
    ||| (97 <= c as u32 && c as u32 <= 102)
    ||| (65 <= c as u32 && c as u32 <= 70)
}

/// The value of an ASCII hexadecimal digit.
pub open spec fn hex_digit_val(c: char) -> nat {
    if is_digit(c) {
        digit_val(c)
    } else if 97 <= c as u32 && c as u32 <= 102 {
        (c as u32 - 87) as nat
    } else {
        (c as u32 - 55) as nat
    }
}

/// Every character of `s` is an ASCII hexadecimal digit.
pub open spec fn all_hex_digits(s: Seq<char>) -> bool {
    forall|i: int| 0 <= i < s.len() ==> is_hex_digit(#[trigger] s[i])
}

/// The numeric value of a hexadecimal digit string, most significant
/// digit first.
pub open spec fn hex_value(s: Seq<char>) -> nat
    decreases s.len(),
{
    if s.len() == 0 {
        0
    } else {
        hex_value(s.drop_last()) * 16 + hex_digit_val(s.last())
    }
}

/// The numeric value of a digit string, most significant digit first.
pub open spec fn dec_value(s: Seq<char>) -> nat
    decreases s.len(),
{
    if s.len() == 0 {
        0
    } else {
        dec_value(s.drop_last()) * 10 + digit_val(s.last())
    }
}

/// The value `str::parse::<u32>` would return: an optional `+`, one or
/// more digits, and a value that fits in 32 bits; anything else is `None`.
pub open spec fn parse_u32_spec(s: Seq<char>) -> Option<u32> {
    if strip_plus(s).len() > 0 && all_digits(strip_plus(s)) && dec_value(strip_plus(s))
        <= u32::MAX {
        Some(dec_value(strip_plus(s)) as u32)
    } else {
        None
    }
}

/// Collects the characters of `s` into a vector.
pub fn chars_of(s: &str) -> (v: Vec<char>)
    ensures
        v@ == s@,
{
    broadcast use vstd::string::group_string_axioms;

    let mut it = s.chars();
    let mut v: Vec<char> = Vec::new();
    loop
        invariant
            it.obeys_prophetic_iter_laws(),
            it.remaining() =~= s@.skip(v@.len() as int),
            v@.len() <= s@.len(),
            v@ =~= s@.take(v@.len() as int),
        ensures
            v@ =~= s@,
        decreases s@.len() - v@.len(),
    {
        match it.next() {
            Some(c) => {
                v.push(c);
            },
            None => {
                proof {
                    assert(s@.skip(v@.len() as int).len() == 0);
                    assert(v@.len() == s@.len());
                }
                break ;
            },
        }
    }
    v
}

/// True when every character of `v` in `[from, to)` is a digit.
fn scan_digits(v: &Vec<char>, from: usize, to: usize) -> (r: bool)
    requires
        from <= to <= v@.len(),
    ensures
        r == all_digits(v@.subrange(from as int, to as int)),
{
    let ghost sub = v@.subrange(from as int, to as int);
    let mut i: usize = from;
    while i < to
        invariant
            from <= i <= to <= v@.len(),
            sub == v@.subrange(from as int, to as int),
            forall|k: int| 0 <= k < i - from ==> is_digit(#[trigger] sub[k]),
        decreases to - i,
    {
        let c = v[i];
        if !(c as u32 >= 48 && c as u32 <= 57) {
            proof {
                assert(sub[i - from] == v@[i as int]);
                assert(!is_digit(sub[i - from]));
            }
            return false;
        }
        i = i + 1;
    }
    true
}

/// The position of the first `.` in `[from, to)`, if any.
fn find_dot(v: &Vec<char>, from: usize, to: usize) -> (r: Option<usize>)
    requires
        from <= to <= v@.len(),
    ensures
        match r {
            Some(j) => from <= j < to && v@[j as int] == '.' && forall|k: int|
                from <= k < j ==> #[trigger] v@[k] != '.',
            None => forall|k: int| from <= k < to ==> #[trigger] v@[k] != '.',
        },
{
    let mut i: usize = from;
    while i < to
        invariant
            from <= i <= to <= v@.len(),
            forall|k: int| from <= k < i ==> #[trigger] v@[k] != '.',
        decreases to - i,
    {
        if v[i] == '.' {
            return Some(i);
        }
        i = i + 1;
    }
    None
}

/// The position of the first `e` or `E` in `[from, to)`, if any.
fn find_exp_mark(v: &Vec<char>, from: usize, to: usize) -> (r: Option<usize>)
    requires
        from <= to <= v@.len(),
    ensures
        match r {
            Some(j) => from <= j < to && (v@[j as int] == 'e' || v@[j as int] == 'E') && forall|
                k: int,
            |
                from <= k < j ==> #[trigger] v@[k] != 'e' && v@[k] != 'E',
            None => forall|k: int| from <= k < to ==> #[trigger] v@[k] != 'e' && v@[k] != 'E',
        },
{
    let mut i: usize = from;
    while i < to
        invariant
            from <= i <= to <= v@.len(),
            forall|k: int| from <= k < i ==> #[trigger] v@[k] != 'e' && v@[k] != 'E',
        decreases to - i,
    {
        let c = v[i];
        if c == 'e' || c == 'E' {
            return Some(i);
        }
        i = i + 1;
    }
    None
}

/// A mantissa never holds an `e`, `E` or a second `.` beside the first.
proof fn lemma_mantissa_chars(s: Seq<char>, k: int)
    requires
        is_mantissa(s),
        0 <= k < s.len(),
    ensures
        s[k] != 'e' && s[k] != 'E',
{
    if s.len() > 0 && all_digits(s) {
        assert(is_digit(s[k]));
    } else {
        let i = choose|i: int|
            #![trigger s[i]]
            0 <= i < s.len() && s[i] == '.' && s.len() >= 2 && all_digits(s.subrange(0, i))
                && all_digits(s.subrange(i + 1, s.len() as int));
        if k < i {
            assert(is_digit(s.subrange(0, i)[k]));
        } else if k > i {
            assert(is_digit(s.subrange(i + 1, s.len() as int)[k - i - 1]));
        }
    }
}

/// True when `v[from..to]` is a mantissa.
fn check_mantissa(v: &Vec<char>, from: usize, to: usize) -> (r: bool)
    requires
        from <= to <= v@.len(),
    ensures
        r == is_mantissa(v@.subrange(from as int, to as int)),
{
    let ghost sub = v@.subrange(from as int, to as int);
    match find_dot(v, from, to) {
        None => {
            let r = from < to && scan_digits(v, from, to);
            proof {
                if r {
                    assert(is_mantissa(sub));
                } else if is_mantissa(sub) {
                    if !(sub.len() > 0 && all_digits(sub)) {
                        let i = choose|i: int|
                            #![trigger sub[i]]
                            0 <= i < sub.len() && sub[i] == '.' && sub.len() >= 2 && all_digits(
                                sub.subrange(0, i),
                            ) && all_digits(sub.subrange(i + 1, sub.len() as int));
                        assert(v@[from + i] == '.');
                        assert(false);
                    }
                }
            }
            r
        },
        Some(d) => {
            let r = (to - from >= 2) && scan_digits(v, from, d) && scan_digits(v, d + 1, to);
            proof {
                let di = d - from;
                assert(sub.subrange(0, di) =~= v@.subrange(from as int, d as int));
                assert(sub.subrange(di + 1, sub.len() as int) =~= v@.subrange(
                    d as int + 1,
                    to as int,
                ));
                if r {
                    assert(sub[di] == '.');
                    assert(is_mantissa(sub));
                } else if is_mantissa(sub) {
                    if sub.len() > 0 && all_digits(sub) {
                        assert(is_digit(sub[di]));
                        assert(false);
                    } else {
                        let i = choose|i: int|
                            #![trigger sub[i]]
                            0 <= i < sub.len() && sub[i] == '.' && sub.len() >= 2 && all_digits(
                                sub.subrange(0, i),
                            ) && all_digits(sub.subrange(i + 1, sub.len() as int));
                        // the first dot in the range is at di, and digits
                        // stand on every other position, so i == di
                        if i < di {
                            assert(v@[from + i] == '.');
                            assert(false);
                        } else if i > di {
                            assert(is_digit(sub.subrange(0, i)[di]));
                            assert(false);
                        }
                        assert(false);
                    }
                }
            }
            r
        },
    }
}

/// True when `v[from..to]` is an exponent body.
fn check_exponent(v: &Vec<char>, from: usize, to: usize) -> (r: bool)
    requires
        from <= to <= v@.len(),
    ensures
        r == is_exponent(v@.subrange(from as int, to as int)),
{
    let ghost sub = v@.subrange(from as int, to as int);
    if from < to && (v[from] == '+' || v[from] == '-') {
        let r = to - from > 1 && scan_digits(v, from + 1, to);
        proof {
            assert(sub.subrange(1, sub.len() as int) =~= v@.subrange(from as int + 1, to as int));
        }
        r
    } else {
        let r = from < to && scan_digits(v, from, to);
        proof {
            if sub.len() > 0 {
                assert(sub[0] == v@[from as int]);
            }
        }
        r
    }
}

/// True when the text denotes a decimal number; the exec counterpart of
/// [`is_decimal_number`].
pub fn is_decimal_str(s: &str) -> (r: bool)
    ensures
        r == is_decimal_number(s@),
{
    let v = chars_of(s);
    let n = v.len();
    let a: usize = if n > 0 && (v[0] == '+' || v[0] == '-') {
        1
    } else {
        0
    };
    let ghost t = strip_sign(s@);
    proof {
        assert(t =~= v@.subrange(a as int, n as int));
    }
    match find_exp_mark(&v, a, n) {
        None => {
            let r = check_mantissa(&v, a, n);
            proof {
                if !r && is_decimal_number(s@) {
                    let j = choose|j: int|
                        #![trigger t[j]]
                        0 <= j < t.len() && (t[j] == 'e' || t[j] == 'E') && is_mantissa(
                            t.subrange(0, j),
                        ) && is_exponent(t.subrange(j + 1, t.len() as int));
                    assert(v@[a + j] == t[j]);
                    assert(false);
                }
            }
            r
        },
        Some(j) => {
            let r = check_mantissa(&v, a, j) && check_exponent(&v, j + 1, n);
            proof {
                let ji = j - a;
                assert(t.subrange(0, ji) =~= v@.subrange(a as int, j as int));
                assert(t.subrange(ji + 1, t.len() as int) =~= v@.subrange(j as int + 1, n as int));
                if r {
                    assert(t[ji] == v@[j as int]);
                    assert(t[ji] == 'e' || t[ji] == 'E');
                    assert(is_decimal_number(s@));
                } else if is_decimal_number(s@) {
                    if is_mantissa(t) {
                        lemma_mantissa_chars(t, ji);
                        assert(false);
                    } else {
                        let j2 = choose|j2: int|
                            #![trigger t[j2]]
                            0 <= j2 < t.len() && (t[j2] == 'e' || t[j2] == 'E') && is_mantissa(
                                t.subrange(0, j2),
                            ) && is_exponent(t.subrange(j2 + 1, t.len() as int));
                        if j2 < ji {
                            assert(v@[a + j2] == t[j2]);
                            assert(false);
                        } else if j2 > ji {
                            lemma_mantissa_chars(t.subrange(0, j2), ji);
                            assert(false);
                        }
                        assert(false);
                    }
                }
            }
            r
        },
    }
}

/// The value grows, digit by digit, from any prefix of a hexadecimal
/// digit string.
pub proof fn lemma_hex_value_prefix(s: Seq<char>, i: int)
    requires
        0 <= i <= s.len(),
    ensures
        hex_value(s) >= hex_value(s.subrange(0, i)),
    decreases s.len() - i,
{
    if i < s.len() {
        assert(s.subrange(0, i + 1).drop_last() =~= s.subrange(0, i));
        assert(hex_value(s.subrange(0, i + 1)) == hex_value(s.subrange(0, i)) * 16 + hex_digit_val(
            s.subrange(0, i + 1).last(),
        ));
        lemma_hex_value_prefix(s, i + 1);
    } else {
        assert(s.subrange(0, i) =~= s);
    }
}

/// The value grows, digit by digit, from any prefix of a digit string.
pub proof fn lemma_dec_value_prefix(s: Seq<char>, i: int)
    requires
        0 <= i <= s.len(),
    ensures
        dec_value(s) >= dec_value(s.subrange(0, i)),
    decreases s.len() - i,
{
    if i < s.len() {
        assert(s.subrange(0, i + 1).drop_last() =~= s.subrange(0, i));
        assert(dec_value(s.subrange(0, i + 1)) == dec_value(s.subrange(0, i)) * 10 + digit_val(
            s.subrange(0, i + 1).last(),
        ));
        lemma_dec_value_prefix(s, i + 1);
    } else {
        assert(s.subrange(0, i) =~= s);
    }
}

/// The value `str::parse::<u32>` would return for this text; the exec
/// counterpart of [`parse_u32_spec`].
pub fn parse_u32_str(s: &str) -> (r: Option<u32>)
    ensures
        r == parse_u32_spec(s@),
{
    let v = chars_of(s);
    let n = v.len();
    let a: usize = if n > 0 && v[0] == '+' {
        1
    } else {
        0
    };
    let ghost t = strip_plus(s@);
    proof {
        assert(t =~= v@.subrange(a as int, n as int));
    }
    if a == n {
        return None;
    }
    let mut acc: u32 = 0;
    let mut i: usize = a;
    while i < n
        invariant
            a <= i <= n == v@.len(),
            t == strip_plus(s@),
            t =~= v@.subrange(a as int, n as int),
            all_digits(t.subrange(0, i - a)),
            acc == dec_value(t.subrange(0, i - a)),
        decreases n - i,
    {
        let c = v[i];
        if !(c as u32 >= 48 && c as u32 <= 57) {
            proof {
                assert(t[i - a] == v@[i as int]);
                assert(!is_digit(t[i - a]));
                assert(!all_digits(t));
                assert(parse_u32_spec(s@) is None);
            }
            return None;
        }
        let d: u32 = c as u32 - 48;
        proof {
            assert(t.subrange(0, i - a + 1).drop_last() =~= t.subrange(0, i - a));
            assert(t.subrange(0, i - a + 1).last() == t[i - a]);
            assert(t[i - a] == v@[i as int]);
        }
        if acc > (u32::MAX - d) / 10 {
            proof {
                assert(dec_value(t.subrange(0, i - a + 1)) > u32::MAX) by {
                    assert(acc * 10 + d > u32::MAX) by (nonlinear_arith)
                        requires
                            acc > (u32::MAX - d) / 10,
                            d <= 9,
                    ;
                };
                lemma_dec_value_prefix(t, i - a + 1);
                if all_digits(t) {
                    assert(dec_value(t) > u32::MAX);
                }
            }
            return None;
        }
        proof {
            assert(acc * 10 + d <= u32::MAX) by (nonlinear_arith)
                requires
                    acc <= (u32::MAX - d) / 10,
                    d <= 9,
            ;
        }
        acc = acc * 10 + d;
        i = i + 1;
    }
    proof {
        assert(t.subrange(0, n - a) =~= t);
    }
    Some(acc)
}

} // verus!
