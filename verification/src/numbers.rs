//! Numbers in text: decimal rendering of integers and of fixed-point values,
//! and recognizers for the texts that `str::parse::<i64>` and
//! `str::parse::<f64>` accept.
use vstd::prelude::*;
use crate::text::{is_text, skip_chars, split, split_chars, sub_chars, views, CharClass};

verus! {

pub open spec fn digit_char(d: nat) -> char {
    (d + 48) as char
}

pub open spec fn is_digit(c: char) -> bool {
    '0' <= c && c <= '9'
}

pub open spec fn all_digits(s: Seq<char>) -> bool {
    forall|i: int| 0 <= i < s.len() ==> is_digit(#[trigger] s[i])
}

/// The decimal digits of `n`, as `{}` prints an unsigned integer.
pub open spec fn dec(n: nat) -> Seq<char>
    decreases n,
{
    if n < 10 {
        seq![digit_char(n)]
    } else {
        dec(n / 10).push(digit_char(n % 10))
    }
}

/// `{}` of a signed integer.
pub open spec fn dec_int(n: int) -> Seq<char> {
    if n < 0 {
        seq!['-'] + dec((-n) as nat)
    } else {
        dec(n as nat)
    }
}

pub open spec fn abs(n: int) -> nat {
    if n < 0 {
        (-n) as nat
    } else {
        n as nat
    }
}

pub open spec fn sign(n: int) -> Seq<char> {
    if n < 0 {
        seq!['-']
    } else {
        Seq::empty()
    }
}

/// A number held in hundredths, printed with two decimals (`{:.2}`).
pub open spec fn fixed2(h: int) -> Seq<char> {
    sign(h) + dec(abs(h) / 100) + seq!['.', digit_char((abs(h) % 100) / 10), digit_char(
        abs(h) % 10,
    )]
}

/// A number held in tenths, printed with one decimal (`{:.1}`).
pub open spec fn fixed1(t: int) -> Seq<char> {
    sign(t) + dec(abs(t) / 10) + seq!['.', digit_char(abs(t) % 10)]
}

/// The character of a decimal digit.
pub fn digit(d: u64) -> (c: char)
    requires
        d < 10,
    ensures
        c == digit_char(d as nat),
{
    let b: u8 = d as u8 + 48;
    b as char
}

/// Appends the decimal digits of `n`.
pub fn push_dec(out: &mut Vec<char>, n: u64)
    ensures
        final(out)@ == old(out)@ + dec(n as nat),
    decreases n,
{
    if n >= 10 {
        push_dec(out, n / 10);
        out.push(digit(n % 10));
        assert(out@ =~= old(out)@ + dec(n as nat));
    } else {
        out.push(digit(n));
        assert(out@ =~= old(out)@ + dec(n as nat));
    }
}

/// Appends `{}` of a signed integer.
pub fn push_dec_i64(out: &mut Vec<char>, n: i64)
    ensures
        final(out)@ == old(out)@ + dec_int(n as int),
{
    if n < 0 {
        out.push('-');
        let m: u64 = (0i128 - n as i128) as u64;
        push_dec(out, m);
        assert(out@ =~= old(out)@ + dec_int(n as int));
    } else {
        push_dec(out, n as u64);
    }
}

/// Appends a two-decimal rendering of a value held in hundredths.
pub fn push_fixed2(out: &mut Vec<char>, h: i64)
    ensures
        final(out)@ == old(out)@ + fixed2(h as int),
{
    let a: u64 = if h < 0 {
        (0i128 - h as i128) as u64
    } else {
        h as u64
    };
    if h < 0 {
        out.push('-');
    }
    push_dec(out, a / 100);
    out.push('.');
    out.push(digit((a % 100) / 10));
    out.push(digit(a % 10));
    assert(out@ =~= old(out)@ + fixed2(h as int));
}

/// Appends a one-decimal rendering of a value held in tenths.
pub fn push_fixed1(out: &mut Vec<char>, t: i64)
    ensures
        final(out)@ == old(out)@ + fixed1(t as int),
{
    let a: u64 = if t < 0 {
        (0i128 - t as i128) as u64
    } else {
        t as u64
    };
    if t < 0 {
        out.push('-');
    }
    push_dec(out, a / 10);
    out.push('.');
    out.push(digit(a % 10));
    assert(out@ =~= old(out)@ + fixed1(t as int));
}

/// The value of a string of decimal digits.
pub open spec fn digits_value(s: Seq<char>) -> nat
    decreases s.len(),
{
    if s.len() == 0 {
        0
    } else {
        digits_value(s.drop_last()) * 10 + ((s.last() as nat) - 48) as nat
    }
}

/// `s` without one leading `+` or `-`.
pub open spec fn unsigned_part(s: Seq<char>) -> Seq<char> {
    if s.len() > 0 && (s[0] == '+' || s[0] == '-') {
        s.drop_first()
    } else {
        s
    }
}

/// The texts for which `str::parse::<i64>` succeeds: an optional sign, then
/// at least one decimal digit, with a value in the range of `i64`.
pub open spec fn parses_i64(s: Seq<char>) -> bool {
    let body = unsigned_part(s);
    &&& body.len() > 0
    &&& all_digits(body)
    &&& if s[0] == '-' {
        digits_value(body) <= 0x8000_0000_0000_0000
    } else {
        digits_value(body) <= 0x7fff_ffff_ffff_ffff
    }
}

proof fn lemma_digits_value_prefix(s: Seq<char>, i: int)
    requires
        0 <= i <= s.len(),
        all_digits(s),
    ensures
        digits_value(s.take(i)) <= digits_value(s),
    decreases s.len(),
{
    if i < s.len() {
        assert(all_digits(s.drop_last())) by {
            assert forall|k: int| 0 <= k < s.drop_last().len() implies is_digit(
                #[trigger] s.drop_last()[k],
            ) by {
                assert(s.drop_last()[k] == s[k]);
            }
        }
        lemma_digits_value_prefix(s.drop_last(), i);
        assert(s.drop_last().take(i) =~= s.take(i));
    } else {
        assert(s.take(i) =~= s);
    }
}

/// Whether `str::parse::<i64>` succeeds on the text.
pub fn parses_i64_exec(v: &[char]) -> (r: bool)
    ensures
        r == parses_i64(v@),
{
    if v.len() == 0 {
        return false;
    }
    let neg = v[0] == '-';
    let start: usize = if v[0] == '+' || v[0] == '-' {
        1
    } else {
        0
    };
    let ghost body = unsigned_part(v@);
    assert(body =~= v@.skip(start as int));
    if start == v.len() {
        return false;
    }
    let limit: u64 = if neg {
        0x8000_0000_0000_0000
    } else {
        0x7fff_ffff_ffff_ffff
    };
    let mut value: u64 = 0;
    let mut i = start;
    while i < v.len()
        invariant
            start <= i <= v.len(),
            body == v@.skip(start as int),
            body == unsigned_part(v@),
            v@.len() > 0,
            all_digits(body.take(i - start)),
            value == digits_value(body.take(i - start)),
            value <= limit,
            limit == (if v@[0] == '-' {
                0x8000_0000_0000_0000u64
            } else {
                0x7fff_ffff_ffff_ffffu64
            }),
        decreases v.len() - i,
    {
        let c = v[i];
        let ghost pre = body.take(i - start);
        let ghost next = body.take(i + 1 - start);
        assert(next.drop_last() =~= pre);
        assert(next.last() == c);
        if !('0' <= c && c <= '9') {
            assert(!is_digit(body[i - start]));
            return false;
        }
        let d = (c as u32 - 48) as u64;
        if value > (limit - d) / 10 {
            assert(digits_value(next) > limit);
            assert(!all_digits(body) || digits_value(body) > limit) by {
                if all_digits(body) {
                    lemma_digits_value_prefix(body, i + 1 - start);
                }
            }
            return false;
        }
        value = value * 10 + d;
        assert forall|k: int| 0 <= k < next.len() implies is_digit(#[trigger] next[k]) by {
            if k < pre.len() {
                assert(next[k] == pre[k]);
            }
        }
        i = i + 1;
    }
    assert(body.take(v.len() - start) =~= body);
    true
}

pub open spec fn ascii_lower(c: char) -> char {
    if 'A' <= c && c <= 'Z' {
        ((c as u32) + 32) as char
    } else {
        c
    }
}

pub open spec fn lower(s: Seq<char>) -> Seq<char> {
    s.map_values(|c: char| ascii_lower(c))
}

/// `Digit+`, `Digit+ '.' Digit*` or `Digit* '.' Digit+`.
pub open spec fn is_mantissa(m: Seq<char>) -> bool {
    let q = split(m, '.');
    ||| q.len() == 1 && q[0].len() > 0 && all_digits(q[0])
    ||| q.len() == 2 && all_digits(q[0]) && all_digits(q[1]) && q[0].len() + q[1].len() > 0
}

/// `Sign? Digit+`.
pub open spec fn is_exponent(x: Seq<char>) -> bool {
    let y = unsigned_part(x);
    y.len() > 0 && all_digits(y)
}

/// `Mantissa ('e' Exponent)?` on lower-cased text.
pub open spec fn is_decimal_number(b: Seq<char>) -> bool {
    let p = split(b, 'e');
    ||| p.len() == 1 && is_mantissa(b)
    ||| p.len() == 2 && is_mantissa(p[0]) && is_exponent(p[1])
}

/// The texts for which `str::parse::<f64>` succeeds, as its documentation
/// gives them: lower-cased, `Sign? ('inf' | 'infinity' | 'nan' | Number)`.
pub open spec fn parses_f64(s: Seq<char>) -> bool {
    let body = unsigned_part(lower(s));
    ||| body == "inf"@
    ||| body == "infinity"@
    ||| body == "nan"@
    ||| is_decimal_number(body)
}

fn all_digits_exec(v: &[char]) -> (r: bool)
    ensures
        r == all_digits(v@),
{
    let mut i: usize = 0;
    while i < v.len()
        invariant
            i <= v.len(),
            forall|k: int| 0 <= k < i ==> is_digit(#[trigger] v@[k]),
        decreases v.len() - i,
    {
        if !('0' <= v[i] && v[i] <= '9') {
            assert(!is_digit(v@[i as int]));
            return false;
        }
        i = i + 1;
    }
    true
}

fn lower_exec(v: &[char]) -> (r: Vec<char>)
    ensures
        r@ == lower(v@),
{
    let mut r: Vec<char> = Vec::new();
    let mut i: usize = 0;
    while i < v.len()
        invariant
            i <= v.len(),
            r@ =~= lower(v@.take(i as int)),
        decreases v.len() - i,
    {
        let c = v[i];
        let l = if 'A' <= c && c <= 'Z' {
            ((c as u32) as u8 + 32) as char
        } else {
            c
        };
        assert(l == ascii_lower(c));
        r.push(l);
        assert(lower(v@.take(i + 1)) =~= lower(v@.take(i as int)).push(ascii_lower(c)));
        i = i + 1;
    }
    assert(v@.take(v.len() as int) =~= v@);
    r
}

fn unsigned_part_exec(v: &[char]) -> (r: Vec<char>)
    ensures
        r@ == unsigned_part(v@),
{
    if v.len() > 0 && (v[0] == '+' || v[0] == '-') {
        skip_chars(v, 1)
    } else {
        let r = sub_chars(v, 0, v.len());
        assert(r@ =~= v@);
        r
    }
}

fn is_mantissa_exec(m: &[char]) -> (r: bool)
    ensures
        r == is_mantissa(m@),
{
    let q = split_chars(m, CharClass::One('.'));
    assert(views(q@).len() == q@.len());
    if q.len() == 1 {
        assert(views(q@)[0] == q@[0]@);
        q[0].len() > 0 && all_digits_exec(&q[0])
    } else if q.len() == 2 {
        assert(views(q@)[0] == q@[0]@);
        assert(views(q@)[1] == q@[1]@);
        all_digits_exec(&q[0]) && all_digits_exec(&q[1]) && (q[0].len() > 0 || q[1].len() > 0)
    } else {
        false
    }
}

fn is_exponent_exec(x: &[char]) -> (r: bool)
    ensures
        r == is_exponent(x@),
{
    let y = unsigned_part_exec(x);
    y.len() > 0 && all_digits_exec(&y)
}

fn is_decimal_number_exec(b: &[char]) -> (r: bool)
    ensures
        r == is_decimal_number(b@),
{
    let p = split_chars(b, CharClass::One('e'));
    assert(views(p@).len() == p@.len());
    if p.len() == 1 {
        is_mantissa_exec(b)
    } else if p.len() == 2 {
        assert(views(p@)[0] == p@[0]@);
        assert(views(p@)[1] == p@[1]@);
        is_mantissa_exec(&p[0]) && is_exponent_exec(&p[1])
    } else {
        false
    }
}

/// Whether `str::parse::<f64>` succeeds on the text.
pub fn parses_f64_exec(v: &[char]) -> (r: bool)
    ensures
        r == parses_f64(v@),
{
    let l = lower_exec(v);
    let body = unsigned_part_exec(&l);
    is_text(&body, "inf") || is_text(&body, "infinity") || is_text(&body, "nan")
        || is_decimal_number_exec(&body)
}

} // verus!
