//! Border colours as text: Hyprland's `rgba(rrggbbaa)`, the editor's
//! `#RRGGBB` field, and reading both back into channel values.
use vstd::prelude::*;
use crate::text::{
    chars_of, ends_with, ends_with_text, skip_chars, starts_with, starts_with_text, string_of,
    sub_chars, trim, trim_chars, trim_start_by, utf8_len, utf8_len_is, utf8_width, utf8_width_exec,
    CharClass,
};

verus! {

broadcast use vstd::string::group_string_axioms;

/// The value of a hexadecimal digit of either case.
pub open spec fn hex_value(c: char) -> Option<u8> {
    if '0' <= c && c <= '9' {
        Some(((c as u32) - 48) as u8)
    } else if 'a' <= c && c <= 'f' {
        Some(((c as u32) - 87) as u8)
    } else if 'A' <= c && c <= 'F' {
        Some(((c as u32) - 55) as u8)
    } else {
        None
    }
}

/// `u8::from_str_radix(s, 16)` on a text of two bytes.
pub open spec fn radix16(s: Seq<char>) -> Option<u8> {
    if s.len() != 2 {
        None
    } else if s[0] == '+' {
        hex_value(s[1])
    } else {
        match (hex_value(s[0]), hex_value(s[1])) {
            (Some(a), Some(b)) => Some((a * 16 + b) as u8),
            _ => None,
        }
    }
}

/// A text cut into two-byte pieces (each two one-byte characters or one
/// two-byte character), when every cut falls between characters.
pub open spec fn byte_pairs(s: Seq<char>) -> Option<Seq<Seq<char>>>
    decreases s.len(),
{
    if s.len() == 0 {
        Some(Seq::empty())
    } else if utf8_width(s[0]) == 2 {
        match byte_pairs(s.drop_first()) {
            Some(r) => Some(seq![s.take(1)] + r),
            None => None,
        }
    } else if utf8_width(s[0]) == 1 && s.len() >= 2 && utf8_width(s[1]) == 1 {
        match byte_pairs(s.skip(2)) {
            Some(r) => Some(seq![s.take(2)] + r),
            None => None,
        }
    } else {
        None
    }
}

/// The digits of a Hyprland colour: what lies between `rgba(` and `)`.
pub open spec fn hypr_inner(color: Seq<char>) -> Seq<char> {
    if starts_with(color, "rgba("@) && ends_with(color.skip(5), ")"@) {
        color.skip(5).drop_last()
    } else {
        Seq::empty()
    }
}

/// Reading a Hyprland colour cuts its 8-byte digits at byte boundaries that
/// fall between characters.
pub open spec fn hypr_color_readable(color: Seq<char>) -> bool {
    utf8_len(hypr_inner(color)) == 8 ==> byte_pairs(hypr_inner(color)) is Some
}

pub open spec fn channel_or_zero(piece: Seq<char>) -> u8 {
    match radix16(piece) {
        Some(v) => v,
        None => 0,
    }
}

/// The channels of a Hyprland colour, each unreadable one as 0; nothing when
/// its digits are not 8 bytes long.
pub open spec fn hypr_channels(color: Seq<char>) -> Option<(u8, u8, u8, u8)> {
    let inner = hypr_inner(color);
    if utf8_len(inner) != 8 {
        None
    } else {
        let p = byte_pairs(inner)->0;
        Some(
            (
                channel_or_zero(p[0]),
                channel_or_zero(p[1]),
                channel_or_zero(p[2]),
                channel_or_zero(p[3]),
            ),
        )
    }
}

/// The text of a `#RRGGBB` field without surrounding blanks and leading `#`.
pub open spec fn hex_digits(hex: Seq<char>) -> Seq<char> {
    trim_start_by(trim(hex), CharClass::One('#'))
}

/// Reading a `#RRGGBB` field cuts its 6-byte digits at byte boundaries that
/// fall between characters.
pub open spec fn hex_color_readable(hex: Seq<char>) -> bool {
    utf8_len(hex_digits(hex)) == 6 ==> byte_pairs(hex_digits(hex)) is Some
}

/// The channels of a `#RRGGBB` field, when its digits are 6 bytes of
/// hexadecimal.
pub open spec fn hex_channels(hex: Seq<char>) -> Option<(u8, u8, u8)> {
    let d = hex_digits(hex);
    if utf8_len(d) != 6 {
        None
    } else {
        let p = byte_pairs(d)->0;
        match (radix16(p[0]), radix16(p[1]), radix16(p[2])) {
            (Some(r), Some(g), Some(b)) => Some((r, g, b)),
            _ => None,
        }
    }
}

pub open spec fn lower_digit(d: u8) -> char {
    if d < 10 {
        ((d as u32) + 48) as char
    } else {
        ((d as u32) + 87) as char
    }
}

pub open spec fn upper_digit(d: u8) -> char {
    if d < 10 {
        ((d as u32) + 48) as char
    } else {
        ((d as u32) + 55) as char
    }
}

/// `{:02x}`.
pub open spec fn hex2_lower(x: u8) -> Seq<char> {
    seq![lower_digit(x / 16), lower_digit(x % 16)]
}

/// `{:02X}`.
pub open spec fn hex2_upper(x: u8) -> Seq<char> {
    seq![upper_digit(x / 16), upper_digit(x % 16)]
}

/// `rgba(rrggbbaa)` in lower-case hexadecimal.
pub open spec fn hypr_color_of(r: u8, g: u8, b: u8, a: u8) -> Seq<char> {
    "rgba("@ + hex2_lower(r) + hex2_lower(g) + hex2_lower(b) + hex2_lower(a) + ")"@
}

/// `#RRGGBB` in upper-case hexadecimal.
pub open spec fn hex_color_of(r: u8, g: u8, b: u8) -> Seq<char> {
    seq!['#'] + hex2_upper(r) + hex2_upper(g) + hex2_upper(b)
}

fn digit_of(d: u8, upper: bool) -> (c: char)
    requires
        d < 16,
    ensures
        c == (if upper {
            upper_digit(d)
        } else {
            lower_digit(d)
        }),
{
    if d < 10 {
        (d + 48) as char
    } else if upper {
        (d + 55) as char
    } else {
        (d + 87) as char
    }
}

fn push_hex2(out: &mut Vec<char>, x: u8, upper: bool)
    ensures
        final(out)@ == old(out)@ + (if upper {
            hex2_upper(x)
        } else {
            hex2_lower(x)
        }),
{
    out.push(digit_of(x / 16, upper));
    out.push(digit_of(x % 16, upper));
    assert(out@ =~= old(out)@ + (if upper {
        hex2_upper(x)
    } else {
        hex2_lower(x)
    }));
}

/// A colour as Hyprland's `rgba(rrggbbaa)`.
pub fn hypr_color_text(r: u8, g: u8, b: u8, a: u8) -> (s: String)
    ensures
        s@ == hypr_color_of(r, g, b, a),
{
    let mut out = chars_of("rgba(");
    push_hex2(&mut out, r, false);
    push_hex2(&mut out, g, false);
    push_hex2(&mut out, b, false);
    push_hex2(&mut out, a, false);
    out.push(')');
    proof {
        reveal_strlit(")");
    }
    assert(out@ =~= hypr_color_of(r, g, b, a));
    string_of(&out)
}

/// A colour as the editor's `#RRGGBB`.
pub fn hex_color_text(r: u8, g: u8, b: u8) -> (s: String)
    ensures
        s@ == hex_color_of(r, g, b),
{
    let mut out: Vec<char> = Vec::new();
    out.push('#');
    push_hex2(&mut out, r, true);
    push_hex2(&mut out, g, true);
    push_hex2(&mut out, b, true);
    assert(out@ =~= hex_color_of(r, g, b));
    string_of(&out)
}

fn hex_value_exec(c: char) -> (r: Option<u8>)
    ensures
        r == hex_value(c),
{
    if '0' <= c && c <= '9' {
        Some(((c as u32) - 48) as u8)
    } else if 'a' <= c && c <= 'f' {
        Some(((c as u32) - 87) as u8)
    } else if 'A' <= c && c <= 'F' {
        Some(((c as u32) - 55) as u8)
    } else {
        None
    }
}

fn radix16_exec(s: &[char]) -> (r: Option<u8>)
    ensures
        r == radix16(s@),
{
    if s.len() != 2 {
        return None;
    }
    if s[0] == '+' {
        return hex_value_exec(s[1]);
    }
    match (hex_value_exec(s[0]), hex_value_exec(s[1])) {
        (Some(a), Some(b)) => Some(a * 16 + b),
        _ => None,
    }
}

fn byte_pairs_from(v: &[char], i: usize) -> (r: Option<Vec<Vec<char>>>)
    requires
        i <= v.len(),
    ensures
        match r {
            Some(p) => byte_pairs(v@.skip(i as int)) == Some(p@.map_values(|x: Vec<char>| x@)),
            None => byte_pairs(v@.skip(i as int)) is None,
        },
    decreases v.len() - i,
{
    let ghost s = v@.skip(i as int);
    if i == v.len() {
        let p: Vec<Vec<char>> = Vec::new();
        assert(p@.map_values(|x: Vec<char>| x@) =~= Seq::<Seq<char>>::empty());
        assert(s =~= Seq::<char>::empty());
        return Some(p);
    }
    let w = utf8_width_exec(v[i]);
    if w == 2 {
        assert(s.drop_first() =~= v@.skip(i + 1));
        match byte_pairs_from(v, i + 1) {
            Some(rest) => {
                let mut p: Vec<Vec<char>> = Vec::new();
                p.push(sub_chars(v, i, i + 1));
                assert(v@.subrange(i as int, i + 1) =~= s.take(1));
                let mut rest = rest;
                let ghost rv = rest@.map_values(|x: Vec<char>| x@);
                let ghost head = p@.map_values(|x: Vec<char>| x@);
                p.append(&mut rest);
                assert(p@.map_values(|x: Vec<char>| x@) =~= head + rv);
                Some(p)
            },
            None => None,
        }
    } else if w == 1 && i + 1 < v.len() && utf8_width_exec(v[i + 1]) == 1 {
        assert(s.skip(2) =~= v@.skip(i + 2));
        match byte_pairs_from(v, i + 2) {
            Some(rest) => {
                let mut p: Vec<Vec<char>> = Vec::new();
                p.push(sub_chars(v, i, i + 2));
                assert(v@.subrange(i as int, i + 2) =~= s.take(2));
                let mut rest = rest;
                let ghost rv = rest@.map_values(|x: Vec<char>| x@);
                let ghost head = p@.map_values(|x: Vec<char>| x@);
                p.append(&mut rest);
                assert(p@.map_values(|x: Vec<char>| x@) =~= head + rv);
                Some(p)
            },
            None => None,
        }
    } else {
        None
    }
}

fn hypr_inner_exec(v: &[char]) -> (r: Vec<char>)
    ensures
        r@ == hypr_inner(v@),
{
    if starts_with_text(v, "rgba(") {
        proof {
            reveal_strlit("rgba(");
        }
        let rest = skip_chars(v, 5);
        if ends_with_text(&rest, ")") {
            proof {
                reveal_strlit(")");
            }
            return sub_chars(&rest, 0, rest.len() - 1);
        }
    }
    Vec::new()
}

/// Whether reading a Hyprland colour cuts it between characters.
pub fn hypr_color_slices_ok(color: &str) -> (r: bool)
    ensures
        r == hypr_color_readable(color@),
{
    let v = chars_of(color);
    let inner = hypr_inner_exec(&v);
    assert(inner@.skip(0) =~= inner@);
    !utf8_len_is(&inner, 8) || byte_pairs_from(&inner, 0).is_some()
}

/// The channels of a Hyprland colour (`rgba(rrggbbaa)`), unreadable ones as 0;
/// nothing when its digits are not 8 bytes long.
pub fn hypr_color_channels(color: &str) -> (r: Option<(u8, u8, u8, u8)>)
    requires
        hypr_color_readable(color@),
    ensures
        r == hypr_channels(color@),
{
    let v = chars_of(color);
    let inner = hypr_inner_exec(&v);
    if !utf8_len_is(&inner, 8) {
        return None;
    }
    assert(inner@.skip(0) =~= inner@);
    match byte_pairs_from(&inner, 0) {
        Some(p) => {
            proof {
                lemma_pairs_count(inner@);
            }
            let ghost pv = p@.map_values(|x: Vec<char>| x@);
            assert(pv.len() == 4);
            let c0 = match radix16_exec(&p[0]) {
                Some(x) => x,
                None => 0,
            };
            let c1 = match radix16_exec(&p[1]) {
                Some(x) => x,
                None => 0,
            };
            let c2 = match radix16_exec(&p[2]) {
                Some(x) => x,
                None => 0,
            };
            let c3 = match radix16_exec(&p[3]) {
                Some(x) => x,
                None => 0,
            };
            assert(pv[0] == p@[0]@ && pv[1] == p@[1]@ && pv[2] == p@[2]@ && pv[3] == p@[3]@);
            Some((c0, c1, c2, c3))
        },
        None => None,
    }
}

/// Every two-byte piece holds two bytes, so a text of `2n` bytes has `n`
/// pieces.
pub proof fn lemma_pairs_count(s: Seq<char>)
    requires
        byte_pairs(s) is Some,
    ensures
        2 * byte_pairs(s)->0.len() == utf8_len(s),
    decreases s.len(),
{
    if s.len() > 0 {
        if utf8_width(s[0]) == 2 {
            lemma_pairs_count(s.drop_first());
            lemma_utf8_len_first(s);
        } else {
            lemma_pairs_count(s.skip(2));
            lemma_utf8_len_first(s);
            lemma_utf8_len_first(s.drop_first());
            assert(s.drop_first().drop_first() =~= s.skip(2));
        }
    }
}

/// The byte length of a text is that of its first character plus that of the
/// rest.
pub proof fn lemma_utf8_len_first(s: Seq<char>)
    requires
        s.len() > 0,
    ensures
        utf8_len(s) == utf8_width(s[0]) + utf8_len(s.drop_first()),
    decreases s.len(),
{
    if s.len() > 1 {
        lemma_utf8_len_first(s.drop_last());
        assert(s.drop_last().drop_first() =~= s.drop_first().drop_last());
        assert(s.drop_last()[0] == s[0]);
    } else {
        assert(s.drop_first() =~= Seq::<char>::empty());
        assert(s.drop_last() =~= Seq::<char>::empty());
    }
}

fn hex_digits_exec(hex: &str) -> (r: Vec<char>)
    ensures
        r@ == hex_digits(hex@),
{
    let v = chars_of(hex);
    let t = trim_chars(&v, CharClass::Whitespace);
    let mut i: usize = 0;
    assert(t@.skip(0) =~= t@);
    while i < t.len() && t[i] == '#'
        invariant
            i <= t.len(),
            trim_start_by(t@, CharClass::One('#')) == trim_start_by(
                t@.skip(i as int),
                CharClass::One('#'),
            ),
        decreases t.len() - i,
    {
        assert(t@.skip(i as int).drop_first() =~= t@.skip(i + 1));
        i = i + 1;
    }
    skip_chars(&t, i)
}

/// Whether reading a `#RRGGBB` field cuts it between characters.
pub fn hex_color_slices_ok(hex: &str) -> (r: bool)
    ensures
        r == hex_color_readable(hex@),
{
    let d = hex_digits_exec(hex);
    assert(d@.skip(0) =~= d@);
    !utf8_len_is(&d, 6) || byte_pairs_from(&d, 0).is_some()
}

/// The channels of a `#RRGGBB` field, when it holds 6 bytes of hexadecimal.
pub fn hex_color_channels(hex: &str) -> (r: Option<(u8, u8, u8)>)
    requires
        hex_color_readable(hex@),
    ensures
        r == hex_channels(hex@),
{
    let d = hex_digits_exec(hex);
    if !utf8_len_is(&d, 6) {
        return None;
    }
    assert(d@.skip(0) =~= d@);
    match byte_pairs_from(&d, 0) {
        Some(p) => {
            proof {
                lemma_pairs_count(d@);
            }
            let ghost pv = p@.map_values(|x: Vec<char>| x@);
            assert(pv.len() == 3);
            assert(pv[0] == p@[0]@ && pv[1] == p@[1]@ && pv[2] == p@[2]@);
            match (radix16_exec(&p[0]), radix16_exec(&p[1]), radix16_exec(&p[2])) {
                (Some(r), Some(g), Some(b)) => Some((r, g, b)),
                _ => None,
            }
        },
        None => None,
    }
}

} // verus!
