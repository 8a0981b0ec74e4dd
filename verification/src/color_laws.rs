//! Colour texts read and printed again: the two round trips between the
//! editor's colour texts and the channel values they stand for.
use vstd::prelude::*;
use crate::color::{
    byte_pairs, channel_or_zero, hex2_lower, hex2_upper, hex_channels, hex_color_of, hex_color_readable, hex_digits,
    hex_value, hypr_channels, hypr_color_of, hypr_color_readable, hypr_inner, lower_digit, radix16,
    upper_digit,
};
use crate::config::is_hypr_color;
use crate::numbers::{ascii_lower, lower};
use crate::text::{
    ends_with, is_ws, starts_with, trim, trim_start_by, utf8_len, utf8_width, CharClass,
};

verus! {

broadcast use vstd::string::group_string_axioms;

proof fn lemma_hex2(x: u8)
    ensures
        radix16(hex2_lower(x)) == Some(x),
        radix16(hex2_upper(x)) == Some(x),
        utf8_width(hex2_lower(x)[0]) == 1,
        utf8_width(hex2_lower(x)[1]) == 1,
        utf8_width(hex2_upper(x)[0]) == 1,
        utf8_width(hex2_upper(x)[1]) == 1,
        !is_ws(hex2_upper(x)[1]),
        hex2_upper(x)[0] != '#',
        !is_ws(hex2_upper(x)[0]),
{
    let h = x / 16;
    let l = x % 16;
    assert(h < 16 && l < 16);
    assert(h * 16 + l == x);
    assert(hex_value(lower_digit(h)) == Some(h));
    assert(hex_value(lower_digit(l)) == Some(l));
    assert(hex_value(upper_digit(h)) == Some(h));
    assert(hex_value(upper_digit(l)) == Some(l));
}

proof fn lemma_pairs_of_digits(d: Seq<Seq<char>>)
    requires
        forall|i: int| 0 <= i < d.len() ==> (#[trigger] d[i]).len() == 2 && utf8_width(d[i][0]) == 1
            && utf8_width(d[i][1]) == 1,
    ensures
        byte_pairs(d.flatten()) == Some(d),
        utf8_len(d.flatten()) == 2 * d.len(),
    decreases d.len(),
{
    if d.len() > 0 {
        let rest = d.drop_first();
        lemma_pairs_of_digits(rest);
        let s = d.flatten();
        assert(s =~= d[0] + rest.flatten());
        assert(s.skip(2) =~= rest.flatten());
        assert(s.take(2) =~= d[0]);
        assert(seq![d[0]] + rest =~= d);
        assert(s[0] == d[0][0] && s[1] == d[0][1]);
        lemma_utf8_len_concat(d[0], rest.flatten());
        lemma_utf8_len_two(d[0]);
    } else {
        assert(d.flatten() =~= Seq::<char>::empty());
    }
}

proof fn lemma_utf8_len_two(p: Seq<char>)
    requires
        p.len() == 2,
        utf8_width(p[0]) == 1,
        utf8_width(p[1]) == 1,
    ensures
        utf8_len(p) == 2,
{
    reveal_with_fuel(utf8_len, 3);
    assert(p.drop_last().drop_last() =~= Seq::<char>::empty());
    assert(p.drop_last().last() == p[0]);
}

proof fn lemma_utf8_len_concat(a: Seq<char>, b: Seq<char>)
    ensures
        utf8_len(a + b) == utf8_len(a) + utf8_len(b),
    decreases b.len(),
{
    if b.len() == 0 {
        assert(a + b =~= a);
    } else {
        lemma_utf8_len_concat(a, b.drop_last());
        assert((a + b).drop_last() =~= a + b.drop_last());
    }
}

/// Reading a Hyprland colour whose digits are eight bytes cut into pieces.
proof fn lemma_hypr_read(s: Seq<char>, d: Seq<Seq<char>>)
    requires
        utf8_len(hypr_inner(s)) == 8,
        byte_pairs(hypr_inner(s)) == Some(d),
    ensures
        hypr_color_readable(s),
        hypr_channels(s) == Some(
            (channel_or_zero(d[0]), channel_or_zero(d[1]), channel_or_zero(d[2]), channel_or_zero(d[3])),
        ),
{
}

/// `rgba(` and `)` around a text: its first and last characters and its
/// length in bytes.
proof fn lemma_hypr_frame(h: Seq<char>)
    ensures
        starts_with("rgba("@ + h + ")"@, "rgba("@),
        ends_with("rgba("@ + h + ")"@, ")"@),
        utf8_len("rgba("@ + h + ")"@) == utf8_len(h) + 6,
{
    reveal_strlit("rgba(");
    reveal_strlit(")");
    let s = "rgba("@ + h + ")"@;
    assert(s.take(5) =~= "rgba("@);
    assert(s.skip(s.len() - 1) =~= ")"@);
    lemma_utf8_len_concat("rgba("@, h);
    lemma_utf8_len_concat("rgba("@ + h, ")"@);
    assert(utf8_len("rgba("@) == 5) by {
        reveal_with_fuel(utf8_len, 6);
    }
    assert(utf8_len(")"@) == 1) by {
        reveal_with_fuel(utf8_len, 2);
    }
}

/// The colour text the editor writes for a Hyprland border colour passes the
/// save check and reads back as the same channels.
pub proof fn law_hypr_color_round_trip(r: u8, g: u8, b: u8, a: u8)
    ensures
        is_hypr_color(hypr_color_of(r, g, b, a)),
        hypr_color_readable(hypr_color_of(r, g, b, a)),
        hypr_channels(hypr_color_of(r, g, b, a)) == Some((r, g, b, a)),
{
    lemma_hex2(r);
    lemma_hex2(g);
    lemma_hex2(b);
    lemma_hex2(a);
    let d = seq![hex2_lower(r), hex2_lower(g), hex2_lower(b), hex2_lower(a)];
    let digits = d.flatten();
    assert(digits =~= hex2_lower(r) + hex2_lower(g) + hex2_lower(b) + hex2_lower(a)) by {
        reveal_with_fuel(Seq::flatten, 5);
        assert(d.drop_first().drop_first().drop_first().drop_first() =~= Seq::<Seq<char>>::empty());
        assert(d.drop_first().drop_first().drop_first() =~= seq![hex2_lower(a)]);
        assert(d.drop_first().drop_first() =~= seq![hex2_lower(b), hex2_lower(a)]);
        assert(d.drop_first() =~= seq![hex2_lower(g), hex2_lower(b), hex2_lower(a)]);
    }
    lemma_pairs_of_digits(d);
    let s = hypr_color_of(r, g, b, a);
    assert(s =~= "rgba("@ + digits + ")"@);
    lemma_hypr_inner_of(digits);
    lemma_hypr_frame(digits);
    lemma_hypr_read(s, d);
}

/// The `#RRGGBB` text the editor shows for a colour reads back as the same
/// channels.
pub proof fn law_hex_color_round_trip(r: u8, g: u8, b: u8)
    ensures
        hex_color_readable(hex_color_of(r, g, b)),
        hex_channels(hex_color_of(r, g, b)) == Some((r, g, b)),
{
    lemma_hex2(r);
    lemma_hex2(g);
    lemma_hex2(b);
    let d = seq![hex2_upper(r), hex2_upper(g), hex2_upper(b)];
    let digits = d.flatten();
    assert(digits =~= hex2_upper(r) + hex2_upper(g) + hex2_upper(b)) by {
        reveal_with_fuel(Seq::flatten, 4);
        assert(d.drop_first().drop_first().drop_first() =~= Seq::<Seq<char>>::empty());
        assert(d.drop_first().drop_first() =~= seq![hex2_upper(b)]);
        assert(d.drop_first() =~= seq![hex2_upper(g), hex2_upper(b)]);
    }
    lemma_pairs_of_digits(d);
    let s = hex_color_of(r, g, b);
    assert(s =~= seq!['#'] + digits);
    assert(!is_ws(s[0]));
    assert(trim_start_by(s, CharClass::Whitespace) == s);
    assert(!is_ws(s.last()));
    assert(trim(s) == s);
    assert(s.drop_first() =~= digits);
    assert(trim_start_by(digits, CharClass::One('#')) == digits);
    assert(hex_digits(s) == digits);
}

/// An ASCII hexadecimal digit.

/// An ASCII hexadecimal digit.
pub open spec fn is_hex_digit(c: char) -> bool {
    hex_value(c) is Some
}

/// A character with ASCII lower-case letters made upper-case.
pub open spec fn ascii_upper(c: char) -> char {
    if 'a' <= c && c <= 'z' {
        ((c as u32) - 32) as char
    } else {
        c
    }
}

/// `str::to_ascii_uppercase`.
pub open spec fn upper(s: Seq<char>) -> Seq<char> {
    s.map_values(|c: char| ascii_upper(c))
}

/// Two hexadecimal digits read as a byte print back as the same digits, in
/// lower or upper case.
proof fn lemma_pair_reprint(a: char, b: char)
    requires
        is_hex_digit(a),
        is_hex_digit(b),
    ensures
        radix16(seq![a, b]) is Some,
        hex2_lower(radix16(seq![a, b])->0) == seq![ascii_lower(a), ascii_lower(b)],
        hex2_upper(radix16(seq![a, b])->0) == seq![ascii_upper(a), ascii_upper(b)],
        utf8_width(a) == 1,
        utf8_width(b) == 1,
        !is_ws(a),
        a != '#',
{
    let ha = hex_value(a)->0;
    let hb = hex_value(b)->0;
    assert(ha < 16 && hb < 16);
    assert(seq![a, b][0] == a && seq![a, b][1] == b);
    let x = radix16(seq![a, b])->0;
    assert(x == ha * 16 + hb);
    assert(x / 16 == ha && x % 16 == hb);
    assert(lower_digit(ha) == ascii_lower(a));
    assert(lower_digit(hb) == ascii_lower(b));
    assert(upper_digit(ha) == ascii_upper(a));
    assert(upper_digit(hb) == ascii_upper(b));
    assert(hex2_lower(x) =~= seq![ascii_lower(a), ascii_lower(b)]);
    assert(hex2_upper(x) =~= seq![ascii_upper(a), ascii_upper(b)]);
}

/// The pieces of two characters of a text of hexadecimal digits.
proof fn lemma_digit_pairs(h: Seq<char>, n: int) -> (d: Seq<Seq<char>>)
    requires
        h.len() == 2 * n,
        n >= 0,
        forall|i: int| 0 <= i < h.len() ==> is_hex_digit(#[trigger] h[i]),
    ensures
        d.len() == n,
        d.flatten() == h,
        forall|i: int|
            0 <= i < n ==> #[trigger] d[i] == seq![h[2 * i], h[2 * i + 1]] && utf8_width(d[i][0])
                == 1 && utf8_width(d[i][1]) == 1,
    decreases n,
{
    if n == 0 {
        assert(h =~= Seq::<char>::empty());
        Seq::empty()
    } else {
        let rest = h.skip(2);
        let r = lemma_digit_pairs(rest, n - 1);
        lemma_pair_reprint(h[0], h[1]);
        let d = seq![seq![h[0], h[1]]] + r;
        assert forall|i: int| 0 <= i < n implies #[trigger] d[i] == seq![h[2 * i], h[2 * i + 1]]
            && utf8_width(d[i][0]) == 1 && utf8_width(d[i][1]) == 1 by {
            if i > 0 {
                assert(d[i] == r[i - 1]);
                assert(rest[2 * (i - 1)] == h[2 * i]);
                assert(rest[2 * (i - 1) + 1] == h[2 * i + 1]);
            }
        }
        assert(d.drop_first() =~= r);
        assert(d.flatten() =~= seq![h[0], h[1]] + r.flatten());
        assert(h =~= seq![h[0], h[1]] + rest);
        d
    }
}

/// The text inside `rgba(` ... `)`.
proof fn lemma_hypr_inner_of(h: Seq<char>)
    ensures
        hypr_inner("rgba("@ + h + ")"@) == h,
{
    reveal_strlit("rgba(");
    reveal_strlit(")");
    let s = "rgba("@ + h + ")"@;
    assert(s.take(5) =~= "rgba("@);
    assert(s.skip(5) =~= h + ")"@);
    assert(s.skip(5).skip(s.skip(5).len() - 1) =~= ")"@);
    assert(s.skip(5).drop_last() =~= h);
}


/// A text of hexadecimal digits cut into its two-character pieces.
proof fn lemma_hex_pieces(h: Seq<char>, n: int) -> (d: Seq<Seq<char>>)
    requires
        h.len() == 2 * n,
        n >= 0,
        forall|i: int| 0 <= i < h.len() ==> is_hex_digit(#[trigger] h[i]),
    ensures
        d.len() == n,
        byte_pairs(h) == Some(d),
        utf8_len(h) == h.len(),
        forall|i: int| 0 <= i < n ==> #[trigger] d[i] == seq![h[2 * i], h[2 * i + 1]],
{
    let d = lemma_digit_pairs(h, n);
    lemma_pairs_of_digits(d);
    d
}

/// Eight characters made lower-case, two by two.
proof fn lemma_lower_pairs(h: Seq<char>)
    requires
        h.len() == 8,
    ensures
        "rgba("@ + lower(h) + ")"@ == "rgba("@ + seq![ascii_lower(h[0]), ascii_lower(h[1])] + seq![
            ascii_lower(h[2]),
            ascii_lower(h[3]),
        ] + seq![ascii_lower(h[4]), ascii_lower(h[5])] + seq![ascii_lower(h[6]), ascii_lower(h[7])]
            + ")"@,
{
    assert(lower(h) =~= seq![
        ascii_lower(h[0]),
        ascii_lower(h[1]),
        ascii_lower(h[2]),
        ascii_lower(h[3]),
        ascii_lower(h[4]),
        ascii_lower(h[5]),
        ascii_lower(h[6]),
        ascii_lower(h[7]),
    ]);
    assert("rgba("@ + lower(h) + ")"@ =~= "rgba("@ + seq![ascii_lower(h[0]), ascii_lower(h[1])]
        + seq![ascii_lower(h[2]), ascii_lower(h[3])] + seq![ascii_lower(h[4]), ascii_lower(h[5])]
        + seq![ascii_lower(h[6]), ascii_lower(h[7])] + ")"@);
}

/// Six characters made upper-case, two by two.
proof fn lemma_upper_pairs(h: Seq<char>)
    requires
        h.len() == 6,
    ensures
        seq!['#'] + upper(h) == seq!['#'] + seq![ascii_upper(h[0]), ascii_upper(h[1])] + seq![
            ascii_upper(h[2]),
            ascii_upper(h[3]),
        ] + seq![ascii_upper(h[4]), ascii_upper(h[5])],
{
    assert(upper(h) =~= seq![
        ascii_upper(h[0]),
        ascii_upper(h[1]),
        ascii_upper(h[2]),
        ascii_upper(h[3]),
        ascii_upper(h[4]),
        ascii_upper(h[5]),
    ]);
    assert(seq!['#'] + upper(h) =~= seq!['#'] + seq![ascii_upper(h[0]), ascii_upper(h[1])] + seq![
        ascii_upper(h[2]),
        ascii_upper(h[3]),
    ] + seq![ascii_upper(h[4]), ascii_upper(h[5])]);
}

/// A channel read from two hexadecimal digits prints back as the same
/// digits in lower case.
proof fn lemma_lower_channel(a: char, b: char)
    requires
        is_hex_digit(a),
        is_hex_digit(b),
    ensures
        hex2_lower(channel_or_zero(seq![a, b])) == seq![ascii_lower(a), ascii_lower(b)],
{
    lemma_pair_reprint(a, b);
}

/// Channels whose lower-case digits are those of a text print as that text in
/// lower case.
proof fn lemma_hypr_print(x0: u8, x1: u8, x2: u8, x3: u8, h: Seq<char>)
    requires
        h.len() == 8,
        hex2_lower(x0) == seq![ascii_lower(h[0]), ascii_lower(h[1])],
        hex2_lower(x1) == seq![ascii_lower(h[2]), ascii_lower(h[3])],
        hex2_lower(x2) == seq![ascii_lower(h[4]), ascii_lower(h[5])],
        hex2_lower(x3) == seq![ascii_lower(h[6]), ascii_lower(h[7])],
    ensures
        hypr_color_of(x0, x1, x2, x3) == "rgba("@ + lower(h) + ")"@,
{
    lemma_lower_pairs(h);
}

/// Reading the channels of a Hyprland colour `rgba(rrggbbaa)` and printing
/// them again gives the colour text with its letters in lower case.
pub proof fn law_hypr_color_reprint(h: Seq<char>)
    requires
        h.len() == 8,
        forall|i: int| 0 <= i < h.len() ==> is_hex_digit(#[trigger] h[i]),
    ensures
        hypr_color_readable("rgba("@ + h + ")"@),
        hypr_channels("rgba("@ + h + ")"@) is Some,
        ({
            let (r, g, b, a) = hypr_channels("rgba("@ + h + ")"@)->0;
            hypr_color_of(r, g, b, a) == "rgba("@ + lower(h) + ")"@
        }),
{
    let d = lemma_hex_pieces(h, 4);
    lemma_hypr_inner_of(h);
    assert(d[0] == seq![h[0], h[1]]);
    assert(d[1] == seq![h[2], h[3]]);
    assert(d[2] == seq![h[4], h[5]]);
    assert(d[3] == seq![h[6], h[7]]);
    lemma_hypr_read("rgba("@ + h + ")"@, d);
    assert(is_hex_digit(h[0]) && is_hex_digit(h[1]) && is_hex_digit(h[2]) && is_hex_digit(h[3]));
    assert(is_hex_digit(h[4]) && is_hex_digit(h[5]) && is_hex_digit(h[6]) && is_hex_digit(h[7]));
    lemma_lower_channel(h[0], h[1]);
    lemma_lower_channel(h[2], h[3]);
    lemma_lower_channel(h[4], h[5]);
    lemma_lower_channel(h[6], h[7]);
    lemma_hypr_print(
        channel_or_zero(d[0]),
        channel_or_zero(d[1]),
        channel_or_zero(d[2]),
        channel_or_zero(d[3]),
        h,
    );
}

/// Reading a `#RRGGBB` field whose digits are six bytes cut into readable
/// pieces.
proof fn lemma_hex_read(s: Seq<char>, d: Seq<Seq<char>>)
    requires
        utf8_len(hex_digits(s)) == 6,
        byte_pairs(hex_digits(s)) == Some(d),
        radix16(d[0]) is Some,
        radix16(d[1]) is Some,
        radix16(d[2]) is Some,
    ensures
        hex_color_readable(s),
        hex_channels(s) == Some((radix16(d[0])->0, radix16(d[1])->0, radix16(d[2])->0)),
{
}

/// The digits of `#` followed by hexadecimal digits.
proof fn lemma_hex_digits_of(h: Seq<char>)
    requires
        h.len() == 6,
        is_hex_digit(h[0]),
        is_hex_digit(h[5]),
    ensures
        hex_digits(seq!['#'] + h) == h,
{
    lemma_pair_reprint(h[0], h[0]);
    lemma_pair_reprint(h[5], h[5]);
    let s = seq!['#'] + h;
    assert(trim_start_by(s, CharClass::Whitespace) == s);
    assert(s.last() == h[5]);
    assert(trim(s) == s);
    assert(s.drop_first() =~= h);
    assert(trim_start_by(h, CharClass::One('#')) == h);
}

/// A channel read from two hexadecimal digits prints back as the same
/// digits in upper case.
proof fn lemma_upper_channel(a: char, b: char)
    requires
        is_hex_digit(a),
        is_hex_digit(b),
    ensures
        radix16(seq![a, b]) is Some,
        hex2_upper(radix16(seq![a, b])->0) == seq![ascii_upper(a), ascii_upper(b)],
{
    lemma_pair_reprint(a, b);
}

/// Channels whose upper-case digits are those of a text print as `#` and
/// that text in upper case.
proof fn lemma_hex_print(x0: u8, x1: u8, x2: u8, h: Seq<char>)
    requires
        h.len() == 6,
        hex2_upper(x0) == seq![ascii_upper(h[0]), ascii_upper(h[1])],
        hex2_upper(x1) == seq![ascii_upper(h[2]), ascii_upper(h[3])],
        hex2_upper(x2) == seq![ascii_upper(h[4]), ascii_upper(h[5])],
    ensures
        hex_color_of(x0, x1, x2) == seq!['#'] + upper(h),
{
    lemma_upper_pairs(h);
}

/// Reading the channels of a `#RRGGBB` colour and printing them again gives
/// the colour text with its letters in upper case.
pub proof fn law_hex_color_reprint(h: Seq<char>)
    requires
        h.len() == 6,
        forall|i: int| 0 <= i < h.len() ==> is_hex_digit(#[trigger] h[i]),
    ensures
        hex_color_readable(seq!['#'] + h),
        hex_channels(seq!['#'] + h) is Some,
        ({
            let (r, g, b) = hex_channels(seq!['#'] + h)->0;
            hex_color_of(r, g, b) == seq!['#'] + upper(h)
        }),
{
    let d = lemma_hex_pieces(h, 3);
    assert(d[0] == seq![h[0], h[1]]);
    assert(d[1] == seq![h[2], h[3]]);
    assert(d[2] == seq![h[4], h[5]]);
    assert(is_hex_digit(h[0]) && is_hex_digit(h[1]) && is_hex_digit(h[2]));
    assert(is_hex_digit(h[3]) && is_hex_digit(h[4]) && is_hex_digit(h[5]));
    lemma_hex_digits_of(h);
    lemma_upper_channel(h[0], h[1]);
    lemma_upper_channel(h[2], h[3]);
    lemma_upper_channel(h[4], h[5]);
    lemma_hex_read(seq!['#'] + h, d);
    lemma_hex_print(radix16(d[0])->0, radix16(d[1])->0, radix16(d[2])->0, h);
}

} // verus!
