//! An animation row read from the line it stored stores that line again.
use vstd::prelude::*;
use crate::dispatch::escape;
use crate::entries::{
    anim_field, animation_curve, animation_fields, animation_row, field_value, AnimationRow,
};
use crate::luafile::bool_lua;
use crate::numbers::dec;
use crate::tables::{animation_beziers, animation_leaves, first_index, index_or, pick};
use crate::text::{
    after_first, contains, first_at, first_pos, in_class, is_ws, lemma_first_unique,
    lemma_split_concat, lemma_split_free, lemma_split_nonempty, lemma_trim_idem, occurs_at,
    replace_char, split, split_by, trim, trim_by, trim_end_by, trim_start_by, CharClass,
};

verus! {

broadcast use vstd::string::group_string_axioms;

/// The position of the first character of class `k`, or the length.
proof fn lemma_first_cut(s: Seq<char>, k: CharClass) -> (i: int)
    ensures
        0 <= i <= s.len(),
        forall|x: int| 0 <= x < i ==> !in_class(k, #[trigger] s[x]),
        i == s.len() || in_class(k, s[i]),
    decreases s.len(),
{
    if s.len() == 0 || in_class(k, s[0]) {
        0
    } else {
        let r = lemma_first_cut(s.drop_first(), k);
        assert forall|x: int| 0 <= x < r + 1 implies !in_class(k, #[trigger] s[x]) by {
            if x > 0 {
                assert(s[x] == s.drop_first()[x - 1]);
            }
        }
        if r + 1 < s.len() {
            assert(s[r + 1] == s.drop_first()[r]);
        }
        r + 1
    }
}

/// The first piece of a split ends at the first cut character.
proof fn lemma_split_first_piece(s: Seq<char>, k: CharClass, i: int)
    requires
        0 <= i <= s.len(),
        forall|x: int| 0 <= x < i ==> !in_class(k, #[trigger] s[x]),
        i == s.len() || in_class(k, s[i]),
    ensures
        split_by(s, k)[0] == s.take(i),
{
    if i == s.len() {
        lemma_split_free(s, k);
        assert(s.take(i) =~= s);
    } else {
        let a = s.take(i);
        assert forall|j: int| 0 <= j < a.len() implies !in_class(k, #[trigger] a[j]) by {
            assert(a[j] == s[j]);
        }
        lemma_split_concat(a, s[i], s.skip(i + 1), k);
        assert(a + seq![s[i]] + s.skip(i + 1) =~= s);
    }
}

/// The value text of a field `key = value,` read after its key: the text
/// between the first `=` and the next `,` or `}`.
proof fn lemma_field_piece(w: Seq<char>, c: char, y: Seq<char>)
    requires
        forall|j: int| 0 <= j < w.len() ==> #[trigger] w[j] != '=' && w[j] != ',' && w[j] != '}',
        c == ',' || c == '}',
    ensures
        split(seq![' ', '='] + w + seq![c] + y, '=').len() >= 2,
        split_by(split(seq![' ', '='] + w + seq![c] + y, '=')[1], CharClass::Either(',', '}'))[0]
            == w,
{
    let eq = CharClass::One('=');
    let e = CharClass::Either(',', '}');
    let a = seq![' ', '='] + w + seq![c] + y;
    let t = w + seq![c] + y;
    assert(a =~= seq![' '] + seq!['='] + t);
    lemma_split_concat(seq![' '], '=', t, eq);
    lemma_split_nonempty(t, eq);
    let i = lemma_first_cut(t, eq);
    if i <= w.len() {
        assert(t[i] == if i < w.len() { w[i] } else { c });
    }
    lemma_split_first_piece(t, eq, i);
    let p1 = t.take(i);
    assert(split(a, '=')[1] == p1);
    assert forall|x: int| 0 <= x < w.len() implies !in_class(e, #[trigger] p1[x]) by {
        assert(p1[x] == w[x]);
    }
    assert(p1[w.len() as int] == c);
    lemma_split_first_piece(p1, e, w.len() as int);
    assert(p1.take(w.len() as int) =~= w);
}

/// A text holding `pat` holds a leftmost occurrence of it.
proof fn lemma_leftmost(s: Seq<char>, pat: Seq<char>, w: int)
    requires
        occurs_at(s, pat, w),
    ensures
        exists|f: int| first_at(s, pat, f),
    decreases w,
{
    if forall|j: int| 0 <= j < w ==> !occurs_at(s, pat, j) {
        assert(first_at(s, pat, w));
    } else {
        let j = choose|j: int| 0 <= j < w && occurs_at(s, pat, j);
        lemma_leftmost(s, pat, j);
    }
}

/// Reading the field `key` of a line whose first `key` stands at `pos` and
/// is followed by ` =`, the value text `w`, then `,` or `}`, when `key` does
/// not occur again before that `,` or `}`.
pub(crate) proof fn lemma_read_field(
    line: Seq<char>,
    key: Seq<char>,
    pos: int,
    w: Seq<char>,
    c: char,
    y: Seq<char>,
    d: Seq<char>,
)
    requires
        key.len() > 0,
        occurs_at(line, key, pos),
        forall|j: int| 0 <= j < pos ==> !occurs_at(line, key, j),
        line.skip(pos + key.len()) == seq![' ', '='] + w + seq![c] + y,
        forall|j: int| 0 <= j < w.len() ==> #[trigger] w[j] != '=' && w[j] != ',' && w[j] != '}',
        c == ',' || c == '}',
        forall|j: int|
            0 <= j < w.len() + 3 ==> !occurs_at(seq![' ', '='] + w + seq![c] + y, key, j),
    ensures
        anim_field(line, key, d) == trim_by(trim(w), CharClass::One('"')),
        field_value(line, key) == trim_by(trim(w), CharClass::One('"')),
{
    lemma_first_unique(line, key, pos);
    let rest = line.skip(pos + key.len());
    assert(after_first(line, key) is Some);
    if contains(rest, key) {
        let o = choose|o: int| occurs_at(rest, key, o);
        lemma_leftmost(rest, key, o);
        let q = first_pos(rest, key);
        assert(first_at(rest, key, q));
        assert(q >= w.len() + 3);
        let y2 = y.take(q - w.len() - 3);
        assert(rest.take(q) =~= seq![' ', '='] + w + seq![c] + y2);
        lemma_field_piece(w, c, y2);
        lemma_field_piece(w, c, y);
    } else {
        lemma_field_piece(w, c, y);
    }
}

/// A character of a name: an ASCII letter or `_`.
pub(crate) open spec fn is_letter(c: char) -> bool {
    ('a' <= c && c <= 'z') || ('A' <= c && c <= 'Z') || c == '_'
}

/// A text made of name characters only.
pub(crate) open spec fn letters(s: Seq<char>) -> bool {
    forall|i: int| 0 <= i < s.len() ==> is_letter(#[trigger] s[i])
}

/// An occurrence of `key` matches it character by character.
pub(crate) proof fn lemma_occ_char(s: Seq<char>, key: Seq<char>, j: int, t: int)
    requires
        occurs_at(s, key, j),
        0 <= t < key.len(),
    ensures
        s[j + t] == key[t],
{
    assert(s.subrange(j, j + key.len())[t] == s[j + t]);
}

/// An occurrence of a word that starts inside a run of letters ended by a
/// character that is not a letter lies inside the run.
pub(crate) proof fn lemma_in_run(s: Seq<char>, key: Seq<char>, j: int, a: int, r: Seq<char>)
    requires
        key.len() > 0,
        letters(key),
        occurs_at(s, key, j),
        0 <= a <= j <= a + r.len(),
        a + r.len() < s.len(),
        s.subrange(a, a + r.len()) == r,
        !is_letter(s[a + r.len()]),
    ensures
        contains(r, key),
{
    lemma_occ_char(s, key, j, 0);
    if j + key.len() > a + r.len() {
        let t = a + r.len() - j;
        lemma_occ_char(s, key, j, t);
        assert(is_letter(key[t]));
    } else {
        assert(r.subrange(j - a, j - a + key.len()) =~= s.subrange(j, j + key.len()));
        assert(occurs_at(r, key, j - a));
    }
}

/// An occurrence of a word starts at a letter.
pub(crate) proof fn lemma_starts_letter(s: Seq<char>, key: Seq<char>, j: int)
    requires
        key.len() > 0,
        letters(key),
        occurs_at(s, key, j),
    ensures
        is_letter(s[j]),
{
    lemma_occ_char(s, key, j, 0);
}

/// A text holds no `key` when the character at position `t` of `key` is
/// missing from every position where that character of an occurrence could
/// stand.
pub(crate) proof fn lemma_window_free(s: Seq<char>, key: Seq<char>, t: int)
    requires
        0 <= t < key.len(),
        forall|x: int| t <= x <= s.len() - key.len() + t ==> #[trigger] s[x] != key[t],
    ensures
        !contains(s, key),
{
    if contains(s, key) {
        let j = choose|j: int| occurs_at(s, key, j);
        lemma_occ_char(s, key, j, t);
    }
}

/// One animation target holds none of the field names.
proof fn lemma_leaf_free(l: Seq<char>, tl: int, te: int, ts: int, tb: int)
    requires
        0 <= tl < 4,
        0 <= te < 7,
        0 <= ts < 5,
        0 <= tb < 6,
        forall|x: int| tl <= x <= l.len() - 4 + tl ==> #[trigger] l[x] != "leaf"@[tl],
        forall|x: int| te <= x <= l.len() - 7 + te ==> #[trigger] l[x] != "enabled"@[te],
        forall|x: int| ts <= x <= l.len() - 5 + ts ==> #[trigger] l[x] != "speed"@[ts],
        forall|x: int| tb <= x <= l.len() - 6 + tb ==> #[trigger] l[x] != "bezier"@[tb],
    ensures
        !contains(l, "leaf"@),
        !contains(l, "enabled"@),
        !contains(l, "speed"@),
        !contains(l, "bezier"@),
{
    reveal_strlit("leaf");
    reveal_strlit("enabled");
    reveal_strlit("speed");
    reveal_strlit("bezier");
    lemma_window_free(l, "leaf"@, tl);
    lemma_window_free(l, "enabled"@, te);
    lemma_window_free(l, "speed"@, ts);
    lemma_window_free(l, "bezier"@, tb);
}

/// The animation targets are words that hold none of the field names.
proof fn lemma_leaves_free(i: int)
    requires
        0 <= i < animation_leaves().len(),
    ensures
        letters(animation_leaves()[i]),
        animation_leaves()[i].len() > 0,
        !contains(animation_leaves()[i], "leaf"@),
        !contains(animation_leaves()[i], "enabled"@),
        !contains(animation_leaves()[i], "speed"@),
        !contains(animation_leaves()[i], "bezier"@),
{
    reveal_strlit("windows");
    reveal_strlit("windowsIn");
    reveal_strlit("windowsOut");
    reveal_strlit("border");
    reveal_strlit("borderangle");
    reveal_strlit("fade");
    reveal_strlit("workspaces");
    reveal_strlit("layers");
    reveal_strlit("leaf");
    reveal_strlit("enabled");
    reveal_strlit("speed");
    reveal_strlit("bezier");
    let l = animation_leaves()[i];
    if i == 0 {
        lemma_leaf_free(l, 0, 0, 0, 3);
    } else if i == 1 {
        lemma_leaf_free(l, 0, 0, 0, 3);
    } else if i == 2 {
        lemma_leaf_free(l, 0, 0, 0, 3);
    } else if i == 3 {
        lemma_leaf_free(l, 0, 0, 0, 3);
    } else if i == 4 {
        lemma_leaf_free(l, 0, 1, 0, 3);
    } else if i == 5 {
        lemma_leaf_free(l, 0, 0, 0, 3);
    } else if i == 6 {
        lemma_leaf_free(l, 0, 0, 2, 3);
    } else {
        lemma_leaf_free(l, 2, 0, 0, 3);
    }
}

/// The line an animation row stores, from its target, switch, speed and
/// escaped curve texts.
spec fn anim_line(l: Seq<char>, b: Seq<char>, n: Seq<char>, e: Seq<char>) -> Seq<char> {
    "hl.animation({ leaf = \""@ + l + "\", enabled = "@ + b + ", speed = "@ + n + ", bezier = \""@
        + e + "\" })"@
}

/// A text between two double quotes, after trimming whitespace and quotes.
pub(crate) proof fn lemma_unquote(x: Seq<char>, before: Seq<char>, after: Seq<char>)
    requires
        x.len() > 0,
        x[0] != '"',
        x.last() != '"',
        forall|i: int| 0 <= i < before.len() ==> is_ws(#[trigger] before[i]),
        forall|i: int| 0 <= i < after.len() ==> is_ws(#[trigger] after[i]),
    ensures
        trim_by(trim(before + seq!['"'] + x + seq!['"'] + after), CharClass::One('"')) == x,
    decreases before.len() + after.len(),
{
    let ws = CharClass::Whitespace;
    let q = CharClass::One('"');
    let s = before + seq!['"'] + x + seq!['"'] + after;
    if before.len() > 0 {
        assert(s.drop_first() =~= before.drop_first() + seq!['"'] + x + seq!['"'] + after);
        assert(in_class(ws, s[0]));
        assert forall|i: int| 0 <= i < before.drop_first().len() implies is_ws(
            #[trigger] before.drop_first()[i],
        ) by {
            assert(before.drop_first()[i] == before[i + 1]);
        }
        lemma_unquote(x, before.drop_first(), after);
        assert(trim_start_by(s, ws) == trim_start_by(s.drop_first(), ws));
    } else if after.len() > 0 {
        assert(s.drop_last() =~= before + seq!['"'] + x + seq!['"'] + after.drop_last());
        assert forall|i: int| 0 <= i < after.drop_last().len() implies is_ws(
            #[trigger] after.drop_last()[i],
        ) by {
            assert(after.drop_last()[i] == after[i]);
        }
        lemma_unquote(x, before, after.drop_last());
        let u = seq!['"'] + x + seq!['"'];
        assert(s =~= u + after);
        assert(trim_start_by(s, ws) == s);
        assert(trim_start_by(s.drop_last(), ws) == s.drop_last());
        assert(in_class(ws, s.last()));
        assert(trim_end_by(s, ws) == trim_end_by(s.drop_last(), ws));
    } else {
        let u = seq!['"'] + x + seq!['"'];
        assert(s =~= u);
        assert(trim_start_by(u, ws) == u);
        assert(trim_end_by(u, ws) == u);
        assert(u.drop_first() =~= x + seq!['"']);
        assert(trim_start_by(u, q) == trim_start_by(x + seq!['"'], q));
        assert((x + seq!['"'])[0] == x[0]);
        assert(trim_start_by(x + seq!['"'], q) == x + seq!['"']);
        assert((x + seq!['"']).drop_last() =~= x);
        assert(trim_end_by(x + seq!['"'], q) == trim_end_by(x, q));
        assert(trim_end_by(x, q) == x);
    }
}

/// `"animation"` holds none of the field names.
proof fn lemma_animation_word()
    ensures
        letters("animation"@),
        !contains("animation"@, "leaf"@),
        !contains("animation"@, "enabled"@),
        !contains("animation"@, "speed"@),
        !contains("animation"@, "bezier"@),
{
    reveal_strlit("animation");
    reveal_strlit("leaf");
    reveal_strlit("enabled");
    reveal_strlit("speed");
    reveal_strlit("bezier");
    lemma_window_free("animation"@, "leaf"@, 0);
    lemma_window_free("animation"@, "enabled"@, 0);
    lemma_window_free("animation"@, "speed"@, 0);
    lemma_window_free("animation"@, "bezier"@, 0);
}

/// The target read from an animation line.
proof fn lemma_read_leaf(l: Seq<char>, b: Seq<char>, n: Seq<char>, e: Seq<char>)
    requires
        l.len() > 0,
        letters(l),
        !contains(l, "leaf"@),
    ensures
        anim_field(anim_line(l, b, n, e), "leaf"@, "windows"@) == l,
{
    let line = anim_line(l, b, n, e);
    let key = "leaf"@;
    let h = "hl.animation({ leaf = \""@;
    reveal_strlit("hl.animation({ leaf = \"");
    reveal_strlit("leaf");
    reveal_strlit("hl");
    reveal_strlit("\", enabled = ");
    lemma_animation_word();
    assert(letters(key));
    assert(line.subrange(0, 23) =~= h);
    assert(line.subrange(15, 19) =~= key);
    assert(line.subrange(0, 2) =~= "hl"@);
    assert(line.subrange(3, 12) =~= "animation"@) by {
        reveal_strlit("animation");
    }
    assert forall|j: int| 0 <= j < 15 implies !occurs_at(line, key, j) by {
        if occurs_at(line, key, j) {
            lemma_starts_letter(line, key, j);
            if j <= 2 {
                lemma_in_run(line, key, j, 0, "hl"@);
            } else if j <= 12 {
                lemma_in_run(line, key, j, 3, "animation"@);
            }
        }
    }
    let w = seq![' ', '"'] + l + seq!['"'];
    let y = " enabled = "@ + b + ", speed = "@ + n + ", bezier = \""@ + e + "\" })"@;
    let rest = line.skip(19);
    assert(rest =~= seq![' ', '='] + w + seq![','] + y) by {
        reveal_strlit(" enabled = ");
    }
    assert forall|j: int| 0 <= j < w.len() implies #[trigger] w[j] != '=' && w[j] != ','
        && w[j] != '}' by {
        if 2 <= j < 2 + l.len() {
            assert(w[j] == l[j - 2]);
            assert(is_letter(l[j - 2]));
        }
    }
    assert(rest.subrange(4, 4 + l.len() as int) =~= l);
    assert forall|j: int| 0 <= j < w.len() + 3 implies !occurs_at(rest, key, j) by {
        if occurs_at(rest, key, j) {
            lemma_starts_letter(rest, key, j);
            if 4 <= j <= 4 + l.len() {
                lemma_in_run(rest, key, j, 4, l);
            }
        }
    }
    lemma_read_field(line, key, 15, w, ',', y, "windows"@);
    assert(is_letter(l[0]) && is_letter(l.last()));
    lemma_unquote(l, seq![' '], Seq::empty());
    assert(w =~= seq![' '] + seq!['"'] + l + seq!['"'] + Seq::<char>::empty());
}

/// The decimal digits of a number are not letters, quotes or whitespace.
proof fn lemma_dec_digits(k: nat)
    ensures
        dec(k).len() > 0,
        forall|x: int| 0 <= x < dec(k).len() ==> '0' <= #[trigger] dec(k)[x] <= '9',
    decreases k,
{
    if k >= 10 {
        lemma_dec_digits(k / 10);
        assert forall|x: int| 0 <= x < dec(k).len() implies '0' <= #[trigger] dec(k)[x] <= '9' by {
            if x < dec(k / 10).len() {
                assert(dec(k)[x] == dec(k / 10)[x]);
            }
        }
    }
}

/// A value between whitespace, with no whitespace or quote at its ends,
/// reads back as itself.
pub(crate) proof fn lemma_plain_value(x: Seq<char>, before: Seq<char>, after: Seq<char>)
    requires
        x.len() > 0,
        !is_ws(x[0]),
        !is_ws(x.last()),
        x[0] != '"',
        x.last() != '"',
        forall|i: int| 0 <= i < before.len() ==> is_ws(#[trigger] before[i]),
        forall|i: int| 0 <= i < after.len() ==> is_ws(#[trigger] after[i]),
    ensures
        trim_by(trim(before + x + after), CharClass::One('"')) == x,
    decreases before.len() + after.len(),
{
    let ws = CharClass::Whitespace;
    let q = CharClass::One('"');
    let s = before + x + after;
    if before.len() > 0 {
        assert(s.drop_first() =~= before.drop_first() + x + after);
        assert forall|i: int| 0 <= i < before.drop_first().len() implies is_ws(
            #[trigger] before.drop_first()[i],
        ) by {
            assert(before.drop_first()[i] == before[i + 1]);
        }
        lemma_plain_value(x, before.drop_first(), after);
        assert(in_class(ws, s[0]));
        assert(trim_start_by(s, ws) == trim_start_by(s.drop_first(), ws));
    } else if after.len() > 0 {
        assert(s.drop_last() =~= before + x + after.drop_last());
        assert forall|i: int| 0 <= i < after.drop_last().len() implies is_ws(
            #[trigger] after.drop_last()[i],
        ) by {
            assert(after.drop_last()[i] == after[i]);
        }
        lemma_plain_value(x, before, after.drop_last());
        assert(s =~= x + after);
        assert(trim_start_by(s, ws) == s);
        assert(trim_start_by(s.drop_last(), ws) == s.drop_last());
        assert(in_class(ws, s.last()));
        assert(trim_end_by(s, ws) == trim_end_by(s.drop_last(), ws));
    } else {
        assert(s =~= x);
        assert(trim_start_by(x, ws) == x);
        assert(trim_end_by(x, ws) == x);
        assert(trim_start_by(x, q) == x);
        assert(trim_end_by(x, q) == x);
    }
}

/// The switch text read from an animation line.
proof fn lemma_read_enabled(l: Seq<char>, b: Seq<char>, n: Seq<char>, e: Seq<char>)
    requires
        l.len() > 0,
        letters(l),
        !contains(l, "enabled"@),
        b == "true"@ || b == "false"@,
    ensures
        anim_field(anim_line(l, b, n, e), "enabled"@, "true"@) == b,
{
    let line = anim_line(l, b, n, e);
    let key = "enabled"@;
    let h = "hl.animation({ leaf = \""@;
    let ll = l.len() as int;
    reveal_strlit("hl.animation({ leaf = \"");
    reveal_strlit("leaf");
    reveal_strlit("hl");
    reveal_strlit("enabled");
    reveal_strlit("\", enabled = ");
    reveal_strlit("true");
    reveal_strlit("false");
    lemma_animation_word();
    assert(letters(key));
    assert(line.subrange(0, 23) =~= h);
    assert(line.subrange(23, 23 + ll) =~= l);
    assert(line.subrange(23 + ll, 36 + ll) =~= "\", enabled = "@);
    assert(line.subrange(26 + ll, 33 + ll) =~= key);
    assert(line.subrange(0, 2) =~= "hl"@);
    assert(line.subrange(3, 12) =~= "animation"@) by {
        reveal_strlit("animation");
    }
    assert(line.subrange(15, 19) =~= "leaf"@);
    assert forall|j: int| 0 <= j < 26 + ll implies !occurs_at(line, key, j) by {
        if occurs_at(line, key, j) {
            lemma_starts_letter(line, key, j);
            if j <= 2 {
                lemma_in_run(line, key, j, 0, "hl"@);
            } else if j <= 12 {
                lemma_in_run(line, key, j, 3, "animation"@);
            } else if 15 <= j <= 19 {
                lemma_in_run(line, key, j, 15, "leaf"@);
            } else if 23 <= j <= 23 + ll {
                lemma_in_run(line, key, j, 23, l);
            }
        }
    }
    let w = seq![' '] + b;
    let y = " speed = "@ + n + ", bezier = \""@ + e + "\" })"@;
    let rest = line.skip(33 + ll);
    assert(rest =~= seq![' ', '='] + w + seq![','] + y) by {
        reveal_strlit(", speed = ");
        reveal_strlit(" speed = ");
    }
    assert forall|j: int| 0 <= j < w.len() implies #[trigger] w[j] != '=' && w[j] != ','
        && w[j] != '}' by {}
    assert(rest.subrange(3, 3 + b.len() as int) =~= b);
    assert forall|j: int| 0 <= j < w.len() + 3 implies !occurs_at(rest, key, j) by {
        if occurs_at(rest, key, j) {
            lemma_starts_letter(rest, key, j);
            if 3 <= j <= 3 + b.len() {
                lemma_in_run(rest, key, j, 3, b);
            }
        }
    }
    lemma_read_field(line, key, 26 + ll, w, ',', y, "true"@);
    lemma_plain_value(b, seq![' '], Seq::empty());
    assert(seq![' '] + b + Seq::<char>::empty() =~= seq![' '] + b);
}

/// The speed text read from an animation line.
proof fn lemma_read_speed(l: Seq<char>, b: Seq<char>, n: Seq<char>, e: Seq<char>)
    requires
        l.len() > 0,
        letters(l),
        !contains(l, "speed"@),
        b == "true"@ || b == "false"@,
        n.len() > 0,
        forall|x: int| 0 <= x < n.len() ==> '0' <= #[trigger] n[x] <= '9',
    ensures
        anim_field(anim_line(l, b, n, e), "speed"@, "7"@) == n,
{
    let line = anim_line(l, b, n, e);
    let key = "speed"@;
    let h = "hl.animation({ leaf = \""@;
    let ll = l.len() as int;
    let bl = b.len() as int;
    reveal_strlit("hl.animation({ leaf = \"");
    reveal_strlit("leaf");
    reveal_strlit("hl");
    reveal_strlit("enabled");
    reveal_strlit("speed");
    reveal_strlit("\", enabled = ");
    reveal_strlit(", speed = ");
    reveal_strlit("true");
    reveal_strlit("false");
    lemma_animation_word();
    assert(letters(key));
    assert(!contains("enabled"@, key)) by {
        lemma_window_free("enabled"@, key, 0);
    }
    assert(!contains(b, key)) by {
        lemma_window_free(b, key, 0);
    }
    assert(line.subrange(0, 23) =~= h);
    assert(line.subrange(23, 23 + ll) =~= l);
    assert(line.subrange(23 + ll, 36 + ll) =~= "\", enabled = "@);
    assert(line.subrange(26 + ll, 33 + ll) =~= "enabled"@);
    assert(line.subrange(36 + ll, 36 + ll + bl) =~= b);
    assert(line.subrange(36 + ll + bl, 46 + ll + bl) =~= ", speed = "@);
    assert(line.subrange(38 + ll + bl, 43 + ll + bl) =~= key);
    assert(line.subrange(0, 2) =~= "hl"@);
    assert(line.subrange(3, 12) =~= "animation"@) by {
        reveal_strlit("animation");
    }
    assert(line.subrange(15, 19) =~= "leaf"@);
    assert forall|j: int| 0 <= j < 38 + ll + bl implies !occurs_at(line, key, j) by {
        if occurs_at(line, key, j) {
            lemma_starts_letter(line, key, j);
            if j <= 2 {
                lemma_in_run(line, key, j, 0, "hl"@);
            } else if j <= 12 {
                lemma_in_run(line, key, j, 3, "animation"@);
            } else if 15 <= j <= 19 {
                lemma_in_run(line, key, j, 15, "leaf"@);
            } else if 23 <= j <= 23 + ll {
                lemma_in_run(line, key, j, 23, l);
            } else if 26 + ll <= j <= 33 + ll {
                lemma_in_run(line, key, j, 26 + ll, "enabled"@);
            } else if 36 + ll <= j <= 36 + ll + bl {
                lemma_in_run(line, key, j, 36 + ll, b);
            }
        }
    }
    let w = seq![' '] + n;
    let y = " bezier = \""@ + e + "\" })"@;
    let rest = line.skip(43 + ll + bl);
    assert(rest =~= seq![' ', '='] + w + seq![','] + y) by {
        reveal_strlit(", bezier = \"");
        reveal_strlit(" bezier = \"");
    }
    assert forall|j: int| 0 <= j < w.len() implies #[trigger] w[j] != '=' && w[j] != ','
        && w[j] != '}' by {
        if j > 0 {
            assert(w[j] == n[j - 1]);
        }
    }
    assert forall|j: int| 0 <= j < w.len() + 3 implies !occurs_at(rest, key, j) by {
        if occurs_at(rest, key, j) {
            lemma_starts_letter(rest, key, j);
            if 3 <= j < 3 + n.len() {
                assert(rest[j] == n[j - 3]);
            }
        }
    }
    lemma_read_field(line, key, 38 + ll + bl, w, ',', y, "7"@);
    lemma_plain_value(n, seq![' '], Seq::empty());
    assert(seq![' '] + n + Seq::<char>::empty() =~= seq![' '] + n);
}

/// The curve text read from an animation line.
proof fn lemma_read_bezier(l: Seq<char>, b: Seq<char>, n: Seq<char>, e: Seq<char>)
    requires
        l.len() > 0,
        letters(l),
        !contains(l, "bezier"@),
        b == "true"@ || b == "false"@,
        n.len() > 0,
        forall|x: int| 0 <= x < n.len() ==> '0' <= #[trigger] n[x] <= '9',
        e.len() > 0,
        forall|x: int| 0 <= x < e.len() ==> #[trigger] e[x] != '=' && e[x] != ',' && e[x] != '}'
            && e[x] != '"',
        !contains(e, "bezier"@),
    ensures
        anim_field(anim_line(l, b, n, e), "bezier"@, "default"@) == e,
{
    let line = anim_line(l, b, n, e);
    let key = "bezier"@;
    let h = "hl.animation({ leaf = \""@;
    let ll = l.len() as int;
    let bl = b.len() as int;
    let nl = n.len() as int;
    reveal_strlit("hl.animation({ leaf = \"");
    reveal_strlit("leaf");
    reveal_strlit("hl");
    reveal_strlit("enabled");
    reveal_strlit("speed");
    reveal_strlit("bezier");
    reveal_strlit("\", enabled = ");
    reveal_strlit(", speed = ");
    reveal_strlit(", bezier = \"");
    reveal_strlit("\" })");
    reveal_strlit("true");
    reveal_strlit("false");
    lemma_animation_word();
    assert(letters(key));
    assert(!contains("enabled"@, key)) by {
        lemma_window_free("enabled"@, key, 0);
    }
    assert(!contains("speed"@, key)) by {
        lemma_window_free("speed"@, key, 0);
    }
    assert(!contains(b, key)) by {
        lemma_window_free(b, key, 0);
    }
    assert(line.subrange(0, 23) =~= h);
    assert(line.subrange(23, 23 + ll) =~= l);
    assert(line.subrange(23 + ll, 36 + ll) =~= "\", enabled = "@);
    assert(line.subrange(26 + ll, 33 + ll) =~= "enabled"@);
    assert(line.subrange(36 + ll, 36 + ll + bl) =~= b);
    assert(line.subrange(36 + ll + bl, 46 + ll + bl) =~= ", speed = "@);
    assert(line.subrange(38 + ll + bl, 43 + ll + bl) =~= "speed"@);
    assert(line.subrange(46 + ll + bl, 46 + ll + bl + nl) =~= n);
    assert(line.subrange(46 + ll + bl + nl, 58 + ll + bl + nl) =~= ", bezier = \""@);
    assert(line.subrange(48 + ll + bl + nl, 54 + ll + bl + nl) =~= key);
    assert(line.subrange(0, 2) =~= "hl"@);
    assert(line.subrange(3, 12) =~= "animation"@) by {
        reveal_strlit("animation");
    }
    assert(line.subrange(15, 19) =~= "leaf"@);
    assert forall|j: int| 0 <= j < 48 + ll + bl + nl implies !occurs_at(line, key, j) by {
        if occurs_at(line, key, j) {
            lemma_starts_letter(line, key, j);
            if j <= 2 {
                lemma_in_run(line, key, j, 0, "hl"@);
            } else if j <= 12 {
                lemma_in_run(line, key, j, 3, "animation"@);
            } else if 15 <= j <= 19 {
                lemma_in_run(line, key, j, 15, "leaf"@);
            } else if 23 <= j <= 23 + ll {
                lemma_in_run(line, key, j, 23, l);
            } else if 26 + ll <= j <= 33 + ll {
                lemma_in_run(line, key, j, 26 + ll, "enabled"@);
            } else if 36 + ll <= j <= 36 + ll + bl {
                lemma_in_run(line, key, j, 36 + ll, b);
            } else if 38 + ll + bl <= j <= 43 + ll + bl {
                lemma_in_run(line, key, j, 38 + ll + bl, "speed"@);
            } else if 46 + ll + bl <= j < 46 + ll + bl + nl {
                assert(line[j] == n[j - 46 - ll - bl]);
            }
        }
    }
    let w = seq![' ', '"'] + e + seq!['"', ' '];
    let y = seq![')'];
    let rest = line.skip(54 + ll + bl + nl);
    assert(rest =~= seq![' ', '='] + w + seq!['}'] + y);
    assert forall|j: int| 0 <= j < w.len() implies #[trigger] w[j] != '=' && w[j] != ','
        && w[j] != '}' by {
        if 2 <= j < 2 + e.len() {
            assert(w[j] == e[j - 2]);
        }
    }
    assert(rest.subrange(4, 4 + e.len() as int) =~= e);
    assert forall|j: int| 0 <= j < w.len() + 3 implies !occurs_at(rest, key, j) by {
        if occurs_at(rest, key, j) {
            lemma_starts_letter(rest, key, j);
            if 4 <= j <= 4 + e.len() {
                lemma_in_run(rest, key, j, 4, e);
            }
        }
    }
    lemma_read_field(line, key, 48 + ll + bl + nl, w, '}', y, "default"@);
    lemma_unquote(e, seq![' '], seq![' ']);
    assert(w =~= seq![' '] + seq!['"'] + e + seq!['"'] + seq![' ']);
}

/// Replacing a character that a text does not hold leaves the text.
pub(crate) proof fn lemma_replace_absent(t: Seq<char>, c: char, r: Seq<char>)
    requires
        forall|x: int| 0 <= x < t.len() ==> #[trigger] t[x] != c,
    ensures
        replace_char(t, c, r) == t,
    decreases t.len(),
{
    if t.len() > 0 {
        assert forall|x: int| 0 <= x < t.drop_last().len() implies #[trigger] t.drop_last()[x]
            != c by {
            assert(t.drop_last()[x] == t[x]);
        }
        lemma_replace_absent(t.drop_last(), c, r);
        assert(t.drop_last() + seq![t.last()] =~= t);
    }
}

/// The position a choice list shows for one of its entries holds that entry.
proof fn lemma_index_found(list: Seq<Seq<char>>, x: Seq<char>, w: int, d: int)
    requires
        0 <= w < list.len(),
        list[w] == x,
    ensures
        first_index(list, x, index_or(list, x, d)),
    decreases w,
{
    assert(list.contains(x));
    if forall|j: int| 0 <= j < w ==> list[j] != x {
        assert(first_index(list, x, w));
    } else {
        let j = choose|j: int| 0 <= j < w && list[j] == x;
        lemma_index_found(list, x, j, d);
    }
}

/// An animation row read from the line it stored stores that line again,
/// and shows the speed it stored; when the curve holds none of `=`, `,`,
/// `}`, `"`, `\` and not the word `bezier`.
#[verifier::spinoff_prover]
pub proof fn law_animation_row_round_trip(
    leaf: usize,
    enabled: bool,
    speed: u32,
    bezier: usize,
    custom: Seq<char>,
    r: AnimationRow,
)
    requires
        forall|x: int|
            0 <= x < animation_curve(bezier as int, custom).len() ==> {
                let ch = #[trigger] animation_curve(bezier as int, custom)[x];
                ch != '=' && ch != ',' && ch != '}' && ch != '"' && ch != '\\'
            },
        !contains(animation_curve(bezier as int, custom), "bezier"@),
        animation_fields(animation_row(leaf as int, enabled, speed, bezier as int, custom), r),
    ensures
        r.speed@ == dec(speed as nat),
        animation_row(r.leaf as int, r.enabled, speed, r.bezier as int, r.custom@) == animation_row(
            leaf as int,
            enabled,
            speed,
            bezier as int,
            custom,
        ),
{
    let leaves = animation_leaves();
    let beziers = animation_beziers();
    let li: int = if leaf < 8 {
        leaf as int
    } else {
        0
    };
    let l = pick(leaves, leaf as int, "windows"@);
    assert(l == leaves[li]);
    let b = bool_lua(enabled);
    let n = dec(speed as nat);
    let c = animation_curve(bezier as int, custom);
    let selected = pick(beziers, bezier as int, "default"@);
    reveal_strlit("true");
    reveal_strlit("false");
    reveal_strlit("default");
    reveal_strlit("linear");
    reveal_strlit("easeOutQuint");
    reveal_strlit("easeInOutCubic");
    reveal_strlit("easeOutBack");
    reveal_strlit("myBezier");
    reveal_strlit("custom");
    lemma_leaves_free(li);
    lemma_dec_digits(speed as nat);
    assert(b == "true"@ || b == "false"@);
    lemma_replace_absent(c, '\\', seq!['\\', '\\']);
    lemma_replace_absent(c, '"', seq!['\\', '"']);
    assert(escape(c) == c);
    lemma_trim_idem(custom, CharClass::Whitespace);
    assert(beziers.contains(selected)) by {
        if 0 <= bezier < beziers.len() {
            assert(beziers[bezier as int] == selected);
        } else {
            assert(beziers[0] == selected);
        }
    }
    assert(c.len() > 0);
    let line = animation_row(leaf as int, enabled, speed, bezier as int, custom);
    assert(line =~= anim_line(l, b, n, c));
    lemma_read_leaf(l, b, n, c);
    lemma_read_enabled(l, b, n, c);
    lemma_read_speed(l, b, n, c);
    lemma_read_bezier(l, b, n, c);
    lemma_index_found(leaves, l, li, 0);
    assert(leaves[r.leaf as int] == l);
    assert(r.enabled == enabled);
    let bz = index_or(beziers, c, 6);
    assert(r.bezier as int == bz);
    if beziers.contains(c) {
        let w = choose|w: int| 0 <= w < beziers.len() && beziers[w] == c;
        lemma_index_found(beziers, c, w, 6);
        if c == "custom"@ {
            assert(beziers[6] == c);
            assert(bz == 6);
            assert(r.custom@ == c);
            assert(trim(c) == c) by {
                assert(trim_start_by(c, CharClass::Whitespace) == c);
                assert(trim_end_by(c, CharClass::Whitespace) == c);
            }
        }
        assert(animation_curve(bz, r.custom@) == c);
    } else {
        assert(bz == 6);
        assert(selected == "custom"@);
        assert(c == trim(custom));
        assert(animation_curve(bz, r.custom@) == c);
    }
}

} // verus!
