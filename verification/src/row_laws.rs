//! What the editor's rows store, read back and write to the Lua file: a row
//! built from a stored line shows the choices that the line was stored from,
//! and the Lua line of a stored line is built from the row's own fields.
use vstd::prelude::*;
use crate::blocks::{
    env_lua, keybind_lua, monitor_lua, monitor_scale_field, mouse_action, mouse_bind_lua,
    workspace_fields, workspace_lua,
};
use crate::dispatch::{dispatcher_lua, takes_args};
use crate::entries::{
    env_row, keybind_fields, keybind_row, mods_list, mods_spec, monitor_row, mouse_bind_fields,
    mouse_bind_row, or_else, workspace_row, KeybindRow, MouseBindRow,
};
use crate::luafile::bool_lua;
use crate::tables::{first_index, index_or, kb_dispatchers, mouse_actions, mouse_buttons, pick};
use crate::text::{
    in_class, is_ws, join, lemma_join_split, lemma_split_concat, lemma_split_free,
    lemma_split_nonempty, lemma_trim_end_first_kept, lemma_trim_end_idem, lemma_trim_idem,
    lemma_trim_start_first, piece,
    split, split_by, split_once, split_whitespace, splitn, trim, trim_end_by,
    trim_start_by, CharClass,
};

verus! {

broadcast use vstd::string::group_string_axioms;

/// A word: not empty, no whitespace in it.
pub open spec fn is_word(w: Seq<char>) -> bool {
    w.len() > 0 && forall|j: int| 0 <= j < w.len() ==> !is_ws(#[trigger] w[j])
}

/// `join` seen from the front.
proof fn lemma_join_front(l: Seq<Seq<char>>, sep: Seq<char>)
    requires
        l.len() >= 2,
    ensures
        join(l, sep) == l[0] + sep + join(l.drop_first(), sep),
    decreases l.len(),
{
    if l.len() == 2 {
        assert(l.drop_last().len() == 1);
        assert(l.drop_first().len() == 1);
        assert(join(l.drop_last(), sep) == l[0]);
        assert(join(l.drop_first(), sep) == l[1]);
    } else {
        lemma_join_front(l.drop_last(), sep);
        assert(l.drop_last().drop_first() =~= l.drop_first().drop_last());
        assert(l.drop_first().last() == l.last());
        assert(join(l, sep) =~= l[0] + sep + join(l.drop_first(), sep));
    }
}

/// A filter that every element passes keeps the sequence.
proof fn lemma_filter_keeps_all(l: Seq<Seq<char>>, pred: spec_fn(Seq<char>) -> bool)
    requires
        forall|i: int| 0 <= i < l.len() ==> pred(#[trigger] l[i]),
    ensures
        l.filter(pred) == l,
    decreases l.len(),
{
    reveal(Seq::filter);
    if l.len() > 0 {
        assert forall|i: int| 0 <= i < l.drop_last().len() implies pred(
            #[trigger] l.drop_last()[i],
        ) by {
            assert(l.drop_last()[i] == l[i]);
        }
        lemma_filter_keeps_all(l.drop_last(), pred);
        assert(pred(l.last()));
        assert(l.drop_last().push(l.last()) =~= l);
    }
}

/// Splitting words joined by single spaces at whitespace gives the words.
proof fn lemma_split_joined_words(l: Seq<Seq<char>>)
    requires
        l.len() > 0,
        forall|i: int| 0 <= i < l.len() ==> is_word(#[trigger] l[i]),
    ensures
        split_by(join(l, seq![' ']), CharClass::Whitespace) == l,
    decreases l.len(),
{
    let k = CharClass::Whitespace;
    assert(is_word(l[0]));
    if l.len() == 1 {
        lemma_split_free(l[0], k);
        assert(seq![l[0]] =~= l);
    } else {
        let rest = l.drop_first();
        assert forall|i: int| 0 <= i < rest.len() implies is_word(#[trigger] rest[i]) by {
            assert(rest[i] == l[i + 1]);
        }
        lemma_split_joined_words(rest);
        lemma_join_front(l, seq![' ']);
        assert(in_class(k, ' '));
        lemma_split_concat(l[0], ' ', join(rest, seq![' ']), k);
        assert(seq![l[0]] + rest =~= l);
    }
}

/// The words of words joined by single spaces.
pub proof fn lemma_words_of_joined(l: Seq<Seq<char>>)
    requires
        forall|i: int| 0 <= i < l.len() ==> is_word(#[trigger] l[i]),
    ensures
        split_whitespace(join(l, seq![' '])) == l,
{
    reveal_with_fuel(Seq::filter, 2);
    if l.len() == 0 {
        assert(split_by(Seq::<char>::empty(), CharClass::Whitespace) =~= seq![Seq::<char>::empty()]);
        assert(seq![Seq::<char>::empty()].drop_last() =~= Seq::<Seq<char>>::empty());
        assert(split_whitespace(join(l, seq![' '])) =~= l);
    } else {
        lemma_split_joined_words(l);
        lemma_filter_keeps_all(l, |p: Seq<char>| p.len() > 0);
    }
}

/// The modifier names are upper-case words, all different.
proof fn lemma_mod_names()
    ensures
        forall|j: int| 0 <= j < "SUPER"@.len() ==> 'A' <= #[trigger] "SUPER"@[j] <= 'Z',
        forall|j: int| 0 <= j < "SHIFT"@.len() ==> 'A' <= #[trigger] "SHIFT"@[j] <= 'Z',
        forall|j: int| 0 <= j < "CTRL"@.len() ==> 'A' <= #[trigger] "CTRL"@[j] <= 'Z',
        forall|j: int| 0 <= j < "ALT"@.len() ==> 'A' <= #[trigger] "ALT"@[j] <= 'Z',
        "SUPER"@.len() == 5,
        "SHIFT"@.len() == 5,
        "CTRL"@.len() == 4,
        "ALT"@.len() == 3,
        "SUPER"@ != "SHIFT"@,
{
    reveal_strlit("SUPER");
    reveal_strlit("SHIFT");
    reveal_strlit("CTRL");
    reveal_strlit("ALT");
    assert("SUPER"@[1] != "SHIFT"@[1]);
}

/// Reading the modifiers text of a row gives back the pressed modifiers.
#[verifier::spinoff_prover]
pub proof fn lemma_mods_words(sup: bool, shift: bool, ctrl: bool, alt: bool)
    ensures
        split_whitespace(mods_spec(sup, shift, ctrl, alt)) == mods_list(sup, shift, ctrl, alt),
        mods_list(sup, shift, ctrl, alt).contains("SUPER"@) == sup,
        mods_list(sup, shift, ctrl, alt).contains("SHIFT"@) == shift,
        mods_list(sup, shift, ctrl, alt).contains("CTRL"@) == ctrl,
        mods_list(sup, shift, ctrl, alt).contains("ALT"@) == alt,
        forall|i: int, j: int|
            0 <= i < mods_list(sup, shift, ctrl, alt).len() && 0 <= j < mods_list(
                sup,
                shift,
                ctrl,
                alt,
            )[i].len() ==> 'A' <= #[trigger] mods_list(sup, shift, ctrl, alt)[i][j] <= 'Z',
{
    lemma_mod_names();
    reveal_strlit(" ");
    let l = mods_list(sup, shift, ctrl, alt);
    assert forall|i: int| 0 <= i < l.len() implies (l[i] == "SUPER"@ || l[i] == "SHIFT"@ || l[i]
        == "CTRL"@ || l[i] == "ALT"@) && (sup || l[i] != "SUPER"@) && (shift || l[i] != "SHIFT"@)
        && (ctrl || l[i] != "CTRL"@) && (alt || l[i] != "ALT"@) by {}
    assert forall|i: int| 0 <= i < l.len() implies is_word(#[trigger] l[i]) by {
        assert(l[i] == "SUPER"@ || l[i] == "SHIFT"@ || l[i] == "CTRL"@ || l[i] == "ALT"@);
        assert forall|j: int| 0 <= j < l[i].len() implies !is_ws(#[trigger] l[i][j]) by {
            assert('A' <= l[i][j] <= 'Z');
        }
    }
    assert(" "@ =~= seq![' ']);
    lemma_words_of_joined(l);
    if sup {
        assert(l[0] == "SUPER"@);
    }
    if shift {
        let i = if sup { 1int } else { 0int };
        assert(l[i] == "SHIFT"@);
    }
    if ctrl {
        let i = (if sup { 1int } else { 0int }) + (if shift { 1int } else { 0int });
        assert(l[i] == "CTRL"@);
    }
    if alt {
        assert(l[l.len() - 1] == "ALT"@);
    }
}

/// A character that no piece of a joined text holds, and that the separator
/// does not hold either, is not in the joined text.
proof fn lemma_join_free(l: Seq<Seq<char>>, sep: Seq<char>, c: char)
    requires
        forall|i: int| 0 <= i < l.len() ==> !(#[trigger] l[i]).contains(c),
        !sep.contains(c),
    ensures
        !join(l, sep).contains(c),
    decreases l.len(),
{
    if l.len() >= 2 {
        assert forall|i: int| 0 <= i < l.drop_last().len() implies !(
        #[trigger] l.drop_last()[i]).contains(c) by {
            assert(l.drop_last()[i] == l[i]);
        }
        lemma_join_free(l.drop_last(), sep, c);
        let a = join(l.drop_last(), sep);
        let j = a + sep + l.last();
        assert(!l[l.len() - 1].contains(c));
        if j.contains(c) {
            let x = choose|x: int| 0 <= x < j.len() && j[x] == c;
            if x < a.len() {
                assert(a[x] == c);
            } else if x < a.len() + sep.len() {
                assert(sep[x - a.len()] == c);
            } else {
                assert(l.last()[x - a.len() - sep.len()] == c);
            }
        }
    } else if l.len() == 1 {
        assert(!l[0].contains(c));
    }
}

/// The dispatcher names are lower-case words.
proof fn lemma_dispatcher_names()
    ensures
        forall|i: int, j: int|
            0 <= i < kb_dispatchers().len() && 0 <= j < kb_dispatchers()[i].len() ==> 'a'
                <= #[trigger] kb_dispatchers()[i][j] <= 'z',
        kb_dispatchers()[0] == "exec"@,
{
    reveal_strlit("exec");
    reveal_strlit("killactive");
    reveal_strlit("togglefloating");
    reveal_strlit("workspace");
    reveal_strlit("movetoworkspace");
    reveal_strlit("movefocus");
    reveal_strlit("movewindow");
    reveal_strlit("fullscreen");
    reveal_strlit("pseudo");
    reveal_strlit("togglesplit");
    reveal_strlit("exit");
    reveal_strlit("togglespecialworkspace");
    reveal_strlit("pin");
}

/// The dispatcher names are not empty.
proof fn lemma_dispatchers_nonempty()
    ensures
        forall|i: int| 0 <= i < kb_dispatchers().len() ==> (#[trigger] kb_dispatchers()[i]).len() > 0,
{
    reveal_strlit("exec");
    reveal_strlit("killactive");
    reveal_strlit("togglefloating");
    reveal_strlit("workspace");
    reveal_strlit("movetoworkspace");
    reveal_strlit("movefocus");
    reveal_strlit("movewindow");
    reveal_strlit("fullscreen");
    reveal_strlit("pseudo");
    reveal_strlit("togglesplit");
    reveal_strlit("exit");
    reveal_strlit("togglespecialworkspace");
    reveal_strlit("pin");
}

/// A choice list's entry, or the default that the list holds, is shown at a
/// position of the list that holds it.
proof fn lemma_pick_found(list: Seq<Seq<char>>, i: int, d: Seq<char>)
    requires
        list.contains(d),
    ensures
        0 <= index_or(list, pick(list, i, d), 0) < list.len(),
        list[index_or(list, pick(list, i, d), 0)] == pick(list, i, d),
{
    let x = pick(list, i, d);
    assert(list.contains(x)) by {
        if 0 <= i < list.len() {
            assert(list[i] == x);
        }
    }
    let w = choose|w: int| 0 <= w < list.len() && list[w] == x;
    lemma_first_found(list, x, w);
}

proof fn lemma_first_found(list: Seq<Seq<char>>, x: Seq<char>, w: int)
    requires
        0 <= w < list.len(),
        list[w] == x,
    ensures
        exists|f: int| first_index(list, x, f),
    decreases w,
{
    if forall|j: int| 0 <= j < w ==> list[j] != x {
        assert(first_index(list, x, w));
    } else {
        let j = choose|j: int| 0 <= j < w && list[j] == x;
        lemma_first_found(list, x, j);
    }
}

/// A keybind row shows again the modifiers, key, dispatcher and argument it
/// stored, when the key holds no `|`.
#[verifier::spinoff_prover]
pub proof fn law_keybind_row_round_trip(
    sup: bool,
    shift: bool,
    ctrl: bool,
    alt: bool,
    key: Seq<char>,
    action: usize,
    args: Seq<char>,
    r: KeybindRow,
)
    requires
        trim(key).len() > 0,
        !trim(key).contains('|'),
        keybind_fields(keybind_row(sup, shift, ctrl, alt, key, action as int, args)->0, r),
    ensures
        r.super_key == sup,
        r.shift == shift,
        r.ctrl == ctrl,
        r.alt == alt,
        r.key@ == trim(key),
        r.args@ == trim(args),
        r.action < kb_dispatchers().len(),
        kb_dispatchers()[r.action as int] == pick(kb_dispatchers(), action as int, "exec"@),
        r.args_visible == takes_args(pick(kb_dispatchers(), action as int, "exec"@)),
{
    let kc = CharClass::One('|');
    let m = mods_spec(sup, shift, ctrl, alt);
    let l = mods_list(sup, shift, ctrl, alt);
    let k = trim(key);
    let act = pick(kb_dispatchers(), action as int, "exec"@);
    let g = trim(args);
    lemma_mods_words(sup, shift, ctrl, alt);
    lemma_dispatcher_names();
    reveal_strlit(" ");
    assert forall|i: int| 0 <= i < l.len() implies !(#[trigger] l[i]).contains('|') by {
        if l[i].contains('|') {
            let x = choose|x: int| 0 <= x < l[i].len() && l[i][x] == '|';
            assert('A' <= l[i][x] <= 'Z');
        }
    }
    assert(!" "@.contains('|')) by {
        if " "@.contains('|') {
            let x = choose|x: int| 0 <= x < " "@.len() && " "@[x] == '|';
        }
    }
    lemma_join_free(l, " "@, '|');
    assert forall|j: int| 0 <= j < m.len() implies !in_class(kc, #[trigger] m[j]) by {
        if m[j] == '|' {
            assert(m.contains('|'));
        }
    }
    assert forall|j: int| 0 <= j < k.len() implies !in_class(kc, #[trigger] k[j]) by {
        if k[j] == '|' {
            assert(k.contains('|'));
        }
    }
    assert(kb_dispatchers().contains("exec"@)) by {
        assert(kb_dispatchers()[0] == "exec"@);
    }
    assert(kb_dispatchers().contains(act)) by {
        if 0 <= action < kb_dispatchers().len() {
            assert(kb_dispatchers()[action as int] == act);
        } else {
            assert(kb_dispatchers()[0] == act);
        }
    }
    let ai = choose|ai: int| 0 <= ai < kb_dispatchers().len() && kb_dispatchers()[ai] == act;
    assert forall|j: int| 0 <= j < act.len() implies !in_class(kc, #[trigger] act[j]) by {
        assert('a' <= kb_dispatchers()[ai][j] <= 'z');
    }
    lemma_split_concat(act, '|', g, kc);
    lemma_split_concat(k, '|', act + seq!['|'] + g, kc);
    lemma_split_concat(m, '|', k + seq!['|'] + act + seq!['|'] + g, kc);
    let line = m + seq!['|'] + k + seq!['|'] + act + seq!['|'] + g;
    assert(line =~= m + seq!['|'] + (k + seq!['|'] + act + seq!['|'] + g));
    assert(k + seq!['|'] + act + seq!['|'] + g =~= k + seq!['|'] + (act + seq!['|'] + g));
    let sg = split(g, '|');
    lemma_split_nonempty(g, kc);
    lemma_join_split(g, '|');
    let p = split(line, '|');
    assert(p =~= seq![m, k, act] + sg);
    let q = splitn(line, 4, '|');
    if p.len() <= 4 {
        assert(sg.len() == 1);
        assert(join(sg, seq!['|']) == sg[0]);
        assert(q =~= seq![m, k, act, g]);
    } else {
        assert(p.skip(3) =~= sg);
        assert(q =~= seq![m, k, act, g]);
    }
    assert(piece(q, 1) == Some(k));
    assert(piece(q, 2) == Some(act));
    assert(piece(q, 3) == Some(g));
    assert(or_else(piece(q, 2), "exec"@) == act);
    lemma_pick_found(kb_dispatchers(), action as int, "exec"@);
    lemma_trim_idem(key, CharClass::Whitespace);
}

/// A stored keybind line, read back into a row, is stored again as the same
/// line: for a line of pressed modifiers, a trimmed key without `|`, a listed
/// dispatcher and a trimmed argument.
pub proof fn law_keybind_line_round_trip(
    sup: bool,
    shift: bool,
    ctrl: bool,
    alt: bool,
    key: Seq<char>,
    action: int,
    args: Seq<char>,
    r: KeybindRow,
)
    requires
        key.len() > 0,
        trim(key) == key,
        !key.contains('|'),
        0 <= action < kb_dispatchers().len(),
        trim(args) == args,
        keybind_fields(
            mods_spec(sup, shift, ctrl, alt) + seq!['|'] + key + seq!['|'] + kb_dispatchers()[action]
                + seq!['|'] + args,
            r,
        ),
    ensures
        keybind_row(r.super_key, r.shift, r.ctrl, r.alt, r.key@, r.action as int, r.args@) == Some(
            mods_spec(sup, shift, ctrl, alt) + seq!['|'] + key + seq!['|'] + kb_dispatchers()[action]
                + seq!['|'] + args,
        ),
{
    assert(keybind_row(sup, shift, ctrl, alt, key, action, args) == Some(
        mods_spec(sup, shift, ctrl, alt) + seq!['|'] + key + seq!['|'] + kb_dispatchers()[action]
            + seq!['|'] + args,
    ));
    law_keybind_row_round_trip(sup, shift, ctrl, alt, key, action as usize, args, r);
    lemma_trim_idem(r.key@, CharClass::Whitespace);
}

/// A stored mouse bind line, read back into a row, is stored again as the
/// same line: for a line of pressed modifiers (at least one), a listed button
/// and a listed action.
pub proof fn law_mouse_bind_line_round_trip(
    sup: bool,
    shift: bool,
    ctrl: bool,
    alt: bool,
    button: int,
    action: int,
    r: MouseBindRow,
)
    requires
        sup || shift || ctrl || alt,
        0 <= button < mouse_buttons().len(),
        0 <= action < mouse_actions().len(),
        mouse_bind_fields(
            mods_spec(sup, shift, ctrl, alt) + ", "@ + mouse_buttons()[button] + ", "@
                + mouse_actions()[action],
            r,
        ),
    ensures
        mouse_bind_row(r.super_key, r.shift, r.ctrl, r.alt, r.button as int, r.action as int)
            == Some(
            mods_spec(sup, shift, ctrl, alt) + ", "@ + mouse_buttons()[button] + ", "@
                + mouse_actions()[action],
        ),
{
    lemma_mods_words(sup, shift, ctrl, alt);
    assert(mouse_bind_row(sup, shift, ctrl, alt, button, action) == Some(
        mods_spec(sup, shift, ctrl, alt) + ", "@ + mouse_buttons()[button] + ", "@
            + mouse_actions()[action],
    ));
    law_mouse_bind_row_round_trip(sup, shift, ctrl, alt, button as usize, action as usize, r);
}

/// A text with no whitespace at either end is its own trim, and so is that
/// text after one leading space.
proof fn lemma_trim_plain(s: Seq<char>)
    requires
        s.len() > 0,
        !is_ws(s[0]),
        !is_ws(s.last()),
    ensures
        trim(s) == s,
        trim(seq![' '] + s) == s,
{
    let k = CharClass::Whitespace;
    assert(trim_start_by(s, k) == s);
    assert(trim_end_by(s, k) == s);
    let t = seq![' '] + s;
    assert(t.drop_first() =~= s);
    assert(in_class(k, ' '));
    assert(trim_start_by(t, k) == trim_start_by(s, k));
}

/// The mouse buttons and mouse actions have no whitespace and no comma.
proof fn lemma_mouse_names()
    ensures
        forall|i: int, j: int|
            0 <= i < mouse_buttons().len() && 0 <= j < mouse_buttons()[i].len() ==> !is_ws(
                #[trigger] mouse_buttons()[i][j],
            ) && mouse_buttons()[i][j] != ',',
        forall|i: int, j: int|
            0 <= i < mouse_actions().len() && 0 <= j < mouse_actions()[i].len() ==> !is_ws(
                #[trigger] mouse_actions()[i][j],
            ) && mouse_actions()[i][j] != ',',
        forall|i: int| 0 <= i < mouse_buttons().len() ==> (#[trigger] mouse_buttons()[i]).len() > 0,
        forall|i: int| 0 <= i < mouse_actions().len() ==> (#[trigger] mouse_actions()[i]).len() > 0,
        mouse_buttons()[0] == "mouse:272"@,
        mouse_actions()[0] == "movewindow"@,
{
    reveal_strlit("mouse:272");
    reveal_strlit("mouse:273");
    reveal_strlit("mouse:274");
    reveal_strlit("mouse:275");
    reveal_strlit("mouse:276");
    reveal_strlit("movewindow");
    reveal_strlit("resizewindow");
    reveal_strlit("togglefloating");
    reveal_strlit("fullscreen");
}

/// The first and last characters of words joined by single spaces.
proof fn lemma_join_ends(l: Seq<Seq<char>>)
    requires
        l.len() > 0,
        forall|i: int| 0 <= i < l.len() ==> is_word(#[trigger] l[i]),
    ensures
        join(l, seq![' ']).len() > 0,
        join(l, seq![' '])[0] == l[0][0],
        join(l, seq![' ']).last() == l.last().last(),
{
    assert(is_word(l[0]));
    assert(is_word(l[l.len() - 1]));
    if l.len() >= 2 {
        lemma_join_front(l, seq![' ']);
    }
}

/// The pieces of a mouse bind row's line at its commas.
#[verifier::spinoff_prover]
proof fn lemma_mouse_pieces(
    sup: bool,
    shift: bool,
    ctrl: bool,
    alt: bool,
    button: usize,
    action: usize,
)
    requires
        sup || shift || ctrl || alt,
    ensures
        split(mouse_bind_row(sup, shift, ctrl, alt, button as int, action as int)->0, ',') == seq![
            mods_spec(sup, shift, ctrl, alt),
            seq![' '] + pick(mouse_buttons(), button as int, "mouse:272"@),
            seq![' '] + pick(mouse_actions(), action as int, "movewindow"@),
        ],
        trim(pick(mouse_buttons(), button as int, "mouse:272"@)) == pick(
            mouse_buttons(),
            button as int,
            "mouse:272"@,
        ),
        trim(seq![' '] + pick(mouse_buttons(), button as int, "mouse:272"@)) == pick(
            mouse_buttons(),
            button as int,
            "mouse:272"@,
        ),
        trim(seq![' '] + pick(mouse_actions(), action as int, "movewindow"@)) == pick(
            mouse_actions(),
            action as int,
            "movewindow"@,
        ),
{
    let kc = CharClass::One(',');
    let l = mods_list(sup, shift, ctrl, alt);
    let m = mods_spec(sup, shift, ctrl, alt);
    let btn = pick(mouse_buttons(), button as int, "mouse:272"@);
    let act = pick(mouse_actions(), action as int, "movewindow"@);
    lemma_mods_words(sup, shift, ctrl, alt);
    lemma_mouse_names();
    reveal_strlit(" ");
    reveal_strlit(", ");
    assert forall|i: int| 0 <= i < l.len() implies !(#[trigger] l[i]).contains(',') by {
        if l[i].contains(',') {
            let x = choose|x: int| 0 <= x < l[i].len() && l[i][x] == ',';
            assert('A' <= l[i][x] <= 'Z');
        }
    }
    assert(!" "@.contains(',')) by {
        if " "@.contains(',') {
            let x = choose|x: int| 0 <= x < " "@.len() && " "@[x] == ',';
        }
    }
    lemma_join_free(l, " "@, ',');
    assert forall|j: int| 0 <= j < m.len() implies !in_class(kc, #[trigger] m[j]) by {
        if m[j] == ',' {
            assert(m.contains(','));
        }
    }
    let bi = if 0 <= button < mouse_buttons().len() { button as int } else { 0 };
    let ai = if 0 <= action < mouse_actions().len() { action as int } else { 0 };
    assert(mouse_buttons()[bi] == btn);
    assert(mouse_actions()[ai] == act);
    assert(btn.len() > 0 && act.len() > 0);
    assert(!is_ws(btn[0]) && !is_ws(btn.last()));
    assert(!is_ws(act[0]) && !is_ws(act.last()));
    lemma_trim_plain(btn);
    lemma_trim_plain(act);
    let b2 = seq![' '] + btn;
    let a2 = seq![' '] + act;
    assert forall|j: int| 0 <= j < b2.len() implies !in_class(kc, #[trigger] b2[j]) by {
        if j > 0 {
            assert(b2[j] == mouse_buttons()[bi][j - 1]);
        }
    }
    assert forall|j: int| 0 <= j < a2.len() implies !in_class(kc, #[trigger] a2[j]) by {
        if j > 0 {
            assert(a2[j] == mouse_actions()[ai][j - 1]);
        }
    }
    lemma_split_free(a2, kc);
    lemma_split_concat(b2, ',', a2, kc);
    lemma_split_concat(m, ',', b2 + seq![','] + a2, kc);
    let line = m + ", "@ + btn + ", "@ + act;
    assert(line =~= m + seq![','] + (b2 + seq![','] + a2));
}

/// A mouse bind row shows again the modifiers, button and action it stored.
#[verifier::spinoff_prover]
pub proof fn law_mouse_bind_row_round_trip(
    sup: bool,
    shift: bool,
    ctrl: bool,
    alt: bool,
    button: usize,
    action: usize,
    r: MouseBindRow,
)
    requires
        sup || shift || ctrl || alt,
        mouse_bind_fields(
            mouse_bind_row(sup, shift, ctrl, alt, button as int, action as int)->0,
            r,
        ),
    ensures
        r.super_key == sup,
        r.shift == shift,
        r.ctrl == ctrl,
        r.alt == alt,
        r.button < mouse_buttons().len(),
        mouse_buttons()[r.button as int] == pick(mouse_buttons(), button as int, "mouse:272"@),
        r.action < mouse_actions().len(),
        mouse_actions()[r.action as int] == pick(mouse_actions(), action as int, "movewindow"@),
{
    let m = mods_spec(sup, shift, ctrl, alt);
    let btn = pick(mouse_buttons(), button as int, "mouse:272"@);
    let act = pick(mouse_actions(), action as int, "movewindow"@);
    let p = split(mouse_bind_row(sup, shift, ctrl, alt, button as int, action as int)->0, ',');
    lemma_mouse_pieces(sup, shift, ctrl, alt, button, action);
    lemma_mods_trim(sup, shift, ctrl, alt);
    assert(p.len() == 3 && trim(p[0]) == m && trim(p[1]) == btn && trim(p[2]) == act);
    lemma_mods_words(sup, shift, ctrl, alt);
    assert(mouse_buttons().contains("mouse:272"@) && mouse_actions().contains("movewindow"@)) by {
        lemma_mouse_names();
        assert(mouse_buttons()[0] == "mouse:272"@);
        assert(mouse_actions()[0] == "movewindow"@);
    }
    lemma_pick_found(mouse_buttons(), button as int, "mouse:272"@);
    lemma_pick_found(mouse_actions(), action as int, "movewindow"@);
}

/// The Lua line of a mouse bind row binds its modifiers and button to its
/// action, as a mouse binding.
pub proof fn law_mouse_bind_row_renders(
    sup: bool,
    shift: bool,
    ctrl: bool,
    alt: bool,
    button: usize,
    action: usize,
)
    requires
        sup || shift || ctrl || alt,
    ensures
        mouse_bind_lua(mouse_bind_row(sup, shift, ctrl, alt, button as int, action as int)->0)
            == Some(
            "hl.bind(\""@ + mods_spec(sup, shift, ctrl, alt) + " + "@ + pick(
                mouse_buttons(),
                button as int,
                "mouse:272"@,
            ) + "\", "@ + mouse_action(pick(mouse_actions(), action as int, "movewindow"@))
                + ", { mouse = true })"@,
        ),
{
    lemma_mouse_pieces(sup, shift, ctrl, alt, button, action);
    lemma_mods_trim(sup, shift, ctrl, alt);
}

/// Trimming the end leaves a text that is empty or ends with a kept
/// character.
proof fn lemma_trim_end_last(s: Seq<char>, k: CharClass)
    ensures
        trim_end_by(s, k).len() == 0 || !in_class(k, trim_end_by(s, k).last()),
    decreases s.len(),
{
    if s.len() > 0 && in_class(k, s.last()) {
        lemma_trim_end_last(s.drop_last(), k);
    }
}

/// A trimmed text that is not empty starts and ends with a character that
/// is not whitespace.
pub(crate) proof fn lemma_trim_ends(s: Seq<char>)
    ensures
        trim(s).len() > 0 ==> !is_ws(trim(s)[0]) && !is_ws(trim(s).last()),
{
    let k = CharClass::Whitespace;
    let a = trim_start_by(s, k);
    lemma_trim_start_first(s, k);
    lemma_trim_end_last(a, k);
    if trim(s).len() > 0 {
        assert(a.len() > 0) by {
            if a.len() == 0 {
                assert(trim_end_by(a, k) == a);
            }
        }
        lemma_trim_end_first_kept(a, k);
    }
}

/// The pieces of a keybind row's line, when its key and argument hold no
/// `|`.
#[verifier::spinoff_prover]
#[verifier::rlimit(40)]
proof fn lemma_keybind_pieces(
    sup: bool,
    shift: bool,
    ctrl: bool,
    alt: bool,
    key: Seq<char>,
    action: usize,
    args: Seq<char>,
)
    requires
        trim(key).len() > 0,
        !trim(key).contains('|'),
        !trim(args).contains('|'),
    ensures
        split(keybind_row(sup, shift, ctrl, alt, key, action as int, args)->0, '|') == seq![
            mods_spec(sup, shift, ctrl, alt),
            trim(key),
            pick(kb_dispatchers(), action as int, "exec"@),
            trim(args),
        ],
{
    let kc = CharClass::One('|');
    let m = mods_spec(sup, shift, ctrl, alt);
    let l = mods_list(sup, shift, ctrl, alt);
    let k = trim(key);
    let act = pick(kb_dispatchers(), action as int, "exec"@);
    let g = trim(args);
    lemma_mods_words(sup, shift, ctrl, alt);
    lemma_dispatcher_names();
    reveal_strlit(" ");
    assert forall|i: int| 0 <= i < l.len() implies !(#[trigger] l[i]).contains('|') by {
        if l[i].contains('|') {
            let x = choose|x: int| 0 <= x < l[i].len() && l[i][x] == '|';
            assert('A' <= l[i][x] <= 'Z');
        }
    }
    assert(!" "@.contains('|')) by {
        if " "@.contains('|') {
            let x = choose|x: int| 0 <= x < " "@.len() && " "@[x] == '|';
        }
    }
    lemma_join_free(l, " "@, '|');
    assert forall|j: int| 0 <= j < m.len() implies !in_class(kc, #[trigger] m[j]) by {
        if m[j] == '|' {
            assert(m.contains('|'));
        }
    }
    assert forall|j: int| 0 <= j < k.len() implies !in_class(kc, #[trigger] k[j]) by {
        if k[j] == '|' {
            assert(k.contains('|'));
        }
    }
    assert forall|j: int| 0 <= j < g.len() implies !in_class(kc, #[trigger] g[j]) by {
        if g[j] == '|' {
            assert(g.contains('|'));
        }
    }
    let ai = if 0 <= action < kb_dispatchers().len() { action as int } else { 0 };
    assert(kb_dispatchers()[ai] == act);
    assert forall|j: int| 0 <= j < act.len() implies !in_class(kc, #[trigger] act[j]) by {
        assert('a' <= kb_dispatchers()[ai][j] <= 'z');
    }
    lemma_split_free(g, kc);
    lemma_split_concat(act, '|', g, kc);
    lemma_split_concat(k, '|', act + seq!['|'] + g, kc);
    lemma_split_concat(m, '|', k + seq!['|'] + act + seq!['|'] + g, kc);
    let line = m + seq!['|'] + k + seq!['|'] + act + seq!['|'] + g;
    assert(line =~= m + seq!['|'] + (k + seq!['|'] + act + seq!['|'] + g));
    assert(k + seq!['|'] + act + seq!['|'] + g =~= k + seq!['|'] + (act + seq!['|'] + g));
}

/// The Lua line of a keybind row binds its modifiers and key to its
/// dispatcher's action with its argument, when the key and the argument hold
/// no `|`; a row without any modifier gives no Lua line.
pub proof fn law_keybind_row_renders(
    sup: bool,
    shift: bool,
    ctrl: bool,
    alt: bool,
    key: Seq<char>,
    action: usize,
    args: Seq<char>,
)
    requires
        trim(key).len() > 0,
        !trim(key).contains('|'),
        !trim(args).contains('|'),
    ensures
        keybind_lua(keybind_row(sup, shift, ctrl, alt, key, action as int, args)->0) == (if sup
            || shift || ctrl || alt {
            Some(
                "hl.bind(\""@ + mods_spec(sup, shift, ctrl, alt) + " + "@ + trim(key) + "\", "@
                    + dispatcher_lua(pick(kb_dispatchers(), action as int, "exec"@), trim(args))
                    + ")"@,
            )
        } else {
            None
        }),
{
    let m = mods_spec(sup, shift, ctrl, alt);
    let l = mods_list(sup, shift, ctrl, alt);
    let act = pick(kb_dispatchers(), action as int, "exec"@);
    lemma_keybind_pieces(sup, shift, ctrl, alt, key, action, args);
    lemma_trim_idem(key, CharClass::Whitespace);
    lemma_trim_idem(args, CharClass::Whitespace);
    assert(trim(act) == act && act.len() > 0) by {
        lemma_dispatcher_names();
        lemma_dispatchers_nonempty();
        let ai = if 0 <= action < kb_dispatchers().len() { action as int } else { 0 };
        assert(kb_dispatchers()[ai] == act);
        assert(act.len() > 0);
        assert('a' <= act[0] <= 'z' && 'a' <= act[act.len() - 1] <= 'z');
        lemma_trim_plain(act);
    }
    lemma_mods_trim(sup, shift, ctrl, alt);
    let p = split(keybind_row(sup, shift, ctrl, alt, key, action as int, args)->0, '|');
    assert(p.len() == 4);
    assert(trim(p[0]) == m);
    assert(trim(p[1]) == trim(key));
    assert(trim(p[2]) == act);
    assert(trim(p[3]) == trim(args));
}

/// The modifiers text of a row has no whitespace at its ends.
proof fn lemma_mods_trim(sup: bool, shift: bool, ctrl: bool, alt: bool)
    ensures
        trim(mods_spec(sup, shift, ctrl, alt)) == mods_spec(sup, shift, ctrl, alt),
        mods_spec(sup, shift, ctrl, alt).len() > 0 <==> (sup || shift || ctrl || alt),
{
    let m = mods_spec(sup, shift, ctrl, alt);
    let l = mods_list(sup, shift, ctrl, alt);
    lemma_mods_words(sup, shift, ctrl, alt);
    reveal_strlit(" ");
    assert(" "@ =~= seq![' ']);
    if sup || shift || ctrl || alt {
        assert(l.len() > 0);
        assert forall|i: int| 0 <= i < l.len() implies is_word(#[trigger] l[i]) by {
            assert(l[i].len() > 0);
            assert forall|j: int| 0 <= j < l[i].len() implies !is_ws(#[trigger] l[i][j]) by {
                assert('A' <= l[i][j] <= 'Z');
            }
        }
        lemma_join_ends(l);
        assert('A' <= l[0][0] <= 'Z');
        assert('A' <= l.last()[l.last().len() - 1] <= 'Z');
        lemma_trim_plain(m);
    } else {
        assert(l =~= Seq::<Seq<char>>::empty());
        assert(m =~= Seq::<char>::empty());
        assert(trim(m) =~= Seq::<char>::empty());
    }
}

/// The Lua line of an environment row sets its key to its value, when the
/// key holds no comma.
pub proof fn law_env_row_renders(key: Seq<char>, value: Seq<char>)
    requires
        trim(key).len() > 0,
        !trim(key).contains(','),
    ensures
        env_lua(env_row(key, value)->0) == Some(
            "hl.env(\""@ + trim(key) + "\", \""@ + trim(value) + "\")"@,
        ),
{
    let kc = CharClass::One(',');
    let k = trim(key);
    let v = trim(value);
    let line = k + seq![','] + v;
    assert(env_row(key, value)->0 == line);
    assert forall|j: int| 0 <= j < k.len() implies !in_class(kc, #[trigger] k[j]) by {
        if k[j] == ',' {
            assert(k.contains(','));
        }
    }
    lemma_trim_ends(key);
    lemma_trim_ends(value);
    assert(line[0] == k[0]);
    if v.len() > 0 {
        assert(line.last() == v.last());
    } else {
        assert(line.last() == ',');
    }
    lemma_trim_plain(line);
    lemma_split_concat(k, ',', v, kc);
    let p = split(line, ',');
    assert(p.skip(1) =~= split(v, ','));
    lemma_split_nonempty(v, kc);
    lemma_join_split(v, ',');
    assert(split_once(line, ',') == Some((k, v)));
    lemma_trim_idem(key, CharClass::Whitespace);
    lemma_trim_idem(value, CharClass::Whitespace);
}

/// The fields of the workspace rule for a workspace, its monitor and name
/// (each left out when blank) and whether it is persistent.
pub open spec fn workspace_rule_fields(
    ws: Seq<char>,
    monitor: Seq<char>,
    name: Seq<char>,
    persistent: bool,
) -> Seq<Seq<char>> {
    seq!["workspace = \""@ + ws + "\""@] + (if monitor.len() > 0 {
        seq!["monitor = \""@ + monitor + "\""@]
    } else {
        Seq::empty()
    }) + (if name.len() > 0 {
        seq!["name = \""@ + name + "\""@]
    } else {
        Seq::empty()
    }) + seq!["persistent = "@ + bool_lua(persistent)]
}

/// A text without `c` has no cut character of the class of `c`.
proof fn lemma_free_of(s: Seq<char>, c: char)
    requires
        !s.contains(c),
    ensures
        forall|j: int| 0 <= j < s.len() ==> !in_class(CharClass::One(c), #[trigger] s[j]),
{
    assert forall|j: int| 0 <= j < s.len() implies !in_class(CharClass::One(c), #[trigger] s[j]) by {
        if s[j] == c {
            assert(s.contains(c));
        }
    }
}

/// The Lua line of a workspace row is the rule of its workspace, monitor,
/// name and persistence, when they hold no `|`.
pub proof fn law_workspace_row_renders(
    ws: Seq<char>,
    monitor: Seq<char>,
    name: Seq<char>,
    persistent: bool,
)
    requires
        trim(ws).len() > 0,
        !trim(ws).contains('|'),
        !trim(monitor).contains('|'),
        !trim(name).contains('|'),
    ensures
        workspace_lua(workspace_row(ws, monitor, name, persistent)->0) == Some(
            "hl.workspace_rule({ "@ + join(
                workspace_rule_fields(trim(ws), trim(monitor), trim(name), persistent),
                ", "@,
            ) + " })"@,
        ),
{
    let k = CharClass::One('|');
    let a = trim(ws);
    let b = trim(monitor);
    let c = trim(name);
    let d = bool_lua(persistent);
    reveal_strlit("true");
    reveal_strlit("false");
    reveal_strlit("1");
    lemma_free_of(a, '|');
    lemma_free_of(b, '|');
    lemma_free_of(c, '|');
    assert(forall|j: int| 0 <= j < d.len() ==> !in_class(k, #[trigger] d[j]));
    lemma_split_free(d, k);
    lemma_split_concat(c, '|', d, k);
    lemma_split_concat(b, '|', c + seq!['|'] + d, k);
    lemma_split_concat(a, '|', b + seq!['|'] + c + seq!['|'] + d, k);
    let line = a + seq!['|'] + b + seq!['|'] + c + seq!['|'] + d;
    assert(line =~= a + seq!['|'] + (b + seq!['|'] + (c + seq!['|'] + d)));
    assert(b + seq!['|'] + (c + seq!['|'] + d) =~= b + seq!['|'] + c + seq!['|'] + d);
    let p = split(line, '|');
    assert(p =~= seq![a, b, c, d]);
    lemma_trim_idem(ws, CharClass::Whitespace);
    lemma_trim_idem(monitor, CharClass::Whitespace);
    lemma_trim_idem(name, CharClass::Whitespace);
    assert(trim(d) == d);
    assert(workspace_fields(p) =~= workspace_rule_fields(a, b, c, persistent));
}

/// Trimming the end of a text whose first part ends with a kept character
/// trims only the second part.
proof fn lemma_trim_end_after(a: Seq<char>, b: Seq<char>, k: CharClass)
    requires
        a.len() > 0,
        !in_class(k, a.last()),
    ensures
        trim_end_by(a + b, k) == a + trim_end_by(b, k),
    decreases b.len(),
{
    if b.len() == 0 {
        assert(a + b =~= a);
        assert(a + trim_end_by(b, k) =~= a);
    } else if in_class(k, b.last()) {
        lemma_trim_end_after(a, b.drop_last(), k);
        assert((a + b).drop_last() =~= a + b.drop_last());
    }
}

/// The Lua line of a monitor row: the disabled monitor, or the monitor with
/// its mode (`preferred` when blank), its position (`0x0` when blank) and the
/// printed scale; for a monitor that is not disabled, when its mode and
/// position hold no comma and its mode is not `disabled`.
#[verifier::spinoff_prover]
pub proof fn law_monitor_row_renders(
    output: Seq<char>,
    mode: Seq<char>,
    position: Seq<char>,
    scale: Seq<char>,
    disabled: bool,
    printed: Seq<char>,
)
    requires
        trim(output).len() > 0,
        !trim(output).contains(','),
        !disabled ==> !trim(mode).contains(','),
        !disabled ==> !trim(position).contains(','),
        !disabled ==> trim(mode) != "disabled"@,
    ensures
        monitor_lua(monitor_row(output, mode, position, scale, disabled)->0, printed) == Some(
            if disabled {
                "hl.monitor({ output = \""@ + trim(output) + "\", disabled = true })"@
            } else {
                "hl.monitor({ output = \""@ + trim(output) + "\", mode = \""@ + (if trim(
                    mode,
                ).len() == 0 {
                    "preferred"@
                } else {
                    trim(mode)
                }) + "\", position = \""@ + (if trim(position).len() == 0 {
                    "0x0"@
                } else {
                    trim(position)
                }) + "\", scale = "@ + printed + " })"@
            },
        ),
{
    let kc = CharClass::One(',');
    let ws = CharClass::Whitespace;
    let o = trim(output);
    lemma_free_of(o, ',');
    lemma_trim_ends(output);
    lemma_trim_idem(output, ws);
    reveal_strlit("disabled");
    reveal_strlit(",disabled");
    reveal_strlit("preferred");
    reveal_strlit("0x0");
    let line = monitor_row(output, mode, position, scale, disabled)->0;
    if disabled {
        let d = "disabled"@;
        assert(line =~= o + seq![','] + d);
        assert(forall|j: int| 0 <= j < d.len() ==> !in_class(kc, #[trigger] d[j]));
        lemma_split_free(d, kc);
        lemma_split_concat(o, ',', d, kc);
        assert(!is_ws(line[0]) && !is_ws(line.last()));
        lemma_trim_plain(line);
        assert(splitn(line, 4, ',') =~= seq![o, d]);
        assert(trim_start_by(d, ws) == d);
        assert(trim_end_by(d, ws) == d);
    } else {
        let m = if trim(mode).len() == 0 {
            "preferred"@
        } else {
            trim(mode)
        };
        let p = if trim(position).len() == 0 {
            "0x0"@
        } else {
            trim(position)
        };
        lemma_trim_ends(mode);
        lemma_trim_ends(position);
        lemma_trim_idem(mode, ws);
        lemma_trim_idem(position, ws);
        assert(m.len() > 0 && !is_ws(m[0]) && !is_ws(m.last()));
        assert(p.len() > 0 && !is_ws(p[0]) && !is_ws(p.last()));
        lemma_trim_plain(m);
        lemma_trim_plain(p);
        assert(!m.contains(',')) by {
            if m.contains(',') {
                let x = choose|x: int| 0 <= x < m.len() && m[x] == ',';
                if trim(mode).len() == 0 {
                    assert(m[x] != ',');
                } else {
                    assert(trim(mode).contains(','));
                }
            }
        }
        assert(!p.contains(',')) by {
            if p.contains(',') {
                let x = choose|x: int| 0 <= x < p.len() && p[x] == ',';
                if trim(position).len() == 0 {
                    assert(p[x] != ',');
                } else {
                    assert(trim(position).contains(','));
                }
            }
        }
        lemma_free_of(m, ',');
        lemma_free_of(p, ',');
        let head = o + seq![','] + m + seq![','] + p + seq![','];
        assert(line =~= head + scale);
        assert(line[0] == o[0]);
        assert(trim_start_by(line, ws) == line);
        lemma_trim_end_after(head, scale, ws);
        let sc = trim_end_by(scale, ws);
        let t = trim(line);
        assert(t =~= head + sc);
        lemma_split_concat(p, ',', sc, kc);
        lemma_split_concat(m, ',', p + seq![','] + sc, kc);
        lemma_split_concat(o, ',', m + seq![','] + p + seq![','] + sc, kc);
        assert(t =~= o + seq![','] + (m + seq![','] + (p + seq![','] + sc)));
        assert(m + seq![','] + (p + seq![','] + sc) =~= m + seq![','] + p + seq![','] + sc);
        lemma_split_nonempty(sc, kc);
        let q = splitn(t, 4, ',');
        assert(split(t, ',') =~= seq![o, m, p] + split(sc, ','));
        assert(q.len() == 4 && q[0] == o && q[1] == m && q[2] == p);
        assert(m != "disabled"@) by {
            if trim(mode).len() == 0 {
                assert(m[0] != "disabled"@[0]);
            }
        }
    }
}

/// The number of leading characters of class `k`.
proof fn lemma_lead(s: Seq<char>, k: CharClass) -> (i: int)
    ensures
        0 <= i <= s.len(),
        forall|x: int| 0 <= x < i ==> in_class(k, #[trigger] s[x]),
        i == s.len() || !in_class(k, s[i]),
    decreases s.len(),
{
    if s.len() > 0 && in_class(k, s[0]) {
        let r = lemma_lead(s.drop_first(), k);
        assert forall|x: int| 0 <= x < r + 1 implies in_class(k, #[trigger] s[x]) by {
            if x > 0 {
                assert(s[x] == s.drop_first()[x - 1]);
            }
        }
        if r + 1 < s.len() {
            assert(s[r + 1] == s.drop_first()[r]);
        }
        r + 1
    } else {
        0
    }
}

/// The position after the last character not of class `k`.
proof fn lemma_trail(s: Seq<char>, k: CharClass) -> (j: int)
    ensures
        0 <= j <= s.len(),
        forall|x: int| j <= x < s.len() ==> in_class(k, #[trigger] s[x]),
        j == 0 || !in_class(k, s[j - 1]),
    decreases s.len(),
{
    if s.len() > 0 && in_class(k, s.last()) {
        let r = lemma_trail(s.drop_last(), k);
        assert forall|x: int| r <= x < s.len() implies in_class(k, #[trigger] s[x]) by {
            if x < s.len() - 1 {
                assert(s[x] == s.drop_last()[x]);
            }
        }
        if r > 0 {
            assert(s[r - 1] == s.drop_last()[r - 1]);
        }
        r
    } else {
        s.len() as int
    }
}

/// Trimming the start of a text with exactly `i` leading characters of the
/// class drops them.
proof fn lemma_trim_start_at(t: Seq<char>, k: CharClass, i: int)
    requires
        0 <= i <= t.len(),
        forall|x: int| 0 <= x < i ==> in_class(k, #[trigger] t[x]),
        i == t.len() || !in_class(k, t[i]),
    ensures
        trim_start_by(t, k) == t.skip(i),
    decreases i,
{
    if i == 0 {
        assert(t.skip(0) =~= t);
    } else {
        assert(in_class(k, t[0]));
        let u = t.drop_first();
        assert forall|x: int| 0 <= x < i - 1 implies in_class(k, #[trigger] u[x]) by {
            assert(u[x] == t[x + 1]);
        }
        if i < t.len() {
            assert(u[i - 1] == t[i]);
        }
        lemma_trim_start_at(u, k, i - 1);
        assert(u.skip(i - 1) =~= t.skip(i));
    }
}

/// Trimming the end of a text whose characters from `j` on are of the class,
/// and the one before is not, keeps its first `j` characters.
proof fn lemma_trim_end_at(t: Seq<char>, k: CharClass, j: int)
    requires
        0 <= j <= t.len(),
        forall|x: int| j <= x < t.len() ==> in_class(k, #[trigger] t[x]),
        j == 0 || !in_class(k, t[j - 1]),
    ensures
        trim_end_by(t, k) == t.take(j),
    decreases t.len() - j,
{
    if j == t.len() {
        assert(t.take(j) =~= t);
    } else {
        assert(in_class(k, t.last()));
        let u = t.drop_last();
        assert forall|x: int| j <= x < u.len() implies in_class(k, #[trigger] u[x]) by {
            assert(u[x] == t[x]);
        }
        if j > 0 {
            assert(u[j - 1] == t[j - 1]);
        }
        lemma_trim_end_at(u, k, j);
        assert(u.take(j) =~= t.take(j));
    }
}

/// Trimming the start and trimming the end can be done in either order.
proof fn lemma_trim_commute(s: Seq<char>, k: CharClass)
    ensures
        trim_start_by(trim_end_by(s, k), k) == trim_end_by(trim_start_by(s, k), k),
{
    let i = lemma_lead(s, k);
    let j = lemma_trail(s, k);
    lemma_trim_start_at(s, k, i);
    lemma_trim_end_at(s, k, j);
    if i == s.len() {
        if j > 0 {
            assert(in_class(k, s[j - 1]));
        }
        assert(s.take(j) =~= Seq::<char>::empty());
        assert(s.skip(i) =~= Seq::<char>::empty());
    } else {
        if j <= i {
            assert(in_class(k, s[i]));
        }
        let t1 = s.take(j);
        assert forall|x: int| 0 <= x < i implies in_class(k, #[trigger] t1[x]) by {
            assert(t1[x] == s[x]);
        }
        assert(t1[i] == s[i]);
        lemma_trim_start_at(t1, k, i);
        let t2 = s.skip(i);
        assert forall|x: int| j - i <= x < t2.len() implies in_class(k, #[trigger] t2[x]) by {
            assert(t2[x] == s[x + i]);
        }
        assert(t2[j - i - 1] == s[j - 1]);
        lemma_trim_end_at(t2, k, j - i);
        assert(t1.skip(i) =~= t2.take(j - i));
    }
}

/// The scale that the Lua file prints for a monitor row is read from the
/// scale the row stored (`1` for a disabled monitor); for a monitor that is
/// not disabled, when its mode and position hold no comma.
#[verifier::spinoff_prover]
pub proof fn law_monitor_scale_read_back(
    output: Seq<char>,
    mode: Seq<char>,
    position: Seq<char>,
    scale: Seq<char>,
    disabled: bool,
)
    requires
        trim(output).len() > 0,
        !trim(output).contains(','),
        !disabled ==> !trim(mode).contains(','),
        !disabled ==> !trim(position).contains(','),
    ensures
        monitor_scale_field(monitor_row(output, mode, position, scale, disabled)->0) == (if disabled {
            "1"@
        } else {
            trim(scale)
        }),
{
    let kc = CharClass::One(',');
    let ws = CharClass::Whitespace;
    let o = trim(output);
    lemma_free_of(o, ',');
    lemma_trim_ends(output);
    reveal_strlit("disabled");
    reveal_strlit(",disabled");
    reveal_strlit("preferred");
    reveal_strlit("0x0");
    let line = monitor_row(output, mode, position, scale, disabled)->0;
    if disabled {
        let d = "disabled"@;
        assert(line =~= o + seq![','] + d);
        assert(forall|j: int| 0 <= j < d.len() ==> !in_class(kc, #[trigger] d[j]));
        lemma_split_free(d, kc);
        lemma_split_concat(o, ',', d, kc);
        assert(!is_ws(line[0]) && !is_ws(line.last()));
        lemma_trim_plain(line);
        assert(splitn(line, 4, ',') =~= seq![o, d]);
    } else {
        let m = if trim(mode).len() == 0 {
            "preferred"@
        } else {
            trim(mode)
        };
        let p = if trim(position).len() == 0 {
            "0x0"@
        } else {
            trim(position)
        };
        assert(!m.contains(',')) by {
            if m.contains(',') {
                let x = choose|x: int| 0 <= x < m.len() && m[x] == ',';
                if trim(mode).len() == 0 {
                    assert(m[x] != ',');
                } else {
                    assert(trim(mode).contains(','));
                }
            }
        }
        assert(!p.contains(',')) by {
            if p.contains(',') {
                let x = choose|x: int| 0 <= x < p.len() && p[x] == ',';
                if trim(position).len() == 0 {
                    assert(p[x] != ',');
                } else {
                    assert(trim(position).contains(','));
                }
            }
        }
        lemma_free_of(m, ',');
        lemma_free_of(p, ',');
        let head = o + seq![','] + m + seq![','] + p + seq![','];
        assert(line =~= head + scale);
        assert(line[0] == o[0]);
        assert(trim_start_by(line, ws) == line);
        lemma_trim_end_after(head, scale, ws);
        let sc = trim_end_by(scale, ws);
        let t = trim(line);
        assert(t =~= head + sc);
        lemma_split_concat(p, ',', sc, kc);
        lemma_split_concat(m, ',', p + seq![','] + sc, kc);
        lemma_split_concat(o, ',', m + seq![','] + p + seq![','] + sc, kc);
        assert(t =~= o + seq![','] + (m + seq![','] + (p + seq![','] + sc)));
        assert(m + seq![','] + (p + seq![','] + sc) =~= m + seq![','] + p + seq![','] + sc);
        lemma_split_nonempty(sc, kc);
        lemma_join_split(sc, ',');
        let sp = split(sc, ',');
        let q = splitn(t, 4, ',');
        assert(split(t, ',') =~= seq![o, m, p] + sp);
        if sp.len() == 1 {
            assert(join(sp, seq![',']) == sp[0]);
        } else {
            assert(split(t, ',').skip(3) =~= sp);
        }
        assert(q[3] == sc);
        lemma_trim_commute(scale, ws);
        lemma_trim_end_idem(trim_start_by(scale, ws), ws);
    }
}

} // verus!
