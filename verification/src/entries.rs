//! The line formats of the editor's rows: how a row's fields become the
//! stored line, and how a stored line is read back into a row's fields.
use vstd::prelude::*;
use crate::dispatch::{escape, escape_chars, takes_args, dispatcher_has_args};
use crate::luafile::bool_lua;
use crate::numbers::{dec, parses_f64, parses_f64_exec, push_dec};
use crate::tables::{
    entries, index_in, index_or, pick, pick_entry, kb_dispatchers, mouse_buttons, mouse_actions,
    input_settings, gesture_directions, gesture_actions, animation_leaves, animation_beziers,
    Table, entry,
};
use crate::text::{
    after_first, after_first_exec, chars_of, contains, contains_text, extend_chars, extend_str,
    is_text, join, join_strings, piece, skip_chars, split, split_by, split_chars, split_once,
    split_once_chars, split_whitespace, split_whitespace_exec, splitn, splitn_chars, starts_with,
    starts_with_text, string_of, trim, trim_by, trim_chars, trim_str, views, lemma_split_nonempty,
    CharClass,
};

verus! {

broadcast use vstd::string::group_string_axioms;

/// `o.unwrap_or(d)` on an optional text.
pub open spec fn or_else(o: Option<Seq<char>>, d: Seq<char>) -> Seq<char> {
    match o {
        Some(x) => x,
        None => d,
    }
}

/// The modifier names of the pressed modifier toggles, in the fixed order.
pub open spec fn mods_list(sup: bool, shift: bool, ctrl: bool, alt: bool) -> Seq<Seq<char>> {
    (if sup {
        seq!["SUPER"@]
    } else {
        Seq::empty()
    }) + (if shift {
        seq!["SHIFT"@]
    } else {
        Seq::empty()
    }) + (if ctrl {
        seq!["CTRL"@]
    } else {
        Seq::empty()
    }) + (if alt {
        seq!["ALT"@]
    } else {
        Seq::empty()
    })
}

/// The modifiers of a row as text, separated by spaces.
pub open spec fn mods_spec(sup: bool, shift: bool, ctrl: bool, alt: bool) -> Seq<char> {
    join(mods_list(sup, shift, ctrl, alt), " "@)
}

fn push_if(out: &mut Vec<String>, cond: bool, s: &str)
    ensures
        final(out).deep_view() == old(out).deep_view() + (if cond {
            seq![s@]
        } else {
            Seq::empty()
        }),
{
    let ghost before = out.deep_view();
    if cond {
        out.push(String::from_str(s));
    }
    assert(out.deep_view() =~= before + (if cond {
        seq![s@]
    } else {
        Seq::empty()
    }));
}

/// The modifiers of a row as text (`SUPER SHIFT CTRL ALT`, those pressed).
pub fn selected_mods(sup: bool, shift: bool, ctrl: bool, alt: bool) -> (r: String)
    ensures
        r@ == mods_spec(sup, shift, ctrl, alt),
{
    let mut out: Vec<String> = Vec::new();
    assert(out.deep_view() =~= Seq::<Seq<char>>::empty());
    push_if(&mut out, sup, "SUPER");
    push_if(&mut out, shift, "SHIFT");
    push_if(&mut out, ctrl, "CTRL");
    push_if(&mut out, alt, "ALT");
    assert(out.deep_view() =~= mods_list(sup, shift, ctrl, alt));
    join_strings(&out, " ")
}

/// The words of a modifier text (`str::split_whitespace`).
pub fn mods_from_text(value: &str) -> (r: Vec<String>)
    ensures
        r.deep_view() == split_whitespace(value@),
{
    let v = chars_of(value);
    let w = split_whitespace_exec(&v);
    let mut out: Vec<String> = Vec::new();
    let mut i: usize = 0;
    while i < w.len()
        invariant
            i <= w.len(),
            out.deep_view() =~= views(w@).take(i as int),
        decreases w.len() - i,
    {
        let ghost before = out.deep_view();
        out.push(string_of(&w[i]));
        assert(out.deep_view() =~= before.push(views(w@)[i as int]));
        i = i + 1;
    }
    assert(views(w@).take(w.len() as int) =~= views(w@));
    out
}

fn has_word(words: &Vec<Vec<char>>, w: &str) -> (r: bool)
    ensures
        r == views(words@).contains(w@),
{
    let mut i: usize = 0;
    while i < words.len()
        invariant
            i <= words.len(),
            forall|j: int| 0 <= j < i ==> views(words@)[j] != w@,
        decreases words.len() - i,
    {
        if is_text(&words[i], w) {
            assert(views(words@)[i as int] == w@);
            return true;
        }
        i = i + 1;
    }
    assert(!views(words@).contains(w@)) by {
        if views(words@).contains(w@) {
            let k = choose|k: int| 0 <= k < views(words@).len() && views(words@)[k] == w@;
            assert(views(words@)[k] != w@);
        }
    }
    false
}

/// The line a keybind row stores: `MODS|KEY|DISPATCHER|ARGS`, or nothing
/// when the key is blank.
pub open spec fn keybind_row(
    sup: bool,
    shift: bool,
    ctrl: bool,
    alt: bool,
    key: Seq<char>,
    action: int,
    args: Seq<char>,
) -> Option<Seq<char>> {
    if trim(key).len() == 0 {
        None
    } else {
        Some(
            mods_spec(sup, shift, ctrl, alt) + seq!['|'] + trim(key) + seq!['|'] + pick(
                kb_dispatchers(),
                action,
                "exec"@,
            ) + seq!['|'] + trim(args),
        )
    }
}

/// The line a keybind row stores.
pub fn keybind_entry_line(
    sup: bool,
    shift: bool,
    ctrl: bool,
    alt: bool,
    key: &str,
    action: usize,
    args: &str,
) -> (r: Option<String>)
    ensures
        match r {
            Some(s) => keybind_row(sup, shift, ctrl, alt, key@, action as int, args@) == Some(s@),
            None => keybind_row(sup, shift, ctrl, alt, key@, action as int, args@) is None,
        },
{
    let k = trim_str(key);
    if k.len() == 0 {
        return None;
    }
    let m = selected_mods(sup, shift, ctrl, alt);
    let mut out = chars_of(m.as_str());
    out.push('|');
    extend_chars(&mut out, &k);
    out.push('|');
    extend_str(&mut out, pick_entry(Table::Dispatchers, action, "exec"));
    out.push('|');
    let a = trim_str(args);
    extend_chars(&mut out, &a);
    assert(out@ =~= keybind_row(sup, shift, ctrl, alt, key@, action as int, args@)->0);
    Some(string_of(&out))
}

/// The fields of a keybind row.
pub struct KeybindRow {
    pub super_key: bool,
    pub shift: bool,
    pub ctrl: bool,
    pub alt: bool,
    pub key: String,
    pub action: usize,
    pub args: String,
    pub args_visible: bool,
}

/// The fields a keybind row shows for a stored line.
pub open spec fn keybind_fields(line: Seq<char>, r: KeybindRow) -> bool {
    let p = splitn(line, 4, '|');
    let words = split_whitespace(p[0]);
    let action = or_else(piece(p, 2), "exec"@);
    &&& r.super_key == words.contains("SUPER"@)
    &&& r.shift == words.contains("SHIFT"@)
    &&& r.ctrl == words.contains("CTRL"@)
    &&& r.alt == words.contains("ALT"@)
    &&& r.key@ == or_else(piece(p, 1), Seq::empty())
    &&& r.action as int == index_or(kb_dispatchers(), action, 0)
    &&& r.args@ == or_else(piece(p, 3), Seq::empty())
    &&& r.args_visible == takes_args(action)
}

fn piece_or(p: &Vec<Vec<char>>, i: usize, d: &str) -> (r: Vec<char>)
    ensures
        r@ == or_else(piece(views(p@), i as int), d@),
{
    if i < p.len() {
        assert(views(p@)[i as int] == p@[i as int]@);
        let s = &p[i];
        let mut out: Vec<char> = Vec::new();
        extend_chars(&mut out, s);
        assert(out@ =~= p@[i as int]@);
        out
    } else {
        chars_of(d)
    }
}

fn trimmed_piece_or(p: &Vec<Vec<char>>, i: usize, d: &str) -> (r: Vec<char>)
    ensures
        r@ == or_else(
            (if 0 <= i < views(p@).len() {
                Some(trim(views(p@)[i as int]))
            } else {
                None
            }),
            d@,
        ),
{
    if i < p.len() {
        assert(views(p@)[i as int] == p@[i as int]@);
        trim_chars(&p[i], CharClass::Whitespace)
    } else {
        chars_of(d)
    }
}

/// Reads a stored keybind line back into a row's fields.
pub fn parse_keybind_line(initial: &str) -> (r: KeybindRow)
    ensures
        keybind_fields(initial@, r),
{
    let v = chars_of(initial);
    proof {
        reveal_strlit("");
    }
    assert(""@ =~= Seq::<char>::empty());
    let p = splitn_chars(&v, 4, '|');
    proof {
        lemma_split_nonempty(v@, CharClass::One('|'));
    }
    assert(views(p@).len() == p@.len());
    let m = piece_or(&p, 0, "");
    let words = split_whitespace_exec(&m);
    let key = piece_or(&p, 1, "");
    let action = piece_or(&p, 2, "exec");
    let args = piece_or(&p, 3, "");
    let idx = index_in(Table::Dispatchers, &action, 0);
    let action_text = string_of(&action);
    KeybindRow {
        super_key: has_word(&words, "SUPER"),
        shift: has_word(&words, "SHIFT"),
        ctrl: has_word(&words, "CTRL"),
        alt: has_word(&words, "ALT"),
        key: string_of(&key),
        action: idx,
        args: string_of(&args),
        args_visible: dispatcher_has_args(action_text.as_str()),
    }
}

/// The line an environment row stores: `KEY,value`, or nothing when the key
/// is blank.
pub open spec fn env_row(key: Seq<char>, value: Seq<char>) -> Option<Seq<char>> {
    if trim(key).len() == 0 {
        None
    } else {
        Some(trim(key) + seq![','] + trim(value))
    }
}

/// The line an environment row stores.
pub fn env_entry_line(key: &str, value: &str) -> (r: Option<String>)
    ensures
        match r {
            Some(s) => env_row(key@, value@) == Some(s@),
            None => env_row(key@, value@) is None,
        },
{
    let k = trim_str(key);
    if k.len() == 0 {
        return None;
    }
    let mut out = k;
    out.push(',');
    let val = trim_str(value);
    extend_chars(&mut out, &val);
    assert(out@ =~= env_row(key@, value@)->0);
    Some(string_of(&out))
}

/// The key and value an environment row shows for a stored line.
pub open spec fn env_fields(line: Seq<char>) -> (Seq<char>, Seq<char>) {
    match split_once(line, ',') {
        Some((k, v)) => (trim(k), trim(v)),
        None => (trim(line), Seq::empty()),
    }
}

/// Reads a stored environment line back into a row's key and value.
pub fn parse_env_line(initial: &str) -> (r: (String, String))
    ensures
        env_fields(initial@) == (r.0@, r.1@),
{
    let v = chars_of(initial);
    match split_once_chars(&v, ',') {
        Some((k, val)) => {
            let a = trim_chars(&k, CharClass::Whitespace);
            let b = trim_chars(&val, CharClass::Whitespace);
            (string_of(&a), string_of(&b))
        },
        None => {
            let a = trim_chars(&v, CharClass::Whitespace);
            (string_of(&a), String::new())
        },
    }
}

/// The line a monitor row stores: `OUTPUT,disabled` or
/// `OUTPUT,MODE,POSITION,SCALE`, or nothing when the output is blank.
pub open spec fn monitor_row(
    output: Seq<char>,
    mode: Seq<char>,
    position: Seq<char>,
    scale: Seq<char>,
    disabled: bool,
) -> Option<Seq<char>> {
    let o = trim(output);
    let m = if trim(mode).len() == 0 {
        "preferred"@
    } else {
        trim(mode)
    };
    let p = if trim(position).len() == 0 {
        "0x0"@
    } else {
        trim(position)
    };
    if o.len() == 0 {
        None
    } else if disabled {
        Some(o + ",disabled"@)
    } else {
        Some(o + seq![','] + m + seq![','] + p + seq![','] + scale)
    }
}

/// The line a monitor row stores; `scale` is the scale printed with one
/// decimal.
pub fn monitor_entry_line(
    output: &str,
    mode: &str,
    position: &str,
    scale: &str,
    disabled: bool,
) -> (r: Option<String>)
    ensures
        match r {
            Some(s) => monitor_row(output@, mode@, position@, scale@, disabled) == Some(s@),
            None => monitor_row(output@, mode@, position@, scale@, disabled) is None,
        },
{
    let o = trim_str(output);
    if o.len() == 0 {
        return None;
    }
    let mut out = o;
    if disabled {
        extend_str(&mut out, ",disabled");
        assert(out@ =~= monitor_row(output@, mode@, position@, scale@, disabled)->0);
        return Some(string_of(&out));
    }
    let m0 = trim_str(mode);
    let m = if m0.len() == 0 {
        chars_of("preferred")
    } else {
        m0
    };
    let p0 = trim_str(position);
    let p = if p0.len() == 0 {
        chars_of("0x0")
    } else {
        p0
    };
    out.push(',');
    extend_chars(&mut out, &m);
    out.push(',');
    extend_chars(&mut out, &p);
    out.push(',');
    extend_str(&mut out, scale);
    assert(out@ =~= monitor_row(output@, mode@, position@, scale@, disabled)->0);
    Some(string_of(&out))
}

/// The fields of a monitor row; `scale` is the text of the scale field.
pub struct MonitorRow {
    pub output: String,
    pub disabled: bool,
    pub mode: String,
    pub position: String,
    pub scale: Option<String>,
}

/// The fields a monitor row shows for a stored line.
pub open spec fn monitor_fields(line: Seq<char>, r: MonitorRow) -> bool {
    let p = split(line, ',');
    &&& r.output@ == trim(p[0])
    &&& r.disabled == (p.len() > 1 && trim(p[1]) == "disabled"@)
    &&& r.mode@ == (if p.len() > 1 && trim(p[1]) != "disabled"@ {
        trim(p[1])
    } else {
        "preferred"@
    })
    &&& r.position@ == (if p.len() > 2 {
        trim(p[2])
    } else {
        "0x0"@
    })
    &&& match r.scale {
        Some(s) => p.len() > 3 && s@ == trim(p[3]),
        None => p.len() <= 3,
    }
}

/// Reads a stored monitor line back into a row's fields.
pub fn parse_monitor_line(initial: &str) -> (r: MonitorRow)
    ensures
        monitor_fields(initial@, r),
{
    let v = chars_of(initial);
    let p = split_chars(&v, CharClass::One(','));
    proof {
        lemma_split_nonempty(v@, CharClass::One(','));
    }
    assert(views(p@).len() == p@.len());
    let output = trimmed_piece_or(&p, 0, "");
    let second = trimmed_piece_or(&p, 1, "");
    let disabled = p.len() > 1 && is_text(&second, "disabled");
    let mode = if p.len() > 1 && !is_text(&second, "disabled") {
        second
    } else {
        chars_of("preferred")
    };
    let position = trimmed_piece_or(&p, 2, "0x0");
    let scale = if p.len() > 3 {
        let s = trimmed_piece_or(&p, 3, "");
        Some(string_of(&s))
    } else {
        None
    };
    MonitorRow {
        output: string_of(&output),
        disabled,
        mode: string_of(&mode),
        position: string_of(&position),
        scale,
    }
}

/// The line a workspace row stores: `WORKSPACE|MONITOR|NAME|PERSISTENT`, or
/// nothing when the workspace is blank.
pub open spec fn workspace_row(
    ws: Seq<char>,
    monitor: Seq<char>,
    name: Seq<char>,
    persistent: bool,
) -> Option<Seq<char>> {
    if trim(ws).len() == 0 {
        None
    } else {
        Some(
            trim(ws) + seq!['|'] + trim(monitor) + seq!['|'] + trim(name) + seq!['|'] + bool_lua(
                persistent,
            ),
        )
    }
}

/// The line a workspace row stores.
pub fn workspace_entry_line(ws: &str, monitor: &str, name: &str, persistent: bool) -> (r: Option<
    String,
>)
    ensures
        match r {
            Some(s) => workspace_row(ws@, monitor@, name@, persistent) == Some(s@),
            None => workspace_row(ws@, monitor@, name@, persistent) is None,
        },
{
    let w = trim_str(ws);
    if w.len() == 0 {
        return None;
    }
    let mut out = w;
    out.push('|');
    let m = trim_str(monitor);
    extend_chars(&mut out, &m);
    out.push('|');
    let n = trim_str(name);
    extend_chars(&mut out, &n);
    out.push('|');
    if persistent {
        extend_str(&mut out, "true");
    } else {
        extend_str(&mut out, "false");
    }
    assert(out@ =~= workspace_row(ws@, monitor@, name@, persistent)->0);
    Some(string_of(&out))
}

/// The fields of a workspace row.
pub struct WorkspaceRow {
    pub workspace: String,
    pub monitor: String,
    pub name: String,
    pub persistent: bool,
}

/// The fields a workspace row shows for a stored line.
pub open spec fn workspace_fields_of(line: Seq<char>, r: WorkspaceRow) -> bool {
    let p = split(line, '|');
    &&& r.workspace@ == trim(p[0])
    &&& r.monitor@ == (if p.len() > 1 {
        trim(p[1])
    } else {
        Seq::empty()
    })
    &&& r.name@ == (if p.len() > 2 {
        trim(p[2])
    } else {
        Seq::empty()
    })
    &&& r.persistent == (p.len() > 3 && (trim(p[3]) == "true"@ || trim(p[3]) == "1"@))
}

/// Reads a stored workspace line back into a row's fields.
pub fn parse_workspace_line(initial: &str) -> (r: WorkspaceRow)
    ensures
        workspace_fields_of(initial@, r),
{
    let v = chars_of(initial);
    proof {
        reveal_strlit("");
    }
    assert(""@ =~= Seq::<char>::empty());
    let p = split_chars(&v, CharClass::One('|'));
    proof {
        lemma_split_nonempty(v@, CharClass::One('|'));
    }
    assert(views(p@).len() == p@.len());
    let w = trimmed_piece_or(&p, 0, "");
    let m = trimmed_piece_or(&p, 1, "");
    let n = trimmed_piece_or(&p, 2, "");
    let q = trimmed_piece_or(&p, 3, "");
    let persistent = p.len() > 3 && (is_text(&q, "true") || is_text(&q, "1"));
    WorkspaceRow {
        workspace: string_of(&w),
        monitor: string_of(&m),
        name: string_of(&n),
        persistent,
    }
}

/// The line a mouse bind row stores: `MODS, BUTTON, ACTION`, or nothing when
/// no modifier is pressed.
pub open spec fn mouse_bind_row(
    sup: bool,
    shift: bool,
    ctrl: bool,
    alt: bool,
    button: int,
    action: int,
) -> Option<Seq<char>> {
    let m = mods_spec(sup, shift, ctrl, alt);
    if m.len() == 0 {
        None
    } else {
        Some(
            m + ", "@ + pick(mouse_buttons(), button, "mouse:272"@) + ", "@ + pick(
                mouse_actions(),
                action,
                "movewindow"@,
            ),
        )
    }
}

/// The line a mouse bind row stores.
pub fn mouse_bind_entry_line(
    sup: bool,
    shift: bool,
    ctrl: bool,
    alt: bool,
    button: usize,
    action: usize,
) -> (r: Option<String>)
    ensures
        match r {
            Some(s) => mouse_bind_row(sup, shift, ctrl, alt, button as int, action as int) == Some(
                s@,
            ),
            None => mouse_bind_row(sup, shift, ctrl, alt, button as int, action as int) is None,
        },
{
    let m = selected_mods(sup, shift, ctrl, alt);
    let mut out = chars_of(m.as_str());
    if out.len() == 0 {
        return None;
    }
    extend_str(&mut out, ", ");
    extend_str(&mut out, pick_entry(Table::MouseButtons, button, "mouse:272"));
    extend_str(&mut out, ", ");
    extend_str(&mut out, pick_entry(Table::MouseActions, action, "movewindow"));
    assert(out@ =~= mouse_bind_row(sup, shift, ctrl, alt, button as int, action as int)->0);
    Some(string_of(&out))
}

/// The fields of a mouse bind row.
pub struct MouseBindRow {
    pub super_key: bool,
    pub shift: bool,
    pub ctrl: bool,
    pub alt: bool,
    pub button: usize,
    pub action: usize,
}

/// The fields a mouse bind row shows for a stored line.
pub open spec fn mouse_bind_fields(line: Seq<char>, r: MouseBindRow) -> bool {
    let p = split(line, ',');
    let words = split_whitespace(trim(p[0]));
    let b = if p.len() > 1 {
        trim(p[1])
    } else {
        "mouse:272"@
    };
    &&& r.super_key == words.contains("SUPER"@)
    &&& r.shift == words.contains("SHIFT"@)
    &&& r.ctrl == words.contains("CTRL"@)
    &&& r.alt == words.contains("ALT"@)
    &&& r.button as int == index_or(mouse_buttons(), b, 0)
    &&& r.action as int == (if p.len() > 2 {
        index_or(mouse_actions(), trim(p[2]), 0)
    } else {
        0
    })
}

/// Reads a stored mouse bind line back into a row's fields.
pub fn parse_mouse_bind_line(initial: &str) -> (r: MouseBindRow)
    ensures
        mouse_bind_fields(initial@, r),
{
    let v = chars_of(initial);
    let p = split_chars(&v, CharClass::One(','));
    proof {
        lemma_split_nonempty(v@, CharClass::One(','));
    }
    assert(views(p@).len() == p@.len());
    let m = trimmed_piece_or(&p, 0, "SUPER");
    let words = split_whitespace_exec(&m);
    let b = trimmed_piece_or(&p, 1, "mouse:272");
    let action = if p.len() > 2 {
        let a = trimmed_piece_or(&p, 2, "");
        index_in(Table::MouseActions, &a, 0)
    } else {
        0
    };
    MouseBindRow {
        super_key: has_word(&words, "SUPER"),
        shift: has_word(&words, "SHIFT"),
        ctrl: has_word(&words, "CTRL"),
        alt: has_word(&words, "ALT"),
        button: index_in(Table::MouseButtons, &b, 0),
        action,
    }
}


/// An input setting's value as Lua: booleans and numbers as they are, other
/// text as a quoted string.
pub open spec fn input_value_lua(val: Seq<char>) -> Seq<char> {
    if val == "true"@ || val == "false"@ || parses_f64(val) {
        val
    } else {
        seq!['"'] + escape(val) + seq!['"']
    }
}

/// The Lua line an input row stores, or nothing when the value is blank.
pub open spec fn input_row(setting: int, value: Seq<char>) -> Option<Seq<char>> {
    let name = pick(input_settings(), setting, "repeat_rate"@);
    let val = trim(value);
    if val.len() == 0 {
        None
    } else if starts_with(name, "touchpad."@) {
        Some(
            "hl.config({ input = { touchpad = { "@ + name.skip(9) + " = "@ + input_value_lua(val)
                + " } } })"@,
        )
    } else {
        Some("hl.config({ input = { "@ + name + " = "@ + input_value_lua(val) + " } })"@)
    }
}

/// The Lua line an input row stores.
pub fn input_extra_entry_line(setting: usize, value: &str) -> (r: Option<String>)
    ensures
        match r {
            Some(s) => input_row(setting as int, value@) == Some(s@),
            None => input_row(setting as int, value@) is None,
        },
{
    let name = chars_of(pick_entry(Table::InputSettings, setting, "repeat_rate"));
    let val = trim_str(value);
    if val.len() == 0 {
        return None;
    }
    let lua_val = if is_text(&val, "true") || is_text(&val, "false") || parses_f64_exec(&val) {
        val
    } else {
        let mut q: Vec<char> = Vec::new();
        q.push('"');
        let e = escape_chars(&val);
        extend_chars(&mut q, &e);
        q.push('"');
        assert(q@ =~= seq!['"'] + escape(val@) + seq!['"']);
        q
    };
    let mut out: Vec<char> = Vec::new();
    if starts_with_text(&name, "touchpad.") {
        proof {
            reveal_strlit("touchpad.");
        }
        let child = skip_chars(&name, 9);
        extend_str(&mut out, "hl.config({ input = { touchpad = { ");
        extend_chars(&mut out, &child);
        extend_str(&mut out, " = ");
        extend_chars(&mut out, &lua_val);
        extend_str(&mut out, " } } })");
    } else {
        extend_str(&mut out, "hl.config({ input = { ");
        extend_chars(&mut out, &name);
        extend_str(&mut out, " = ");
        extend_chars(&mut out, &lua_val);
        extend_str(&mut out, " } })");
    }
    assert(out@ =~= input_row(setting as int, value@)->0);
    Some(string_of(&out))
}

/// The value after `field` in a Lua table line: the text after the first
/// `=` that follows the field, up to `,` or `}`, trimmed, without quotes.
pub open spec fn field_value(line: Seq<char>, field: Seq<char>) -> Seq<char> {
    match after_first(line, field) {
        None => Seq::empty(),
        Some(a) => {
            let p = split(a, '=');
            if p.len() < 2 {
                Seq::empty()
            } else {
                trim_by(trim(split_by(p[1], CharClass::Either(',', '}'))[0]), CharClass::One('"'))
            }
        },
    }
}

fn first_of_chars(v: &[char], k: CharClass) -> (r: Vec<char>)
    ensures
        r@ == split_by(v@, k)[0],
{
    let p = split_chars(v, k);
    proof {
        lemma_split_nonempty(v@, k);
    }
    assert(views(p@)[0] == p@[0]@);
    let mut out: Vec<char> = Vec::new();
    extend_chars(&mut out, &p[0]);
    assert(out@ =~= p@[0]@);
    out
}

fn second_piece(v: &[char], c: char) -> (r: Option<Vec<char>>)
    ensures
        match r {
            Some(x) => split(v@, c).len() >= 2 && x@ == split(v@, c)[1],
            None => split(v@, c).len() < 2,
        },
{
    let p = split_chars(v, CharClass::One(c));
    assert(views(p@).len() == p@.len());
    if p.len() < 2 {
        return None;
    }
    assert(views(p@)[1] == p@[1]@);
    let mut out: Vec<char> = Vec::new();
    extend_chars(&mut out, &p[1]);
    assert(out@ =~= p@[1]@);
    Some(out)
}

fn field_value_chars(line: &[char], field: &[char]) -> (r: Vec<char>)
    ensures
        r@ == field_value(line@, field@),
{
    match after_first_exec(line, field) {
        None => Vec::new(),
        Some(a) => match second_piece(&a, '=') {
            None => Vec::new(),
            Some(b) => {
                let f = first_of_chars(&b, CharClass::Either(',', '}'));
                let t = trim_chars(&f, CharClass::Whitespace);
                trim_chars(&t, CharClass::One('"'))
            },
        },
    }
}

/// The value after `field` in a Lua table line.
pub fn lua_field_value(line: &str, field: &str) -> (r: String)
    ensures
        r@ == field_value(line@, field@),
{
    let l = chars_of(line);
    let f = chars_of(field);
    let v = field_value_chars(&l, &f);
    string_of(&v)
}

/// An input setting's name as it appears inside its Lua table.
pub open spec fn plain_name(key: Seq<char>) -> Seq<char> {
    if starts_with(key, "touchpad."@) {
        key.skip(9)
    } else {
        key
    }
}

fn plain_name_exec(i: usize) -> (r: Vec<char>)
    requires
        i < input_settings().len(),
    ensures
        r@ == plain_name(input_settings()[i as int]),
{
    let k = chars_of(entry(Table::InputSettings, i));
    if starts_with_text(&k, "touchpad.") {
        proof {
            reveal_strlit("touchpad.");
        }
        skip_chars(&k, 9)
    } else {
        k
    }
}

/// `name = value` for an input setting found in a combined input line.
pub open spec fn expand_item(line: Seq<char>, key: Seq<char>) -> Option<Seq<char>> {
    let plain = plain_name(key);
    let val = field_value(line, plain);
    if contains(line, plain) && val.len() > 0 {
        Some(plain + " = "@ + val)
    } else {
        None
    }
}

/// The settings found in a combined input line, in the order of the input
/// settings list, among its first `n` entries.
pub open spec fn expand_upto(line: Seq<char>, n: nat) -> Seq<Seq<char>>
    decreases n,
{
    if n == 0 {
        Seq::empty()
    } else {
        let r = expand_upto(line, (n - 1) as nat);
        match expand_item(line, input_settings()[n - 1]) {
            Some(x) => r.push(x),
            None => r,
        }
    }
}

/// Splits a stored input line into one `name = value` row per known setting
/// it mentions.
pub fn expand_input_extra_line(line: &str) -> (r: Vec<String>)
    ensures
        r.deep_view() == expand_upto(line@, 7),
{
    let l = chars_of(line);
    let mut out: Vec<String> = Vec::new();
    let mut i: usize = 0;
    while i < 7
        invariant
            i <= 7,
            l@ == line@,
            out.deep_view() =~= expand_upto(line@, i as nat),
        decreases 7 - i,
    {
        let plain = plain_name_exec(i);
        let ghost before = out.deep_view();
        if contains_text_chars(&l, &plain) {
            let val = field_value_chars(&l, &plain);
            if val.len() > 0 {
                let mut item = plain.clone();
                extend_str(&mut item, " = ");
                extend_chars(&mut item, &val);
                out.push(string_of(&item));
                assert(out.deep_view() =~= before.push(item@));
            }
        }
        i = i + 1;
    }
    out
}

fn contains_text_chars(v: &[char], p: &[char]) -> (r: bool)
    ensures
        r == contains(v@, p@),
{
    crate::text::contains_exec(v, p)
}

/// The setting a stored input line names first (searching the input
/// settings list from index `i`) and its value.
pub open spec fn parse_input_from(line: Seq<char>, i: nat) -> (int, Seq<char>)
    decreases 7 - i,
{
    if i >= 7 {
        (0, Seq::empty())
    } else if contains(line, plain_name(input_settings()[i as int])) {
        (i as int, field_value(line, plain_name(input_settings()[i as int])))
    } else {
        parse_input_from(line, i + 1)
    }
}

/// Reads a stored input line back into a row's setting index and value.
pub fn parse_input_extra(initial: &str) -> (r: (usize, String))
    ensures
        parse_input_from(initial@, 0) == (r.0 as int, r.1@),
{
    let l = chars_of(initial);
    let mut i: usize = 0;
    while i < 7
        invariant
            i <= 7,
            l@ == initial@,
            parse_input_from(initial@, 0) == parse_input_from(initial@, i as nat),
        decreases 7 - i,
    {
        let plain = plain_name_exec(i);
        if contains_text_chars(&l, &plain) {
            let v = field_value_chars(&l, &plain);
            return (i, string_of(&v));
        }
        i = i + 1;
    }
    proof {
        reveal_strlit("");
    }
    (0, String::new())
}

/// The Lua line a gesture row stores; a `custom` row stores its value as raw
/// Lua, or nothing when it is blank.
pub open spec fn gesture_row(fingers: u32, direction: int, action: int, value: Seq<char>) -> Option<
    Seq<char>,
> {
    let dir = pick(gesture_directions(), direction, "horizontal"@);
    let act = pick(gesture_actions(), action, "workspace"@);
    let val = trim(value);
    if act == "custom"@ {
        if val.len() == 0 {
            None
        } else {
            Some(val)
        }
    } else {
        let value_part = if val.len() == 0 {
            Seq::empty()
        } else {
            ", value = \""@ + escape(val) + "\""@
        };
        Some(
            "hl.gesture({ fingers = "@ + dec(fingers as nat) + ", direction = \""@ + dir
                + "\", action = \""@ + act + "\""@ + value_part + " })"@,
        )
    }
}

/// The Lua line a gesture row stores.
pub fn gesture_entry_line(fingers: u32, direction: usize, action: usize, value: &str) -> (r: Option<
    String,
>)
    ensures
        match r {
            Some(s) => gesture_row(fingers, direction as int, action as int, value@) == Some(s@),
            None => gesture_row(fingers, direction as int, action as int, value@) is None,
        },
{
    let dir = pick_entry(Table::GestureDirections, direction, "horizontal");
    let act = pick_entry(Table::GestureActions, action, "workspace");
    let act_v = chars_of(act);
    let val = trim_str(value);
    if is_text(&act_v, "custom") {
        if val.len() == 0 {
            return None;
        }
        return Some(string_of(&val));
    }
    let mut out = chars_of("hl.gesture({ fingers = ");
    push_dec(&mut out, fingers as u64);
    extend_str(&mut out, ", direction = \"");
    extend_str(&mut out, dir);
    extend_str(&mut out, "\", action = \"");
    extend_str(&mut out, act);
    extend_str(&mut out, "\"");
    let ghost mid = out@;
    if val.len() > 0 {
        extend_str(&mut out, ", value = \"");
        let e = escape_chars(&val);
        extend_chars(&mut out, &e);
        extend_str(&mut out, "\"");
    }
    extend_str(&mut out, " })");
    assert(out@ =~= gesture_row(fingers, direction as int, action as int, value@)->0);
    Some(string_of(&out))
}

/// The value after `key` in a gesture line, cleaned of commas, braces and
/// quotes, or `default` when the key is missing.
pub open spec fn extract_value(s: Seq<char>, key: Seq<char>, default: Seq<char>) -> Seq<char> {
    match after_first(s, key) {
        None => default,
        Some(a) => {
            let p = split(a, '=');
            let x = if p.len() >= 2 {
                p[1]
            } else {
                default
            };
            trim_by(
                trim(trim_by(trim(trim_by(trim(x), CharClass::One(','))), CharClass::One('}'))),
                CharClass::One('"'),
            )
        },
    }
}

fn clean_value(x: &[char]) -> (r: Vec<char>)
    ensures
        r@ == trim_by(
            trim(trim_by(trim(trim_by(trim(x@), CharClass::One(','))), CharClass::One('}'))),
            CharClass::One('"'),
        ),
{
    let a = trim_chars(x, CharClass::Whitespace);
    let b = trim_chars(&a, CharClass::One(','));
    let c = trim_chars(&b, CharClass::Whitespace);
    let d = trim_chars(&c, CharClass::One('}'));
    let e = trim_chars(&d, CharClass::Whitespace);
    trim_chars(&e, CharClass::One('"'))
}

/// The value after `key` in a gesture line.
pub fn extract_between(s: &str, key: &str, default: &str) -> (r: String)
    ensures
        r@ == extract_value(s@, key@, default@),
{
    let sv = chars_of(s);
    let kv = chars_of(key);
    match after_first_exec(&sv, &kv) {
        None => String::from_str(default),
        Some(a) => {
            let x = match second_piece(&a, '=') {
                Some(b) => b,
                None => chars_of(default),
            };
            let v = clean_value(&x);
            string_of(&v)
        },
    }
}

/// The fields of a gesture row; `fingers` is the text of the finger count.
pub struct GestureRow {
    pub fingers: String,
    pub direction: usize,
    pub action: usize,
    pub value: String,
}

/// The fields a gesture row shows for a stored line.
pub open spec fn gesture_fields(line: Seq<char>, r: GestureRow) -> bool {
    let custom_default = if starts_with(trim(line), "hl."@) && !contains(line, "hl.gesture"@) {
        4int
    } else {
        0int
    };
    let action = index_or(
        gesture_actions(),
        extract_value(line, "action"@, "workspace"@),
        custom_default,
    );
    &&& r.fingers@ == extract_value(line, "fingers"@, "3"@)
    &&& r.direction as int == index_or(
        gesture_directions(),
        extract_value(line, "direction"@, "horizontal"@),
        0,
    )
    &&& r.action as int == action
    &&& r.value@ == (if action == 4 {
        line
    } else {
        Seq::empty()
    })
}

/// Reads a stored gesture line back into a row's fields.
pub fn parse_gesture_line(initial: &str) -> (r: GestureRow)
    ensures
        gesture_fields(initial@, r),
{
    let fingers = extract_between(initial, "fingers", "3");
    let dir = extract_between(initial, "direction", "horizontal");
    let dir_v = chars_of(dir.as_str());
    let direction = index_in(Table::GestureDirections, &dir_v, 0);
    let act = extract_between(initial, "action", "workspace");
    let act_v = chars_of(act.as_str());
    let l = chars_of(initial);
    let t = trim_chars(&l, CharClass::Whitespace);
    let custom_default: usize = if starts_with_text(&t, "hl.") && !contains_text(&l, "hl.gesture") {
        4
    } else {
        0
    };
    let action = index_in(Table::GestureActions, &act_v, custom_default);
    let value = if action == 4 {
        String::from_str(initial)
    } else {
        String::new()
    };
    GestureRow { fingers, direction, action, value }
}

/// The Lua line an animation row stores.
pub open spec fn animation_row(
    leaf: int,
    enabled: bool,
    speed: u32,
    bezier: int,
    custom: Seq<char>,
) -> Seq<char> {
    "hl.animation({ leaf = \""@ + pick(animation_leaves(), leaf, "windows"@) + "\", enabled = "@
        + bool_lua(enabled) + ", speed = "@ + dec(speed as nat) + ", bezier = \""@ + escape(
        animation_curve(bezier, custom),
    ) + "\" })"@
}

/// The curve of an animation row: the chosen curve, or the custom text for
/// `custom` (`default` when that text is blank).
pub open spec fn animation_curve(bezier: int, custom: Seq<char>) -> Seq<char> {
    let selected = pick(animation_beziers(), bezier, "default"@);
    if selected == "custom"@ {
        if trim(custom).len() == 0 {
            "default"@
        } else {
            trim(custom)
        }
    } else {
        selected
    }
}

/// The Lua line an animation row stores.
pub fn animation_entry_line(leaf: usize, enabled: bool, speed: u32, bezier: usize, custom: &str) -> (r:
    String)
    ensures
        r@ == animation_row(leaf as int, enabled, speed, bezier as int, custom@),
{
    let selected = chars_of(pick_entry(Table::AnimationBeziers, bezier, "default"));
    let c = trim_str(custom);
    let curve = if is_text(&selected, "custom") {
        if c.len() == 0 {
            chars_of("default")
        } else {
            c
        }
    } else {
        selected
    };
    let mut out = chars_of("hl.animation({ leaf = \"");
    extend_str(&mut out, pick_entry(Table::AnimationLeaves, leaf, "windows"));
    extend_str(&mut out, "\", enabled = ");
    if enabled {
        extend_str(&mut out, "true");
    } else {
        extend_str(&mut out, "false");
    }
    extend_str(&mut out, ", speed = ");
    push_dec(&mut out, speed as u64);
    extend_str(&mut out, ", bezier = \"");
    let e = escape_chars(&curve);
    extend_chars(&mut out, &e);
    extend_str(&mut out, "\" })");
    assert(out@ =~= animation_row(leaf as int, enabled, speed, bezier as int, custom@));
    string_of(&out)
}

/// The value after `key` in an animation line, up to `,` or `}`, trimmed,
/// without quotes; `default` when the key or its `=` is missing.
pub open spec fn anim_field(line: Seq<char>, key: Seq<char>, default: Seq<char>) -> Seq<char> {
    match after_first(line, key) {
        None => default,
        Some(a) => {
            let p = split(a, '=');
            if p.len() < 2 {
                default
            } else {
                trim_by(trim(split_by(p[1], CharClass::Either(',', '}'))[0]), CharClass::One('"'))
            }
        },
    }
}

/// The value after `key` in an animation line.
pub fn anim_value(line: &str, key: &str, default: &str) -> (r: String)
    ensures
        r@ == anim_field(line@, key@, default@),
{
    let l = chars_of(line);
    let k = chars_of(key);
    match after_first_exec(&l, &k) {
        None => String::from_str(default),
        Some(a) => match second_piece(&a, '=') {
            None => String::from_str(default),
            Some(b) => {
                let f = first_of_chars(&b, CharClass::Either(',', '}'));
                let t = trim_chars(&f, CharClass::Whitespace);
                let q = trim_chars(&t, CharClass::One('"'));
                string_of(&q)
            },
        },
    }
}

/// The fields of an animation row; `speed` is the text of the speed.
pub struct AnimationRow {
    pub leaf: usize,
    pub enabled: bool,
    pub speed: String,
    pub bezier: usize,
    pub custom: String,
}

/// The fields an animation row shows for a stored line.
pub open spec fn animation_fields(line: Seq<char>, r: AnimationRow) -> bool {
    let bezier = index_or(animation_beziers(), anim_field(line, "bezier"@, "default"@), 6);
    &&& r.leaf as int == index_or(animation_leaves(), anim_field(line, "leaf"@, "windows"@), 0)
    &&& r.enabled == (anim_field(line, "enabled"@, "true"@) != "false"@)
    &&& r.speed@ == anim_field(line, "speed"@, "7"@)
    &&& r.bezier as int == bezier
    &&& r.custom@ == (if bezier == 6 {
        anim_field(line, "bezier"@, "default"@)
    } else {
        Seq::empty()
    })
}

/// Reads a stored animation line back into a row's fields.
pub fn parse_animation_line(initial: &str) -> (r: AnimationRow)
    ensures
        animation_fields(initial@, r),
{
    let leaf = anim_value(initial, "leaf", "windows");
    let enabled = anim_value(initial, "enabled", "true");
    let speed = anim_value(initial, "speed", "7");
    let bezier = anim_value(initial, "bezier", "default");
    let leaf_v = chars_of(leaf.as_str());
    let enabled_v = chars_of(enabled.as_str());
    let bezier_v = chars_of(bezier.as_str());
    let bezier_idx = index_in(Table::AnimationBeziers, &bezier_v, 6);
    AnimationRow {
        leaf: index_in(Table::AnimationLeaves, &leaf_v, 0),
        enabled: !is_text(&enabled_v, "false"),
        speed,
        bezier: bezier_idx,
        custom: if bezier_idx == 6 {
            bezier
        } else {
            String::new()
        },
    }
}

} // verus!
