//! The blocks of Lua lines that the settings lists produce: monitors,
//! environment variables, commands, keybinds, mouse binds, workspace rules,
//! window rules and raw lines.
use vstd::prelude::*;
use crate::dispatch::{dispatcher_lua, escape, escape_chars, push_dispatcher_lua};
use crate::numbers::{dec, push_dec};
use crate::text::{
    chars_of, extend_chars, extend_str, is_text, join, join_chars, join_strings, replace_char,
    replace_char_exec, split, split_chars, split_once, split_once_chars, splitn, splitn_chars,
    string_of, trim, opt_view, trim_chars, views, lemma_split_nonempty, CharClass,
};

verus! {

/// The kinds of settings lists that become Lua blocks.
#[derive(Clone, Copy)]
pub enum LineKind {
    Monitor,
    Env,
    Exec,
    Keybind,
    MouseBind,
    Workspace,
    WindowRule,
    Raw,
    Startup,
}

pub open spec fn nl() -> Seq<char> {
    seq!['\n']
}

/// The scale text of a monitor line: its trimmed fourth comma field, or `1`.
pub open spec fn monitor_scale_field(line: Seq<char>) -> Seq<char> {
    let p = splitn(trim(line), 4, ',');
    if p.len() > 3 {
        trim(p[3])
    } else {
        "1"@
    }
}

/// `OUTPUT,MODE,POSITION,SCALE` (or `OUTPUT,disabled`) as an `hl.monitor` call,
/// with the scale already printed.
pub open spec fn monitor_lua(line: Seq<char>, scale: Seq<char>) -> Option<Seq<char>> {
    let t = trim(line);
    let p = splitn(t, 4, ',');
    let output = trim(p[0]);
    if t.len() == 0 || output.len() == 0 {
        None
    } else {
        let mode = if p.len() > 1 {
            trim(p[1])
        } else {
            "preferred"@
        };
        if mode == "disabled"@ {
            Some("hl.monitor({ output = \""@ + output + "\", disabled = true })"@)
        } else {
            let position = if p.len() > 2 {
                trim(p[2])
            } else {
                "0x0"@
            };
            Some(
                "hl.monitor({ output = \""@ + output + "\", mode = \""@ + mode
                    + "\", position = \""@ + position + "\", scale = "@ + scale + " })"@,
            )
        }
    }
}

/// `KEY,value` as an `hl.env` call.
pub open spec fn env_lua(line: Seq<char>) -> Option<Seq<char>> {
    let t = trim(line);
    match split_once(t, ',') {
        None => None,
        Some((k, v)) => if t.len() == 0 || trim(k).len() == 0 {
            None
        } else {
            Some("hl.env(\""@ + trim(k) + "\", \""@ + trim(v) + "\")"@)
        },
    }
}

/// A command as an `hl.exec_cmd` call.
pub open spec fn exec_lua(line: Seq<char>) -> Option<Seq<char>> {
    let t = trim(line);
    if t.len() == 0 {
        None
    } else {
        Some("hl.exec_cmd(\""@ + escape(t) + "\")"@)
    }
}

/// `MODS|KEY|DISPATCHER|ARGS` as an `hl.bind` call.
pub open spec fn keybind_lua(line: Seq<char>) -> Option<Seq<char>> {
    let p = split(line, '|');
    if p.len() < 3 || trim(p[0]).len() == 0 || trim(p[1]).len() == 0 || trim(p[2]).len() == 0 {
        None
    } else {
        let args = if p.len() > 3 {
            trim(p[3])
        } else {
            Seq::empty()
        };
        Some(
            "hl.bind(\""@ + trim(p[0]) + " + "@ + trim(p[1]) + "\", "@ + dispatcher_lua(
                trim(p[2]),
                args,
            ) + ")"@,
        )
    }
}

/// The Lua action of a mouse bind.
pub open spec fn mouse_action(d: Seq<char>) -> Seq<char> {
    if d == "movewindow"@ {
        "hl.dsp.window.drag()"@
    } else if d == "resizewindow"@ {
        "hl.dsp.window.resize()"@
    } else {
        "hl.dsp."@ + d + "()"@
    }
}

/// `MODS, BUTTON, ACTION` as a mouse `hl.bind` call.
pub open spec fn mouse_bind_lua(line: Seq<char>) -> Option<Seq<char>> {
    let p = splitn(line, 3, ',');
    if p.len() < 3 {
        None
    } else {
        Some(
            "hl.bind(\""@ + trim(p[0]) + " + "@ + trim(p[1]) + "\", "@ + mouse_action(trim(p[2]))
                + ", { mouse = true })"@,
        )
    }
}

/// `WORKSPACE|MONITOR|NAME|PERSISTENT` as the fields of a workspace rule.
pub open spec fn workspace_fields(p: Seq<Seq<char>>) -> Seq<Seq<char>> {
    let f0 = seq!["workspace = \""@ + trim(p[0]) + "\""@];
    let f1 = if p.len() > 1 && trim(p[1]).len() > 0 {
        f0.push("monitor = \""@ + trim(p[1]) + "\""@)
    } else {
        f0
    };
    let f2 = if p.len() > 2 && trim(p[2]).len() > 0 {
        f1.push("name = \""@ + trim(p[2]) + "\""@)
    } else {
        f1
    };
    if p.len() > 3 && trim(p[3]).len() > 0 {
        f2.push(
            "persistent = "@ + (if trim(p[3]) == "true"@ || trim(p[3]) == "1"@ {
                "true"@
            } else {
                "false"@
            }),
        )
    } else {
        f2
    }
}

/// A workspace row as an `hl.workspace_rule` call.
pub open spec fn workspace_lua(line: Seq<char>) -> Option<Seq<char>> {
    let p = split(line, '|');
    if trim(p[0]).len() == 0 {
        None
    } else {
        Some("hl.workspace_rule({ "@ + join(workspace_fields(p), ", "@) + " })"@)
    }
}

/// One `key=value` part of a window rule row as a rule field.
pub open spec fn rule_field(part: Seq<char>) -> Option<Seq<char>> {
    match split_once(part, '=') {
        None => None,
        Some((k0, v0)) => {
            let k = trim(k0);
            let v = trim(v0);
            if k == "float"@ && (v == "true"@ || v == "1"@) {
                Some("float = true"@)
            } else if k == "center"@ && (v == "true"@ || v == "1"@) {
                Some("center = true"@)
            } else if k == "size"@ && v.len() > 0 {
                Some("size = \""@ + replace_char(v, 'x', seq![' ']) + "\""@)
            } else if k == "workspace"@ && v.len() > 0 {
                Some("workspace = \""@ + v + "\""@)
            } else if k == "opacity"@ && v.len() > 0 {
                Some("opacity = "@ + v)
            } else {
                None
            }
        },
    }
}

/// The fields of the `key=value` parts, in order, skipping the others.
pub open spec fn rule_fields(parts: Seq<Seq<char>>) -> Seq<Seq<char>>
    decreases parts.len(),
{
    if parts.len() == 0 {
        Seq::empty()
    } else {
        let r = rule_fields(parts.drop_last());
        match rule_field(parts.last()) {
            Some(f) => r.push(f),
            None => r,
        }
    }
}

/// A class with its parentheses escaped for a Lua pattern.
pub open spec fn escape_parens(s: Seq<char>) -> Seq<char> {
    replace_char(replace_char(s, '(', seq!['\\', '(']), ')', seq!['\\', ')'])
}

/// `CLASS|key=value|...` (the `idx`-th row) as an `hl.window_rule` call.
pub open spec fn window_rule_lua(idx: int, line: Seq<char>) -> Option<Seq<char>> {
    let p = split(line, '|');
    let class = trim(p[0]);
    if class.len() == 0 {
        None
    } else {
        let fields = seq![
            "name = \"auto-rule-"@ + dec(idx as nat) + "\""@,
            "match = { class = \"^"@ + escape_parens(class) + "$\" }"@,
        ] + rule_fields(p.skip(1));
        Some("hl.window_rule({ "@ + join(fields, ", "@) + " })"@)
    }
}

/// A start-up command as an indented `hl.exec_cmd` call.
pub open spec fn startup_lua(line: Seq<char>) -> Option<Seq<char>> {
    let t = trim(line);
    if t.len() == 0 {
        None
    } else {
        Some("  hl.exec_cmd(\""@ + escape(t) + "\")"@)
    }
}

/// A raw line, trimmed; blank lines are dropped.
pub open spec fn raw_lua(line: Seq<char>) -> Option<Seq<char>> {
    if trim(line).len() == 0 {
        None
    } else {
        Some(trim(line))
    }
}

/// The Lua line for the `idx`-th row of a list of the given kind.
pub open spec fn line_lua(kind: LineKind, idx: int, line: Seq<char>, scales: Seq<Seq<char>>) -> Option<
    Seq<char>,
> {
    match kind {
        LineKind::Monitor => monitor_lua(line, scales[idx]),
        LineKind::Env => env_lua(line),
        LineKind::Exec => exec_lua(line),
        LineKind::Keybind => keybind_lua(line),
        LineKind::MouseBind => mouse_bind_lua(line),
        LineKind::Workspace => workspace_lua(line),
        LineKind::WindowRule => window_rule_lua(idx, line),
        LineKind::Raw => raw_lua(line),
        LineKind::Startup => startup_lua(line),
    }
}

/// The Lua lines of a list: one per row that yields a line, in order.
pub open spec fn block_lines(kind: LineKind, lines: Seq<Seq<char>>, scales: Seq<Seq<char>>) -> Seq<
    Seq<char>,
>
    decreases lines.len(),
{
    if lines.len() == 0 {
        Seq::empty()
    } else {
        let r = block_lines(kind, lines.drop_last(), scales);
        match line_lua(kind, lines.len() - 1, lines.last(), scales) {
            Some(x) => r.push(x),
            None => r,
        }
    }
}

/// The Lua block of a list: its lines joined by newlines.
pub open spec fn block(kind: LineKind, lines: Seq<Seq<char>>, scales: Seq<Seq<char>>) -> Seq<char> {
    join(block_lines(kind, lines, scales), nl())
}

fn trimmed_piece(p: &Vec<Vec<char>>, i: usize) -> (r: Vec<char>)
    requires
        i < p.len(),
    ensures
        r@ == trim(views(p@)[i as int]),
{
    trim_chars(&p[i], CharClass::Whitespace)
}

/// The scale text of a monitor line.
pub fn monitor_scale_text(line: &str) -> (r: String)
    ensures
        r@ == monitor_scale_field(line@),
{
    let v = chars_of(line);
    let t = trim_chars(&v, CharClass::Whitespace);
    let p = splitn_chars(&t, 4, ',');
    if p.len() > 3 {
        let s = trimmed_piece(&p, 3);
        string_of(&s)
    } else {
        String::from_str("1")
    }
}

fn monitor_line(line: &[char], scale: &[char]) -> (r: Option<Vec<char>>)
    ensures
        opt_view(r) == monitor_lua(line@, scale@),
{
    let t = trim_chars(line, CharClass::Whitespace);
    let p = splitn_chars(&t, 4, ',');
    proof {
        lemma_split_nonempty(t@, CharClass::One(','));
    }
    assert(views(p@).len() == p@.len());
    let output = trimmed_piece(&p, 0);
    if t.len() == 0 || output.len() == 0 {
        return None;
    }
    let mode = if p.len() > 1 {
        trimmed_piece(&p, 1)
    } else {
        chars_of("preferred")
    };
    let mut out: Vec<char> = Vec::new();
    extend_str(&mut out, "hl.monitor({ output = \"");
    extend_chars(&mut out, &output);
    if is_text(&mode, "disabled") {
        extend_str(&mut out, "\", disabled = true })");
        assert(out@ =~= monitor_lua(line@, scale@)->0);
        return Some(out);
    }
    let position = if p.len() > 2 {
        trimmed_piece(&p, 2)
    } else {
        chars_of("0x0")
    };
    extend_str(&mut out, "\", mode = \"");
    extend_chars(&mut out, &mode);
    extend_str(&mut out, "\", position = \"");
    extend_chars(&mut out, &position);
    extend_str(&mut out, "\", scale = ");
    extend_chars(&mut out, scale);
    extend_str(&mut out, " })");
    assert(out@ =~= monitor_lua(line@, scale@)->0);
    Some(out)
}

fn env_line(line: &[char]) -> (r: Option<Vec<char>>)
    ensures
        opt_view(r) == env_lua(line@),
{
    let t = trim_chars(line, CharClass::Whitespace);
    match split_once_chars(&t, ',') {
        None => None,
        Some((k0, v0)) => {
            let k = trim_chars(&k0, CharClass::Whitespace);
            let v = trim_chars(&v0, CharClass::Whitespace);
            if t.len() == 0 || k.len() == 0 {
                return None;
            }
            let mut out: Vec<char> = Vec::new();
            extend_str(&mut out, "hl.env(\"");
            extend_chars(&mut out, &k);
            extend_str(&mut out, "\", \"");
            extend_chars(&mut out, &v);
            extend_str(&mut out, "\")");
            assert(out@ =~= env_lua(line@)->0);
            Some(out)
        },
    }
}

fn exec_line(line: &[char]) -> (r: Option<Vec<char>>)
    ensures
        opt_view(r) == exec_lua(line@),
{
    let t = trim_chars(line, CharClass::Whitespace);
    if t.len() == 0 {
        return None;
    }
    let mut out: Vec<char> = Vec::new();
    extend_str(&mut out, "hl.exec_cmd(\"");
    let e = escape_chars(&t);
    extend_chars(&mut out, &e);
    extend_str(&mut out, "\")");
    assert(out@ =~= exec_lua(line@)->0);
    Some(out)
}

fn keybind_line(line: &[char]) -> (r: Option<Vec<char>>)
    ensures
        opt_view(r) == keybind_lua(line@),
{
    let p = split_chars(line, CharClass::One('|'));
    assert(views(p@).len() == p@.len());
    if p.len() < 3 {
        return None;
    }
    let m = trimmed_piece(&p, 0);
    let k = trimmed_piece(&p, 1);
    let d = trimmed_piece(&p, 2);
    if m.len() == 0 || k.len() == 0 || d.len() == 0 {
        return None;
    }
    let a = if p.len() > 3 {
        trimmed_piece(&p, 3)
    } else {
        Vec::new()
    };
    let mut out: Vec<char> = Vec::new();
    extend_str(&mut out, "hl.bind(\"");
    extend_chars(&mut out, &m);
    extend_str(&mut out, " + ");
    extend_chars(&mut out, &k);
    extend_str(&mut out, "\", ");
    push_dispatcher_lua(&mut out, &d, &a);
    extend_str(&mut out, ")");
    assert(a@ =~= (if views(p@).len() > 3 {
        trim(views(p@)[3])
    } else {
        Seq::empty()
    }));
    assert(out@ =~= keybind_lua(line@)->0);
    Some(out)
}

fn push_mouse_action(out: &mut Vec<char>, d: &[char])
    ensures
        final(out)@ == old(out)@ + mouse_action(d@),
{
    if is_text(d, "movewindow") {
        extend_str(out, "hl.dsp.window.drag()");
    } else if is_text(d, "resizewindow") {
        extend_str(out, "hl.dsp.window.resize()");
    } else {
        extend_str(out, "hl.dsp.");
        extend_chars(out, d);
        extend_str(out, "()");
    }
    assert(out@ =~= old(out)@ + mouse_action(d@));
}

fn mouse_bind_line(line: &[char]) -> (r: Option<Vec<char>>)
    ensures
        opt_view(r) == mouse_bind_lua(line@),
{
    let p = splitn_chars(line, 3, ',');
    assert(views(p@).len() == p@.len());
    if p.len() < 3 {
        return None;
    }
    let m = trimmed_piece(&p, 0);
    let b = trimmed_piece(&p, 1);
    let d = trimmed_piece(&p, 2);
    let mut out: Vec<char> = Vec::new();
    extend_str(&mut out, "hl.bind(\"");
    extend_chars(&mut out, &m);
    extend_str(&mut out, " + ");
    extend_chars(&mut out, &b);
    extend_str(&mut out, "\", ");
    push_mouse_action(&mut out, &d);
    extend_str(&mut out, ", { mouse = true })");
    assert(out@ =~= mouse_bind_lua(line@)->0);
    Some(out)
}

fn quoted_field(prefix: &str, v: &[char]) -> (r: Vec<char>)
    ensures
        r@ == prefix@ + v@ + "\""@,
{
    let mut out: Vec<char> = Vec::new();
    extend_str(&mut out, prefix);
    extend_chars(&mut out, v);
    extend_str(&mut out, "\"");
    assert(out@ =~= prefix@ + v@ + "\""@);
    out
}

fn workspace_line(line: &[char]) -> (r: Option<Vec<char>>)
    ensures
        opt_view(r) == workspace_lua(line@),
{
    let p = split_chars(line, CharClass::One('|'));
    proof {
        lemma_split_nonempty(line@, CharClass::One('|'));
    }
    let ghost pv = views(p@);
    assert(pv.len() == p@.len());
    let w = trimmed_piece(&p, 0);
    if w.len() == 0 {
        return None;
    }
    let mut fields: Vec<Vec<char>> = Vec::new();
    fields.push(quoted_field("workspace = \"", &w));
    assert(views(fields@) =~= seq!["workspace = \""@ + trim(pv[0]) + "\""@]);
    if p.len() > 1 {
        let m = trimmed_piece(&p, 1);
        if m.len() > 0 {
            let ghost before = views(fields@);
            fields.push(quoted_field("monitor = \"", &m));
            assert(views(fields@) =~= before.push("monitor = \""@ + trim(pv[1]) + "\""@));
        }
    }
    if p.len() > 2 {
        let n = trimmed_piece(&p, 2);
        if n.len() > 0 {
            let ghost before = views(fields@);
            fields.push(quoted_field("name = \"", &n));
            assert(views(fields@) =~= before.push("name = \""@ + trim(pv[2]) + "\""@));
        }
    }
    if p.len() > 3 {
        let q = trimmed_piece(&p, 3);
        if q.len() > 0 {
            let mut f: Vec<char> = Vec::new();
            extend_str(&mut f, "persistent = ");
            if is_text(&q, "true") || is_text(&q, "1") {
                extend_str(&mut f, "true");
            } else {
                extend_str(&mut f, "false");
            }
            let ghost before = views(fields@);
            fields.push(f);
            assert(views(fields@) =~= before.push(
                "persistent = "@ + (if trim(pv[3]) == "true"@ || trim(pv[3]) == "1"@ {
                    "true"@
                } else {
                    "false"@
                }),
            ));
        }
    }
    assert(views(fields@) =~= workspace_fields(pv));
    let sep = chars_of(", ");
    let joined = join_chars(&fields, &sep);
    let mut out: Vec<char> = Vec::new();
    extend_str(&mut out, "hl.workspace_rule({ ");
    extend_chars(&mut out, &joined);
    extend_str(&mut out, " })");
    assert(out@ =~= workspace_lua(line@)->0);
    Some(out)
}

fn rule_field_line(part: &[char]) -> (r: Option<Vec<char>>)
    ensures
        opt_view(r) == rule_field(part@),
{
    match split_once_chars(part, '=') {
        None => None,
        Some((k0, v0)) => {
            let k = trim_chars(&k0, CharClass::Whitespace);
            let v = trim_chars(&v0, CharClass::Whitespace);
            let yes = is_text(&v, "true") || is_text(&v, "1");
            if is_text(&k, "float") && yes {
                Some(chars_of("float = true"))
            } else if is_text(&k, "center") && yes {
                Some(chars_of("center = true"))
            } else if is_text(&k, "size") && v.len() > 0 {
                let sp = vec![' '];
                assert(sp@ =~= seq![' ']);
                let s = replace_char_exec(&v, 'x', &sp);
                Some(quoted_field("size = \"", &s))
            } else if is_text(&k, "workspace") && v.len() > 0 {
                Some(quoted_field("workspace = \"", &v))
            } else if is_text(&k, "opacity") && v.len() > 0 {
                let mut out = chars_of("opacity = ");
                extend_chars(&mut out, &v);
                Some(out)
            } else {
                None
            }
        },
    }
}

fn window_rule_line(idx: usize, line: &[char]) -> (r: Option<Vec<char>>)
    ensures
        opt_view(r) == window_rule_lua(idx as int, line@),
{
    let p = split_chars(line, CharClass::One('|'));
    proof {
        lemma_split_nonempty(line@, CharClass::One('|'));
    }
    let ghost pv = views(p@);
    assert(pv.len() == p@.len());
    let class = trimmed_piece(&p, 0);
    if class.len() == 0 {
        return None;
    }
    let mut fields: Vec<Vec<char>> = Vec::new();
    let mut f0 = chars_of("name = \"auto-rule-");
    push_dec(&mut f0, idx as u64);
    extend_str(&mut f0, "\"");
    fields.push(f0);
    let lp = vec!['\\', '('];
    let rp = vec!['\\', ')'];
    assert(lp@ =~= seq!['\\', '(']);
    assert(rp@ =~= seq!['\\', ')']);
    let a = replace_char_exec(&class, '(', &lp);
    let safe = replace_char_exec(&a, ')', &rp);
    let mut f1 = chars_of("match = { class = \"^");
    extend_chars(&mut f1, &safe);
    extend_str(&mut f1, "$\" }");
    fields.push(f1);
    let ghost head = views(fields@);
    assert(head =~= seq![
        "name = \"auto-rule-"@ + dec(idx as nat) + "\""@,
        "match = { class = \"^"@ + escape_parens(trim(pv[0])) + "$\" }"@,
    ]);
    let mut i: usize = 1;
    while i < p.len()
        invariant
            1 <= i <= p.len(),
            pv == views(p@),
            pv.len() == p@.len(),
            views(fields@) =~= head + rule_fields(pv.subrange(1, i as int)),
        decreases p.len() - i,
    {
        assert(pv.subrange(1, i + 1).drop_last() =~= pv.subrange(1, i as int));
        assert(pv.subrange(1, i + 1).last() == p@[i as int]@);
        let ghost before = views(fields@);
        match rule_field_line(&p[i]) {
            Some(f) => {
                fields.push(f);
                assert(views(fields@) =~= before.push(f@));
            },
            None => {},
        }
        i = i + 1;
    }
    assert(pv.subrange(1, p.len() as int) =~= pv.skip(1));
    assert(views(fields@) =~= seq![
        "name = \"auto-rule-"@ + dec(idx as nat) + "\""@,
        "match = { class = \"^"@ + escape_parens(trim(pv[0])) + "$\" }"@,
    ] + rule_fields(pv.skip(1)));
    let sep = chars_of(", ");
    let joined = join_chars(&fields, &sep);
    let mut out: Vec<char> = Vec::new();
    extend_str(&mut out, "hl.window_rule({ ");
    extend_chars(&mut out, &joined);
    extend_str(&mut out, " })");
    assert(out@ =~= window_rule_lua(idx as int, line@)->0);
    Some(out)
}

fn startup_line(line: &[char]) -> (r: Option<Vec<char>>)
    ensures
        opt_view(r) == startup_lua(line@),
{
    let t = trim_chars(line, CharClass::Whitespace);
    if t.len() == 0 {
        return None;
    }
    let mut out: Vec<char> = Vec::new();
    extend_str(&mut out, "  hl.exec_cmd(\"");
    let e = escape_chars(&t);
    extend_chars(&mut out, &e);
    extend_str(&mut out, "\")");
    assert(out@ =~= startup_lua(line@)->0);
    Some(out)
}

fn raw_line(line: &[char]) -> (r: Option<Vec<char>>)
    ensures
        opt_view(r) == raw_lua(line@),
{
    let t = trim_chars(line, CharClass::Whitespace);
    if t.len() == 0 {
        None
    } else {
        Some(t)
    }
}

fn line_for(kind: LineKind, idx: usize, line: &[char], scales: &Vec<String>) -> (r: Option<
    Vec<char>,
>)
    requires
        kind == LineKind::Monitor ==> idx < scales.len(),
    ensures
        opt_view(r) == line_lua(kind, idx as int, line@, scales.deep_view()),
{
    match kind {
        LineKind::Monitor => {
            let s = chars_of(scales[idx].as_str());
            monitor_line(line, &s)
        },
        LineKind::Env => env_line(line),
        LineKind::Exec => exec_line(line),
        LineKind::Keybind => keybind_line(line),
        LineKind::MouseBind => mouse_bind_line(line),
        LineKind::Workspace => workspace_line(line),
        LineKind::WindowRule => window_rule_line(idx, line),
        LineKind::Raw => raw_line(line),
        LineKind::Startup => startup_line(line),
    }
}

/// The Lua lines of a settings list of the given kind.
pub fn render_lines(kind: LineKind, lines: &Vec<String>, scales: &Vec<String>) -> (r: Vec<String>)
    requires
        kind == LineKind::Monitor ==> scales.len() == lines.len(),
    ensures
        r.deep_view() == block_lines(kind, lines.deep_view(), scales.deep_view()),
{
    let mut out: Vec<String> = Vec::new();
    let mut i: usize = 0;
    while i < lines.len()
        invariant
            i <= lines.len(),
            kind == LineKind::Monitor ==> scales.len() == lines.len(),
            out.deep_view() =~= block_lines(
                kind,
                lines.deep_view().take(i as int),
                scales.deep_view(),
            ),
        decreases lines.len() - i,
    {
        let ghost pre = lines.deep_view().take(i as int);
        let ghost next = lines.deep_view().take(i + 1);
        assert(next.drop_last() =~= pre);
        assert(next.last() == lines@[i as int]@);
        let v = chars_of(lines[i].as_str());
        let ghost before = out.deep_view();
        match line_for(kind, i, &v, scales) {
            Some(x) => {
                let s = string_of(&x);
                out.push(s);
                assert(out.deep_view() =~= before.push(x@));
            },
            None => {},
        }
        i = i + 1;
    }
    assert(lines.deep_view().take(lines.len() as int) =~= lines.deep_view());
    out
}

/// The Lua block of a settings list of the given kind.
pub fn render_block(kind: LineKind, lines: &Vec<String>, scales: &Vec<String>) -> (r: String)
    requires
        kind == LineKind::Monitor ==> scales.len() == lines.len(),
    ensures
        r@ == block(kind, lines.deep_view(), scales.deep_view()),
{
    let l = render_lines(kind, lines, scales);
    proof {
        reveal_strlit("\n");
    }
    assert("\n"@ =~= nl());
    join_strings(&l, "\n")
}

/// The `hl.monitor` lines of the monitor rows, each row's scale printed in
/// `scales` at the row's index.
pub fn lua_monitors(lines: &Vec<String>, scales: &Vec<String>) -> (r: String)
    requires
        scales.len() == lines.len(),
    ensures
        r@ == block(LineKind::Monitor, lines.deep_view(), scales.deep_view()),
{
    render_block(LineKind::Monitor, lines, scales)
}

fn no_scales() -> (r: Vec<String>)
    ensures
        r.deep_view() == Seq::<Seq<char>>::empty(),
{
    let r: Vec<String> = Vec::new();
    assert(r.deep_view() =~= Seq::<Seq<char>>::empty());
    r
}

/// The `hl.env` lines of the environment rows.
pub fn lua_envs(lines: &Vec<String>) -> (r: String)
    ensures
        r@ == block(LineKind::Env, lines.deep_view(), Seq::empty()),
{
    let none = no_scales();
    render_block(LineKind::Env, lines, &none)
}

/// The `hl.exec_cmd` lines of the command rows.
pub fn lua_exec_list(lines: &Vec<String>) -> (r: String)
    ensures
        r@ == block(LineKind::Exec, lines.deep_view(), Seq::empty()),
{
    let none = no_scales();
    render_block(LineKind::Exec, lines, &none)
}

/// The `hl.bind` lines of the keybind builder rows.
pub fn lua_visual_keybinds(lines: &Vec<String>) -> (r: String)
    ensures
        r@ == block(LineKind::Keybind, lines.deep_view(), Seq::empty()),
{
    let none = no_scales();
    render_block(LineKind::Keybind, lines, &none)
}

/// The mouse `hl.bind` lines of the mouse bind rows.
pub fn lua_mouse_binds(lines: &Vec<String>) -> (r: String)
    ensures
        r@ == block(LineKind::MouseBind, lines.deep_view(), Seq::empty()),
{
    let none = no_scales();
    render_block(LineKind::MouseBind, lines, &none)
}

/// The `hl.workspace_rule` lines of the workspace builder rows.
pub fn lua_visual_workspace_rules(lines: &Vec<String>) -> (r: String)
    ensures
        r@ == block(LineKind::Workspace, lines.deep_view(), Seq::empty()),
{
    let none = no_scales();
    render_block(LineKind::Workspace, lines, &none)
}

/// The `hl.window_rule` lines of the window rule builder rows.
pub fn lua_visual_window_rules(lines: &Vec<String>) -> (r: String)
    ensures
        r@ == block(LineKind::WindowRule, lines.deep_view(), Seq::empty()),
{
    let none = no_scales();
    render_block(LineKind::WindowRule, lines, &none)
}

/// Raw Lua lines, trimmed, without blank ones.
pub fn raw_lines(lines: &Vec<String>) -> (r: String)
    ensures
        r@ == block(LineKind::Raw, lines.deep_view(), Seq::empty()),
{
    let none = no_scales();
    render_block(LineKind::Raw, lines, &none)
}

/// Appends copies of the strings of `src` to `out`.
pub fn append_strings(out: &mut Vec<String>, src: &Vec<String>)
    ensures
        final(out).deep_view() == old(out).deep_view() + src.deep_view(),
{
    let mut i: usize = 0;
    while i < src.len()
        invariant
            i <= src.len(),
            out.deep_view() =~= old(out).deep_view() + src.deep_view().take(i as int),
        decreases src.len() - i,
    {
        let ghost before = out.deep_view();
        out.push(src[i].clone());
        assert(out.deep_view() =~= before.push(src@[i as int]@));
        assert(src.deep_view().take(i + 1) =~= src.deep_view().take(i as int).push(src@[i as int]@));
        i = i + 1;
    }
    assert(src.deep_view().take(src.len() as int) =~= src.deep_view());
}

/// Raw Lua lines of several lists, one after another.
pub fn raw_lines_multi(groups: &Vec<Vec<String>>) -> (r: String)
    ensures
        r@ == block(
            LineKind::Raw,
            groups@.map_values(|g: Vec<String>| g.deep_view()).flatten(),
            Seq::empty(),
        ),
{
    let mut all: Vec<String> = Vec::new();
    let mut i: usize = 0;
    while i < groups.len()
        invariant
            i <= groups.len(),
            all.deep_view() =~= groups@.take(i as int).map_values(
                |g: Vec<String>| g.deep_view(),
            ).flatten(),
        decreases groups.len() - i,
    {
        let ghost before = all.deep_view();
        append_strings(&mut all, &groups[i]);
        proof {
            let m = groups@.take(i + 1).map_values(|g: Vec<String>| g.deep_view());
            let pre = groups@.take(i as int).map_values(|g: Vec<String>| g.deep_view());
            assert(m =~= pre.push(groups@[i as int].deep_view()));
            pre.lemma_flatten_push(groups@[i as int].deep_view());
        }
        i = i + 1;
    }
    assert(groups@.take(groups.len() as int) =~= groups@);
    raw_lines(&all)
}

} // verus!
