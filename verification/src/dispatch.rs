//! Lua string escaping, and the `hl.dsp` calls of the Lua configuration that
//! Hyprland dispatchers become.
use vstd::prelude::*;
use crate::numbers::{parses_i64, parses_i64_exec};
use crate::text::{chars_of, extend_chars, extend_str, is_text, replace_char, replace_char_exec, string_of};

verus! {

/// The body of a double-quoted Lua string holding `s`: every backslash
/// doubled, then every double quote preceded by a backslash.
pub open spec fn escape(s: Seq<char>) -> Seq<char> {
    replace_char(replace_char(s, '\\', seq!['\\', '\\']), '"', seq!['\\', '"'])
}

pub fn escape_chars(v: &[char]) -> (r: Vec<char>)
    ensures
        r@ == escape(v@),
{
    let bs = vec!['\\', '\\'];
    let q = vec!['\\', '"'];
    assert(bs@ =~= seq!['\\', '\\']);
    assert(q@ =~= seq!['\\', '"']);
    let a = replace_char_exec(v, '\\', &bs);
    replace_char_exec(&a, '"', &q)
}

/// Escapes text for use inside a double-quoted Lua string.
pub fn lua_string(value: &str) -> (r: String)
    ensures
        r@ == escape(value@),
{
    let v = chars_of(value);
    let e = escape_chars(&v);
    string_of(&e)
}

/// The dispatchers whose row shows an argument field.
pub open spec fn takes_args(d: Seq<char>) -> bool {
    ||| d == "exec"@
    ||| d == "workspace"@
    ||| d == "movetoworkspace"@
    ||| d == "movefocus"@
    ||| d == "movewindow"@
    ||| d == "togglespecialworkspace"@
}

/// Whether a keybind row with this dispatcher takes an argument.
pub fn dispatcher_has_args(d: &str) -> (r: bool)
    ensures
        r == takes_args(d@),
{
    let v = chars_of(d);
    is_text(&v, "exec") || is_text(&v, "workspace") || is_text(&v, "movetoworkspace")
        || is_text(&v, "movefocus") || is_text(&v, "movewindow") || is_text(
        &v,
        "togglespecialworkspace",
    )
}

/// `{ workspace = N }` for a numeric target, `{ workspace = "name" }` otherwise.
pub open spec fn workspace_target(a: Seq<char>) -> Seq<char> {
    if parses_i64(a) {
        "{ workspace = "@ + a + " }"@
    } else {
        "{ workspace = \""@ + a + "\" }"@
    }
}

/// The Lua expression for a dispatcher with its argument.
pub open spec fn dispatcher_lua(d: Seq<char>, a: Seq<char>) -> Seq<char> {
    if d == "exec"@ {
        "hl.dsp.exec_cmd(\""@ + escape(a) + "\")"@
    } else if d == "killactive"@ || d == "closewindow"@ {
        "hl.dsp.window.close()"@
    } else if d == "togglefloating"@ {
        "hl.dsp.window.float({ action = \"toggle\" })"@
    } else if d == "fullscreen"@ {
        "hl.dsp.window.fullscreen()"@
    } else if d == "pseudo"@ {
        "hl.dsp.window.pseudo()"@
    } else if d == "togglesplit"@ {
        "hl.dsp.layout(\"togglesplit\")"@
    } else if d == "workspace"@ {
        "hl.dsp.focus("@ + workspace_target(a) + ")"@
    } else if d == "movetoworkspace"@ || d == "movetoworkspacesilent"@ {
        "hl.dsp.window.move("@ + workspace_target(a) + ")"@
    } else if d == "movefocus"@ {
        "hl.dsp.focus({ direction = \""@ + a + "\" })"@
    } else if d == "movewindow"@ {
        if a == "l"@ || a == "left"@ {
            "hl.dsp.window.move({ direction = \"left\" })"@
        } else if a == "r"@ || a == "right"@ {
            "hl.dsp.window.move({ direction = \"right\" })"@
        } else if a == "u"@ || a == "up"@ {
            "hl.dsp.window.move({ direction = \"up\" })"@
        } else if a == "d"@ || a == "down"@ {
            "hl.dsp.window.move({ direction = \"down\" })"@
        } else {
            "hl.dsp.window.move("@ + workspace_target(a) + ")"@
        }
    } else if d == "exit"@ {
        "hl.dsp.exit()"@
    } else if d == "togglespecialworkspace"@ {
        if a.len() == 0 {
            "hl.dsp.workspace.toggle_special()"@
        } else {
            "hl.dsp.workspace.toggle_special(\""@ + a + "\")"@
        }
    } else if d == "pin"@ {
        "hl.dsp.window.pin()"@
    } else if a.len() > 0 {
        "hl.dsp."@ + d + "(\""@ + escape(a) + "\")"@
    } else {
        "hl.dsp."@ + d + "()"@
    }
}

fn push_workspace_target(out: &mut Vec<char>, a: &[char])
    ensures
        final(out)@ == old(out)@ + workspace_target(a@),
{
    if parses_i64_exec(a) {
        extend_str(out, "{ workspace = ");
        extend_chars(out, a);
        extend_str(out, " }");
    } else {
        extend_str(out, "{ workspace = \"");
        extend_chars(out, a);
        extend_str(out, "\" }");
    }
    assert(out@ =~= old(out)@ + workspace_target(a@));
}

/// Appends the Lua expression for a dispatcher with its argument.
pub fn push_dispatcher_lua(out: &mut Vec<char>, d: &[char], a: &[char])
    ensures
        final(out)@ == old(out)@ + dispatcher_lua(d@, a@),
{
    let ghost start = out@;
    if is_text(d, "exec") {
        extend_str(out, "hl.dsp.exec_cmd(\"");
        let e = escape_chars(a);
        extend_chars(out, &e);
        extend_str(out, "\")");
    } else if is_text(d, "killactive") || is_text(d, "closewindow") {
        extend_str(out, "hl.dsp.window.close()");
    } else if is_text(d, "togglefloating") {
        extend_str(out, "hl.dsp.window.float({ action = \"toggle\" })");
    } else if is_text(d, "fullscreen") {
        extend_str(out, "hl.dsp.window.fullscreen()");
    } else if is_text(d, "pseudo") {
        extend_str(out, "hl.dsp.window.pseudo()");
    } else if is_text(d, "togglesplit") {
        extend_str(out, "hl.dsp.layout(\"togglesplit\")");
    } else if is_text(d, "workspace") {
        extend_str(out, "hl.dsp.focus(");
        push_workspace_target(out, a);
        extend_str(out, ")");
    } else if is_text(d, "movetoworkspace") || is_text(d, "movetoworkspacesilent") {
        extend_str(out, "hl.dsp.window.move(");
        push_workspace_target(out, a);
        extend_str(out, ")");
    } else if is_text(d, "movefocus") {
        extend_str(out, "hl.dsp.focus({ direction = \"");
        extend_chars(out, a);
        extend_str(out, "\" })");
    } else if is_text(d, "movewindow") {
        if is_text(a, "l") || is_text(a, "left") {
            extend_str(out, "hl.dsp.window.move({ direction = \"left\" })");
        } else if is_text(a, "r") || is_text(a, "right") {
            extend_str(out, "hl.dsp.window.move({ direction = \"right\" })");
        } else if is_text(a, "u") || is_text(a, "up") {
            extend_str(out, "hl.dsp.window.move({ direction = \"up\" })");
        } else if is_text(a, "d") || is_text(a, "down") {
            extend_str(out, "hl.dsp.window.move({ direction = \"down\" })");
        } else {
            extend_str(out, "hl.dsp.window.move(");
            push_workspace_target(out, a);
            extend_str(out, ")");
        }
    } else if is_text(d, "exit") {
        extend_str(out, "hl.dsp.exit()");
    } else if is_text(d, "togglespecialworkspace") {
        if a.len() == 0 {
            extend_str(out, "hl.dsp.workspace.toggle_special()");
        } else {
            extend_str(out, "hl.dsp.workspace.toggle_special(\"");
            extend_chars(out, a);
            extend_str(out, "\")");
        }
    } else if is_text(d, "pin") {
        extend_str(out, "hl.dsp.window.pin()");
    } else if a.len() > 0 {
        extend_str(out, "hl.dsp.");
        extend_chars(out, d);
        extend_str(out, "(\"");
        let e = escape_chars(a);
        extend_chars(out, &e);
        extend_str(out, "\")");
    } else {
        extend_str(out, "hl.dsp.");
        extend_chars(out, d);
        extend_str(out, "()");
    }
    assert(out@ =~= start + dispatcher_lua(d@, a@));
}

/// The Lua expression for a Hyprland dispatcher and its argument.
pub fn dispatcher_to_lua(dispatcher: &str, args: &str) -> (r: String)
    ensures
        r@ == dispatcher_lua(dispatcher@, args@),
{
    let d = chars_of(dispatcher);
    let a = chars_of(args);
    let mut out: Vec<char> = Vec::new();
    push_dispatcher_lua(&mut out, &d, &a);
    assert(out@ =~= dispatcher_lua(dispatcher@, args@));
    string_of(&out)
}

} // verus!
