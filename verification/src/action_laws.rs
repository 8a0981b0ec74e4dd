//! What a keybind's action, an input row's value and a window rule's parts
//! turn into, stated for all inputs.
use vstd::prelude::*;
use crate::blocks::rule_field;
use crate::dispatch::{dispatcher_lua, escape, workspace_target};
use crate::entries::{input_row, input_value_lua};
use crate::numbers::parses_f64;
use crate::text::{
    in_class, is_ws, join, lemma_join_split, lemma_split_concat, lemma_split_nonempty,
    replace_char, split, split_once, trim, trim_end_by, trim_start_by, CharClass,
};

verus! {

broadcast use vstd::string::group_string_axioms;

/// The window move of the `movewindow` dispatcher: a one-letter direction
/// gives the same action as the direction written out, a move in that
/// direction; any other argument moves the window to a workspace.
pub proof fn law_movewindow_directions(a: Seq<char>)
    ensures
        dispatcher_lua("movewindow"@, "l"@) == dispatcher_lua("movewindow"@, "left"@),
        dispatcher_lua("movewindow"@, "r"@) == dispatcher_lua("movewindow"@, "right"@),
        dispatcher_lua("movewindow"@, "u"@) == dispatcher_lua("movewindow"@, "up"@),
        dispatcher_lua("movewindow"@, "d"@) == dispatcher_lua("movewindow"@, "down"@),
        dispatcher_lua("movewindow"@, "left"@) == "hl.dsp.window.move({ direction = \"left\" })"@,
        dispatcher_lua("movewindow"@, "right"@)
            == "hl.dsp.window.move({ direction = \"right\" })"@,
        dispatcher_lua("movewindow"@, "up"@) == "hl.dsp.window.move({ direction = \"up\" })"@,
        dispatcher_lua("movewindow"@, "down"@) == "hl.dsp.window.move({ direction = \"down\" })"@,
        !(a == "l"@ || a == "left"@ || a == "r"@ || a == "right"@ || a == "u"@ || a == "up"@ || a
            == "d"@ || a == "down"@) ==> dispatcher_lua("movewindow"@, a) == "hl.dsp.window.move("@
            + workspace_target(a) + ")"@,
{
    lemma_movewindow_branch(a);
    lemma_movewindow_branch("l"@);
    lemma_movewindow_branch("left"@);
    lemma_movewindow_branch("r"@);
    lemma_movewindow_branch("right"@);
    lemma_movewindow_branch("u"@);
    lemma_movewindow_branch("up"@);
    lemma_movewindow_branch("d"@);
    lemma_movewindow_branch("down"@);
    reveal_strlit("l");
    reveal_strlit("left");
    reveal_strlit("r");
    reveal_strlit("right");
    reveal_strlit("u");
    reveal_strlit("up");
    reveal_strlit("d");
    reveal_strlit("down");
    assert("l"@ != "left"@) by {
        if "l"@.len() == "left"@.len() {
            assert("l"@[0] != "left"@[0]);
        }
    }
    assert("l"@ != "r"@) by {
        if "l"@.len() == "r"@.len() {
            assert("l"@[0] != "r"@[0]);
        }
    }
    assert("l"@ != "right"@) by {
        if "l"@.len() == "right"@.len() {
            assert("l"@[0] != "right"@[0]);
        }
    }
    assert("l"@ != "u"@) by {
        if "l"@.len() == "u"@.len() {
            assert("l"@[0] != "u"@[0]);
        }
    }
    assert("l"@ != "up"@) by {
        if "l"@.len() == "up"@.len() {
            assert("l"@[0] != "up"@[0]);
        }
    }
    assert("l"@ != "d"@) by {
        if "l"@.len() == "d"@.len() {
            assert("l"@[0] != "d"@[0]);
        }
    }
    assert("l"@ != "down"@) by {
        if "l"@.len() == "down"@.len() {
            assert("l"@[0] != "down"@[0]);
        }
    }
    assert("left"@ != "r"@) by {
        if "left"@.len() == "r"@.len() {
            assert("left"@[0] != "r"@[0]);
        }
    }
    assert("left"@ != "right"@) by {
        if "left"@.len() == "right"@.len() {
            assert("left"@[0] != "right"@[0]);
        }
    }
    assert("left"@ != "u"@) by {
        if "left"@.len() == "u"@.len() {
            assert("left"@[0] != "u"@[0]);
        }
    }
    assert("left"@ != "up"@) by {
        if "left"@.len() == "up"@.len() {
            assert("left"@[0] != "up"@[0]);
        }
    }
    assert("left"@ != "d"@) by {
        if "left"@.len() == "d"@.len() {
            assert("left"@[0] != "d"@[0]);
        }
    }
    assert("left"@ != "down"@) by {
        if "left"@.len() == "down"@.len() {
            assert("left"@[0] != "down"@[0]);
        }
    }
    assert("r"@ != "right"@) by {
        if "r"@.len() == "right"@.len() {
            assert("r"@[0] != "right"@[0]);
        }
    }
    assert("r"@ != "u"@) by {
        if "r"@.len() == "u"@.len() {
            assert("r"@[0] != "u"@[0]);
        }
    }
    assert("r"@ != "up"@) by {
        if "r"@.len() == "up"@.len() {
            assert("r"@[0] != "up"@[0]);
        }
    }
    assert("r"@ != "d"@) by {
        if "r"@.len() == "d"@.len() {
            assert("r"@[0] != "d"@[0]);
        }
    }
    assert("r"@ != "down"@) by {
        if "r"@.len() == "down"@.len() {
            assert("r"@[0] != "down"@[0]);
        }
    }
    assert("right"@ != "u"@) by {
        if "right"@.len() == "u"@.len() {
            assert("right"@[0] != "u"@[0]);
        }
    }
    assert("right"@ != "up"@) by {
        if "right"@.len() == "up"@.len() {
            assert("right"@[0] != "up"@[0]);
        }
    }
    assert("right"@ != "d"@) by {
        if "right"@.len() == "d"@.len() {
            assert("right"@[0] != "d"@[0]);
        }
    }
    assert("right"@ != "down"@) by {
        if "right"@.len() == "down"@.len() {
            assert("right"@[0] != "down"@[0]);
        }
    }
    assert("u"@ != "up"@) by {
        if "u"@.len() == "up"@.len() {
            assert("u"@[0] != "up"@[0]);
        }
    }
    assert("u"@ != "d"@) by {
        if "u"@.len() == "d"@.len() {
            assert("u"@[0] != "d"@[0]);
        }
    }
    assert("u"@ != "down"@) by {
        if "u"@.len() == "down"@.len() {
            assert("u"@[0] != "down"@[0]);
        }
    }
    assert("up"@ != "d"@) by {
        if "up"@.len() == "d"@.len() {
            assert("up"@[0] != "d"@[0]);
        }
    }
    assert("up"@ != "down"@) by {
        if "up"@.len() == "down"@.len() {
            assert("up"@[0] != "down"@[0]);
        }
    }
    assert("d"@ != "down"@) by {
        if "d"@.len() == "down"@.len() {
            assert("d"@[0] != "down"@[0]);
        }
    }
}

/// The action each keybind dispatcher gives with its argument: running the
/// command, closing, floating, full screen, pseudo-tiling, splitting,
/// focusing or moving to a workspace, focusing in a direction, leaving,
/// the special workspace and pinning; a dispatcher not in this list is
/// called by its own name, with its argument quoted when there is one.
pub proof fn law_dispatcher_actions(d: Seq<char>, a: Seq<char>)
    ensures
        dispatcher_lua("exec"@, a) == "hl.dsp.exec_cmd(\""@ + escape(a) + "\")"@,
        dispatcher_lua("killactive"@, a) == "hl.dsp.window.close()"@,
        dispatcher_lua("closewindow"@, a) == "hl.dsp.window.close()"@,
        dispatcher_lua("togglefloating"@, a) == "hl.dsp.window.float({ action = \"toggle\" })"@,
        dispatcher_lua("fullscreen"@, a) == "hl.dsp.window.fullscreen()"@,
        dispatcher_lua("pseudo"@, a) == "hl.dsp.window.pseudo()"@,
        dispatcher_lua("togglesplit"@, a) == "hl.dsp.layout(\"togglesplit\")"@,
        dispatcher_lua("workspace"@, a) == "hl.dsp.focus("@ + workspace_target(a) + ")"@,
        dispatcher_lua("movetoworkspace"@, a) == "hl.dsp.window.move("@ + workspace_target(a) + ")"@,
        dispatcher_lua("movetoworkspacesilent"@, a) == dispatcher_lua("movetoworkspace"@, a),
        dispatcher_lua("movefocus"@, a) == "hl.dsp.focus({ direction = \""@ + a + "\" })"@,
        dispatcher_lua("exit"@, a) == "hl.dsp.exit()"@,
        a.len() == 0 ==> dispatcher_lua("togglespecialworkspace"@, a) == "hl.dsp.workspace.toggle_special()"@,
        a.len() > 0 ==> dispatcher_lua("togglespecialworkspace"@, a) == "hl.dsp.workspace.toggle_special(\""@ + a + "\")"@,
        dispatcher_lua("pin"@, a) == "hl.dsp.window.pin()"@,
        !(d == "exec"@ || d == "killactive"@ || d == "closewindow"@ || d == "togglefloating"@ || d == "fullscreen"@ || d == "pseudo"@ || d == "togglesplit"@ || d == "workspace"@ || d == "movetoworkspace"@ || d == "movetoworkspacesilent"@ || d == "movefocus"@ || d == "movewindow"@ || d == "exit"@ || d == "togglespecialworkspace"@ || d == "pin"@) ==> dispatcher_lua(d, a) == (if a.len() > 0 { "hl.dsp."@ + d + "(\""@ + escape(a) + "\")"@ } else { "hl.dsp."@ + d + "()"@ }),
{
    reveal_strlit("exec");
    reveal_strlit("killactive");
    reveal_strlit("closewindow");
    reveal_strlit("togglefloating");
    reveal_strlit("fullscreen");
    reveal_strlit("pseudo");
    reveal_strlit("togglesplit");
    reveal_strlit("workspace");
    reveal_strlit("movetoworkspace");
    reveal_strlit("movetoworkspacesilent");
    reveal_strlit("movefocus");
    reveal_strlit("movewindow");
    reveal_strlit("exit");
    reveal_strlit("togglespecialworkspace");
    reveal_strlit("pin");
    assert("exec"@.len() != "killactive"@.len());
    assert("exec"@.len() != "closewindow"@.len());
    assert("exec"@.len() != "togglefloating"@.len());
    assert("exec"@.len() != "fullscreen"@.len());
    assert("exec"@.len() != "pseudo"@.len());
    assert("exec"@.len() != "togglesplit"@.len());
    assert("exec"@.len() != "workspace"@.len());
    assert("exec"@.len() != "movetoworkspace"@.len());
    assert("exec"@.len() != "movetoworkspacesilent"@.len());
    assert("exec"@.len() != "movefocus"@.len());
    assert("exec"@.len() != "movewindow"@.len());
    assert("exec"@[2] != "exit"@[2]);
    assert("exec"@.len() != "togglespecialworkspace"@.len());
    assert("exec"@.len() != "pin"@.len());
    assert("killactive"@.len() != "closewindow"@.len());
    assert("killactive"@.len() != "togglefloating"@.len());
    assert("killactive"@[0] != "fullscreen"@[0]);
    assert("killactive"@.len() != "pseudo"@.len());
    assert("killactive"@.len() != "togglesplit"@.len());
    assert("killactive"@.len() != "workspace"@.len());
    assert("killactive"@.len() != "movetoworkspace"@.len());
    assert("killactive"@.len() != "movetoworkspacesilent"@.len());
    assert("killactive"@.len() != "movefocus"@.len());
    assert("killactive"@[0] != "movewindow"@[0]);
    assert("killactive"@.len() != "exit"@.len());
    assert("killactive"@.len() != "togglespecialworkspace"@.len());
    assert("killactive"@.len() != "pin"@.len());
    assert("closewindow"@.len() != "togglefloating"@.len());
    assert("closewindow"@.len() != "fullscreen"@.len());
    assert("closewindow"@.len() != "pseudo"@.len());
    assert("closewindow"@[0] != "togglesplit"@[0]);
    assert("closewindow"@.len() != "workspace"@.len());
    assert("closewindow"@.len() != "movetoworkspace"@.len());
    assert("closewindow"@.len() != "movetoworkspacesilent"@.len());
    assert("closewindow"@.len() != "movefocus"@.len());
    assert("closewindow"@.len() != "movewindow"@.len());
    assert("closewindow"@.len() != "exit"@.len());
    assert("closewindow"@.len() != "togglespecialworkspace"@.len());
    assert("closewindow"@.len() != "pin"@.len());
    assert("togglefloating"@.len() != "fullscreen"@.len());
    assert("togglefloating"@.len() != "pseudo"@.len());
    assert("togglefloating"@.len() != "togglesplit"@.len());
    assert("togglefloating"@.len() != "workspace"@.len());
    assert("togglefloating"@.len() != "movetoworkspace"@.len());
    assert("togglefloating"@.len() != "movetoworkspacesilent"@.len());
    assert("togglefloating"@.len() != "movefocus"@.len());
    assert("togglefloating"@.len() != "movewindow"@.len());
    assert("togglefloating"@.len() != "exit"@.len());
    assert("togglefloating"@.len() != "togglespecialworkspace"@.len());
    assert("togglefloating"@.len() != "pin"@.len());
    assert("fullscreen"@.len() != "pseudo"@.len());
    assert("fullscreen"@.len() != "togglesplit"@.len());
    assert("fullscreen"@.len() != "workspace"@.len());
    assert("fullscreen"@.len() != "movetoworkspace"@.len());
    assert("fullscreen"@.len() != "movetoworkspacesilent"@.len());
    assert("fullscreen"@.len() != "movefocus"@.len());
    assert("fullscreen"@[0] != "movewindow"@[0]);
    assert("fullscreen"@.len() != "exit"@.len());
    assert("fullscreen"@.len() != "togglespecialworkspace"@.len());
    assert("fullscreen"@.len() != "pin"@.len());
    assert("pseudo"@.len() != "togglesplit"@.len());
    assert("pseudo"@.len() != "workspace"@.len());
    assert("pseudo"@.len() != "movetoworkspace"@.len());
    assert("pseudo"@.len() != "movetoworkspacesilent"@.len());
    assert("pseudo"@.len() != "movefocus"@.len());
    assert("pseudo"@.len() != "movewindow"@.len());
    assert("pseudo"@.len() != "exit"@.len());
    assert("pseudo"@.len() != "togglespecialworkspace"@.len());
    assert("pseudo"@.len() != "pin"@.len());
    assert("togglesplit"@.len() != "workspace"@.len());
    assert("togglesplit"@.len() != "movetoworkspace"@.len());
    assert("togglesplit"@.len() != "movetoworkspacesilent"@.len());
    assert("togglesplit"@.len() != "movefocus"@.len());
    assert("togglesplit"@.len() != "movewindow"@.len());
    assert("togglesplit"@.len() != "exit"@.len());
    assert("togglesplit"@.len() != "togglespecialworkspace"@.len());
    assert("togglesplit"@.len() != "pin"@.len());
    assert("workspace"@.len() != "movetoworkspace"@.len());
    assert("workspace"@.len() != "movetoworkspacesilent"@.len());
    assert("workspace"@[0] != "movefocus"@[0]);
    assert("workspace"@.len() != "movewindow"@.len());
    assert("workspace"@.len() != "exit"@.len());
    assert("workspace"@.len() != "togglespecialworkspace"@.len());
    assert("workspace"@.len() != "pin"@.len());
    assert("movetoworkspace"@.len() != "movetoworkspacesilent"@.len());
    assert("movetoworkspace"@.len() != "movefocus"@.len());
    assert("movetoworkspace"@.len() != "movewindow"@.len());
    assert("movetoworkspace"@.len() != "exit"@.len());
    assert("movetoworkspace"@.len() != "togglespecialworkspace"@.len());
    assert("movetoworkspace"@.len() != "pin"@.len());
    assert("movetoworkspacesilent"@.len() != "movefocus"@.len());
    assert("movetoworkspacesilent"@.len() != "movewindow"@.len());
    assert("movetoworkspacesilent"@.len() != "exit"@.len());
    assert("movetoworkspacesilent"@.len() != "togglespecialworkspace"@.len());
    assert("movetoworkspacesilent"@.len() != "pin"@.len());
    assert("movefocus"@.len() != "movewindow"@.len());
    assert("movefocus"@.len() != "exit"@.len());
    assert("movefocus"@.len() != "togglespecialworkspace"@.len());
    assert("movefocus"@.len() != "pin"@.len());
    assert("movewindow"@.len() != "exit"@.len());
    assert("movewindow"@.len() != "togglespecialworkspace"@.len());
    assert("movewindow"@.len() != "pin"@.len());
    assert("exit"@.len() != "togglespecialworkspace"@.len());
    assert("exit"@.len() != "pin"@.len());
    assert("togglespecialworkspace"@.len() != "pin"@.len());
}

/// The `movewindow` dispatcher's branch of the action.
proof fn lemma_movewindow_branch(a: Seq<char>)
    ensures
        dispatcher_lua("movewindow"@, a) == (if a == "l"@ || a == "left"@ {
            "hl.dsp.window.move({ direction = \"left\" })"@
        } else if a == "r"@ || a == "right"@ {
            "hl.dsp.window.move({ direction = \"right\" })"@
        } else if a == "u"@ || a == "up"@ {
            "hl.dsp.window.move({ direction = \"up\" })"@
        } else if a == "d"@ || a == "down"@ {
            "hl.dsp.window.move({ direction = \"down\" })"@
        } else {
            "hl.dsp.window.move("@ + workspace_target(a) + ")"@
        }),
{
    reveal_strlit("movewindow");
    reveal_strlit("exec");
    assert("movewindow"@ != "exec"@) by {
        if "movewindow"@.len() == "exec"@.len() {
            assert("movewindow"@[0] != "exec"@[0]);
        }
    }
    reveal_strlit("killactive");
    assert("movewindow"@ != "killactive"@) by {
        if "movewindow"@.len() == "killactive"@.len() {
            assert("movewindow"@[0] != "killactive"@[0]);
        }
    }
    reveal_strlit("closewindow");
    assert("movewindow"@ != "closewindow"@) by {
        if "movewindow"@.len() == "closewindow"@.len() {
            assert("movewindow"@[0] != "closewindow"@[0]);
        }
    }
    reveal_strlit("togglefloating");
    assert("movewindow"@ != "togglefloating"@) by {
        if "movewindow"@.len() == "togglefloating"@.len() {
            assert("movewindow"@[0] != "togglefloating"@[0]);
        }
    }
    reveal_strlit("fullscreen");
    assert("movewindow"@ != "fullscreen"@) by {
        if "movewindow"@.len() == "fullscreen"@.len() {
            assert("movewindow"@[0] != "fullscreen"@[0]);
        }
    }
    reveal_strlit("pseudo");
    assert("movewindow"@ != "pseudo"@) by {
        if "movewindow"@.len() == "pseudo"@.len() {
            assert("movewindow"@[0] != "pseudo"@[0]);
        }
    }
    reveal_strlit("togglesplit");
    assert("movewindow"@ != "togglesplit"@) by {
        if "movewindow"@.len() == "togglesplit"@.len() {
            assert("movewindow"@[0] != "togglesplit"@[0]);
        }
    }
    reveal_strlit("workspace");
    assert("movewindow"@ != "workspace"@) by {
        if "movewindow"@.len() == "workspace"@.len() {
            assert("movewindow"@[0] != "workspace"@[0]);
        }
    }
    reveal_strlit("movetoworkspace");
    assert("movewindow"@ != "movetoworkspace"@) by {
        if "movewindow"@.len() == "movetoworkspace"@.len() {
            assert("movewindow"@[0] != "movetoworkspace"@[0]);
        }
    }
    reveal_strlit("movetoworkspacesilent");
    assert("movewindow"@ != "movetoworkspacesilent"@) by {
        if "movewindow"@.len() == "movetoworkspacesilent"@.len() {
            assert("movewindow"@[0] != "movetoworkspacesilent"@[0]);
        }
    }
    reveal_strlit("movefocus");
    assert("movewindow"@ != "movefocus"@) by {
        if "movewindow"@.len() == "movefocus"@.len() {
            assert("movewindow"@[0] != "movefocus"@[0]);
        }
    }
}

/// An input setting's value is written as it is when it is `true`, `false`
/// or a number, so that Lua reads a boolean or a number; any other text is
/// written as a quoted Lua string of the escaped text.
pub proof fn law_input_value_forms(v: Seq<char>)
    ensures
        input_value_lua("true"@) == "true"@,
        input_value_lua("false"@) == "false"@,
        parses_f64(v) ==> input_value_lua(v) == v,
        !(v == "true"@ || v == "false"@ || parses_f64(v)) ==> input_value_lua(v) == seq!['"']
            + escape(v) + seq!['"'],
{
}

/// The Lua line an input row stores for each setting, with a value that is
/// not blank: the setting set to the value in Hyprland's input table, the two
/// touchpad settings inside its touchpad table; a setting outside the list is
/// the first one.
pub proof fn law_input_lines(setting: int, value: Seq<char>)
    requires
        trim(value).len() > 0,
    ensures
        input_row(0, value) == Some("hl.config({ input = { repeat_rate = "@ + input_value_lua(trim(value)) + " } })"@),
        input_row(1, value) == Some("hl.config({ input = { repeat_delay = "@ + input_value_lua(trim(value)) + " } })"@),
        input_row(2, value) == Some("hl.config({ input = { numlock_by_default = "@ + input_value_lua(trim(value)) + " } })"@),
        input_row(3, value) == Some("hl.config({ input = { follow_mouse = "@ + input_value_lua(trim(value)) + " } })"@),
        input_row(4, value) == Some("hl.config({ input = { float_switch_override_focus = "@ + input_value_lua(trim(value)) + " } })"@),
        input_row(5, value) == Some("hl.config({ input = { touchpad = { scroll_factor = "@ + input_value_lua(trim(value)) + " } } })"@),
        input_row(6, value) == Some("hl.config({ input = { touchpad = { disable_while_typing = "@ + input_value_lua(trim(value)) + " } } })"@),
        !(0 <= setting < 7) ==> input_row(setting, value) == input_row(0, value),
{
    reveal_strlit("hl.config({ input = { ");
    reveal_strlit("hl.config({ input = { touchpad = { ");
    reveal_strlit(" = ");
    reveal_strlit("touchpad.");
    reveal_strlit("repeat_rate");
    assert(!crate::text::starts_with("repeat_rate"@, "touchpad."@)) by {
        assert("repeat_rate"@.take(9)[0] != "touchpad."@[0]);
    }
    reveal_strlit("repeat_delay");
    assert(!crate::text::starts_with("repeat_delay"@, "touchpad."@)) by {
        assert("repeat_delay"@.take(9)[0] != "touchpad."@[0]);
    }
    reveal_strlit("numlock_by_default");
    assert(!crate::text::starts_with("numlock_by_default"@, "touchpad."@)) by {
        assert("numlock_by_default"@.take(9)[0] != "touchpad."@[0]);
    }
    reveal_strlit("follow_mouse");
    assert(!crate::text::starts_with("follow_mouse"@, "touchpad."@)) by {
        assert("follow_mouse"@.take(9)[0] != "touchpad."@[0]);
    }
    reveal_strlit("float_switch_override_focus");
    assert(!crate::text::starts_with("float_switch_override_focus"@, "touchpad."@)) by {
        assert("float_switch_override_focus"@.take(9)[0] != "touchpad."@[0]);
    }
    reveal_strlit("touchpad.scroll_factor");
    reveal_strlit("scroll_factor");
    assert("touchpad.scroll_factor"@.take(9) =~= "touchpad."@);
    assert("touchpad.scroll_factor"@.skip(9) =~= "scroll_factor"@);
    reveal_strlit("touchpad.disable_while_typing");
    reveal_strlit("disable_while_typing");
    assert("touchpad.disable_while_typing"@.take(9) =~= "touchpad."@);
    assert("touchpad.disable_while_typing"@.skip(9) =~= "disable_while_typing"@);
    reveal_strlit("hl.config({ input = { repeat_rate = ");
    assert("hl.config({ input = { "@ + "repeat_rate"@ + " = "@ =~= "hl.config({ input = { repeat_rate = "@);
    reveal_strlit("hl.config({ input = { repeat_delay = ");
    assert("hl.config({ input = { "@ + "repeat_delay"@ + " = "@ =~= "hl.config({ input = { repeat_delay = "@);
    reveal_strlit("hl.config({ input = { numlock_by_default = ");
    assert("hl.config({ input = { "@ + "numlock_by_default"@ + " = "@ =~= "hl.config({ input = { numlock_by_default = "@);
    reveal_strlit("hl.config({ input = { follow_mouse = ");
    assert("hl.config({ input = { "@ + "follow_mouse"@ + " = "@ =~= "hl.config({ input = { follow_mouse = "@);
    reveal_strlit("hl.config({ input = { float_switch_override_focus = ");
    assert("hl.config({ input = { "@ + "float_switch_override_focus"@ + " = "@ =~= "hl.config({ input = { float_switch_override_focus = "@);
    reveal_strlit("hl.config({ input = { touchpad = { scroll_factor = ");
    assert("hl.config({ input = { touchpad = { "@ + "scroll_factor"@ + " = "@ =~= "hl.config({ input = { touchpad = { scroll_factor = "@);
    reveal_strlit("hl.config({ input = { touchpad = { disable_while_typing = ");
    assert("hl.config({ input = { touchpad = { "@ + "disable_while_typing"@ + " = "@ =~= "hl.config({ input = { touchpad = { disable_while_typing = "@);
}

/// A text without `c` splits at a `c` put after it into that text and what
/// follows.
proof fn lemma_split_once_after(k: Seq<char>, c: char, v: Seq<char>)
    requires
        !k.contains(c),
    ensures
        split_once(k + seq![c] + v, c) == Some((k, v)),
{
    let kc = CharClass::One(c);
    assert forall|j: int| 0 <= j < k.len() implies !in_class(kc, #[trigger] k[j]) by {
        if k[j] == c {
            assert(k.contains(c));
        }
    }
    lemma_split_concat(k, c, v, kc);
    let p = split(k + seq![c] + v, c);
    lemma_split_nonempty(v, kc);
    assert(p.skip(1) =~= split(v, c));
    lemma_join_split(v, c);
}

proof fn lemma_trim_start_keeps_out(s: Seq<char>, c: char)
    requires
        !s.contains(c),
    ensures
        !trim_start_by(s, CharClass::Whitespace).contains(c),
    decreases s.len(),
{
    if s.len() > 0 && in_class(CharClass::Whitespace, s[0]) {
        assert forall|j: int| 0 <= j < s.drop_first().len() implies s.drop_first()[j] != c by {
            assert(s.drop_first()[j] == s[j + 1]);
        }
        lemma_trim_start_keeps_out(s.drop_first(), c);
    }
}

proof fn lemma_trim_end_keeps_out(s: Seq<char>, c: char)
    requires
        !s.contains(c),
    ensures
        !trim_end_by(s, CharClass::Whitespace).contains(c),
    decreases s.len(),
{
    if s.len() > 0 && in_class(CharClass::Whitespace, s.last()) {
        assert forall|j: int| 0 <= j < s.drop_last().len() implies s.drop_last()[j] != c by {
            assert(s.drop_last()[j] == s[j]);
        }
        lemma_trim_end_keeps_out(s.drop_last(), c);
    }
}

/// Trimming keeps a character out of a text that does not hold it.
proof fn lemma_trim_keeps_out(s: Seq<char>, c: char)
    requires
        !s.contains(c),
    ensures
        !trim(s).contains(c),
{
    lemma_trim_start_keeps_out(s, c);
    lemma_trim_end_keeps_out(trim_start_by(s, CharClass::Whitespace), c);
}

/// A window rule part gives the same field whatever blanks stand around its
/// key and its value.
pub proof fn law_rule_field_blanks(k: Seq<char>, v: Seq<char>)
    requires
        !k.contains('='),
    ensures
        rule_field(k + seq!['='] + v) == rule_field(trim(k) + seq!['='] + trim(v)),
{
    lemma_split_once_after(k, '=', v);
    lemma_trim_keeps_out(k, '=');
    lemma_split_once_after(trim(k), '=', trim(v));
    crate::text::lemma_trim_idem(k, CharClass::Whitespace);
    crate::text::lemma_trim_idem(v, CharClass::Whitespace);
}

/// The field each window rule key gives for a value: `float` and `center`
/// when the value is `true` or `1`, the size with `x` turned into a blank,
/// the workspace quoted and the opacity as it is, for a value that is not
/// blank; any other key gives no field.
pub proof fn law_rule_field_values(k: Seq<char>, v: Seq<char>)
    requires
        !k.contains('='),
    ensures
        (trim(v) == "true"@ || trim(v) == "1"@) ==> rule_field("float="@ + v) == Some(
            "float = true"@,
        ),
        (trim(v) == "true"@ || trim(v) == "1"@) ==> rule_field("center="@ + v) == Some(
            "center = true"@,
        ),
        trim(v).len() > 0 ==> rule_field("size="@ + v) == Some(
            "size = \""@ + replace_char(trim(v), 'x', seq![' ']) + "\""@,
        ),
        trim(v).len() > 0 ==> rule_field("workspace="@ + v) == Some(
            "workspace = \""@ + trim(v) + "\""@,
        ),
        trim(v).len() > 0 ==> rule_field("opacity="@ + v) == Some("opacity = "@ + trim(v)),
        !(trim(k) == "float"@ || trim(k) == "center"@ || trim(k) == "size"@ || trim(k)
            == "workspace"@ || trim(k) == "opacity"@) ==> rule_field(k + seq!['='] + v) is None,
        (trim(v) != "true"@ && trim(v) != "1"@) ==> rule_field("float="@ + v) is None && rule_field(
            "center="@ + v,
        ) is None,
{
    reveal_strlit("float=");
    reveal_strlit("center=");
    reveal_strlit("size=");
    reveal_strlit("workspace=");
    reveal_strlit("opacity=");
    reveal_strlit("float");
    reveal_strlit("center");
    reveal_strlit("size");
    reveal_strlit("workspace");
    reveal_strlit("opacity");
    lemma_key_part("float"@, v);
    lemma_key_part("center"@, v);
    lemma_key_part("size"@, v);
    lemma_key_part("workspace"@, v);
    lemma_key_part("opacity"@, v);
    assert("float="@ =~= "float"@ + seq!['=']);
    assert("center="@ =~= "center"@ + seq!['=']);
    assert("size="@ =~= "size"@ + seq!['=']);
    assert("workspace="@ =~= "workspace"@ + seq!['=']);
    assert("opacity="@ =~= "opacity"@ + seq!['=']);
    assert("float"@ + seq!['='] + v =~= "float"@ + seq!['='] + v);
    lemma_split_once_after(k, '=', v);
}

/// A plain key of letters followed by `=` and a value splits into the key
/// and the value.
proof fn lemma_key_part(k: Seq<char>, v: Seq<char>)
    requires
        forall|j: int| 0 <= j < k.len() ==> 'a' <= #[trigger] k[j] <= 'z',
    ensures
        split_once(k + seq!['='] + v, '=') == Some((k, v)),
        trim(k) == k || k.len() == 0,
{
    if k.contains('=') {
        let j = choose|j: int| 0 <= j < k.len() && k[j] == '=';
        assert('a' <= k[j] <= 'z');
    }
    lemma_split_once_after(k, '=', v);
    if k.len() > 0 {
        assert(!is_ws(k[0]) && !is_ws(k.last()));
        assert(trim_start_by(k, CharClass::Whitespace) == k);
        assert(trim_end_by(k, CharClass::Whitespace) == k);
    }
}

} // verus!
