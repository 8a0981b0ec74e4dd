//! The fixed choice lists of the editor's rows (dispatchers, mouse buttons
//! and actions, input settings, gesture directions and actions, animation
//! targets and curves) and lookups in them.
use vstd::prelude::*;
use crate::text::is_text;

verus! {

broadcast use vstd::string::group_string_axioms;

/// The keybind dispatchers offered by a keybind row.
pub open spec fn kb_dispatchers() -> Seq<Seq<char>> {
    seq![
        "exec"@,
        "killactive"@,
        "togglefloating"@,
        "workspace"@,
        "movetoworkspace"@,
        "movefocus"@,
        "movewindow"@,
        "fullscreen"@,
        "pseudo"@,
        "togglesplit"@,
        "exit"@,
        "togglespecialworkspace"@,
        "pin"@,
    ]
}

/// The mouse buttons offered by a mouse bind row.
pub open spec fn mouse_buttons() -> Seq<Seq<char>> {
    seq!["mouse:272"@, "mouse:273"@, "mouse:274"@, "mouse:275"@, "mouse:276"@]
}

/// The actions offered by a mouse bind row.
pub open spec fn mouse_actions() -> Seq<Seq<char>> {
    seq!["movewindow"@, "resizewindow"@, "togglefloating"@, "fullscreen"@]
}

/// The settings offered by an input row.
pub open spec fn input_settings() -> Seq<Seq<char>> {
    seq![
        "repeat_rate"@,
        "repeat_delay"@,
        "numlock_by_default"@,
        "follow_mouse"@,
        "float_switch_override_focus"@,
        "touchpad.scroll_factor"@,
        "touchpad.disable_while_typing"@,
    ]
}

/// The directions offered by a gesture row.
pub open spec fn gesture_directions() -> Seq<Seq<char>> {
    seq!["horizontal"@, "vertical"@, "left"@, "right"@, "up"@, "down"@]
}

/// The actions offered by a gesture row.
pub open spec fn gesture_actions() -> Seq<Seq<char>> {
    seq!["workspace"@, "movefocus"@, "resizewindow"@, "movewindow"@, "custom"@]
}

/// The targets offered by an animation row.
pub open spec fn animation_leaves() -> Seq<Seq<char>> {
    seq![
        "windows"@,
        "windowsIn"@,
        "windowsOut"@,
        "border"@,
        "borderangle"@,
        "fade"@,
        "workspaces"@,
        "layers"@,
    ]
}

/// The curves offered by an animation row.
pub open spec fn animation_beziers() -> Seq<Seq<char>> {
    seq![
        "default"@,
        "linear"@,
        "easeOutQuint"@,
        "easeInOutCubic"@,
        "easeOutBack"@,
        "myBezier"@,
        "custom"@,
    ]
}

/// The choice lists.
#[derive(Clone, Copy)]
pub enum Table {
    Dispatchers,
    MouseButtons,
    MouseActions,
    InputSettings,
    GestureDirections,
    GestureActions,
    AnimationLeaves,
    AnimationBeziers,
}

pub open spec fn entries(t: Table) -> Seq<Seq<char>> {
    match t {
        Table::Dispatchers => kb_dispatchers(),
        Table::MouseButtons => mouse_buttons(),
        Table::MouseActions => mouse_actions(),
        Table::InputSettings => input_settings(),
        Table::GestureDirections => gesture_directions(),
        Table::GestureActions => gesture_actions(),
        Table::AnimationLeaves => animation_leaves(),
        Table::AnimationBeziers => animation_beziers(),
    }
}

/// `list.get(i).unwrap_or(d)`.
pub open spec fn pick(list: Seq<Seq<char>>, i: int, d: Seq<char>) -> Seq<char> {
    if 0 <= i < list.len() {
        list[i]
    } else {
        d
    }
}

/// `i` is the first position of `x` in `list`.
pub open spec fn first_index(list: Seq<Seq<char>>, x: Seq<char>, i: int) -> bool {
    0 <= i < list.len() && list[i] == x && forall|j: int| 0 <= j < i ==> list[j] != x
}

/// `list.iter().position(|e| e == x).unwrap_or(d)`.
pub open spec fn index_or(list: Seq<Seq<char>>, x: Seq<char>, d: int) -> int {
    if list.contains(x) {
        choose|i: int| first_index(list, x, i)
    } else {
        d
    }
}

pub proof fn lemma_index_or(list: Seq<Seq<char>>, x: Seq<char>, d: int, i: int)
    requires
        first_index(list, x, i),
    ensures
        index_or(list, x, d) == i,
{
    assert(list.contains(x)) by {
        assert(list[i] == x);
    }
    let k = choose|k: int| first_index(list, x, k);
    assert(first_index(list, x, k));
    if k < i {
        assert(list[k] != x);
    } else if i < k {
        assert(list[i] != x);
    }
}

/// The `i`-th entry of a choice list.
pub fn entry(t: Table, i: usize) -> (r: &'static str)
    requires
        i < entries(t).len(),
    ensures
        r@ == entries(t)[i as int],
{
    match t {
        Table::Dispatchers => match i {
            0 => "exec",
            1 => "killactive",
            2 => "togglefloating",
            3 => "workspace",
            4 => "movetoworkspace",
            5 => "movefocus",
            6 => "movewindow",
            7 => "fullscreen",
            8 => "pseudo",
            9 => "togglesplit",
            10 => "exit",
            11 => "togglespecialworkspace",
            _ => "pin",
        },
        Table::MouseButtons => match i {
            0 => "mouse:272",
            1 => "mouse:273",
            2 => "mouse:274",
            3 => "mouse:275",
            _ => "mouse:276",
        },
        Table::MouseActions => match i {
            0 => "movewindow",
            1 => "resizewindow",
            2 => "togglefloating",
            _ => "fullscreen",
        },
        Table::InputSettings => match i {
            0 => "repeat_rate",
            1 => "repeat_delay",
            2 => "numlock_by_default",
            3 => "follow_mouse",
            4 => "float_switch_override_focus",
            5 => "touchpad.scroll_factor",
            _ => "touchpad.disable_while_typing",
        },
        Table::GestureDirections => match i {
            0 => "horizontal",
            1 => "vertical",
            2 => "left",
            3 => "right",
            4 => "up",
            _ => "down",
        },
        Table::GestureActions => match i {
            0 => "workspace",
            1 => "movefocus",
            2 => "resizewindow",
            3 => "movewindow",
            _ => "custom",
        },
        Table::AnimationLeaves => match i {
            0 => "windows",
            1 => "windowsIn",
            2 => "windowsOut",
            3 => "border",
            4 => "borderangle",
            5 => "fade",
            6 => "workspaces",
            _ => "layers",
        },
        Table::AnimationBeziers => match i {
            0 => "default",
            1 => "linear",
            2 => "easeOutQuint",
            3 => "easeInOutCubic",
            4 => "easeOutBack",
            5 => "myBezier",
            _ => "custom",
        },
    }
}

/// The number of entries of a choice list.
pub fn table_len(t: Table) -> (r: usize)
    ensures
        r == entries(t).len(),
{
    match t {
        Table::Dispatchers => 13,
        Table::MouseButtons => 5,
        Table::MouseActions => 4,
        Table::InputSettings => 7,
        Table::GestureDirections => 6,
        Table::GestureActions => 5,
        Table::AnimationLeaves => 8,
        Table::AnimationBeziers => 7,
    }
}

/// `list.get(i).copied().unwrap_or(d)` on a choice list.
pub fn pick_entry(t: Table, i: usize, d: &'static str) -> (r: &'static str)
    ensures
        r@ == pick(entries(t), i as int, d@),
{
    if i < table_len(t) {
        entry(t, i)
    } else {
        d
    }
}

/// The position of a text in a choice list, or `d`.
pub fn index_in(t: Table, x: &[char], d: usize) -> (r: usize)
    ensures
        r as int == index_or(entries(t), x@, d as int),
{
    let n = table_len(t);
    let mut i: usize = 0;
    while i < n
        invariant
            i <= n,
            n == entries(t).len(),
            forall|j: int| 0 <= j < i ==> entries(t)[j] != x@,
        decreases n - i,
    {
        if is_text(x, entry(t, i)) {
            proof {
                lemma_index_or(entries(t), x@, d as int, i as int);
            }
            return i;
        }
        i = i + 1;
    }
    assert(!entries(t).contains(x@)) by {
        if entries(t).contains(x@) {
            let k = choose|k: int| 0 <= k < entries(t).len() && entries(t)[k] == x@;
            assert(entries(t)[k] != x@);
        }
    }
    d
}

} // verus!
