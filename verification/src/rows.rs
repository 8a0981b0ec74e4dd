//! How the editor fills and reads its lists of rows, and the few fixed
//! choices of its main window.
use vstd::prelude::*;
use crate::blocks::{append_strings, block_lines, render_lines, LineKind};
use crate::numbers::{dec_int, push_dec_i64};
use crate::text::{chars_of, extend_str, is_text, string_of};

verus! {

broadcast use vstd::string::group_string_axioms;

/// The rows a list shows for stored lines: one blank row when there is none.
pub open spec fn rows_for(values: Seq<Seq<char>>) -> Seq<Seq<char>> {
    if values.len() == 0 {
        seq![Seq::empty()]
    } else {
        values
    }
}

/// The rows a list shows for stored lines.
pub fn rows_or_blank(values: &Vec<String>) -> (r: Vec<String>)
    ensures
        r.deep_view() == rows_for(values.deep_view()),
{
    let mut r: Vec<String> = Vec::new();
    if values.len() == 0 {
        r.push(String::new());
        assert(r.deep_view() =~= seq![Seq::<char>::empty()]);
    } else {
        append_strings(&mut r, values);
        assert(r.deep_view() =~= values.deep_view());
    }
    r
}

/// The lines a list of text rows stores: each row trimmed, blank rows dropped.
pub fn row_values(texts: &Vec<String>) -> (r: Vec<String>)
    ensures
        r.deep_view() == block_lines(LineKind::Raw, texts.deep_view(), Seq::empty()),
{
    let none: Vec<String> = Vec::new();
    assert(none.deep_view() =~= Seq::<Seq<char>>::empty());
    render_lines(LineKind::Raw, texts, &none)
}

/// The animation rows of a fresh list.
pub open spec fn default_animations() -> Seq<Seq<char>> {
    seq![
        "hl.animation({ leaf = \"windows\", enabled = true, speed = 7, bezier = \"default\" })"@,
        "hl.animation({ leaf = \"workspaces\", enabled = true, speed = 6, bezier = \"default\" })"@,
    ]
}

fn push_text(out: &mut Vec<String>, s: &str)
    ensures
        final(out).deep_view() == old(out).deep_view().push(s@),
{
    let ghost before = out.deep_view();
    out.push(String::from_str(s));
    assert(out.deep_view() =~= before.push(s@));
}

/// The rows an animation list shows for stored lines: the two default
/// animations when there is none.
pub fn animation_rows(values: &Vec<String>) -> (r: Vec<String>)
    ensures
        r.deep_view() == (if values.len() == 0 {
            default_animations()
        } else {
            values.deep_view()
        }),
{
    let mut r: Vec<String> = Vec::new();
    if values.len() == 0 {
        push_text(
            &mut r,
            "hl.animation({ leaf = \"windows\", enabled = true, speed = 7, bezier = \"default\" })",
        );
        push_text(
            &mut r,
            "hl.animation({ leaf = \"workspaces\", enabled = true, speed = 6, bezier = \"default\" })",
        );
        assert(r.deep_view() =~= default_animations());
    } else {
        append_strings(&mut r, values);
        assert(r.deep_view() =~= values.deep_view());
    }
    r
}

/// The rows that the animation quick buttons (`Fast`, `Smooth`, `Snappy`) set.
pub open spec fn animation_preset_rows(name: Seq<char>) -> Option<Seq<Seq<char>>> {
    if name == "Fast"@ {
        Some(
            seq![
                "hl.animation({ leaf = \"windows\", enabled = true, speed = 10, bezier = \"easeOutQuint\" })"@,
                "hl.animation({ leaf = \"workspaces\", enabled = true, speed = 9, bezier = \"easeOutQuint\" })"@,
                "hl.animation({ leaf = \"fade\", enabled = true, speed = 8, bezier = \"default\" })"@,
            ],
        )
    } else if name == "Smooth"@ {
        Some(
            seq![
                "hl.animation({ leaf = \"windows\", enabled = true, speed = 6, bezier = \"easeInOutCubic\" })"@,
                "hl.animation({ leaf = \"workspaces\", enabled = true, speed = 5, bezier = \"easeInOutCubic\" })"@,
                "hl.animation({ leaf = \"fade\", enabled = true, speed = 5, bezier = \"default\" })"@,
            ],
        )
    } else if name == "Snappy"@ {
        Some(
            seq![
                "hl.animation({ leaf = \"windows\", enabled = true, speed = 12, bezier = \"easeOutBack\" })"@,
                "hl.animation({ leaf = \"windowsIn\", enabled = true, speed = 10, bezier = \"easeOutBack\" })"@,
                "hl.animation({ leaf = \"windowsOut\", enabled = true, speed = 9, bezier = \"default\" })"@,
                "hl.animation({ leaf = \"workspaces\", enabled = true, speed = 8, bezier = \"easeOutBack\" })"@,
            ],
        )
    } else {
        None
    }
}

/// The rows that an animation quick button sets.
pub fn animation_preset(name: &str) -> (r: Option<Vec<String>>)
    ensures
        match r {
            Some(v) => animation_preset_rows(name@) == Some(v.deep_view()),
            None => animation_preset_rows(name@) is None,
        },
{
    let n = chars_of(name);
    let mut r: Vec<String> = Vec::new();
    if is_text(&n, "Fast") {
        push_text(
            &mut r,
            "hl.animation({ leaf = \"windows\", enabled = true, speed = 10, bezier = \"easeOutQuint\" })",
        );
        push_text(
            &mut r,
            "hl.animation({ leaf = \"workspaces\", enabled = true, speed = 9, bezier = \"easeOutQuint\" })",
        );
        push_text(
            &mut r,
            "hl.animation({ leaf = \"fade\", enabled = true, speed = 8, bezier = \"default\" })",
        );
    } else if is_text(&n, "Smooth") {
        push_text(
            &mut r,
            "hl.animation({ leaf = \"windows\", enabled = true, speed = 6, bezier = \"easeInOutCubic\" })",
        );
        push_text(
            &mut r,
            "hl.animation({ leaf = \"workspaces\", enabled = true, speed = 5, bezier = \"easeInOutCubic\" })",
        );
        push_text(
            &mut r,
            "hl.animation({ leaf = \"fade\", enabled = true, speed = 5, bezier = \"default\" })",
        );
    } else if is_text(&n, "Snappy") {
        push_text(
            &mut r,
            "hl.animation({ leaf = \"windows\", enabled = true, speed = 12, bezier = \"easeOutBack\" })",
        );
        push_text(
            &mut r,
            "hl.animation({ leaf = \"windowsIn\", enabled = true, speed = 10, bezier = \"easeOutBack\" })",
        );
        push_text(
            &mut r,
            "hl.animation({ leaf = \"windowsOut\", enabled = true, speed = 9, bezier = \"default\" })",
        );
        push_text(
            &mut r,
            "hl.animation({ leaf = \"workspaces\", enabled = true, speed = 8, bezier = \"easeOutBack\" })",
        );
    } else {
        return None;
    }
    assert(r.deep_view() =~= animation_preset_rows(name@)->0);
    Some(r)
}

/// The layouts offered by the layout selector.
pub open spec fn layouts() -> Seq<Seq<char>> {
    seq!["dwindle"@, "master"@, "scrolling"@]
}

/// The selector position of a layout; any other layout shows as `dwindle`.
pub open spec fn layout_position(name: Seq<char>) -> u32 {
    if name == "master"@ {
        1
    } else if name == "scrolling"@ {
        2
    } else {
        0
    }
}

/// The layout of a selector position; any other position is `dwindle`.
pub open spec fn layout_at(i: u32) -> Seq<char> {
    if i == 1 {
        "master"@
    } else if i == 2 {
        "scrolling"@
    } else {
        "dwindle"@
    }
}

/// The selector position of a layout.
pub fn layout_index(name: &str) -> (r: u32)
    ensures
        r == layout_position(name@),
{
    let n = chars_of(name);
    if is_text(&n, "master") {
        1
    } else if is_text(&n, "scrolling") {
        2
    } else {
        0
    }
}

/// The layout of a selector position.
pub fn layout_name(i: u32) -> (r: String)
    ensures
        r@ == layout_at(i),
{
    if i == 1 {
        String::from_str("master")
    } else if i == 2 {
        String::from_str("scrolling")
    } else {
        String::from_str("dwindle")
    }
}

/// The theme presets offered by the preset selector.
pub open spec fn theme_presets() -> Seq<Seq<char>> {
    seq!["Minimal"@, "Glass"@, "Cyberpunk"@, "Mac-like"@, "Performance"@, "No animations"@]
}

/// The theme preset of a selector position; any other position is `Minimal`.
pub fn theme_preset_name(i: u32) -> (r: &'static str)
    ensures
        r@ == (if i < 6 {
            theme_presets()[i as int]
        } else {
            "Minimal"@
        }),
{
    match i {
        0 => "Minimal",
        1 => "Glass",
        2 => "Cyberpunk",
        3 => "Mac-like",
        4 => "Performance",
        5 => "No animations",
        _ => "Minimal",
    }
}

/// The class of the editor's own window.
pub open spec fn own_class() -> Seq<char> {
    "dev.n0t.hyprconfigurator"@
}

/// The address of the first open window with the editor's class, when that
/// window reports one.
pub open spec fn own_address(clients: Seq<(Option<Seq<char>>, Option<Seq<char>>)>) -> Option<
    Seq<char>,
>
    decreases clients.len(),
{
    if clients.len() == 0 {
        None
    } else if clients[0].0 == Some(own_class()) {
        clients[0].1
    } else {
        own_address(clients.drop_first())
    }
}

pub open spec fn client_view(c: (Option<String>, Option<String>)) -> (Option<Seq<char>>, Option<
    Seq<char>,
>) {
    (
        match c.0 {
            Some(s) => Some(s@),
            None => None,
        },
        match c.1 {
            Some(s) => Some(s@),
            None => None,
        },
    )
}

/// The address of the editor's own window among the open windows, given as
/// (class, address) pairs.
pub fn own_window_address(clients: &Vec<(Option<String>, Option<String>)>) -> (r: Option<String>)
    ensures
        match r {
            Some(a) => own_address(clients@.map_values(|c| client_view(c))) == Some(a@),
            None => own_address(clients@.map_values(|c| client_view(c))) is None,
        },
{
    let ghost all = clients@.map_values(|c| client_view(c));
    let mut i: usize = 0;
    assert(all.skip(0) =~= all);
    while i < clients.len()
        invariant
            i <= clients.len(),
            all == clients@.map_values(|c| client_view(c)),
            own_address(all) == own_address(all.skip(i as int)),
        decreases clients.len() - i,
    {
        assert(all.skip(i as int).drop_first() =~= all.skip(i + 1));
        assert(all.skip(i as int)[0] == client_view(clients@[i as int]));
        let mine = match &clients[i].0 {
            Some(class) => {
                let v = chars_of(class.as_str());
                is_text(&v, "dev.n0t.hyprconfigurator")
            },
            None => false,
        };
        if mine {
            return match &clients[i].1 {
                Some(a) => Some(a.clone()),
                None => None,
            };
        }
        i = i + 1;
    }
    None
}

/// The `hyprctl` argument lists that float, size and centre the editor's
/// window at the given address.
pub open spec fn float_commands(addr: Seq<char>) -> Seq<Seq<Seq<char>>> {
    let target = "address:"@ + addr;
    seq![
        seq!["dispatch"@, "setfloating"@, target],
        seq!["dispatch"@, "resizewindowpixel"@, "exact 1280 960,"@ + target],
        seq!["dispatch"@, "centerwindow"@, target],
    ]
}

fn args3(a: &str, b: &str, c: String) -> (r: Vec<String>)
    ensures
        r.deep_view() == seq![a@, b@, c@],
{
    let mut r: Vec<String> = Vec::new();
    r.push(String::from_str(a));
    r.push(String::from_str(b));
    r.push(c);
    assert(r.deep_view() =~= seq![a@, b@, c@]);
    r
}

/// The `hyprctl` argument lists that float, size and centre the editor's
/// window.
pub fn float_window_commands(addr: &str) -> (r: Vec<Vec<String>>)
    ensures
        r@.map_values(|v: Vec<String>| v.deep_view()) == float_commands(addr@),
{
    let mut target = chars_of("address:");
    crate::text::extend_str(&mut target, addr);
    let mut resize = chars_of("exact 1280 960,");
    crate::text::extend_chars(&mut resize, &target);
    let mut r: Vec<Vec<String>> = Vec::new();
    r.push(args3("dispatch", "setfloating", string_of(&target)));
    r.push(args3("dispatch", "resizewindowpixel", string_of(&resize)));
    r.push(args3("dispatch", "centerwindow", string_of(&target)));
    assert(r@.map_values(|v: Vec<String>| v.deep_view()) =~= float_commands(addr@));
    r
}

/// The monitor rule written for a monitor that Hyprland reports:
/// `NAME,WIDTHxHEIGHT@REFRESH,XxY,SCALE`, with the refresh rate rounded and
/// the scale already printed.
pub open spec fn detected_monitor(
    name: Seq<char>,
    width: i64,
    height: i64,
    refresh: i64,
    x: i64,
    y: i64,
    scale: Seq<char>,
) -> Seq<char> {
    name + seq![','] + dec_int(width as int) + seq!['x'] + dec_int(height as int) + seq!['@']
        + dec_int(refresh as int) + seq![','] + dec_int(x as int) + seq!['x'] + dec_int(y as int)
        + seq![','] + scale
}

/// The monitor rule for a monitor that Hyprland reports.
pub fn detected_monitor_line(
    name: &str,
    width: i64,
    height: i64,
    refresh: i64,
    x: i64,
    y: i64,
    scale: &str,
) -> (r: String)
    ensures
        r@ == detected_monitor(name@, width, height, refresh, x, y, scale@),
{
    let mut out = chars_of(name);
    out.push(',');
    push_dec_i64(&mut out, width);
    out.push('x');
    push_dec_i64(&mut out, height);
    out.push('@');
    push_dec_i64(&mut out, refresh);
    out.push(',');
    push_dec_i64(&mut out, x);
    out.push('x');
    push_dec_i64(&mut out, y);
    out.push(',');
    extend_str(&mut out, scale);
    assert(out@ =~= detected_monitor(name@, width, height, refresh, x, y, scale@));
    string_of(&out)
}

/// A reported integer field, or its default when Hyprland left it out.
pub open spec fn int_or(field: Option<i64>, default: i64) -> i64 {
    match field {
        Some(v) => v,
        None => default,
    }
}

/// The monitor rule for a monitor that Hyprland reports, from the fields it
/// reported: none for a monitor without a name; a missing size is
/// 1920x1080 and a missing position 0x0. The refresh rate comes already
/// rounded and the scale already printed.
pub fn detected_monitor_rule(
    name: Option<&str>,
    width: Option<i64>,
    height: Option<i64>,
    refresh: i64,
    x: Option<i64>,
    y: Option<i64>,
    scale: &str,
) -> (r: Option<String>)
    ensures
        match name {
            Some(n) => r matches Some(s) && s@ == detected_monitor(
                n@,
                int_or(width, 1920),
                int_or(height, 1080),
                refresh,
                int_or(x, 0),
                int_or(y, 0),
                scale@,
            ),
            None => r is None,
        },
{
    let n = match name {
        Some(n) => n,
        None => return None,
    };
    let w = match width {
        Some(v) => v,
        None => 1920,
    };
    let h = match height {
        Some(v) => v,
        None => 1080,
    };
    let px = match x {
        Some(v) => v,
        None => 0,
    };
    let py = match y {
        Some(v) => v,
        None => 0,
    };
    Some(detected_monitor_line(n, w, h, refresh, px, py, scale))
}

} // verus!
