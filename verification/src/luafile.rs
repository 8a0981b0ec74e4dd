//! The generated `configurator-settings.lua`: the keybinds of the default
//! applications, the wallpaper command, and the whole file.
use vstd::prelude::*;
use crate::blocks::{append_strings, block, render_block, LineKind};
use crate::config::Config;
use crate::dispatch::{escape, escape_chars};
use crate::numbers::{dec, fixed1, fixed2, push_dec, push_fixed1, push_fixed2};
use crate::text::{
    chars_of, extend_chars, extend_str, is_text, join, join_strings, somes, string_of, trim,
    trim_str,
};

verus! {

broadcast use vstd::string::group_string_axioms;

/// The keybind that starts a default application, when one is set.
pub open spec fn app_bind(prefix: Seq<char>, cmd: Seq<char>) -> Option<Seq<char>> {
    if trim(cmd).len() == 0 {
        None
    } else {
        Some(prefix + escape(trim(cmd)) + "\"))"@)
    }
}

/// The SUPER shortcuts of the default terminal, browser, file manager and
/// editor, for those that are set.
pub open spec fn app_bind_lines(c: Config) -> Seq<Seq<char>> {
    somes(
        seq![
            app_bind("hl.bind(\"SUPER + Return\", hl.dsp.exec_cmd(\""@, c.default_terminal@),
            app_bind("hl.bind(\"SUPER + B\", hl.dsp.exec_cmd(\""@, c.default_browser@),
            app_bind("hl.bind(\"SUPER + E\", hl.dsp.exec_cmd(\""@, c.default_file_manager@),
            app_bind("hl.bind(\"SUPER + C\", hl.dsp.exec_cmd(\""@, c.default_editor@),
        ],
    )
}

fn push_app_bind(out: &mut Vec<String>, prefix: &str, cmd: &String)
    ensures
        final(out).deep_view() == match app_bind(prefix@, cmd@) {
            Some(x) => old(out).deep_view().push(x),
            None => old(out).deep_view(),
        },
{
    let t = trim_str(cmd.as_str());
    if t.len() > 0 {
        let mut line = chars_of(prefix);
        let e = escape_chars(&t);
        extend_chars(&mut line, &e);
        extend_str(&mut line, "\"))");
        let ghost before = out.deep_view();
        out.push(string_of(&line));
        assert(out.deep_view() =~= before.push(line@));
    }
}

/// The SUPER shortcuts of the default applications.
pub fn default_app_keybind_lines(c: &Config) -> (r: Vec<String>)
    ensures
        r.deep_view() == app_bind_lines(*c),
{
    let ghost s = seq![
        app_bind("hl.bind(\"SUPER + Return\", hl.dsp.exec_cmd(\""@, c.default_terminal@),
        app_bind("hl.bind(\"SUPER + B\", hl.dsp.exec_cmd(\""@, c.default_browser@),
        app_bind("hl.bind(\"SUPER + E\", hl.dsp.exec_cmd(\""@, c.default_file_manager@),
        app_bind("hl.bind(\"SUPER + C\", hl.dsp.exec_cmd(\""@, c.default_editor@),
    ];
    let mut out: Vec<String> = Vec::new();
    assert(out.deep_view() =~= somes(s.take(0)));
    push_app_bind(&mut out, "hl.bind(\"SUPER + Return\", hl.dsp.exec_cmd(\"", &c.default_terminal);
    assert(s.take(1).drop_last() =~= s.take(0));
    assert(out.deep_view() =~= somes(s.take(1)));
    push_app_bind(&mut out, "hl.bind(\"SUPER + B\", hl.dsp.exec_cmd(\"", &c.default_browser);
    assert(s.take(2).drop_last() =~= s.take(1));
    assert(out.deep_view() =~= somes(s.take(2)));
    push_app_bind(&mut out, "hl.bind(\"SUPER + E\", hl.dsp.exec_cmd(\"", &c.default_file_manager);
    assert(s.take(3).drop_last() =~= s.take(2));
    assert(out.deep_view() =~= somes(s.take(3)));
    push_app_bind(&mut out, "hl.bind(\"SUPER + C\", hl.dsp.exec_cmd(\"", &c.default_editor);
    assert(s.take(4).drop_last() =~= s.take(3));
    assert(s.take(4) =~= s);
    assert(out.deep_view() =~= somes(s));
    out
}

/// The start-up command that sets the wallpaper, when a path is set.
pub open spec fn wallpaper_cmds(c: Config) -> Seq<Seq<char>> {
    if trim(c.wallpaper_path@).len() == 0 {
        Seq::empty()
    } else if c.wallpaper_backend@ == "hyprpaper"@ {
        seq!["hyprpaper"@]
    } else {
        seq!["swaybg -i "@ + trim(c.wallpaper_path@) + " -m "@ + trim(c.wallpaper_mode@)]
    }
}

/// The start-up command that sets the wallpaper.
pub fn wallpaper_lines(c: &Config) -> (r: Vec<String>)
    ensures
        r.deep_view() == wallpaper_cmds(*c),
{
    let mut out: Vec<String> = Vec::new();
    let path = trim_str(c.wallpaper_path.as_str());
    if path.len() == 0 {
        assert(out.deep_view() =~= wallpaper_cmds(*c));
        return out;
    }
    let backend = chars_of(c.wallpaper_backend.as_str());
    if is_text(&backend, "hyprpaper") {
        out.push(String::from_str("hyprpaper"));
    } else {
        let mut line = chars_of("swaybg -i ");
        extend_chars(&mut line, &path);
        extend_str(&mut line, " -m ");
        let mode = trim_str(c.wallpaper_mode.as_str());
        extend_chars(&mut line, &mode);
        out.push(string_of(&line));
    }
    assert(out.deep_view() =~= wallpaper_cmds(*c));
    out
}

pub open spec fn bool_lua(b: bool) -> Seq<char> {
    if b {
        "true"@
    } else {
        "false"@
    }
}

/// The commands run once when Hyprland starts: start-up commands, then
/// exec-once commands, then the wallpaper command.
pub open spec fn startup_cmds(c: Config) -> Seq<Seq<char>> {
    c.startup_commands.deep_view() + c.exec_once_commands.deep_view() + wallpaper_cmds(c)
}

/// The `hyprland.start` handler, or nothing when there is no command.
pub open spec fn startup_section(c: Config) -> Seq<char> {
    let s = block(LineKind::Startup, startup_cmds(c), Seq::empty());
    if s.len() == 0 {
        Seq::empty()
    } else {
        "hl.on(\"hyprland.start\", function ()\n"@ + s + "\nend)\n\n"@
    }
}

/// The commands run on every reload, followed by a blank line.
pub open spec fn exec_section(c: Config) -> Seq<char> {
    let e = block(LineKind::Exec, c.exec_commands.deep_view(), Seq::empty());
    if e.len() == 0 {
        Seq::empty()
    } else {
        e + "\n\n"@
    }
}

/// The blocks placed after the fixed settings, in file order.
pub open spec fn extra_parts(c: Config, scales: Seq<Seq<char>>) -> Seq<Seq<char>> {
    seq![
        block(LineKind::Monitor, c.monitor_rules.deep_view(), scales),
        block(LineKind::Env, c.env_vars.deep_view(), Seq::empty()),
        block(LineKind::Workspace, c.visual_workspaces.deep_view(), Seq::empty()),
        block(LineKind::Raw, c.workspace_rules.deep_view(), Seq::empty()),
        block(LineKind::WindowRule, c.visual_window_rules.deep_view(), Seq::empty()),
        block(LineKind::Raw, c.window_rules.deep_view(), Seq::empty()),
        block(LineKind::Keybind, c.visual_keybinds.deep_view(), Seq::empty()),
        join(app_bind_lines(c), "\n"@),
        block(LineKind::MouseBind, c.mouse_binds.deep_view(), Seq::empty()),
        block(LineKind::Raw, c.keybinds.deep_view(), Seq::empty()),
        block(
            LineKind::Raw,
            c.animation_lines.deep_view() + c.decoration_lines.deep_view()
                + c.input_extra_lines.deep_view() + c.gesture_lines.deep_view(),
            Seq::empty(),
        ),
        block(LineKind::Raw, c.custom_lines.deep_view(), Seq::empty()),
    ]
}

/// The non-empty texts, in order.
pub open spec fn nonempty(parts: Seq<Seq<char>>) -> Seq<Seq<char>>
    decreases parts.len(),
{
    if parts.len() == 0 {
        Seq::empty()
    } else {
        let r = nonempty(parts.drop_last());
        if parts.last().len() > 0 {
            r.push(parts.last())
        } else {
            r
        }
    }
}

/// The blocks after the fixed settings, separated by blank lines.
pub open spec fn extra_section(c: Config, scales: Seq<Seq<char>>) -> Seq<char> {
    let e = nonempty(extra_parts(c, scales));
    if e.len() == 0 {
        Seq::empty()
    } else {
        "\n"@ + join(e, "\n\n"@) + "\n"@
    }
}

/// The first line of every generated file.
pub open spec fn header() -> Seq<char> {
    "-- Generated by Hypr Configurator - do not edit manually\n\n"@
}

/// The whole generated Lua file for settings `c`, with `scales[i]` the
/// printed scale of the `i`-th monitor row.
pub open spec fn lua_file(c: Config, scales: Seq<Seq<char>>) -> Seq<char> {
    header() + lua_body(c, scales)
}

/// The generated file after its first line.
pub open spec fn lua_body(c: Config, scales: Seq<Seq<char>>) -> Seq<char> {
    startup_section(c) + exec_section(c) + "hl.config({\n  general = {\n    gaps_in = "@
        + dec(c.gaps_in as nat) + ",\n    gaps_out = "@ + dec(c.gaps_out as nat)
        + ",\n    border_size = "@ + dec(c.border_size as nat)
        + ",\n    col = {\n      active_border = \""@ + c.active_border_color@
        + "\",\n      inactive_border = \""@ + c.inactive_border_color@
        + "\",\n    },\n    resize_on_border = "@ + bool_lua(c.resize_on_border)
        + ",\n    allow_tearing = "@ + bool_lua(c.allow_tearing) + ",\n    layout = \""@
        + c.layout@ + "\",\n  },\n\n  decoration = {\n    rounding = "@ + dec(c.rounding as nat)
        + ",\n    rounding_power = 2,\n    active_opacity = "@ + fixed2(
        c.active_opacity_centi as int,
    ) + ",\n    inactive_opacity = "@ + fixed2(c.inactive_opacity_centi as int)
        + ",\n    shadow = {\n      enabled = "@ + bool_lua(c.shadow_enabled)
        + ",\n      range = "@ + dec(c.shadow_range as nat)
        + ",\n      render_power = 3,\n      color = 0xee1a1a1a,\n    },\n    blur = {\n      enabled = "@
        + bool_lua(c.blur_enabled) + ",\n      size = "@ + dec(c.blur_size as nat)
        + ",\n      passes = "@ + dec(c.blur_passes as nat)
        + ",\n      vibrancy = 0.1696,\n    },\n  },\n\n  animations = {\n    enabled = "@
        + bool_lua(c.animations_enabled)
        + ",\n  },\n})\n\nhl.config({\n  input = {\n    kb_layout = \""@ + c.kb_layout@
        + "\",\n    kb_variant = \""@ + c.kb_variant@
        + "\",\n    kb_model = \"\",\n    kb_options = \"\",\n    kb_rules = \"\",\n    follow_mouse = 1,\n    sensitivity = "@
        + fixed1(c.sensitivity_deci as int) + ",\n    touchpad = {\n      natural_scroll = "@
        + bool_lua(c.natural_scroll)
        + ",\n    },\n  },\n})\n\nhl.config({\n  misc = {\n    force_default_wallpaper = -1,\n    disable_hyprland_logo = "@
        + bool_lua(c.disable_hyprland_logo) + ",\n  },\n})\n"@ + extra_section(c, scales)
}

fn push_bool(out: &mut Vec<char>, b: bool)
    ensures
        final(out)@ == old(out)@ + bool_lua(b),
{
    if b {
        extend_str(out, "true");
    } else {
        extend_str(out, "false");
    }
}

fn push_startup_section(out: &mut Vec<char>, c: &Config)
    ensures
        final(out)@ == old(out)@ + startup_section(*c),
{
    let mut all: Vec<String> = Vec::new();
    append_strings(&mut all, &c.startup_commands);
    append_strings(&mut all, &c.exec_once_commands);
    let w = wallpaper_lines(c);
    append_strings(&mut all, &w);
    assert(all.deep_view() =~= startup_cmds(*c));
    let none: Vec<String> = Vec::new();
    assert(none.deep_view() =~= Seq::<Seq<char>>::empty());
    let s = render_block(LineKind::Startup, &all, &none);
    if !s.as_str().is_empty() {
        extend_str(out, "hl.on(\"hyprland.start\", function ()\n");
        extend_str(out, s.as_str());
        extend_str(out, "\nend)\n\n");
    }
    assert(out@ =~= old(out)@ + startup_section(*c));
}

fn push_exec_section(out: &mut Vec<char>, c: &Config)
    ensures
        final(out)@ == old(out)@ + exec_section(*c),
{
    let none: Vec<String> = Vec::new();
    assert(none.deep_view() =~= Seq::<Seq<char>>::empty());
    let e = render_block(LineKind::Exec, &c.exec_commands, &none);
    if !e.as_str().is_empty() {
        extend_str(out, e.as_str());
        extend_str(out, "\n\n");
    }
    assert(out@ =~= old(out)@ + exec_section(*c));
}

fn push_part(parts: &mut Vec<String>, part: String)
    ensures
        final(parts).deep_view() == (if part@.len() > 0 {
            old(parts).deep_view().push(part@)
        } else {
            old(parts).deep_view()
        }),
{
    if !part.as_str().is_empty() {
        let ghost before = parts.deep_view();
        parts.push(part);
        assert(parts.deep_view() =~= before.push(part@));
    }
}

fn push_extra_section(out: &mut Vec<char>, c: &Config, scales: &Vec<String>)
    requires
        scales.len() == c.monitor_rules.len(),
    ensures
        final(out)@ == old(out)@ + extra_section(*c, scales.deep_view()),
{
    let none: Vec<String> = Vec::new();
    assert(none.deep_view() =~= Seq::<Seq<char>>::empty());
    let mut parts: Vec<String> = Vec::new();
    let ghost ps = extra_parts(*c, scales.deep_view());
    assert(parts.deep_view() =~= nonempty(ps.take(0)));
    push_part(&mut parts, render_block(LineKind::Monitor, &c.monitor_rules, scales));
    assert(ps.take(1).drop_last() =~= ps.take(0));
    assert(parts.deep_view() =~= nonempty(ps.take(1)));
    push_part(&mut parts, render_block(LineKind::Env, &c.env_vars, &none));
    assert(ps.take(2).drop_last() =~= ps.take(1));
    assert(parts.deep_view() =~= nonempty(ps.take(2)));
    push_part(&mut parts, render_block(LineKind::Workspace, &c.visual_workspaces, &none));
    assert(ps.take(3).drop_last() =~= ps.take(2));
    assert(parts.deep_view() =~= nonempty(ps.take(3)));
    push_part(&mut parts, render_block(LineKind::Raw, &c.workspace_rules, &none));
    assert(ps.take(4).drop_last() =~= ps.take(3));
    assert(parts.deep_view() =~= nonempty(ps.take(4)));
    push_part(&mut parts, render_block(LineKind::WindowRule, &c.visual_window_rules, &none));
    assert(ps.take(5).drop_last() =~= ps.take(4));
    assert(parts.deep_view() =~= nonempty(ps.take(5)));
    push_part(&mut parts, render_block(LineKind::Raw, &c.window_rules, &none));
    assert(ps.take(6).drop_last() =~= ps.take(5));
    assert(parts.deep_view() =~= nonempty(ps.take(6)));
    push_part(&mut parts, render_block(LineKind::Keybind, &c.visual_keybinds, &none));
    assert(ps.take(7).drop_last() =~= ps.take(6));
    assert(parts.deep_view() =~= nonempty(ps.take(7)));
    let apps = default_app_keybind_lines(c);
    push_part(&mut parts, join_strings(&apps, "\n"));
    assert(ps.take(8).drop_last() =~= ps.take(7));
    assert(parts.deep_view() =~= nonempty(ps.take(8)));
    push_part(&mut parts, render_block(LineKind::MouseBind, &c.mouse_binds, &none));
    assert(ps.take(9).drop_last() =~= ps.take(8));
    assert(parts.deep_view() =~= nonempty(ps.take(9)));
    push_part(&mut parts, render_block(LineKind::Raw, &c.keybinds, &none));
    assert(ps.take(10).drop_last() =~= ps.take(9));
    assert(parts.deep_view() =~= nonempty(ps.take(10)));
    let mut advanced: Vec<String> = Vec::new();
    append_strings(&mut advanced, &c.animation_lines);
    append_strings(&mut advanced, &c.decoration_lines);
    append_strings(&mut advanced, &c.input_extra_lines);
    append_strings(&mut advanced, &c.gesture_lines);
    push_part(&mut parts, render_block(LineKind::Raw, &advanced, &none));
    assert(ps.take(11).drop_last() =~= ps.take(10));
    assert(parts.deep_view() =~= nonempty(ps.take(11)));
    push_part(&mut parts, render_block(LineKind::Raw, &c.custom_lines, &none));
    assert(ps.take(12).drop_last() =~= ps.take(11));
    assert(ps.take(12) =~= ps);
    assert(parts.deep_view() =~= nonempty(ps));
    if parts.len() > 0 {
        extend_str(out, "\n");
        let j = join_strings(&parts, "\n\n");
        extend_str(out, j.as_str());
        extend_str(out, "\n");
    }
    assert(out@ =~= old(out)@ + extra_section(*c, scales.deep_view()));
}

/// The Lua file for the settings, with `scales[i]` the printed scale of the
/// `i`-th monitor row.
pub fn generate_lua(c: &Config, scales: &Vec<String>) -> (r: String)
    requires
        scales.len() == c.monitor_rules.len(),
    ensures
        r@ == lua_file(*c, scales.deep_view()),
{
    let mut out = chars_of("-- Generated by Hypr Configurator - do not edit manually\n\n");
    let mut out2: Vec<char> = Vec::new();
    push_body(&mut out2, c, scales);
    extend_chars(&mut out, &out2);
    assert(out@ =~= lua_file(*c, scales.deep_view()));
    string_of(&out)
}

fn push_body(out: &mut Vec<char>, c: &Config, scales: &Vec<String>)
    requires
        scales.len() == c.monitor_rules.len(),
        old(out)@.len() == 0,
    ensures
        final(out)@ == lua_body(*c, scales.deep_view()),
{
    push_startup_section(out, c);
    push_exec_section(out, c);
    extend_str(out, "hl.config({\n  general = {\n    gaps_in = ");
    push_dec(out, c.gaps_in as u64);
    extend_str(out, ",\n    gaps_out = ");
    push_dec(out, c.gaps_out as u64);
    extend_str(out, ",\n    border_size = ");
    push_dec(out, c.border_size as u64);
    extend_str(out, ",\n    col = {\n      active_border = \"");
    extend_str(out, c.active_border_color.as_str());
    extend_str(out, "\",\n      inactive_border = \"");
    extend_str(out, c.inactive_border_color.as_str());
    extend_str(out, "\",\n    },\n    resize_on_border = ");
    push_bool(out, c.resize_on_border);
    extend_str(out, ",\n    allow_tearing = ");
    push_bool(out, c.allow_tearing);
    extend_str(out, ",\n    layout = \"");
    extend_str(out, c.layout.as_str());
    extend_str(out, "\",\n  },\n\n  decoration = {\n    rounding = ");
    push_dec(out, c.rounding as u64);
    extend_str(out, ",\n    rounding_power = 2,\n    active_opacity = ");
    push_fixed2(out, c.active_opacity_centi);
    extend_str(out, ",\n    inactive_opacity = ");
    push_fixed2(out, c.inactive_opacity_centi);
    extend_str(out, ",\n    shadow = {\n      enabled = ");
    push_bool(out, c.shadow_enabled);
    extend_str(out, ",\n      range = ");
    push_dec(out, c.shadow_range as u64);
    extend_str(
        out,
        ",\n      render_power = 3,\n      color = 0xee1a1a1a,\n    },\n    blur = {\n      enabled = ",
    );
    push_bool(out, c.blur_enabled);
    extend_str(out, ",\n      size = ");
    push_dec(out, c.blur_size as u64);
    extend_str(out, ",\n      passes = ");
    push_dec(out, c.blur_passes as u64);
    extend_str(
        out,
        ",\n      vibrancy = 0.1696,\n    },\n  },\n\n  animations = {\n    enabled = ",
    );
    push_bool(out, c.animations_enabled);
    extend_str(out, ",\n  },\n})\n\nhl.config({\n  input = {\n    kb_layout = \"");
    extend_str(out, c.kb_layout.as_str());
    extend_str(out, "\",\n    kb_variant = \"");
    extend_str(out, c.kb_variant.as_str());
    extend_str(
        out,
        "\",\n    kb_model = \"\",\n    kb_options = \"\",\n    kb_rules = \"\",\n    follow_mouse = 1,\n    sensitivity = ",
    );
    push_fixed1(out, c.sensitivity_deci);
    extend_str(out, ",\n    touchpad = {\n      natural_scroll = ");
    push_bool(out, c.natural_scroll);
    extend_str(
        out,
        ",\n    },\n  },\n})\n\nhl.config({\n  misc = {\n    force_default_wallpaper = -1,\n    disable_hyprland_logo = ",
    );
    push_bool(out, c.disable_hyprland_logo);
    extend_str(out, ",\n  },\n})\n");
    push_extra_section(out, c, scales);
    assert(out@ =~= lua_body(*c, scales.deep_view()));
}

} // verus!
