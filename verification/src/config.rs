//! The settings model, its defaults, its validation, the theme presets and
//! the clean-up of stored raw lines.
use vstd::prelude::*;
use crate::blocks::append_strings;
use crate::text::{
    chars_of, contains, contains_text, ends_with, ends_with_text, is_text, starts_with,
    starts_with_text, trim, trim_str, utf8_len, utf8_len_is,
};

verus! {

broadcast use vstd::string::group_string_axioms;

/// The editor's settings. Opacities are held in hundredths and the mouse
/// sensitivity in tenths, the precision with which the Lua file prints them.
pub struct Config {
    pub gaps_in: u32,
    pub gaps_out: u32,
    pub border_size: u32,
    pub active_border_color: String,
    pub inactive_border_color: String,
    pub resize_on_border: bool,
    pub allow_tearing: bool,
    pub layout: String,
    pub rounding: u32,
    pub active_opacity_centi: i64,
    pub inactive_opacity_centi: i64,
    pub shadow_enabled: bool,
    pub shadow_range: u32,
    pub blur_enabled: bool,
    pub blur_size: u32,
    pub blur_passes: u32,
    pub animations_enabled: bool,
    pub kb_layout: String,
    pub kb_variant: String,
    pub sensitivity_deci: i64,
    pub natural_scroll: bool,
    pub disable_hyprland_logo: bool,
    pub startup_commands: Vec<String>,
    pub exec_commands: Vec<String>,
    pub exec_once_commands: Vec<String>,
    pub env_vars: Vec<String>,
    pub monitor_rules: Vec<String>,
    pub visual_workspaces: Vec<String>,
    pub workspace_rules: Vec<String>,
    pub visual_window_rules: Vec<String>,
    pub window_rules: Vec<String>,
    pub visual_keybinds: Vec<String>,
    pub keybinds: Vec<String>,
    pub mouse_binds: Vec<String>,
    pub default_terminal: String,
    pub default_browser: String,
    pub default_file_manager: String,
    pub default_editor: String,
    pub wallpaper_path: String,
    pub wallpaper_backend: String,
    pub wallpaper_mode: String,
    pub animation_lines: Vec<String>,
    pub decoration_lines: Vec<String>,
    pub input_extra_lines: Vec<String>,
    pub gesture_lines: Vec<String>,
    pub custom_lines: Vec<String>,
}

pub open spec fn one(s: Seq<char>) -> Seq<Seq<char>> {
    seq![s]
}

/// The settings a fresh editor starts with.
pub open spec fn is_default(c: Config) -> bool {
    &&& c.gaps_in == 5
    &&& c.gaps_out == 20
    &&& c.border_size == 2
    &&& c.active_border_color@ == "rgba(999999aa)"@
    &&& c.inactive_border_color@ == "rgba(000000aa)"@
    &&& !c.resize_on_border
    &&& !c.allow_tearing
    &&& c.layout@ == "dwindle"@
    &&& c.rounding == 30
    &&& c.active_opacity_centi == 100
    &&& c.inactive_opacity_centi == 100
    &&& c.shadow_enabled
    &&& c.shadow_range == 4
    &&& c.blur_enabled
    &&& c.blur_size == 1
    &&& c.blur_passes == 4
    &&& c.animations_enabled
    &&& c.kb_layout@ == "us"@
    &&& c.kb_variant@ == "intl"@
    &&& c.sensitivity_deci == 0
    &&& !c.natural_scroll
    &&& !c.disable_hyprland_logo
    &&& c.startup_commands.deep_view() == Seq::<Seq<char>>::empty()
    &&& c.exec_commands.deep_view() == Seq::<Seq<char>>::empty()
    &&& c.exec_once_commands.deep_view() == one("waybar"@)
    &&& c.env_vars.deep_view() == seq!["XCURSOR_SIZE,24"@, "QT_QPA_PLATFORMTHEME,qt5ct"@]
    &&& c.monitor_rules.deep_view() == Seq::<Seq<char>>::empty()
    &&& c.visual_workspaces.deep_view() == Seq::<Seq<char>>::empty()
    &&& c.workspace_rules.deep_view() == Seq::<Seq<char>>::empty()
    &&& c.visual_window_rules.deep_view() == one(
        "dev.n0t.hyprconfigurator|float=true|center=true|size=1280x960"@,
    )
    &&& c.window_rules.deep_view() == Seq::<Seq<char>>::empty()
    &&& c.visual_keybinds.deep_view() == seq!["SUPER|Return|exec|kitty"@, "SUPER|Q|killactive|"@]
    &&& c.keybinds.deep_view() == Seq::<Seq<char>>::empty()
    &&& c.mouse_binds.deep_view() == seq![
        "SUPER, mouse:272, movewindow"@,
        "SUPER, mouse:273, resizewindow"@,
    ]
    &&& c.default_terminal@ == "kitty"@
    &&& c.default_browser@ == "firefox"@
    &&& c.default_file_manager@ == "nautilus"@
    &&& c.default_editor@ == "code"@
    &&& c.wallpaper_path@ == Seq::<char>::empty()
    &&& c.wallpaper_backend@ == "swaybg"@
    &&& c.wallpaper_mode@ == "fill"@
    &&& c.animation_lines.deep_view() == seq![
        "hl.animation({ leaf = \"windows\", enabled = true, speed = 7, bezier = \"default\" })"@,
        "hl.animation({ leaf = \"workspaces\", enabled = true, speed = 6, bezier = \"default\" })"@,
    ]
    &&& c.decoration_lines.deep_view() == Seq::<Seq<char>>::empty()
    &&& c.input_extra_lines.deep_view() == one(
        "hl.config({ input = { repeat_rate = 35, repeat_delay = 250, numlock_by_default = true } })"@,
    )
    &&& c.gesture_lines.deep_view() == Seq::<Seq<char>>::empty()
    &&& c.custom_lines.deep_view() == Seq::<Seq<char>>::empty()
}

fn text(s: &str) -> (r: String)
    ensures
        r@ == s@,
{
    String::from_str(s)
}

fn no_lines() -> (r: Vec<String>)
    ensures
        r.deep_view() == Seq::<Seq<char>>::empty(),
{
    let r: Vec<String> = Vec::new();
    assert(r.deep_view() =~= Seq::<Seq<char>>::empty());
    r
}

fn lines1(a: &str) -> (r: Vec<String>)
    ensures
        r.deep_view() == one(a@),
{
    let mut r: Vec<String> = Vec::new();
    r.push(text(a));
    assert(r.deep_view() =~= one(a@));
    r
}

fn lines2(a: &str, b: &str) -> (r: Vec<String>)
    ensures
        r.deep_view() == seq![a@, b@],
{
    let mut r: Vec<String> = Vec::new();
    r.push(text(a));
    r.push(text(b));
    assert(r.deep_view() =~= seq![a@, b@]);
    r
}

impl Default for Config {
    fn default() -> (r: Self)
        ensures
            is_default(r),
    {
        Config {
            gaps_in: 5,
            gaps_out: 20,
            border_size: 2,
            active_border_color: text("rgba(999999aa)"),
            inactive_border_color: text("rgba(000000aa)"),
            resize_on_border: false,
            allow_tearing: false,
            layout: text("dwindle"),
            rounding: 30,
            active_opacity_centi: 100,
            inactive_opacity_centi: 100,
            shadow_enabled: true,
            shadow_range: 4,
            blur_enabled: true,
            blur_size: 1,
            blur_passes: 4,
            animations_enabled: true,
            kb_layout: text("us"),
            kb_variant: text("intl"),
            sensitivity_deci: 0,
            natural_scroll: false,
            disable_hyprland_logo: false,
            startup_commands: no_lines(),
            exec_commands: no_lines(),
            exec_once_commands: lines1("waybar"),
            env_vars: lines2("XCURSOR_SIZE,24", "QT_QPA_PLATFORMTHEME,qt5ct"),
            monitor_rules: no_lines(),
            visual_workspaces: no_lines(),
            workspace_rules: no_lines(),
            visual_window_rules: lines1(
                "dev.n0t.hyprconfigurator|float=true|center=true|size=1280x960",
            ),
            window_rules: no_lines(),
            visual_keybinds: lines2("SUPER|Return|exec|kitty", "SUPER|Q|killactive|"),
            keybinds: no_lines(),
            mouse_binds: lines2("SUPER, mouse:272, movewindow", "SUPER, mouse:273, resizewindow"),
            default_terminal: text("kitty"),
            default_browser: text("firefox"),
            default_file_manager: text("nautilus"),
            default_editor: text("code"),
            wallpaper_path: String::new(),
            wallpaper_backend: text("swaybg"),
            wallpaper_mode: text("fill"),
            animation_lines: lines2(
                "hl.animation({ leaf = \"windows\", enabled = true, speed = 7, bezier = \"default\" })",
                "hl.animation({ leaf = \"workspaces\", enabled = true, speed = 6, bezier = \"default\" })",
            ),
            decoration_lines: no_lines(),
            input_extra_lines: lines1(
                "hl.config({ input = { repeat_rate = 35, repeat_delay = 250, numlock_by_default = true } })",
            ),
            gesture_lines: no_lines(),
            custom_lines: no_lines(),
        }
    }
}

/// A Hyprland colour as the editor writes it: `rgba(` ... `)`, 14 bytes long.
pub open spec fn is_hypr_color(s: Seq<char>) -> bool {
    starts_with(s, "rgba("@) && ends_with(s, ")"@) && utf8_len(s) == 14
}

/// The first reason the settings cannot be saved, if any.
pub open spec fn config_error(c: Config) -> Option<Seq<char>> {
    if !is_hypr_color(c.active_border_color@) {
        Some("Active border color is invalid"@)
    } else if !is_hypr_color(c.inactive_border_color@) {
        Some("Inactive border color is invalid"@)
    } else if !(0 <= c.active_opacity_centi <= 100) || !(0 <= c.inactive_opacity_centi <= 100) {
        Some("Opacity must be between 0.0 and 1.0"@)
    } else if trim(c.layout@).len() == 0 {
        Some("Layout cannot be empty"@)
    } else if trim(c.kb_layout@).len() == 0 {
        Some("Keyboard layout cannot be empty"@)
    } else {
        None
    }
}

fn is_hypr_color_exec(s: &String) -> (r: bool)
    ensures
        r == is_hypr_color(s@),
{
    let v = chars_of(s.as_str());
    starts_with_text(&v, "rgba(") && ends_with_text(&v, ")") && utf8_len_is(&v, 14)
}

/// Checks the settings before they are written.
pub fn validate_config(config: &Config) -> (r: Result<(), String>)
    ensures
        match r {
            Ok(()) => config_error(*config) is None,
            Err(e) => config_error(*config) == Some(e@),
        },
{
    if !is_hypr_color_exec(&config.active_border_color) {
        return Err(text("Active border color is invalid"));
    }
    if !is_hypr_color_exec(&config.inactive_border_color) {
        return Err(text("Inactive border color is invalid"));
    }
    if !(0 <= config.active_opacity_centi && config.active_opacity_centi <= 100) || !(0
        <= config.inactive_opacity_centi && config.inactive_opacity_centi <= 100) {
        return Err(text("Opacity must be between 0.0 and 1.0"));
    }
    if trim_str(config.layout.as_str()).len() == 0 {
        return Err(text("Layout cannot be empty"));
    }
    if trim_str(config.kb_layout.as_str()).len() == 0 {
        return Err(text("Keyboard layout cannot be empty"));
    }
    Ok(())
}

/// The settings that the theme presets change, besides the border colours.
pub struct Look {
    pub gaps_in: u32,
    pub gaps_out: u32,
    pub border_size: u32,
    pub rounding: u32,
    pub active_opacity_centi: i64,
    pub inactive_opacity_centi: i64,
    pub blur_enabled: bool,
    pub blur_size: u32,
    pub blur_passes: u32,
    pub shadow_enabled: bool,
    pub animations_enabled: bool,
}

pub open spec fn look_of(c: Config) -> Look {
    Look {
        gaps_in: c.gaps_in,
        gaps_out: c.gaps_out,
        border_size: c.border_size,
        rounding: c.rounding,
        active_opacity_centi: c.active_opacity_centi,
        inactive_opacity_centi: c.inactive_opacity_centi,
        blur_enabled: c.blur_enabled,
        blur_size: c.blur_size,
        blur_passes: c.blur_passes,
        shadow_enabled: c.shadow_enabled,
        animations_enabled: c.animations_enabled,
    }
}

/// The look that the named preset gives to settings with look `l`; an
/// unknown name leaves it as it is.
pub open spec fn preset_look(name: Seq<char>, l: Look) -> Look {
    if name == "Minimal"@ {
        Look {
            gaps_in: 2,
            gaps_out: 8,
            border_size: 1,
            rounding: 8,
            blur_enabled: false,
            shadow_enabled: false,
            animations_enabled: false,
            ..l
        }
    } else if name == "Glass"@ {
        Look {
            gaps_in: 6,
            gaps_out: 22,
            border_size: 2,
            rounding: 24,
            active_opacity_centi: 88,
            inactive_opacity_centi: 78,
            blur_enabled: true,
            blur_size: 8,
            blur_passes: 3,
            shadow_enabled: true,
            ..l
        }
    } else if name == "Cyberpunk"@ {
        Look {
            gaps_in: 5,
            gaps_out: 18,
            border_size: 3,
            rounding: 18,
            blur_enabled: true,
            animations_enabled: true,
            shadow_enabled: true,
            ..l
        }
    } else if name == "Mac-like"@ {
        Look {
            gaps_in: 8,
            gaps_out: 24,
            border_size: 1,
            rounding: 16,
            blur_enabled: true,
            shadow_enabled: true,
            animations_enabled: true,
            ..l
        }
    } else if name == "Performance"@ {
        Look {
            gaps_in: 3,
            gaps_out: 8,
            border_size: 1,
            rounding: 4,
            blur_enabled: false,
            shadow_enabled: false,
            animations_enabled: false,
            active_opacity_centi: 100,
            inactive_opacity_centi: 100,
            ..l
        }
    } else if name == "No animations"@ {
        Look { animations_enabled: false, ..l }
    } else {
        l
    }
}

/// The border colours after the named preset: the `Cyberpunk` preset sets
/// them, the others keep them.
pub open spec fn preset_colors(name: Seq<char>, c: Config, r: Config) -> bool {
    if name == "Cyberpunk"@ {
        r.active_border_color@ == "rgba(ec4899ff)"@ && r.inactive_border_color@
            == "rgba(3b82f688)"@
    } else {
        r.active_border_color@ == c.active_border_color@ && r.inactive_border_color@
            == c.inactive_border_color@
    }
}

/// Two settings agree on everything outside the look and the border colours.
pub open spec fn same_rest(a: Config, b: Config) -> bool {
    &&& a.resize_on_border == b.resize_on_border
    &&& a.allow_tearing == b.allow_tearing
    &&& a.layout@ == b.layout@
    &&& a.shadow_range == b.shadow_range
    &&& a.kb_layout@ == b.kb_layout@
    &&& a.kb_variant@ == b.kb_variant@
    &&& a.sensitivity_deci == b.sensitivity_deci
    &&& a.natural_scroll == b.natural_scroll
    &&& a.disable_hyprland_logo == b.disable_hyprland_logo
    &&& a.startup_commands.deep_view() == b.startup_commands.deep_view()
    &&& a.exec_commands.deep_view() == b.exec_commands.deep_view()
    &&& a.exec_once_commands.deep_view() == b.exec_once_commands.deep_view()
    &&& a.env_vars.deep_view() == b.env_vars.deep_view()
    &&& a.monitor_rules.deep_view() == b.monitor_rules.deep_view()
    &&& a.visual_workspaces.deep_view() == b.visual_workspaces.deep_view()
    &&& a.workspace_rules.deep_view() == b.workspace_rules.deep_view()
    &&& a.visual_window_rules.deep_view() == b.visual_window_rules.deep_view()
    &&& a.window_rules.deep_view() == b.window_rules.deep_view()
    &&& a.visual_keybinds.deep_view() == b.visual_keybinds.deep_view()
    &&& a.keybinds.deep_view() == b.keybinds.deep_view()
    &&& a.mouse_binds.deep_view() == b.mouse_binds.deep_view()
    &&& a.default_terminal@ == b.default_terminal@
    &&& a.default_browser@ == b.default_browser@
    &&& a.default_file_manager@ == b.default_file_manager@
    &&& a.default_editor@ == b.default_editor@
    &&& a.wallpaper_path@ == b.wallpaper_path@
    &&& a.wallpaper_backend@ == b.wallpaper_backend@
    &&& a.wallpaper_mode@ == b.wallpaper_mode@
    &&& a.animation_lines.deep_view() == b.animation_lines.deep_view()
    &&& a.decoration_lines.deep_view() == b.decoration_lines.deep_view()
    &&& a.input_extra_lines.deep_view() == b.input_extra_lines.deep_view()
    &&& a.gesture_lines.deep_view() == b.gesture_lines.deep_view()
    &&& a.custom_lines.deep_view() == b.custom_lines.deep_view()
}

/// A copy of a list of strings.
pub fn copy_lines(v: &Vec<String>) -> (r: Vec<String>)
    ensures
        r.deep_view() == v.deep_view(),
{
    let mut r: Vec<String> = Vec::new();
    append_strings(&mut r, v);
    assert(r.deep_view() =~= v.deep_view());
    r
}

/// A copy of the settings.
pub fn copy_config(c: &Config) -> (r: Config)
    ensures
        same_rest(*c, r),
        look_of(r) == look_of(*c),
        r.active_border_color@ == c.active_border_color@,
        r.inactive_border_color@ == c.inactive_border_color@,
{
    Config {
        gaps_in: c.gaps_in,
        gaps_out: c.gaps_out,
        border_size: c.border_size,
        active_border_color: c.active_border_color.clone(),
        inactive_border_color: c.inactive_border_color.clone(),
        resize_on_border: c.resize_on_border,
        allow_tearing: c.allow_tearing,
        layout: c.layout.clone(),
        rounding: c.rounding,
        active_opacity_centi: c.active_opacity_centi,
        inactive_opacity_centi: c.inactive_opacity_centi,
        shadow_enabled: c.shadow_enabled,
        shadow_range: c.shadow_range,
        blur_enabled: c.blur_enabled,
        blur_size: c.blur_size,
        blur_passes: c.blur_passes,
        animations_enabled: c.animations_enabled,
        kb_layout: c.kb_layout.clone(),
        kb_variant: c.kb_variant.clone(),
        sensitivity_deci: c.sensitivity_deci,
        natural_scroll: c.natural_scroll,
        disable_hyprland_logo: c.disable_hyprland_logo,
        startup_commands: copy_lines(&c.startup_commands),
        exec_commands: copy_lines(&c.exec_commands),
        exec_once_commands: copy_lines(&c.exec_once_commands),
        env_vars: copy_lines(&c.env_vars),
        monitor_rules: copy_lines(&c.monitor_rules),
        visual_workspaces: copy_lines(&c.visual_workspaces),
        workspace_rules: copy_lines(&c.workspace_rules),
        visual_window_rules: copy_lines(&c.visual_window_rules),
        window_rules: copy_lines(&c.window_rules),
        visual_keybinds: copy_lines(&c.visual_keybinds),
        keybinds: copy_lines(&c.keybinds),
        mouse_binds: copy_lines(&c.mouse_binds),
        default_terminal: c.default_terminal.clone(),
        default_browser: c.default_browser.clone(),
        default_file_manager: c.default_file_manager.clone(),
        default_editor: c.default_editor.clone(),
        wallpaper_path: c.wallpaper_path.clone(),
        wallpaper_backend: c.wallpaper_backend.clone(),
        wallpaper_mode: c.wallpaper_mode.clone(),
        animation_lines: copy_lines(&c.animation_lines),
        decoration_lines: copy_lines(&c.decoration_lines),
        input_extra_lines: copy_lines(&c.input_extra_lines),
        gesture_lines: copy_lines(&c.gesture_lines),
        custom_lines: copy_lines(&c.custom_lines),
    }
}

/// The settings with the named theme preset applied.
pub fn preset_config(name: &str, current: &Config) -> (r: Config)
    ensures
        look_of(r) == preset_look(name@, look_of(*current)),
        preset_colors(name@, *current, r),
        same_rest(*current, r),
{
    let mut c = copy_config(current);
    let n = chars_of(name);
    proof {
        reveal_strlit("Minimal");
        reveal_strlit("Glass");
        reveal_strlit("Cyberpunk");
        reveal_strlit("Mac-like");
        reveal_strlit("Performance");
        reveal_strlit("No animations");
        assert("Cyberpunk"@.len() == 9 && "Minimal"@.len() == 7 && "Glass"@.len() == 5);
    }
    if is_text(&n, "Minimal") {
        c.gaps_in = 2;
        c.gaps_out = 8;
        c.border_size = 1;
        c.rounding = 8;
        c.blur_enabled = false;
        c.shadow_enabled = false;
        c.animations_enabled = false;
    } else if is_text(&n, "Glass") {
        c.gaps_in = 6;
        c.gaps_out = 22;
        c.border_size = 2;
        c.rounding = 24;
        c.active_opacity_centi = 88;
        c.inactive_opacity_centi = 78;
        c.blur_enabled = true;
        c.blur_size = 8;
        c.blur_passes = 3;
        c.shadow_enabled = true;
    } else if is_text(&n, "Cyberpunk") {
        c.gaps_in = 5;
        c.gaps_out = 18;
        c.border_size = 3;
        c.rounding = 18;
        c.active_border_color = text("rgba(ec4899ff)");
        c.inactive_border_color = text("rgba(3b82f688)");
        c.blur_enabled = true;
        c.animations_enabled = true;
        c.shadow_enabled = true;
    } else if is_text(&n, "Mac-like") {
        c.gaps_in = 8;
        c.gaps_out = 24;
        c.border_size = 1;
        c.rounding = 16;
        c.blur_enabled = true;
        c.shadow_enabled = true;
        c.animations_enabled = true;
    } else if is_text(&n, "Performance") {
        c.gaps_in = 3;
        c.gaps_out = 8;
        c.border_size = 1;
        c.rounding = 4;
        c.blur_enabled = false;
        c.shadow_enabled = false;
        c.animations_enabled = false;
        c.active_opacity_centi = 100;
        c.inactive_opacity_centi = 100;
    } else if is_text(&n, "No animations") {
        c.animations_enabled = false;
    }
    c
}

/// A stored raw line in the older `hyprland.conf` syntax rather than Lua.
pub open spec fn is_old_format(line: Seq<char>) -> bool {
    let t = trim(line);
    ||| starts_with(t, "float,"@)
    ||| starts_with(t, "center,"@)
    ||| starts_with(t, "size "@)
    ||| starts_with(t, "opacity "@)
    ||| starts_with(t, "workspace "@)
    ||| starts_with(t, "bind"@)
    ||| starts_with(t, "exec"@)
    ||| starts_with(t, "monitor"@)
    ||| starts_with(t, "windowrulev2"@)
    ||| (contains(t, " = "@) && !contains(t, "hl."@) && !starts_with(t, "--"@))
}

/// Whether a stored raw line is in the older `hyprland.conf` syntax.
pub fn is_old_conf_format(line: &str) -> (r: bool)
    ensures
        r == is_old_format(line@),
{
    let t = trim_str(line);
    starts_with_text(&t, "float,") || starts_with_text(&t, "center,") || starts_with_text(
        &t,
        "size ",
    ) || starts_with_text(&t, "opacity ") || starts_with_text(&t, "workspace ")
        || starts_with_text(&t, "bind") || starts_with_text(&t, "exec") || starts_with_text(
        &t,
        "monitor",
    ) || starts_with_text(&t, "windowrulev2") || (contains_text(&t, " = ") && !contains_text(
        &t,
        "hl.",
    ) && !starts_with_text(&t, "--"))
}

/// The lines that are not in the older syntax, in order.
pub open spec fn keep_new(lines: Seq<Seq<char>>) -> Seq<Seq<char>>
    decreases lines.len(),
{
    if lines.len() == 0 {
        Seq::empty()
    } else {
        let r = keep_new(lines.drop_last());
        if is_old_format(lines.last()) {
            r
        } else {
            r.push(lines.last())
        }
    }
}

/// The lines of a list that are not in the older syntax.
pub fn retain_new_lines(v: &Vec<String>) -> (r: Vec<String>)
    ensures
        r.deep_view() == keep_new(v.deep_view()),
{
    let mut r: Vec<String> = Vec::new();
    let mut i: usize = 0;
    while i < v.len()
        invariant
            i <= v.len(),
            r.deep_view() =~= keep_new(v.deep_view().take(i as int)),
        decreases v.len() - i,
    {
        assert(v.deep_view().take(i + 1).drop_last() =~= v.deep_view().take(i as int));
        assert(v.deep_view().take(i + 1).last() == v@[i as int]@);
        if !is_old_conf_format(v[i].as_str()) {
            let ghost before = r.deep_view();
            r.push(v[i].clone());
            assert(r.deep_view() =~= before.push(v@[i as int]@));
        }
        i = i + 1;
    }
    assert(v.deep_view().take(v.len() as int) =~= v.deep_view());
    r
}

/// Stored settings with the raw lines of the older syntax dropped from the
/// lists that hold raw Lua.
pub fn migrate_config(c: Config) -> (r: Config)
    ensures
        r.window_rules.deep_view() == keep_new(c.window_rules.deep_view()),
        r.workspace_rules.deep_view() == keep_new(c.workspace_rules.deep_view()),
        r.keybinds.deep_view() == keep_new(c.keybinds.deep_view()),
        r.animation_lines.deep_view() == keep_new(c.animation_lines.deep_view()),
        r.decoration_lines.deep_view() == keep_new(c.decoration_lines.deep_view()),
        r.input_extra_lines.deep_view() == keep_new(c.input_extra_lines.deep_view()),
        r.gesture_lines.deep_view() == keep_new(c.gesture_lines.deep_view()),
        r.custom_lines.deep_view() == keep_new(c.custom_lines.deep_view()),
        look_of(r) == look_of(c),
        r.active_border_color == c.active_border_color,
        r.inactive_border_color == c.inactive_border_color,
        r.resize_on_border == c.resize_on_border,
        r.allow_tearing == c.allow_tearing,
        r.layout == c.layout,
        r.shadow_range == c.shadow_range,
        r.kb_layout == c.kb_layout,
        r.kb_variant == c.kb_variant,
        r.sensitivity_deci == c.sensitivity_deci,
        r.natural_scroll == c.natural_scroll,
        r.disable_hyprland_logo == c.disable_hyprland_logo,
        r.startup_commands == c.startup_commands,
        r.exec_commands == c.exec_commands,
        r.exec_once_commands == c.exec_once_commands,
        r.env_vars == c.env_vars,
        r.monitor_rules == c.monitor_rules,
        r.visual_workspaces == c.visual_workspaces,
        r.visual_window_rules == c.visual_window_rules,
        r.visual_keybinds == c.visual_keybinds,
        r.mouse_binds == c.mouse_binds,
        r.default_terminal == c.default_terminal,
        r.default_browser == c.default_browser,
        r.default_file_manager == c.default_file_manager,
        r.default_editor == c.default_editor,
        r.wallpaper_path == c.wallpaper_path,
        r.wallpaper_backend == c.wallpaper_backend,
        r.wallpaper_mode == c.wallpaper_mode,
{
    let mut c = c;
    c.window_rules = retain_new_lines(&c.window_rules);
    c.workspace_rules = retain_new_lines(&c.workspace_rules);
    c.keybinds = retain_new_lines(&c.keybinds);
    c.animation_lines = retain_new_lines(&c.animation_lines);
    c.decoration_lines = retain_new_lines(&c.decoration_lines);
    c.input_extra_lines = retain_new_lines(&c.input_extra_lines);
    c.gesture_lines = retain_new_lines(&c.gesture_lines);
    c.custom_lines = retain_new_lines(&c.custom_lines);
    c
}

} // verus!
