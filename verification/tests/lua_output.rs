use hypr_configurator::blocks::{
    lua_envs, lua_exec_list, lua_monitors, lua_mouse_binds, lua_visual_keybinds,
    lua_visual_window_rules, lua_visual_workspace_rules, monitor_scale_text, raw_lines,
    raw_lines_multi,
};
use hypr_configurator::config::Config;
use hypr_configurator::dispatch::{dispatcher_has_args, dispatcher_to_lua, lua_string};
use hypr_configurator::luafile::{default_app_keybind_lines, generate_lua, wallpaper_lines};

fn strings(v: &[&str]) -> Vec<String> {
    v.iter().map(|s| s.to_string()).collect()
}

#[test]
fn lua_string_escapes_backslashes_then_quotes() {
    assert_eq!(lua_string("plain"), "plain");
    assert_eq!(lua_string("say \"hi\""), "say \\\"hi\\\"");
    assert_eq!(lua_string("a\\b"), "a\\\\b");
    assert_eq!(lua_string("\\\""), "\\\\\\\"");
    assert_eq!(lua_string(""), "");
}

#[test]
fn dispatcher_args_table() {
    for d in ["exec", "workspace", "movetoworkspace", "movefocus", "movewindow", "togglespecialworkspace"] {
        assert!(dispatcher_has_args(d), "{d}");
    }
    for d in ["killactive", "togglefloating", "fullscreen", "pseudo", "togglesplit", "exit", "pin", ""] {
        assert!(!dispatcher_has_args(d), "{d}");
    }
}

#[test]
fn dispatcher_to_lua_fixed_actions() {
    assert_eq!(dispatcher_to_lua("exec", "kitty"), "hl.dsp.exec_cmd(\"kitty\")");
    assert_eq!(dispatcher_to_lua("exec", "sh -c \"x\""), "hl.dsp.exec_cmd(\"sh -c \\\"x\\\"\")");
    assert_eq!(dispatcher_to_lua("killactive", ""), "hl.dsp.window.close()");
    assert_eq!(dispatcher_to_lua("closewindow", "x"), "hl.dsp.window.close()");
    assert_eq!(dispatcher_to_lua("togglefloating", ""), "hl.dsp.window.float({ action = \"toggle\" })");
    assert_eq!(dispatcher_to_lua("fullscreen", ""), "hl.dsp.window.fullscreen()");
    assert_eq!(dispatcher_to_lua("pseudo", ""), "hl.dsp.window.pseudo()");
    assert_eq!(dispatcher_to_lua("togglesplit", ""), "hl.dsp.layout(\"togglesplit\")");
    assert_eq!(dispatcher_to_lua("exit", ""), "hl.dsp.exit()");
    assert_eq!(dispatcher_to_lua("pin", ""), "hl.dsp.window.pin()");
}

#[test]
fn dispatcher_to_lua_workspaces() {
    assert_eq!(dispatcher_to_lua("workspace", "3"), "hl.dsp.focus({ workspace = 3 })");
    assert_eq!(dispatcher_to_lua("workspace", "-2"), "hl.dsp.focus({ workspace = -2 })");
    assert_eq!(dispatcher_to_lua("workspace", "+1"), "hl.dsp.focus({ workspace = +1 })");
    assert_eq!(dispatcher_to_lua("workspace", "e+1"), "hl.dsp.focus({ workspace = \"e+1\" })");
    assert_eq!(dispatcher_to_lua("workspace", ""), "hl.dsp.focus({ workspace = \"\" })");
    assert_eq!(dispatcher_to_lua("movetoworkspace", "4"), "hl.dsp.window.move({ workspace = 4 })");
    assert_eq!(
        dispatcher_to_lua("movetoworkspacesilent", "special"),
        "hl.dsp.window.move({ workspace = \"special\" })"
    );
    assert_eq!(
        dispatcher_to_lua("workspace", "99999999999999999999"),
        "hl.dsp.focus({ workspace = \"99999999999999999999\" })"
    );
}

#[test]
fn dispatcher_to_lua_directions_and_others() {
    assert_eq!(dispatcher_to_lua("movefocus", "l"), "hl.dsp.focus({ direction = \"l\" })");
    assert_eq!(dispatcher_to_lua("movewindow", "l"), "hl.dsp.window.move({ direction = \"left\" })");
    assert_eq!(dispatcher_to_lua("movewindow", "right"), "hl.dsp.window.move({ direction = \"right\" })");
    assert_eq!(dispatcher_to_lua("movewindow", "u"), "hl.dsp.window.move({ direction = \"up\" })");
    assert_eq!(dispatcher_to_lua("movewindow", "down"), "hl.dsp.window.move({ direction = \"down\" })");
    assert_eq!(dispatcher_to_lua("movewindow", "7"), "hl.dsp.window.move({ workspace = 7 })");
    assert_eq!(dispatcher_to_lua("movewindow", "mon:1"), "hl.dsp.window.move({ workspace = \"mon:1\" })");
    assert_eq!(dispatcher_to_lua("togglespecialworkspace", ""), "hl.dsp.workspace.toggle_special()");
    assert_eq!(
        dispatcher_to_lua("togglespecialworkspace", "magic"),
        "hl.dsp.workspace.toggle_special(\"magic\")"
    );
    assert_eq!(dispatcher_to_lua("cyclenext", ""), "hl.dsp.cyclenext()");
    assert_eq!(dispatcher_to_lua("custom", "a\"b"), "hl.dsp.custom(\"a\\\"b\")");
}

#[test]
fn monitor_block_uses_given_scales() {
    let lines = strings(&["DP-1,1920x1080@144,0x0,1.5", " HDMI-A-1 , disabled ", "   ", ",x", "eDP-1"]);
    let scales = strings(&["1.5", "1.0", "1.0", "1.0", "1.0"]);
    assert_eq!(
        lua_monitors(&lines, &scales),
        "hl.monitor({ output = \"DP-1\", mode = \"1920x1080@144\", position = \"0x0\", scale = 1.5 })\n\
         hl.monitor({ output = \"HDMI-A-1\", disabled = true })\n\
         hl.monitor({ output = \"eDP-1\", mode = \"preferred\", position = \"0x0\", scale = 1.0 })"
    );
    assert_eq!(lua_monitors(&Vec::new(), &Vec::new()), "");
}

#[test]
fn monitor_scale_text_reads_fourth_field() {
    assert_eq!(monitor_scale_text("DP-1,preferred,0x0, 1.25 "), "1.25");
    assert_eq!(monitor_scale_text("DP-1,preferred,0x0,2,extra"), "2,extra");
    assert_eq!(monitor_scale_text("DP-1"), "1");
    assert_eq!(monitor_scale_text("DP-1,disabled"), "1");
}

#[test]
fn env_block() {
    let lines = strings(&["KEY , val ", "novalue", ",x", "", "A,b,c"]);
    assert_eq!(lua_envs(&lines), "hl.env(\"KEY\", \"val\")\nhl.env(\"A\", \"b,c\")");
}

#[test]
fn exec_block_escapes() {
    let lines = strings(&["  notify-send \"hi\"  ", "", "waybar"]);
    assert_eq!(
        lua_exec_list(&lines),
        "hl.exec_cmd(\"notify-send \\\"hi\\\"\")\nhl.exec_cmd(\"waybar\")"
    );
}

#[test]
fn keybind_block() {
    let lines = strings(&[
        "SUPER|Return|exec|kitty",
        "SUPER SHIFT | 3 | movetoworkspace | 3 ",
        "SUPER|Q|killactive|",
        "SUPER||exec|x",
        "SUPER|K",
    ]);
    assert_eq!(
        lua_visual_keybinds(&lines),
        "hl.bind(\"SUPER + Return\", hl.dsp.exec_cmd(\"kitty\"))\n\
         hl.bind(\"SUPER SHIFT + 3\", hl.dsp.window.move({ workspace = 3 }))\n\
         hl.bind(\"SUPER + Q\", hl.dsp.window.close())"
    );
}

#[test]
fn mouse_bind_block() {
    let lines = strings(&[
        "SUPER, mouse:272, movewindow",
        "SUPER ALT, mouse:273, resizewindow",
        "SUPER, mouse:274, togglefloating",
        "SUPER, mouse:275",
    ]);
    assert_eq!(
        lua_mouse_binds(&lines),
        "hl.bind(\"SUPER + mouse:272\", hl.dsp.window.drag(), { mouse = true })\n\
         hl.bind(\"SUPER ALT + mouse:273\", hl.dsp.window.resize(), { mouse = true })\n\
         hl.bind(\"SUPER + mouse:274\", hl.dsp.togglefloating(), { mouse = true })"
    );
}

#[test]
fn workspace_rule_block() {
    let lines = strings(&["1|DP-1|main|true", "2|||1", "|x", "3|||no", "4"]);
    assert_eq!(
        lua_visual_workspace_rules(&lines),
        "hl.workspace_rule({ workspace = \"1\", monitor = \"DP-1\", name = \"main\", persistent = true })\n\
         hl.workspace_rule({ workspace = \"2\", persistent = true })\n\
         hl.workspace_rule({ workspace = \"3\", persistent = false })\n\
         hl.workspace_rule({ workspace = \"4\" })"
    );
}

#[test]
fn window_rule_block_numbers_rules_by_line() {
    let lines = strings(&[
        "",
        "foo(bar)|opacity=0.9|workspace=2|size=800x600|float=1|bogus|center=no",
        "kitty|float=true|center=true",
    ]);
    assert_eq!(
        lua_visual_window_rules(&lines),
        "hl.window_rule({ name = \"auto-rule-1\", match = { class = \"^foo\\(bar\\)$\" }, opacity = 0.9, workspace = \"2\", size = \"800 600\", float = true })\n\
         hl.window_rule({ name = \"auto-rule-2\", match = { class = \"^kitty$\" }, float = true, center = true })"
    );
}

#[test]
fn raw_lines_trim_and_drop_blanks() {
    assert_eq!(raw_lines(&strings(&["  a  ", "", "  ", "b"])), "a\nb");
    let groups = vec![strings(&["x"]), Vec::new(), strings(&[" ", "y "]), strings(&["z"])];
    assert_eq!(raw_lines_multi(&groups), "x\ny\nz");
}

#[test]
fn app_keybinds_and_wallpaper() {
    let mut c = Config::default();
    assert_eq!(
        default_app_keybind_lines(&c),
        strings(&[
            "hl.bind(\"SUPER + Return\", hl.dsp.exec_cmd(\"kitty\"))",
            "hl.bind(\"SUPER + B\", hl.dsp.exec_cmd(\"firefox\"))",
            "hl.bind(\"SUPER + E\", hl.dsp.exec_cmd(\"nautilus\"))",
            "hl.bind(\"SUPER + C\", hl.dsp.exec_cmd(\"code\"))",
        ])
    );
    c.default_browser = "  ".to_string();
    c.default_editor = " my \"ed\" ".to_string();
    assert_eq!(
        default_app_keybind_lines(&c),
        strings(&[
            "hl.bind(\"SUPER + Return\", hl.dsp.exec_cmd(\"kitty\"))",
            "hl.bind(\"SUPER + E\", hl.dsp.exec_cmd(\"nautilus\"))",
            "hl.bind(\"SUPER + C\", hl.dsp.exec_cmd(\"my \\\"ed\\\"\"))",
        ])
    );
    assert!(wallpaper_lines(&c).is_empty());
    c.wallpaper_path = " /tmp/w.png ".to_string();
    c.wallpaper_mode = " fit ".to_string();
    assert_eq!(wallpaper_lines(&c), strings(&["swaybg -i /tmp/w.png -m fit"]));
    c.wallpaper_backend = "hyprpaper".to_string();
    assert_eq!(wallpaper_lines(&c), strings(&["hyprpaper"]));
}

const DEFAULT_LUA: &str = r#"-- Generated by Hypr Configurator - do not edit manually

hl.on("hyprland.start", function ()
  hl.exec_cmd("waybar")
end)

hl.config({
  general = {
    gaps_in = 5,
    gaps_out = 20,
    border_size = 2,
    col = {
      active_border = "rgba(999999aa)",
      inactive_border = "rgba(000000aa)",
    },
    resize_on_border = false,
    allow_tearing = false,
    layout = "dwindle",
  },

  decoration = {
    rounding = 30,
    rounding_power = 2,
    active_opacity = 1.00,
    inactive_opacity = 1.00,
    shadow = {
      enabled = true,
      range = 4,
      render_power = 3,
      color = 0xee1a1a1a,
    },
    blur = {
      enabled = true,
      size = 1,
      passes = 4,
      vibrancy = 0.1696,
    },
  },

  animations = {
    enabled = true,
  },
})

hl.config({
  input = {
    kb_layout = "us",
    kb_variant = "intl",
    kb_model = "",
    kb_options = "",
    kb_rules = "",
    follow_mouse = 1,
    sensitivity = 0.0,
    touchpad = {
      natural_scroll = false,
    },
  },
})

hl.config({
  misc = {
    force_default_wallpaper = -1,
    disable_hyprland_logo = false,
  },
})

hl.env("XCURSOR_SIZE", "24")
hl.env("QT_QPA_PLATFORMTHEME", "qt5ct")

hl.window_rule({ name = "auto-rule-0", match = { class = "^dev.n0t.hyprconfigurator$" }, float = true, center = true, size = "1280 960" })

hl.bind("SUPER + Return", hl.dsp.exec_cmd("kitty"))
hl.bind("SUPER + Q", hl.dsp.window.close())

hl.bind("SUPER + Return", hl.dsp.exec_cmd("kitty"))
hl.bind("SUPER + B", hl.dsp.exec_cmd("firefox"))
hl.bind("SUPER + E", hl.dsp.exec_cmd("nautilus"))
hl.bind("SUPER + C", hl.dsp.exec_cmd("code"))

hl.bind("SUPER + mouse:272", hl.dsp.window.drag(), { mouse = true })
hl.bind("SUPER + mouse:273", hl.dsp.window.resize(), { mouse = true })

hl.animation({ leaf = "windows", enabled = true, speed = 7, bezier = "default" })
hl.animation({ leaf = "workspaces", enabled = true, speed = 6, bezier = "default" })
hl.config({ input = { repeat_rate = 35, repeat_delay = 250, numlock_by_default = true } })
"#;

#[test]
fn default_settings_generate_expected_lua() {
    let c = Config::default();
    assert_eq!(generate_lua(&c, &Vec::new()), DEFAULT_LUA);
}

#[test]
fn generated_lua_prints_numbers_and_exec_block() {
    let mut c = Config::default();
    c.active_opacity_centi = 85;
    c.inactive_opacity_centi = 7;
    c.sensitivity_deci = -5;
    c.exec_commands = strings(&["echo reload"]);
    c.exec_once_commands = Vec::new();
    c.env_vars = Vec::new();
    c.visual_window_rules = Vec::new();
    c.visual_keybinds = Vec::new();
    c.mouse_binds = Vec::new();
    c.animation_lines = Vec::new();
    c.input_extra_lines = Vec::new();
    c.default_terminal = String::new();
    c.default_browser = String::new();
    c.default_file_manager = String::new();
    c.default_editor = String::new();
    c.monitor_rules = strings(&["DP-2,preferred,auto,2"]);
    let out = generate_lua(&c, &strings(&["2.0"]));
    assert!(out.starts_with(
        "-- Generated by Hypr Configurator - do not edit manually\n\nhl.exec_cmd(\"echo reload\")\n\nhl.config({\n"
    ));
    assert!(out.contains("    active_opacity = 0.85,\n    inactive_opacity = 0.07,\n"));
    assert!(out.contains("    sensitivity = -0.5,\n"));
    assert!(out.ends_with(
        "  },\n})\n\nhl.monitor({ output = \"DP-2\", mode = \"preferred\", position = \"auto\", scale = 2.0 })\n"
    ));
    assert!(!out.contains("hl.on("));
}

#[test]
fn generated_lua_without_extras_ends_after_misc() {
    let mut c = Config::default();
    c.exec_once_commands = Vec::new();
    c.env_vars = Vec::new();
    c.visual_window_rules = Vec::new();
    c.visual_keybinds = Vec::new();
    c.mouse_binds = Vec::new();
    c.animation_lines = Vec::new();
    c.input_extra_lines = Vec::new();
    c.default_terminal = String::new();
    c.default_browser = String::new();
    c.default_file_manager = String::new();
    c.default_editor = String::new();
    let out = generate_lua(&c, &Vec::new());
    assert!(out.ends_with("    disable_hyprland_logo = false,\n  },\n})\n"));
    assert!(out.starts_with("-- Generated by Hypr Configurator - do not edit manually\n\nhl.config({\n"));
}
