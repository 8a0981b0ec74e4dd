use hypr_configurator::entries::{
    anim_value, animation_entry_line, env_entry_line, expand_input_extra_line, extract_between,
    gesture_entry_line, input_extra_entry_line, keybind_entry_line, lua_field_value,
    monitor_entry_line, mods_from_text, mouse_bind_entry_line, parse_animation_line,
    parse_env_line, parse_gesture_line, parse_input_extra, parse_keybind_line,
    parse_monitor_line, parse_mouse_bind_line, parse_workspace_line, selected_mods,
    workspace_entry_line,
};
use hypr_configurator::rows::{
    animation_preset, animation_rows, detected_monitor_line, detected_monitor_rule, float_window_commands, layout_index, layout_name,
    own_window_address, row_values, rows_or_blank, theme_preset_name,
};
use hypr_configurator::blocks::{
    lua_envs, lua_monitors, lua_mouse_binds, lua_visual_keybinds, lua_visual_workspace_rules,
    monitor_scale_text,
};
use hypr_configurator::tables::{entry, index_in, pick_entry, table_len, Table};

fn strings(v: &[&str]) -> Vec<String> {
    v.iter().map(|s| s.to_string()).collect()
}

#[test]
fn modifiers_text() {
    assert_eq!(selected_mods(true, false, true, false), "SUPER CTRL");
    assert_eq!(selected_mods(false, false, false, false), "");
    assert_eq!(selected_mods(true, true, true, true), "SUPER SHIFT CTRL ALT");
    assert_eq!(mods_from_text("  SUPER\tSHIFT  "), strings(&["SUPER", "SHIFT"]));
    assert!(mods_from_text("   ").is_empty());
}

#[test]
fn keybind_row_line() {
    assert_eq!(
        keybind_entry_line(true, true, false, false, " Return ", 0, " kitty --hold "),
        Some("SUPER SHIFT|Return|exec|kitty --hold".to_string())
    );
    assert_eq!(
        keybind_entry_line(false, false, false, true, "Q", 1, ""),
        Some("ALT|Q|killactive|".to_string())
    );
    assert_eq!(
        keybind_entry_line(true, false, false, false, "F", 99, "x"),
        Some("SUPER|F|exec|x".to_string())
    );
    assert_eq!(keybind_entry_line(true, false, false, false, "  ", 0, "x"), None);
}

#[test]
fn keybind_line_read_back() {
    let r = parse_keybind_line("SUPER SHIFT|3|movetoworkspace|3|extra");
    assert!(r.super_key && r.shift && !r.ctrl && !r.alt);
    assert_eq!(r.key, "3");
    assert_eq!(r.action, 4);
    assert_eq!(r.args, "3|extra");
    assert!(r.args_visible);

    let r = parse_keybind_line("CTRL ALT|Q|killactive|");
    assert!(!r.super_key && !r.shift && r.ctrl && r.alt);
    assert_eq!(r.action, 1);
    assert!(!r.args_visible);

    let r = parse_keybind_line("");
    assert!(!r.super_key);
    assert_eq!(r.key, "");
    assert_eq!(r.action, 0);
    assert_eq!(r.args, "");
    assert!(r.args_visible);

    let r = parse_keybind_line("SUPER|K|unknownthing|a");
    assert_eq!(r.action, 0);
    assert!(!r.args_visible);
}

#[test]
fn keybind_round_trip() {
    let line = keybind_entry_line(true, false, true, false, "Space", 11, "magic").unwrap();
    let r = parse_keybind_line(&line);
    assert!(r.super_key && !r.shift && r.ctrl && !r.alt);
    assert_eq!(r.key, "Space");
    assert_eq!(r.action, 11);
    assert_eq!(r.args, "magic");
}

#[test]
fn env_rows() {
    assert_eq!(env_entry_line(" EDITOR ", " nvim "), Some("EDITOR,nvim".to_string()));
    assert_eq!(env_entry_line("", "x"), None);
    assert_eq!(
        parse_env_line(" GDK_SCALE , 2 "),
        ("GDK_SCALE".to_string(), "2".to_string())
    );
    assert_eq!(parse_env_line("NOVALUE"), ("NOVALUE".to_string(), String::new()));
    let line = env_entry_line("A", "b,c").unwrap();
    assert_eq!(parse_env_line(&line), ("A".to_string(), "b,c".to_string()));
}

#[test]
fn monitor_rows() {
    assert_eq!(
        monitor_entry_line(" DP-1 ", "", " ", "1.5", false),
        Some("DP-1,preferred,0x0,1.5".to_string())
    );
    assert_eq!(
        monitor_entry_line("DP-1", "2560x1440@165", "1920x0", "1.0", true),
        Some("DP-1,disabled".to_string())
    );
    assert_eq!(monitor_entry_line("  ", "m", "p", "1.0", false), None);

    let r = parse_monitor_line("DP-1, 1920x1080@60 ,0x0, 1.25");
    assert_eq!(r.output, "DP-1");
    assert!(!r.disabled);
    assert_eq!(r.mode, "1920x1080@60");
    assert_eq!(r.position, "0x0");
    assert_eq!(r.scale, Some("1.25".to_string()));

    let r = parse_monitor_line("HDMI-A-1,disabled");
    assert!(r.disabled);
    assert_eq!(r.mode, "preferred");
    assert_eq!(r.position, "0x0");
    assert_eq!(r.scale, None);

    let r = parse_monitor_line("");
    assert_eq!(r.output, "");
    assert_eq!(r.mode, "preferred");
}

#[test]
fn workspace_rows() {
    assert_eq!(
        workspace_entry_line(" 1 ", " DP-1 ", " web ", true),
        Some("1|DP-1|web|true".to_string())
    );
    assert_eq!(workspace_entry_line("2", "", "", false), Some("2|||false".to_string()));
    assert_eq!(workspace_entry_line(" ", "DP-1", "", false), None);
    let r = parse_workspace_line("3 | HDMI | chat | 1");
    assert_eq!((r.workspace.as_str(), r.monitor.as_str(), r.name.as_str(), r.persistent), ("3", "HDMI", "chat", true));
    let r = parse_workspace_line("4");
    assert_eq!((r.workspace.as_str(), r.monitor.as_str(), r.name.as_str(), r.persistent), ("4", "", "", false));
    let r = parse_workspace_line("5|||yes");
    assert!(!r.persistent);
}

#[test]
fn mouse_bind_rows() {
    assert_eq!(
        mouse_bind_entry_line(true, false, false, false, 1, 1),
        Some("SUPER, mouse:273, resizewindow".to_string())
    );
    assert_eq!(
        mouse_bind_entry_line(true, true, false, false, 9, 9),
        Some("SUPER SHIFT, mouse:272, movewindow".to_string())
    );
    assert_eq!(mouse_bind_entry_line(false, false, false, false, 0, 0), None);
    let r = parse_mouse_bind_line("SUPER ALT, mouse:275, fullscreen");
    assert!(r.super_key && !r.shift && !r.ctrl && r.alt);
    assert_eq!((r.button, r.action), (3, 3));
    let r = parse_mouse_bind_line("SUPER");
    assert_eq!((r.button, r.action), (0, 0));
    let r = parse_mouse_bind_line("SUPER, mouse:999, nothing");
    assert_eq!((r.button, r.action), (0, 0));
}

#[test]
fn input_rows() {
    assert_eq!(
        input_extra_entry_line(0, " 40 "),
        Some("hl.config({ input = { repeat_rate = 40 } })".to_string())
    );
    assert_eq!(
        input_extra_entry_line(2, "true"),
        Some("hl.config({ input = { numlock_by_default = true } })".to_string())
    );
    assert_eq!(
        input_extra_entry_line(5, "0.5"),
        Some("hl.config({ input = { touchpad = { scroll_factor = 0.5 } } })".to_string())
    );
    assert_eq!(
        input_extra_entry_line(3, "loose \"x\""),
        Some("hl.config({ input = { follow_mouse = \"loose \\\"x\\\"\" } })".to_string())
    );
    assert_eq!(
        input_extra_entry_line(1, "1e3"),
        Some("hl.config({ input = { repeat_delay = 1e3 } })".to_string())
    );
    assert_eq!(
        input_extra_entry_line(1, "inf"),
        Some("hl.config({ input = { repeat_delay = inf } })".to_string())
    );
    assert_eq!(
        input_extra_entry_line(1, "1.2.3"),
        Some("hl.config({ input = { repeat_delay = \"1.2.3\" } })".to_string())
    );
    assert_eq!(
        input_extra_entry_line(42, "True"),
        Some("hl.config({ input = { repeat_rate = \"True\" } })".to_string())
    );
    assert_eq!(input_extra_entry_line(0, "   "), None);
}

#[test]
fn input_lines_read_back() {
    let line = "hl.config({ input = { repeat_rate = 35, repeat_delay = 250, numlock_by_default = true } })";
    assert_eq!(lua_field_value(line, "repeat_delay"), "250");
    assert_eq!(lua_field_value(line, "nothing"), "");
    assert_eq!(lua_field_value("a = \"quoted\" }", "a"), "quoted");
    assert_eq!(
        expand_input_extra_line(line),
        strings(&["repeat_rate = 35", "repeat_delay = 250", "numlock_by_default = true"])
    );
    assert_eq!(parse_input_extra(line), (0, "35".to_string()));
    assert_eq!(
        parse_input_extra("hl.config({ input = { touchpad = { disable_while_typing = false } } })"),
        (6, "false".to_string())
    );
    assert_eq!(parse_input_extra("something else"), (0, String::new()));
}

#[test]
fn gesture_rows() {
    assert_eq!(
        gesture_entry_line(3, 0, 0, ""),
        Some("hl.gesture({ fingers = 3, direction = \"horizontal\", action = \"workspace\" })".to_string())
    );
    assert_eq!(
        gesture_entry_line(4, 4, 1, " u "),
        Some("hl.gesture({ fingers = 4, direction = \"up\", action = \"movefocus\", value = \"u\" })".to_string())
    );
    assert_eq!(gesture_entry_line(3, 0, 4, " hl.something() "), Some("hl.something()".to_string()));
    assert_eq!(gesture_entry_line(3, 0, 4, ""), None);
    assert_eq!(
        gesture_entry_line(5, 77, 77, ""),
        Some("hl.gesture({ fingers = 5, direction = \"horizontal\", action = \"workspace\" })".to_string())
    );
}

#[test]
fn gesture_lines_read_back() {
    assert_eq!(
        extract_between("hl.gesture({ fingers = 3, direction = \"left\" })", "fingers", "3"),
        "3, direction"
    );
    assert_eq!(extract_between("x", "fingers", "3"), "3");
    assert_eq!(extract_between("fingers", "fingers", "3"), "3");
    let r = parse_gesture_line("hl.gesture({ fingers = 4, direction = \"down\", action = \"movewindow\" })");
    assert_eq!(r.fingers, "4, direction");
    assert_eq!(r.direction, 0);
    assert_eq!(r.action, 0);
    assert_eq!(r.value, "");
    let r = parse_gesture_line("hl.dsp.custom()");
    assert_eq!(r.action, 0);
    assert_eq!(r.value, "");
    assert_eq!(r.fingers, "3");
    let r = parse_gesture_line(" hl.foo({ action = \"zzz\" })");
    assert_eq!(r.action, 4);
    assert_eq!(r.value, " hl.foo({ action = \"zzz\" })");
    let r = parse_gesture_line("foo({ action = \"zzz\" })");
    assert_eq!(r.action, 0);
    assert_eq!(r.value, "");
    let r = parse_gesture_line("");
    assert_eq!((r.direction, r.action), (0, 0));
}

#[test]
fn animation_rows_lines() {
    assert_eq!(
        animation_entry_line(0, true, 7, 0, ""),
        "hl.animation({ leaf = \"windows\", enabled = true, speed = 7, bezier = \"default\" })"
    );
    assert_eq!(
        animation_entry_line(5, false, 3, 6, " my\"curve "),
        "hl.animation({ leaf = \"fade\", enabled = false, speed = 3, bezier = \"my\\\"curve\" })"
    );
    assert_eq!(
        animation_entry_line(99, true, 1, 6, "  "),
        "hl.animation({ leaf = \"windows\", enabled = true, speed = 1, bezier = \"default\" })"
    );
    assert_eq!(anim_value("leaf = \"fade\", speed = 3 }", "speed", "7"), "3");
    assert_eq!(anim_value("nothing", "speed", "7"), "7");

    let r = parse_animation_line("hl.animation({ leaf = \"workspaces\", enabled = false, speed = 6, bezier = \"linear\" })");
    assert_eq!(r.leaf, 6);
    assert!(!r.enabled);
    assert_eq!(r.speed, "6");
    assert_eq!(r.bezier, 1);
    assert_eq!(r.custom, "");
    let r = parse_animation_line("hl.animation({ leaf = \"border\", bezier = \"wobbly\" })");
    assert_eq!(r.leaf, 3);
    assert!(r.enabled);
    assert_eq!(r.speed, "7");
    assert_eq!(r.bezier, 6);
    assert_eq!(r.custom, "wobbly");
}

#[test]
fn rows_of_lists() {
    assert_eq!(rows_or_blank(&Vec::new()), strings(&[""]));
    assert_eq!(rows_or_blank(&strings(&["a", "b"])), strings(&["a", "b"]));
    assert_eq!(row_values(&strings(&[" a ", "", "  ", "b"])), strings(&["a", "b"]));
    assert_eq!(animation_rows(&Vec::new()).len(), 2);
    assert_eq!(animation_rows(&strings(&["x"])), strings(&["x"]));
}

#[test]
fn animation_presets() {
    let fast = animation_preset("Fast").unwrap();
    assert_eq!(fast.len(), 3);
    assert_eq!(
        fast[0],
        "hl.animation({ leaf = \"windows\", enabled = true, speed = 10, bezier = \"easeOutQuint\" })"
    );
    assert_eq!(animation_preset("Smooth").unwrap().len(), 3);
    assert!(animation_preset("Snappy").is_some());
    assert_eq!(animation_preset("Slow"), None);
}

#[test]
fn layouts_and_theme_names() {
    assert_eq!(layout_index("master"), 1);
    assert_eq!(layout_index("scrolling"), 2);
    assert_eq!(layout_index("dwindle"), 0);
    assert_eq!(layout_index("weird"), 0);
    for i in 0..4u32 {
        assert_eq!(layout_index(&layout_name(i)), if i < 3 { i } else { 0 });
    }
    assert_eq!(theme_preset_name(2), "Cyberpunk");
    assert_eq!(theme_preset_name(5), "No animations");
    assert_eq!(theme_preset_name(17), "Minimal");
}

#[test]
fn own_window_lookup() {
    let clients = vec![
        (Some("kitty".to_string()), Some("0x1".to_string())),
        (Some("dev.n0t.hyprconfigurator".to_string()), Some("0x2".to_string())),
        (Some("dev.n0t.hyprconfigurator".to_string()), Some("0x3".to_string())),
    ];
    assert_eq!(own_window_address(&clients), Some("0x2".to_string()));
    let clients = vec![(Some("dev.n0t.hyprconfigurator".to_string()), None), (None, Some("0x9".to_string()))];
    assert_eq!(own_window_address(&clients), None);
    assert_eq!(own_window_address(&Vec::new()), None);
    let cmds = float_window_commands("0xabc");
    assert_eq!(
        cmds,
        vec![
            strings(&["dispatch", "setfloating", "address:0xabc"]),
            strings(&["dispatch", "resizewindowpixel", "exact 1280 960,address:0xabc"]),
            strings(&["dispatch", "centerwindow", "address:0xabc"]),
        ]
    );
}

#[test]
fn choice_tables() {
    assert_eq!(table_len(Table::Dispatchers), 13);
    assert_eq!(table_len(Table::MouseButtons), 5);
    assert_eq!(table_len(Table::MouseActions), 4);
    assert_eq!(table_len(Table::InputSettings), 7);
    assert_eq!(table_len(Table::GestureDirections), 6);
    assert_eq!(table_len(Table::GestureActions), 5);
    assert_eq!(table_len(Table::AnimationLeaves), 8);
    assert_eq!(table_len(Table::AnimationBeziers), 7);
    assert_eq!(entry(Table::Dispatchers, 12), "pin");
    assert_eq!(entry(Table::AnimationBeziers, 5), "myBezier");
    assert_eq!(pick_entry(Table::MouseButtons, 9, "mouse:272"), "mouse:272");
    let fade: Vec<char> = "fade".chars().collect();
    assert_eq!(index_in(Table::AnimationLeaves, &fade, 0), 5);
    let none: Vec<char> = "none".chars().collect();
    assert_eq!(index_in(Table::AnimationLeaves, &none, 2), 2);
}

#[test]
fn mouse_bind_round_trip() {
    for (b, a) in [(0usize, 0usize), (4, 3), (2, 1), (8, 6)] {
        let line = mouse_bind_entry_line(false, true, false, true, b, a).unwrap();
        let r = parse_mouse_bind_line(&line);
        assert!(!r.super_key && r.shift && !r.ctrl && r.alt);
        assert_eq!(r.button, if b < 5 { b } else { 0 });
        assert_eq!(r.action, if a < 4 { a } else { 0 });
    }
}

#[test]
fn detected_monitor_rule_text() {
    assert_eq!(
        detected_monitor_line("DP-1", 2560, 1440, 165, -2560, 0, &1.25f64.to_string()),
        "DP-1,2560x1440@165,-2560x0,1.25"
    );
    assert_eq!(
        detected_monitor_line("eDP-1", 1920, 1080, 60, 0, 0, &1.0f64.to_string()),
        "eDP-1,1920x1080@60,0x0,1"
    );
}

#[test]
fn workspace_and_monitor_round_trips() {
    let line = workspace_entry_line(" 7 ", "HDMI-A-1", " games ", true).unwrap();
    let r = parse_workspace_line(&line);
    assert_eq!((r.workspace.as_str(), r.monitor.as_str(), r.name.as_str(), r.persistent), ("7", "HDMI-A-1", "games", true));
    let line = monitor_entry_line(" DP-3 ", " 3840x2160@60 ", "", "1.5", false).unwrap();
    let r = parse_monitor_line(&line);
    assert_eq!(r.output, "DP-3");
    assert!(!r.disabled);
    assert_eq!(r.mode, "3840x2160@60");
    assert_eq!(r.position, "0x0");
    assert_eq!(r.scale, Some("1.5".to_string()));
    let r = parse_monitor_line(&monitor_entry_line("DP-3", "x", "y", "1.0", true).unwrap());
    assert!(r.disabled);
    assert_eq!(r.scale, None);
}

#[test]
fn row_values_are_stable() {
    let texts = strings(&[" a ", "", "b", "   "]);
    let once = row_values(&texts);
    assert_eq!(row_values(&once), once);
    assert_eq!(row_values(&rows_or_blank(&once)), once);
}

#[test]
fn rows_render_as_lua() {
    let k = keybind_entry_line(true, false, false, true, " W ", 3, " 2 ").unwrap();
    assert_eq!(lua_visual_keybinds(&vec![k]), "hl.bind(\"SUPER ALT + W\", hl.dsp.focus({ workspace = 2 }))");
    let k = keybind_entry_line(false, false, false, false, "W", 0, "kitty").unwrap();
    assert_eq!(lua_visual_keybinds(&vec![k]), "");
    let e = env_entry_line(" LANG ", " C ").unwrap();
    assert_eq!(lua_envs(&vec![e]), "hl.env(\"LANG\", \"C\")");
    let e = env_entry_line("EMPTY", "  ").unwrap();
    assert_eq!(lua_envs(&vec![e]), "hl.env(\"EMPTY\", \"\")");
    let m = mouse_bind_entry_line(false, false, true, false, 2, 3).unwrap();
    assert_eq!(lua_mouse_binds(&vec![m]), "hl.bind(\"CTRL + mouse:274\", hl.dsp.fullscreen(), { mouse = true })");
    let w = workspace_entry_line("3", "", " chat ", false).unwrap();
    assert_eq!(
        lua_visual_workspace_rules(&vec![w]),
        "hl.workspace_rule({ workspace = \"3\", name = \"chat\", persistent = false })"
    );
    let mon = monitor_entry_line("DP-1", " ", "1920x0", "1.5  ", false).unwrap();
    assert_eq!(monitor_scale_text(&mon), "1.5");
    assert_eq!(
        lua_monitors(&vec![mon], &vec!["1.5".to_string()]),
        "hl.monitor({ output = \"DP-1\", mode = \"preferred\", position = \"1920x0\", scale = 1.5 })"
    );
    let off = monitor_entry_line("HDMI-A-1", "disabled", "", "2.0", true).unwrap();
    assert_eq!(monitor_scale_text(&off), "1");
    assert_eq!(
        lua_monitors(&vec![off], &vec!["1.0".to_string()]),
        "hl.monitor({ output = \"HDMI-A-1\", disabled = true })"
    );
}

#[test]
fn animation_round_trip() {
    for (leaf, enabled, speed, bezier, custom) in [
        (0usize, true, 7u32, 0usize, ""),
        (6, false, 12, 4, "ignored"),
        (3, true, 1, 6, " wobbly curve "),
        (7, true, 20, 6, "   "),
        (99, false, 3, 99, ""),
    ] {
        let line = animation_entry_line(leaf, enabled, speed, bezier, custom);
        let r = parse_animation_line(&line);
        assert_eq!(r.speed, speed.to_string());
        let again = animation_entry_line(r.leaf, r.enabled, r.speed.parse().unwrap(), r.bezier, &r.custom);
        assert_eq!(again, line);
    }
    let line = animation_entry_line(0, true, 7, 6, "a=b");
    let r = parse_animation_line(&line);
    assert_eq!(r.custom, "a");
}

#[test]
fn input_round_trip() {
    for (setting, value) in [(0usize, " 40 "), (2, "true"), (3, "loose"), (5, "0.5"), (6, "false"), (9, "x y")] {
        let line = input_extra_entry_line(setting, value).unwrap();
        let (idx, read) = parse_input_extra(&line);
        assert_eq!(idx, if setting < 7 { setting } else { 0 });
        assert_eq!(read, value.trim());
    }
    let line = input_extra_entry_line(1, "repeat_rate").unwrap();
    assert_eq!(parse_input_extra(&line).0, 0);
}

#[test]
fn monitor_rule_from_reported_fields() {
    assert_eq!(
        detected_monitor_rule(Some("DP-1"), Some(2560), Some(1440), 165, Some(-2560), Some(0), "1.25"),
        Some("DP-1,2560x1440@165,-2560x0,1.25".to_string())
    );
    assert_eq!(
        detected_monitor_rule(Some("eDP-1"), None, None, 60, None, None, "1"),
        Some("eDP-1,1920x1080@60,0x0,1".to_string())
    );
    assert_eq!(detected_monitor_rule(None, Some(800), Some(600), 60, Some(0), Some(0), "1"), None);
}

#[test]
fn stored_lines_stored_again() {
    for line in ["SUPER|Q|killactive|", "SUPER SHIFT CTRL ALT|Return|exec|kitty --hold", "|F1|workspace|3"] {
        let r = parse_keybind_line(line);
        let again = keybind_entry_line(r.super_key, r.shift, r.ctrl, r.alt, &r.key, r.action, &r.args);
        assert_eq!(again, Some(line.to_string()));
    }
    for line in ["SUPER, mouse:272, movewindow", "SHIFT ALT, mouse:273, resizewindow"] {
        let r = parse_mouse_bind_line(line);
        let again = mouse_bind_entry_line(r.super_key, r.shift, r.ctrl, r.alt, r.button, r.action);
        assert_eq!(again, Some(line.to_string()));
    }
    let (k, v) = parse_env_line("GDK_SCALE,2");
    assert_eq!(env_entry_line(&k, &v), Some("GDK_SCALE,2".to_string()));
    for line in ["3|HDMI-A-1|chat|true", "4|||false"] {
        let r = parse_workspace_line(line);
        let again = workspace_entry_line(&r.workspace, &r.monitor, &r.name, r.persistent);
        assert_eq!(again, Some(line.to_string()));
    }
    for line in ["DP-1,1920x1080@60,0x0,1.5", "HDMI-A-1,disabled"] {
        let r = parse_monitor_line(line);
        let scale = r.scale.clone().unwrap_or_default();
        let again = monitor_entry_line(&r.output, &r.mode, &r.position, &scale, r.disabled);
        assert_eq!(again, Some(line.to_string()));
    }
    for (setting, value) in [(0usize, "35"), (6usize, "false"), (2usize, "us")] {
        let line = input_extra_entry_line(setting, value).unwrap();
        let (s, v) = parse_input_extra(&line);
        assert_eq!(input_extra_entry_line(s, &v), Some(line));
    }
}
