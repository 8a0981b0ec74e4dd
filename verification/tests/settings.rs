use hypr_configurator::config::{
    copy_config, is_old_conf_format, migrate_config, preset_config, retain_new_lines,
    validate_config, Config,
};
use hypr_configurator::files::{
    cli_health_report, health_report, inject_require, logs_text, preset_file_name,
    presets_text, require_present,
};

fn strings(v: &[&str]) -> Vec<String> {
    v.iter().map(|s| s.to_string()).collect()
}

#[test]
fn default_settings_are_valid() {
    assert_eq!(validate_config(&Config::default()), Ok(()));
}

#[test]
fn validation_errors_in_order() {
    let mut c = Config::default();
    c.active_border_color = "rgba(999999a)".to_string();
    c.kb_layout = " ".to_string();
    assert_eq!(validate_config(&c), Err("Active border color is invalid".to_string()));

    let mut c = Config::default();
    c.inactive_border_color = "#000000".to_string();
    assert_eq!(validate_config(&c), Err("Inactive border color is invalid".to_string()));

    let mut c = Config::default();
    c.active_opacity_centi = 101;
    assert_eq!(validate_config(&c), Err("Opacity must be between 0.0 and 1.0".to_string()));
    let mut c = Config::default();
    c.inactive_opacity_centi = -1;
    assert_eq!(validate_config(&c), Err("Opacity must be between 0.0 and 1.0".to_string()));

    let mut c = Config::default();
    c.layout = " \t ".to_string();
    assert_eq!(validate_config(&c), Err("Layout cannot be empty".to_string()));

    let mut c = Config::default();
    c.kb_layout = String::new();
    assert_eq!(validate_config(&c), Err("Keyboard layout cannot be empty".to_string()));
}

#[test]
fn colour_check_counts_bytes() {
    let mut c = Config::default();
    c.active_border_color = "rgba(ffffffff)".to_string();
    assert_eq!(validate_config(&c), Ok(()));
    c.active_border_color = "rgba(é99999a)".to_string();
    assert_eq!(validate_config(&c), Ok(()));
    c.active_border_color = "rgba(é999999a)".to_string();
    assert_eq!(validate_config(&c), Err("Active border color is invalid".to_string()));
    c.active_border_color = "RGBA(999999aa)".to_string();
    assert_eq!(validate_config(&c), Err("Active border color is invalid".to_string()));
}

#[test]
fn opacity_edges_are_valid() {
    let mut c = Config::default();
    c.active_opacity_centi = 0;
    c.inactive_opacity_centi = 100;
    assert_eq!(validate_config(&c), Ok(()));
}

#[test]
fn glass_preset() {
    let base = Config::default();
    let c = preset_config("Glass", &base);
    assert_eq!((c.gaps_in, c.gaps_out, c.border_size, c.rounding), (6, 22, 2, 24));
    assert_eq!((c.active_opacity_centi, c.inactive_opacity_centi), (88, 78));
    assert_eq!((c.blur_enabled, c.blur_size, c.blur_passes, c.shadow_enabled), (true, 8, 3, true));
    assert_eq!(c.animations_enabled, base.animations_enabled);
    assert_eq!(c.active_border_color, base.active_border_color);
    assert_eq!(c.env_vars, base.env_vars);
    assert_eq!(c.layout, base.layout);
}

#[test]
fn cyberpunk_preset_sets_colours() {
    let c = preset_config("Cyberpunk", &Config::default());
    assert_eq!(c.active_border_color, "rgba(ec4899ff)");
    assert_eq!(c.inactive_border_color, "rgba(3b82f688)");
    assert_eq!((c.gaps_in, c.gaps_out, c.border_size, c.rounding), (5, 18, 3, 18));
    assert_eq!(validate_config(&c), Ok(()));
}

#[test]
fn other_presets() {
    let base = Config::default();
    let m = preset_config("Minimal", &base);
    assert_eq!((m.gaps_in, m.gaps_out, m.border_size, m.rounding), (2, 8, 1, 8));
    assert!(!m.blur_enabled && !m.shadow_enabled && !m.animations_enabled);
    let mac = preset_config("Mac-like", &base);
    assert_eq!((mac.gaps_in, mac.gaps_out, mac.border_size, mac.rounding), (8, 24, 1, 16));
    let mut glassy = copy_config(&base);
    glassy.active_opacity_centi = 50;
    let p = preset_config("Performance", &glassy);
    assert_eq!((p.gaps_in, p.gaps_out, p.border_size, p.rounding), (3, 8, 1, 4));
    assert_eq!((p.active_opacity_centi, p.inactive_opacity_centi), (100, 100));
    let n = preset_config("No animations", &base);
    assert!(!n.animations_enabled);
    assert_eq!(n.gaps_in, base.gaps_in);
    let u = preset_config("Unknown", &glassy);
    assert_eq!(u.active_opacity_centi, 50);
    assert_eq!(u.gaps_in, base.gaps_in);
}

#[test]
fn preset_twice_is_preset_once() {
    for name in ["Minimal", "Glass", "Cyberpunk", "Mac-like", "Performance", "No animations"] {
        let once = preset_config(name, &Config::default());
        let twice = preset_config(name, &once);
        assert_eq!(once.gaps_in, twice.gaps_in);
        assert_eq!(once.gaps_out, twice.gaps_out);
        assert_eq!(once.rounding, twice.rounding);
        assert_eq!(once.active_opacity_centi, twice.active_opacity_centi);
        assert_eq!(once.active_border_color, twice.active_border_color);
        assert_eq!(once.animations_enabled, twice.animations_enabled);
        assert_eq!(validate_config(&twice), Ok(()));
    }
}

#[test]
fn old_format_lines() {
    for l in [
        "float,class:^(kitty)$",
        "  center,title:x",
        "size 800 600,class:x",
        "opacity 0.9,class:x",
        "workspace 2,class:x",
        "bind = SUPER, Q, killactive",
        "bindm = SUPER, mouse:272, movewindow",
        "exec-once = waybar",
        "monitor=DP-1,preferred,auto,1",
        "windowrulev2 = float,class:x",
        "gaps_in = 5",
    ] {
        assert!(is_old_conf_format(l), "{l}");
    }
    for l in [
        "hl.config({ input = { repeat_rate = 35 } })",
        "-- a = b",
        "hl.animation({ leaf = \"windows\" })",
        "",
        "floating",
        "x=y",
    ] {
        assert!(!is_old_conf_format(l), "{l}");
    }
}

#[test]
fn retain_drops_old_lines_in_order() {
    let v = strings(&["bind = a", "hl.bind(\"SUPER + Q\", hl.dsp.exit())", "x = 1", "-- note", ""]);
    assert_eq!(
        retain_new_lines(&v),
        strings(&["hl.bind(\"SUPER + Q\", hl.dsp.exit())", "-- note", ""])
    );
}

#[test]
fn migration_cleans_raw_lists_only() {
    let mut c = Config::default();
    c.window_rules = strings(&["windowrulev2 = float,class:x", "hl.window_rule({ name = \"a\" })"]);
    c.keybinds = strings(&["bind = SUPER, Q, exit"]);
    c.custom_lines = strings(&["-- keep me", "exec-once = foo"]);
    c.exec_commands = strings(&["exec something"]);
    let m = migrate_config(c);
    assert_eq!(m.window_rules, strings(&["hl.window_rule({ name = \"a\" })"]));
    assert!(m.keybinds.is_empty());
    assert_eq!(m.custom_lines, strings(&["-- keep me"]));
    assert_eq!(m.exec_commands, strings(&["exec something"]));
    assert_eq!(m.animation_lines.len(), 2);
    assert_eq!(m.input_extra_lines.len(), 1);
    let again = migrate_config(copy_config(&m));
    assert_eq!(again.window_rules, m.window_rules);
    assert_eq!(again.custom_lines, m.custom_lines);
    assert_eq!(retain_new_lines(&retain_new_lines(&strings(&["a = b", "ok"]))), strings(&["ok"]));
}

#[test]
fn preset_file_names_are_sanitized() {
    assert_eq!(preset_file_name("my preset!"), "my-preset-.json");
    assert_eq!(preset_file_name("ok_Name-1"), "ok_Name-1.json");
    assert_eq!(preset_file_name(""), "preset.json");
    assert_eq!(preset_file_name("../x"), "---x.json");
    assert_eq!(preset_file_name("é"), "-.json");
    assert_eq!(preset_file_name(&preset_file_name("a b").replace(".json", "")), "a-b.json");
}

#[test]
fn require_is_injected_once() {
    let first = inject_require("-- my config\n\n\n").unwrap();
    assert_eq!(first, "-- my config\n-- Hypr Configurator\nrequire(\"configurator-settings\")\n");
    assert_eq!(inject_require(&first), None);
    assert!(require_present(&first));
    assert!(!require_present("-- nothing"));
    assert_eq!(
        inject_require("").unwrap(),
        "\n-- Hypr Configurator\nrequire(\"configurator-settings\")\n"
    );
    assert_eq!(inject_require("require('configurator-settings.lua')"), None);
}

#[test]
fn health_reports() {
    assert_eq!(
        cli_health_report(true, false, true, false),
        strings(&[
            "hyprctl: found",
            "config.json: missing",
            "configurator-settings.lua: exists",
            "hyprland.lua: missing",
        ])
    );
    assert_eq!(
        health_report(false, true, true, true, true, false),
        "hyprctl: missing\nxdg-open: found\nconfig.json: exists\nconfigurator-settings.lua: exists\nhyprland.lua: exists\nrequire injected: no"
    );
}

#[test]
fn listings() {
    assert_eq!(logs_text(&Vec::new()), "No logs yet");
    assert_eq!(logs_text(&strings(&["a", "b"])), "a\nb");
    assert_eq!(presets_text(&Vec::new()), "No named presets");
    assert_eq!(presets_text(&strings(&["one"])), "one");
    assert_eq!(presets_text(&strings(&[""])), "No named presets");
    assert_eq!(presets_text(&strings(&["", ""])), "\n");
}
