use hypr_configurator::clients::{
    client_classes, client_window_rules, detected_window_rules, own_float_commands,
    own_window_float_commands,
};

fn strings(v: &[&str]) -> Vec<String> {
    v.iter().map(|s| s.to_string()).collect()
}

const CLIENTS: &[u8] = br#"[
    {"class": "kitty", "address": "0x1"},
    {"class": "foo(bar)", "address": "0x2"},
    {"title": "no class"},
    {"class": 7},
    {"class": "   "},
    {"class": "kitty", "address": "0x3"}
]"#;

#[test]
fn window_rules_from_hyprctl_output() {
    assert_eq!(
        detected_window_rules(CLIENTS),
        strings(&["float,class:^(foo\\(bar\\))$", "float,class:^(kitty)$"])
    );
}

#[test]
fn window_rules_from_unreadable_output() {
    assert!(detected_window_rules(b"not json").is_empty());
    assert!(detected_window_rules(b"").is_empty());
    assert!(detected_window_rules(br#"{"class": "kitty"}"#).is_empty());
    assert!(detected_window_rules(b"[]").is_empty());
    assert!(client_window_rules(&None).is_empty());
}

#[test]
fn classes_of_a_client_list() {
    let clients = vec![
        (Some("kitty".to_string()), None),
        (None, Some("0x1".to_string())),
        (Some("firefox".to_string()), Some("0x2".to_string())),
    ];
    assert_eq!(client_classes(&clients), strings(&["kitty", "firefox"]));
    assert_eq!(
        client_window_rules(&Some(clients)),
        strings(&["float,class:^(firefox)$", "float,class:^(kitty)$"])
    );
}

#[test]
fn own_window_from_hyprctl_output() {
    let out = br#"[{"class":"kitty","address":"0x1"},
        {"class":"dev.n0t.hyprconfigurator","address":"0xabc"},
        {"class":"dev.n0t.hyprconfigurator","address":"0xdef"}]"#;
    assert_eq!(
        own_window_float_commands(out),
        Some(vec![
            strings(&["dispatch", "setfloating", "address:0xabc"]),
            strings(&["dispatch", "resizewindowpixel", "exact 1280 960,address:0xabc"]),
            strings(&["dispatch", "centerwindow", "address:0xabc"]),
        ])
    );
}

#[test]
fn own_window_missing_from_hyprctl_output() {
    assert_eq!(own_window_float_commands(CLIENTS), None);
    assert_eq!(own_window_float_commands(br#"[{"class":"dev.n0t.hyprconfigurator"}]"#), None);
    assert_eq!(own_window_float_commands(b"{not json"), None);
    assert_eq!(own_window_float_commands(br#"{"address":"0x1"}"#), None);
    assert_eq!(own_float_commands(&None), None);
}
