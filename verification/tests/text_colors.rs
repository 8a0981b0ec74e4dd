use hypr_configurator::color::{
    hex_color_channels, hex_color_slices_ok, hex_color_text, hypr_color_channels,
    hypr_color_slices_ok, hypr_color_text,
};
use hypr_configurator::numbers::{
    parses_f64_exec, parses_i64_exec, push_dec, push_dec_i64, push_fixed1, push_fixed2,
};
use hypr_configurator::rules::{merge_rules, sorted_unique, window_float_rules};
use hypr_configurator::text::{
    after_first_exec, join_strings, split_chars, split_once_chars, split_whitespace_exec,
    splitn_chars, trim_chars, trim_str, utf8_len_is, CharClass,
};

fn strings(v: &[&str]) -> Vec<String> {
    v.iter().map(|s| s.to_string()).collect()
}

fn chars(s: &str) -> Vec<char> {
    s.chars().collect()
}

fn text(v: &[char]) -> String {
    v.iter().collect()
}

fn pieces(p: &[Vec<char>]) -> Vec<String> {
    p.iter().map(|x| text(x)).collect()
}

#[test]
fn hypr_colour_text_and_back() {
    assert_eq!(hypr_color_text(153, 153, 153, 170), "rgba(999999aa)");
    assert_eq!(hypr_color_text(0, 15, 255, 1), "rgba(000fff01)");
    assert_eq!(hypr_color_channels("rgba(999999aa)"), Some((0x99, 0x99, 0x99, 0xaa)));
    assert_eq!(hypr_color_channels("rgba(EC4899FF)"), Some((0xec, 0x48, 0x99, 0xff)));
    assert_eq!(hypr_color_channels("rgba(zz9999aa)"), Some((0, 0x99, 0x99, 0xaa)));
    assert_eq!(hypr_color_channels("rgba(+f9999aa)"), Some((15, 0x99, 0x99, 0xaa)));
    assert_eq!(hypr_color_channels("rgba(123)"), None);
    assert_eq!(hypr_color_channels("#999999aa"), None);
    for (r, g, b, a) in [(0u8, 0u8, 0u8, 0u8), (1, 2, 3, 4), (255, 128, 64, 32)] {
        let s = hypr_color_text(r, g, b, a);
        assert_eq!(hypr_color_channels(&s), Some((r, g, b, a)));
    }
}

#[test]
fn hypr_colour_byte_slicing() {
    assert!(hypr_color_slices_ok("rgba(999999aa)"));
    assert!(hypr_color_slices_ok("nonsense"));
    assert!(hypr_color_slices_ok("rgba(é99999a)"));
    assert_eq!(hypr_color_channels("rgba(é99999a)"), Some((0, 0x99, 0x99, 0x9a)));
    assert!(!hypr_color_slices_ok("rgba(9é9999a)"));
}

#[test]
fn hex_colour_text_and_back() {
    assert_eq!(hex_color_text(255, 0, 16), "#FF0010");
    assert_eq!(hex_color_channels(" #ff8000 "), Some((255, 128, 0)));
    assert_eq!(hex_color_channels("##FF8000"), Some((255, 128, 0)));
    assert_eq!(hex_color_channels("ff8000"), Some((255, 128, 0)));
    assert_eq!(hex_color_channels("#ff80"), None);
    assert_eq!(hex_color_channels("#gg8000"), None);
    assert_eq!(hex_color_channels("#-f8000"), None);
    assert_eq!(hex_color_channels("+f+f+f"), Some((15, 15, 15)));
    assert!(hex_color_slices_ok("#é8000"));
    assert_eq!(hex_color_channels("#é8000"), None);
    assert!(!hex_color_slices_ok("#8é000"));
    for (r, g, b) in [(0u8, 0u8, 0u8), (18, 52, 86), (255, 255, 255)] {
        assert_eq!(hex_color_channels(&hex_color_text(r, g, b)), Some((r, g, b)));
    }
}

#[test]
fn decimal_rendering() {
    let mut out = Vec::new();
    push_dec(&mut out, 0);
    push_dec(&mut out, 1234567890);
    assert_eq!(text(&out), "01234567890");
    let mut out = Vec::new();
    push_dec_i64(&mut out, i64::MIN);
    assert_eq!(text(&out), "-9223372036854775808");
    let cases2 = [(0i64, "0.00"), (100, "1.00"), (123, "1.23"), (7, "0.07"), (-5, "-0.05"), (-250, "-2.50")];
    for (h, want) in cases2 {
        let mut out = Vec::new();
        push_fixed2(&mut out, h);
        assert_eq!(text(&out), want);
        assert_eq!(format!("{:.2}", h as f64 / 100.0), want);
    }
    let cases1 = [(0i64, "0.0"), (15, "1.5"), (-5, "-0.5"), (100, "10.0")];
    for (t, want) in cases1 {
        let mut out = Vec::new();
        push_fixed1(&mut out, t);
        assert_eq!(text(&out), want);
        assert_eq!(format!("{:.1}", t as f64 / 10.0), want);
    }
}

#[test]
fn integer_recognizer_matches_std() {
    for s in [
        "0", "42", "-7", "+5", "9223372036854775807", "-9223372036854775808", "9223372036854775808",
        "-9223372036854775809", "", "+", "-", "1_000", " 1", "1 ", "0x10", "00012", "1.0", "٣",
    ] {
        assert_eq!(parses_i64_exec(&chars(s)), s.parse::<i64>().is_ok(), "{s:?}");
    }
}

#[test]
fn float_recognizer_matches_std() {
    for s in [
        "0", "1.5", "-1.5", "+.5", "1.", ".", "", "1e5", "1E-5", "1e", "e5", "inf", "-Infinity",
        "NaN", "nan", "infinity", "INF", "infin", "1.2.3", "0x10", " 1", "1_0", "true", "-", "+",
        "1e+3", ".e1", "5.e2", "--1",
    ] {
        assert_eq!(parses_f64_exec(&chars(s)), s.parse::<f64>().is_ok(), "{s:?}");
    }
}

#[test]
fn float_rules_sorted_and_unique() {
    let classes = strings(&["kitty", "", "  ", "foo(bar)", "kitty", "Alacritty"]);
    assert_eq!(
        window_float_rules(&classes),
        strings(&["float,class:^(Alacritty)$", "float,class:^(foo\\(bar\\))$", "float,class:^(kitty)$"])
    );
    assert!(window_float_rules(&Vec::new()).is_empty());
}

#[test]
fn rule_merge() {
    let existing = strings(&["b", "a", "b"]);
    let detected = strings(&["c", "a"]);
    assert_eq!(merge_rules(&existing, &detected), strings(&["a", "b", "c"]));
    assert_eq!(sorted_unique(&strings(&["é", "z", "Z", "é"])), strings(&["Z", "z", "é"]));
    assert!(merge_rules(&Vec::new(), &Vec::new()).is_empty());
}

#[test]
fn text_helpers() {
    assert_eq!(text(&trim_str("\u{3000} a b \n")), "a b");
    assert_eq!(text(&trim_chars(&chars("##x#"), CharClass::One('#'))), "x");
    assert_eq!(pieces(&split_chars(&chars("a,,b"), CharClass::One(','))), strings(&["a", "", "b"]));
    assert_eq!(pieces(&splitn_chars(&chars("a|b|c|d|e"), 4, '|')), strings(&["a", "b", "c", "d|e"]));
    let (a, b) = split_once_chars(&chars("k=v=w"), '=').unwrap();
    assert_eq!((text(&a), text(&b)), ("k".to_string(), "v=w".to_string()));
    assert!(split_once_chars(&chars("kv"), '=').is_none());
    assert_eq!(pieces(&split_whitespace_exec(&chars("  a \t b  "))), strings(&["a", "b"]));
    assert_eq!(text(&after_first_exec(&chars("xxaxxbxx"), &chars("xx")).unwrap()), "a");
    assert!(after_first_exec(&chars("abc"), &chars("z")).is_none());
    assert_eq!(join_strings(&strings(&["a", "b", "c"]), ", "), "a, b, c");
    assert!(utf8_len_is(&chars("é1"), 3));
    assert!(!utf8_len_is(&chars("é1"), 2));
}

#[test]
fn colour_texts_printed_again() {
    for text in ["rgba(EC4899FF)", "rgba(ec4899ff)", "rgba(00aAbBcC)", "rgba(12345678)"] {
        let (r, g, b, a) = hypr_color_channels(text).unwrap();
        assert_eq!(hypr_color_text(r, g, b, a), text.to_ascii_lowercase());
    }
    for text in ["#ff8000", "#FF8000", "#a1B2c3", "#000000"] {
        let (r, g, b) = hex_color_channels(text).unwrap();
        assert_eq!(hex_color_text(r, g, b), text.to_ascii_uppercase());
    }
}
