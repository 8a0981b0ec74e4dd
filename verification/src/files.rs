//! The text side of the files the editor manages: preset file names, the
//! `require` line added to `hyprland.lua`, and the reports it shows.
use vstd::prelude::*;
use crate::text::{
    chars_of, contains, contains_text, extend_str, join, join_strings, string_of, trim_end_by,
    CharClass, is_whitespace,
};

verus! {

broadcast use vstd::string::group_string_axioms;

/// Characters kept in a preset file name: ASCII letters and digits, `-`, `_`.
pub open spec fn name_safe(c: char) -> bool {
    ('a' <= c && c <= 'z') || ('A' <= c && c <= 'Z') || ('0' <= c && c <= '9') || c == '-' || c
        == '_'
}

/// A preset name with every other character replaced by `-`.
pub open spec fn sanitize(name: Seq<char>) -> Seq<char> {
    name.map_values(|c: char| if name_safe(c) { c } else { '-' })
}

/// The file name of a named preset.
pub open spec fn preset_file_of(name: Seq<char>) -> Seq<char> {
    (if sanitize(name).len() == 0 {
        "preset"@
    } else {
        sanitize(name)
    }) + ".json"@
}

/// The file name under which a named preset is stored.
pub fn preset_file_name(name: &str) -> (r: String)
    ensures
        r@ == preset_file_of(name@),
{
    let v = chars_of(name);
    let mut safe: Vec<char> = Vec::new();
    let mut i: usize = 0;
    while i < v.len()
        invariant
            i <= v.len(),
            safe@ =~= sanitize(v@.take(i as int)),
        decreases v.len() - i,
    {
        let c = v[i];
        let keep = ('a' <= c && c <= 'z') || ('A' <= c && c <= 'Z') || ('0' <= c && c <= '9')
            || c == '-' || c == '_';
        safe.push(
            if keep {
                c
            } else {
                '-'
            },
        );
        assert(sanitize(v@.take(i + 1)) =~= sanitize(v@.take(i as int)).push(
            if name_safe(c) {
                c
            } else {
                '-'
            },
        ));
        i = i + 1;
    }
    assert(v@.take(v.len() as int) =~= v@);
    let mut out = if safe.len() == 0 {
        chars_of("preset")
    } else {
        safe
    };
    extend_str(&mut out, ".json");
    string_of(&out)
}

/// The lines appended to `hyprland.lua` so that Hyprland loads the
/// generated file.
pub open spec fn require_lines() -> Seq<char> {
    "\n-- Hypr Configurator\nrequire(\"configurator-settings\")\n"@
}

/// The new `hyprland.lua` text: the old one without trailing blanks, then
/// the `require`; nothing when the file already mentions the generated file.
pub open spec fn injected(content: Seq<char>) -> Option<Seq<char>> {
    if contains(content, "configurator-settings"@) {
        None
    } else {
        Some(trim_end_by(content, CharClass::Whitespace) + require_lines())
    }
}

/// `hyprland.lua` with the `require` of the generated file added, or nothing
/// when it is there already.
pub fn inject_require(content: &str) -> (r: Option<String>)
    ensures
        match r {
            Some(s) => injected(content@) == Some(s@),
            None => injected(content@) is None,
        },
{
    let v = chars_of(content);
    if contains_text(&v, "configurator-settings") {
        return None;
    }
    let mut j: usize = v.len();
    assert(v@.take(j as int) =~= v@);
    while j > 0 && is_whitespace(v[j - 1])
        invariant
            j <= v.len(),
            trim_end_by(v@, CharClass::Whitespace) == trim_end_by(
                v@.take(j as int),
                CharClass::Whitespace,
            ),
        decreases j,
    {
        assert(v@.take(j as int).drop_last() =~= v@.take(j - 1));
        j = j - 1;
    }
    let mut out = crate::text::sub_chars(&v, 0, j);
    assert(out@ =~= v@.take(j as int));
    extend_str(&mut out, "\n-- Hypr Configurator\nrequire(\"configurator-settings\")\n");
    Some(string_of(&out))
}

pub open spec fn found(b: bool) -> Seq<char> {
    if b {
        "found"@
    } else {
        "missing"@
    }
}

pub open spec fn exists_text(b: bool) -> Seq<char> {
    if b {
        "exists"@
    } else {
        "missing"@
    }
}

/// The lines of the health check of the command line.
pub open spec fn cli_health_lines(hyprctl: bool, json: bool, lua: bool, main_lua: bool) -> Seq<
    Seq<char>,
> {
    seq![
        "hyprctl: "@ + found(hyprctl),
        "config.json: "@ + exists_text(json),
        "configurator-settings.lua: "@ + exists_text(lua),
        "hyprland.lua: "@ + exists_text(main_lua),
    ]
}

/// The lines of the health check window.
pub open spec fn health_lines(
    hyprctl: bool,
    xdg_open: bool,
    json: bool,
    lua: bool,
    main_lua: bool,
    require_present: bool,
) -> Seq<Seq<char>> {
    seq![
        "hyprctl: "@ + found(hyprctl),
        "xdg-open: "@ + found(xdg_open),
        "config.json: "@ + exists_text(json),
        "configurator-settings.lua: "@ + exists_text(lua),
        "hyprland.lua: "@ + exists_text(main_lua),
        "require injected: "@ + (if require_present {
            "yes"@
        } else {
            "no"@
        }),
    ]
}

fn labelled(label: &str, value: &str) -> (r: String)
    ensures
        r@ == label@ + value@,
{
    let mut out = chars_of(label);
    extend_str(&mut out, value);
    string_of(&out)
}

fn found_exec(b: bool) -> (r: &'static str)
    ensures
        r@ == found(b),
{
    if b {
        "found"
    } else {
        "missing"
    }
}

fn exists_exec(b: bool) -> (r: &'static str)
    ensures
        r@ == exists_text(b),
{
    if b {
        "exists"
    } else {
        "missing"
    }
}

/// The health check of the command line, one line per check.
pub fn cli_health_report(hyprctl: bool, json: bool, lua: bool, main_lua: bool) -> (r: Vec<String>)
    ensures
        r.deep_view() == cli_health_lines(hyprctl, json, lua, main_lua),
{
    let mut out: Vec<String> = Vec::new();
    out.push(labelled("hyprctl: ", found_exec(hyprctl)));
    out.push(labelled("config.json: ", exists_exec(json)));
    out.push(labelled("configurator-settings.lua: ", exists_exec(lua)));
    out.push(labelled("hyprland.lua: ", exists_exec(main_lua)));
    assert(out.deep_view() =~= cli_health_lines(hyprctl, json, lua, main_lua));
    out
}

/// The text of the health check window.
pub fn health_report(
    hyprctl: bool,
    xdg_open: bool,
    json: bool,
    lua: bool,
    main_lua: bool,
    require_present: bool,
) -> (r: String)
    ensures
        r@ == join(health_lines(hyprctl, xdg_open, json, lua, main_lua, require_present), "\n"@),
{
    let mut out: Vec<String> = Vec::new();
    out.push(labelled("hyprctl: ", found_exec(hyprctl)));
    out.push(labelled("xdg-open: ", found_exec(xdg_open)));
    out.push(labelled("config.json: ", exists_exec(json)));
    out.push(labelled("configurator-settings.lua: ", exists_exec(lua)));
    out.push(labelled("hyprland.lua: ", exists_exec(main_lua)));
    out.push(
        labelled(
            "require injected: ",
            if require_present {
                "yes"
            } else {
                "no"
            },
        ),
    );
    assert(out.deep_view() =~= health_lines(
        hyprctl,
        xdg_open,
        json,
        lua,
        main_lua,
        require_present,
    ));
    join_strings(&out, "\n")
}

/// Whether `hyprland.lua` already loads the generated file.
pub fn require_present(content: &str) -> (r: bool)
    ensures
        r == contains(content@, "configurator-settings"@),
{
    let v = chars_of(content);
    contains_text(&v, "configurator-settings")
}

/// The text shown for a list: its lines, or `empty` when there is none.
pub open spec fn listing(lines: Seq<Seq<char>>, empty: Seq<char>) -> Seq<char> {
    if lines.len() == 0 {
        empty
    } else {
        join(lines, "\n"@)
    }
}

/// The session log window's text.
pub fn logs_text(logs: &Vec<String>) -> (r: String)
    ensures
        r@ == listing(logs.deep_view(), "No logs yet"@),
{
    if logs.len() == 0 {
        String::from_str("No logs yet")
    } else {
        join_strings(logs, "\n")
    }
}

/// The named presets window's text, from the stored presets' names: the
/// names one per line, or a note when that text is empty.
pub fn presets_text(names: &Vec<String>) -> (r: String)
    ensures
        r@ == (if join(names.deep_view(), "\n"@).len() == 0 {
            "No named presets"@
        } else {
            join(names.deep_view(), "\n"@)
        }),
{
    let j = join_strings(names, "\n");
    if j.as_str().is_empty() {
        String::from_str("No named presets")
    } else {
        j
    }
}

} // verus!
