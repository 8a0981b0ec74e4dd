//! Properties that hold across the library's functions.
use vstd::prelude::*;
use crate::dispatch::escape;
use crate::entries::{
    env_fields, env_row, monitor_fields, monitor_row, workspace_fields_of, workspace_row,
    MonitorRow, WorkspaceRow,
};
use crate::luafile::{bool_lua, header, lua_file};
use crate::config::{
    config_error, is_default, is_hypr_color, is_old_format, keep_new, look_of, preset_colors,
    preset_look, same_rest, Config, Look,
};
use crate::files::{injected, name_safe, preset_file_of, require_lines, sanitize};
use crate::rows::{layout_at, layout_position, layouts};
use crate::blocks::{block_lines, LineKind};
use crate::text::{
    in_class, lemma_join_split, lemma_replace_append, lemma_split_concat, lemma_split_free,
    lemma_trim_idem, replace_char, split, trim, CharClass, contains, occurs_at, trim_end_by,
    trim_start_by, utf8_len, is_ws,
};

verus! {

broadcast use vstd::string::group_string_axioms;

/// Reading a double-quoted Lua string body: a backslash takes the next
/// character as it is.
pub open spec fn unescape(s: Seq<char>) -> Seq<char>
    decreases s.len(),
{
    if s.len() == 0 {
        Seq::empty()
    } else if s[0] == '\\' && s.len() >= 2 {
        seq![s[1]] + unescape(s.skip(2))
    } else {
        seq![s[0]] + unescape(s.drop_first())
    }
}

/// The escape of one character.
pub open spec fn escape_one(c: char) -> Seq<char> {
    if c == '\\' {
        seq!['\\', '\\']
    } else if c == '"' {
        seq!['\\', '"']
    } else {
        seq![c]
    }
}

proof fn lemma_replace_single(c: char, x: char, r: Seq<char>)
    ensures
        replace_char(seq![c], x, r) == (if c == x {
            r
        } else {
            seq![c]
        }),
{
    let s = seq![c];
    assert(s.drop_last() =~= Seq::<char>::empty());
    assert(replace_char(s.drop_last(), x, r) == Seq::<char>::empty());
    assert(s.last() == c);
    assert(Seq::<char>::empty() + r =~= r);
    assert(Seq::<char>::empty() + seq![c] =~= seq![c]);
}

proof fn lemma_escape_single(c: char)
    ensures
        escape(seq![c]) == escape_one(c),
{
    lemma_replace_single(c, '\\', seq!['\\', '\\']);
    if c == '\\' {
        let t = seq!['\\', '\\'];
        assert(t =~= seq!['\\'] + seq!['\\']);
        lemma_replace_append(seq!['\\'], seq!['\\'], '"', seq!['\\', '"']);
        lemma_replace_single('\\', '"', seq!['\\', '"']);
        assert(seq!['\\'] + seq!['\\'] =~= t);
    } else {
        lemma_replace_single(c, '"', seq!['\\', '"']);
    }
}

proof fn lemma_escape_front(s: Seq<char>)
    requires
        s.len() > 0,
    ensures
        escape(s) == escape_one(s[0]) + escape(s.drop_first()),
{
    let h = seq![s[0]];
    let t = s.drop_first();
    assert(s =~= h + t);
    lemma_replace_append(h, t, '\\', seq!['\\', '\\']);
    lemma_replace_append(
        replace_char(h, '\\', seq!['\\', '\\']),
        replace_char(t, '\\', seq!['\\', '\\']),
        '"',
        seq!['\\', '"'],
    );
    lemma_escape_single(s[0]);
}

/// A Lua string body made by `lua_string` reads back as the text it was made
/// from.
pub proof fn law_escape_round_trip(s: Seq<char>)
    ensures
        unescape(escape(s)) == s,
    decreases s.len(),
{
    if s.len() == 0 {
        assert(escape(s) =~= Seq::<char>::empty());
    } else {
        lemma_escape_front(s);
        law_escape_round_trip(s.drop_first());
        let e = escape(s);
        let rest = escape(s.drop_first());
        let c = s[0];
        if c == '\\' || c == '"' {
            assert(e[0] == '\\');
            assert(e.skip(2) =~= rest);
            assert(e[1] == c);
        } else {
            assert(e[0] == c);
            assert(e.drop_first() =~= rest);
        }
        assert(s =~= seq![c] + s.drop_first());
    }
}

proof fn lemma_no_cut(s: Seq<char>, c: char)
    requires
        !s.contains(c),
    ensures
        forall|j: int| 0 <= j < s.len() ==> !in_class(CharClass::One(c), #[trigger] s[j]),
{
    assert forall|j: int| 0 <= j < s.len() implies !in_class(CharClass::One(c), #[trigger] s[j]) by {
        if s[j] == c {
            assert(s.contains(c));
        }
    }
}

/// An environment row shows again the key and value it stored, when the key
/// holds no comma.
pub proof fn law_env_row_round_trip(key: Seq<char>, value: Seq<char>)
    requires
        trim(key).len() > 0,
        !trim(key).contains(','),
    ensures
        env_fields(env_row(key, value)->0) == (trim(key), trim(value)),
{
    let k = trim(key);
    let v = trim(value);
    let line = k + seq![','] + v;
    lemma_no_cut(k, ',');
    lemma_split_concat(k, ',', v, CharClass::One(','));
    let p = split(line, ',');
    assert(p.skip(1) =~= split(v, ','));
    lemma_join_split(v, ',');
    lemma_crate_split_nonempty(v);
    lemma_trim_idem(key, CharClass::Whitespace);
    lemma_trim_idem(value, CharClass::Whitespace);
}

proof fn lemma_crate_split_nonempty(v: Seq<char>)
    ensures
        split(v, ',').len() >= 1,
{
    crate::text::lemma_split_nonempty(v, CharClass::One(','));
}

/// A workspace row shows again the fields it stored, when they hold no `|`.
pub proof fn law_workspace_row_round_trip(
    ws: Seq<char>,
    monitor: Seq<char>,
    name: Seq<char>,
    persistent: bool,
    r: WorkspaceRow,
)
    requires
        trim(ws).len() > 0,
        !trim(ws).contains('|'),
        !trim(monitor).contains('|'),
        !trim(name).contains('|'),
        workspace_fields_of(workspace_row(ws, monitor, name, persistent)->0, r),
    ensures
        r.workspace@ == trim(ws),
        r.monitor@ == trim(monitor),
        r.name@ == trim(name),
        r.persistent == persistent,
{
    let a = trim(ws);
    let b = trim(monitor);
    let c = trim(name);
    let d = bool_lua(persistent);
    reveal_strlit("true");
    reveal_strlit("false");
    reveal_strlit("1");
    let k = CharClass::One('|');
    lemma_no_cut(a, '|');
    lemma_no_cut(b, '|');
    lemma_no_cut(c, '|');
    assert(forall|j: int| 0 <= j < d.len() ==> !in_class(k, #[trigger] d[j]));
    lemma_split_free(d, k);
    lemma_split_concat(c, '|', d, k);
    lemma_split_concat(b, '|', c + seq!['|'] + d, k);
    lemma_split_concat(a, '|', b + seq!['|'] + c + seq!['|'] + d, k);
    let line = a + seq!['|'] + b + seq!['|'] + c + seq!['|'] + d;
    assert(line =~= a + seq!['|'] + (b + seq!['|'] + (c + seq!['|'] + d)));
    assert(b + seq!['|'] + (c + seq!['|'] + d) =~= b + seq!['|'] + c + seq!['|'] + d);
    let p = split(line, '|');
    assert(p =~= seq![a, b, c, d]);
    lemma_trim_idem(ws, CharClass::Whitespace);
    lemma_trim_idem(monitor, CharClass::Whitespace);
    lemma_trim_idem(name, CharClass::Whitespace);
    assert(trim(d) == d);
}

/// A stored environment line, read back into a row, is stored again as the
/// same line: for a trimmed key without a comma and a trimmed value.
pub proof fn law_env_line_round_trip(key: Seq<char>, value: Seq<char>)
    requires
        key.len() > 0,
        trim(key) == key,
        !key.contains(','),
        trim(value) == value,
    ensures
        env_row(env_fields(key + seq![','] + value).0, env_fields(key + seq![','] + value).1)
            == Some(key + seq![','] + value),
{
    law_env_row_round_trip(key, value);
}

/// A stored workspace line, read back into a row, is stored again as the
/// same line: for trimmed fields without `|`, a workspace that is not empty
/// and the persistence written as `true` or `false`.
pub proof fn law_workspace_line_round_trip(
    ws: Seq<char>,
    monitor: Seq<char>,
    name: Seq<char>,
    persistent: bool,
    r: WorkspaceRow,
)
    requires
        ws.len() > 0,
        trim(ws) == ws,
        trim(monitor) == monitor,
        trim(name) == name,
        !ws.contains('|'),
        !monitor.contains('|'),
        !name.contains('|'),
        workspace_fields_of(
            ws + seq!['|'] + monitor + seq!['|'] + name + seq!['|'] + bool_lua(persistent),
            r,
        ),
    ensures
        workspace_row(r.workspace@, r.monitor@, r.name@, r.persistent) == Some(
            ws + seq!['|'] + monitor + seq!['|'] + name + seq!['|'] + bool_lua(persistent),
        ),
{
    law_workspace_row_round_trip(ws, monitor, name, persistent, r);
    lemma_trim_idem(r.workspace@, CharClass::Whitespace);
    lemma_trim_idem(r.monitor@, CharClass::Whitespace);
    lemma_trim_idem(r.name@, CharClass::Whitespace);
}

/// A stored monitor line, read back into a row, is stored again as the same
/// line when the row hands back the scale text it shows: for trimmed fields
/// without a comma, an output, mode and position that are not empty, and a
/// mode that is not `disabled`.
pub proof fn law_monitor_line_round_trip(
    output: Seq<char>,
    mode: Seq<char>,
    position: Seq<char>,
    scale: Seq<char>,
    disabled: bool,
    r: MonitorRow,
)
    requires
        output.len() > 0,
        trim(output) == output,
        !output.contains(','),
        !disabled ==> mode.len() > 0 && trim(mode) == mode && !mode.contains(',') && mode
            != "disabled"@,
        !disabled ==> position.len() > 0 && trim(position) == position && !position.contains(','),
        !disabled ==> trim(scale) == scale && !scale.contains(','),
        monitor_fields(
            (if disabled {
                output + ",disabled"@
            } else {
                output + seq![','] + mode + seq![','] + position + seq![','] + scale
            }),
            r,
        ),
    ensures
        monitor_row(
            r.output@,
            r.mode@,
            r.position@,
            (if r.scale is Some {
                r.scale->0@
            } else {
                Seq::empty()
            }),
            r.disabled,
        ) == Some(
            (if disabled {
                output + ",disabled"@
            } else {
                output + seq![','] + mode + seq![','] + position + seq![','] + scale
            }),
        ),
{
    assert(monitor_row(output, mode, position, scale, disabled) == Some(
        (if disabled {
            output + ",disabled"@
        } else {
            output + seq![','] + mode + seq![','] + position + seq![','] + scale
        }),
    ));
    law_monitor_row_round_trip(output, mode, position, scale, disabled, r);
    lemma_trim_idem(r.output@, CharClass::Whitespace);
    if !disabled {
        lemma_trim_idem(r.mode@, CharClass::Whitespace);
        lemma_trim_idem(r.position@, CharClass::Whitespace);
    }
}

proof fn lemma_utf8_len_ascii(s: Seq<char>)
    requires
        forall|i: int| 0 <= i < s.len() ==> ((#[trigger] s[i]) as u32) < 0x80,
    ensures
        utf8_len(s) == s.len(),
    decreases s.len(),
{
    if s.len() > 0 {
        assert(forall|i: int| 0 <= i < s.drop_last().len() ==> s.drop_last()[i] == s[i]);
        lemma_utf8_len_ascii(s.drop_last());
        assert((s.last() as u32) < 0x80);
    }
}

proof fn lemma_trim_nonempty(s: Seq<char>)
    requires
        s.len() > 0,
        !is_ws(s[0]),
    ensures
        trim(s).len() > 0,
{
    assert(trim_start_by(s, CharClass::Whitespace) == s);
    crate::text::lemma_trim_end_first_kept(s, CharClass::Whitespace);
}

proof fn lemma_color_literal(s: &str)
    requires
        s@.len() == 14,
        s@.take(5) == "rgba("@,
        s@[13] == ')',
        forall|i: int| 0 <= i < 14 ==> ((#[trigger] s@[i]) as u32) < 0x80,
    ensures
        is_hypr_color(s@),
{
    reveal_strlit(")");
    reveal_strlit("rgba(");
    lemma_utf8_len_ascii(s@);
    assert(s@.skip(13) =~= ")"@);
}

/// The settings of a fresh editor pass the save check.
pub proof fn law_default_config_valid(c: Config)
    requires
        is_default(c),
    ensures
        config_error(c) is None,
{
    reveal_strlit("rgba(999999aa)");
    reveal_strlit("rgba(000000aa)");
    reveal_strlit("rgba(");
    reveal_strlit("dwindle");
    reveal_strlit("us");
    assert("rgba(999999aa)"@.take(5) =~= "rgba("@);
    lemma_color_literal("rgba(999999aa)");
    assert("rgba(000000aa)"@.take(5) =~= "rgba("@);
    lemma_color_literal("rgba(000000aa)");
    lemma_trim_nonempty("dwindle"@);
    lemma_trim_nonempty("us"@);
}

/// A theme preset applied to settings that pass the save check gives
/// settings that pass it too.
pub proof fn law_preset_keeps_valid(name: Seq<char>, c: Config, r: Config)
    requires
        config_error(c) is None,
        look_of(r) == preset_look(name, look_of(c)),
        preset_colors(name, c, r),
        same_rest(c, r),
    ensures
        config_error(r) is None,
{
    reveal_strlit("rgba(ec4899ff)");
    reveal_strlit("rgba(3b82f688)");
    reveal_strlit("rgba(");
    if name == "Cyberpunk"@ {
        assert("rgba(ec4899ff)"@.take(5) =~= "rgba("@);
    lemma_color_literal("rgba(ec4899ff)");
        assert("rgba(3b82f688)"@.take(5) =~= "rgba("@);
    lemma_color_literal("rgba(3b82f688)");
    }
}

/// What each theme preset does to the look, whatever the look was before:
/// the values it chooses, and every other part of the look kept. Minimal and
/// Performance turn blur, shadow and animations off, Glass, Cyberpunk and
/// Mac-like turn blur and shadow on, No animations only turns animations off,
/// and an unknown name changes nothing.
pub proof fn law_preset_effects(name: Seq<char>, l: Look)
    ensures
        preset_look("Minimal"@, l).gaps_in == 2 &&
            preset_look("Minimal"@, l).gaps_out == 8 &&
            preset_look("Minimal"@, l).border_size == 1 &&
            preset_look("Minimal"@, l).rounding == 8 &&
            preset_look("Minimal"@, l).active_opacity_centi == l.active_opacity_centi &&
            preset_look("Minimal"@, l).inactive_opacity_centi == l.inactive_opacity_centi &&
            preset_look("Minimal"@, l).blur_enabled == false &&
            preset_look("Minimal"@, l).blur_size == l.blur_size &&
            preset_look("Minimal"@, l).blur_passes == l.blur_passes &&
            preset_look("Minimal"@, l).shadow_enabled == false &&
            preset_look("Minimal"@, l).animations_enabled == false,
        preset_look("Glass"@, l).gaps_in == 6 &&
            preset_look("Glass"@, l).gaps_out == 22 &&
            preset_look("Glass"@, l).border_size == 2 &&
            preset_look("Glass"@, l).rounding == 24 &&
            preset_look("Glass"@, l).active_opacity_centi == 88 &&
            preset_look("Glass"@, l).inactive_opacity_centi == 78 &&
            preset_look("Glass"@, l).blur_enabled == true &&
            preset_look("Glass"@, l).blur_size == 8 &&
            preset_look("Glass"@, l).blur_passes == 3 &&
            preset_look("Glass"@, l).shadow_enabled == true &&
            preset_look("Glass"@, l).animations_enabled == l.animations_enabled,
        preset_look("Cyberpunk"@, l).gaps_in == 5 &&
            preset_look("Cyberpunk"@, l).gaps_out == 18 &&
            preset_look("Cyberpunk"@, l).border_size == 3 &&
            preset_look("Cyberpunk"@, l).rounding == 18 &&
            preset_look("Cyberpunk"@, l).active_opacity_centi == l.active_opacity_centi &&
            preset_look("Cyberpunk"@, l).inactive_opacity_centi == l.inactive_opacity_centi &&
            preset_look("Cyberpunk"@, l).blur_enabled == true &&
            preset_look("Cyberpunk"@, l).blur_size == l.blur_size &&
            preset_look("Cyberpunk"@, l).blur_passes == l.blur_passes &&
            preset_look("Cyberpunk"@, l).shadow_enabled == true &&
            preset_look("Cyberpunk"@, l).animations_enabled == true,
        preset_look("Mac-like"@, l).gaps_in == 8 &&
            preset_look("Mac-like"@, l).gaps_out == 24 &&
            preset_look("Mac-like"@, l).border_size == 1 &&
            preset_look("Mac-like"@, l).rounding == 16 &&
            preset_look("Mac-like"@, l).active_opacity_centi == l.active_opacity_centi &&
            preset_look("Mac-like"@, l).inactive_opacity_centi == l.inactive_opacity_centi &&
            preset_look("Mac-like"@, l).blur_enabled == true &&
            preset_look("Mac-like"@, l).blur_size == l.blur_size &&
            preset_look("Mac-like"@, l).blur_passes == l.blur_passes &&
            preset_look("Mac-like"@, l).shadow_enabled == true &&
            preset_look("Mac-like"@, l).animations_enabled == true,
        preset_look("Performance"@, l).gaps_in == 3 &&
            preset_look("Performance"@, l).gaps_out == 8 &&
            preset_look("Performance"@, l).border_size == 1 &&
            preset_look("Performance"@, l).rounding == 4 &&
            preset_look("Performance"@, l).active_opacity_centi == 100 &&
            preset_look("Performance"@, l).inactive_opacity_centi == 100 &&
            preset_look("Performance"@, l).blur_enabled == false &&
            preset_look("Performance"@, l).blur_size == l.blur_size &&
            preset_look("Performance"@, l).blur_passes == l.blur_passes &&
            preset_look("Performance"@, l).shadow_enabled == false &&
            preset_look("Performance"@, l).animations_enabled == false,
        preset_look("No animations"@, l).gaps_in == l.gaps_in &&
            preset_look("No animations"@, l).gaps_out == l.gaps_out &&
            preset_look("No animations"@, l).border_size == l.border_size &&
            preset_look("No animations"@, l).rounding == l.rounding &&
            preset_look("No animations"@, l).active_opacity_centi == l.active_opacity_centi &&
            preset_look("No animations"@, l).inactive_opacity_centi == l.inactive_opacity_centi &&
            preset_look("No animations"@, l).blur_enabled == l.blur_enabled &&
            preset_look("No animations"@, l).blur_size == l.blur_size &&
            preset_look("No animations"@, l).blur_passes == l.blur_passes &&
            preset_look("No animations"@, l).shadow_enabled == l.shadow_enabled &&
            preset_look("No animations"@, l).animations_enabled == false,
        !(name == "Minimal"@ || name == "Glass"@ || name == "Cyberpunk"@ || name == "Mac-like"@
            || name == "Performance"@ || name == "No animations"@) ==> preset_look(name, l) == l,
{
    reveal_strlit("Minimal");
    reveal_strlit("Glass");
    reveal_strlit("Cyberpunk");
    reveal_strlit("Mac-like");
    reveal_strlit("Performance");
    reveal_strlit("No animations");
    assert("Minimal"@.len() != "Glass"@.len());
    assert("Minimal"@.len() != "Cyberpunk"@.len());
    assert("Minimal"@.len() != "Mac-like"@.len());
    assert("Minimal"@.len() != "Performance"@.len());
    assert("Minimal"@.len() != "No animations"@.len());
    assert("Glass"@.len() != "Cyberpunk"@.len());
    assert("Glass"@.len() != "Mac-like"@.len());
    assert("Glass"@.len() != "Performance"@.len());
    assert("Glass"@.len() != "No animations"@.len());
    assert("Cyberpunk"@.len() != "Mac-like"@.len());
    assert("Cyberpunk"@.len() != "Performance"@.len());
    assert("Cyberpunk"@.len() != "No animations"@.len());
    assert("Mac-like"@.len() != "Performance"@.len());
    assert("Mac-like"@.len() != "No animations"@.len());
    assert("Performance"@.len() != "No animations"@.len());
}

/// The border colours after a theme preset: Cyberpunk makes the active
/// border pink (`rgba(ec4899ff)`) and the inactive one blue
/// (`rgba(3b82f688)`); every other preset keeps both colours.
pub proof fn law_preset_border_colors(name: Seq<char>, c: Config, r: Config)
    requires
        preset_colors(name, c, r),
    ensures
        name == "Cyberpunk"@ ==> r.active_border_color@ == "rgba(ec4899ff)"@
            && r.inactive_border_color@ == "rgba(3b82f688)"@,
        name != "Cyberpunk"@ ==> r.active_border_color@ == c.active_border_color@
            && r.inactive_border_color@ == c.inactive_border_color@,
{
}

/// Applying the same theme preset twice is applying it once.
pub proof fn law_preset_idempotent(name: Seq<char>, l: Look)
    ensures
        preset_look(name, preset_look(name, l)) == preset_look(name, l),
{
}

/// After the clean-up of stored lines no line of the older syntax is left,
/// and cleaning again changes nothing.
pub proof fn law_migration_clean(lines: Seq<Seq<char>>)
    ensures
        forall|i: int| 0 <= i < keep_new(lines).len() ==> !is_old_format(#[trigger] keep_new(lines)[i]),
        keep_new(keep_new(lines)) == keep_new(lines),
    decreases lines.len(),
{
    if lines.len() > 0 {
        law_migration_clean(lines.drop_last());
        let r = keep_new(lines.drop_last());
        if !is_old_format(lines.last()) {
            assert(r.push(lines.last()).drop_last() =~= r);
        }
    }
}

/// Adding the `require` to `hyprland.lua` keeps its text in front and
/// happens once: the new text already loads the generated file.
pub proof fn law_inject_once(content: Seq<char>)
    ensures
        match injected(content) {
            Some(t) => {
                &&& injected(t) is None
                &&& t.take(trim_end_by(content, CharClass::Whitespace).len() as int) == trim_end_by(
                    content,
                    CharClass::Whitespace,
                )
            },
            None => contains(content, "configurator-settings"@),
        },
{
    reveal_strlit("\n-- Hypr Configurator\nrequire(\"configurator-settings\")\n");
    reveal_strlit("configurator-settings");
    if let Some(t) = injected(content) {
        let x = trim_end_by(content, CharClass::Whitespace);
        let pat = "configurator-settings"@;
        let req = require_lines();
        assert(t =~= x + req);
        assert(req.subrange(31, 52) =~= pat);
        assert(t.subrange(x.len() + 31int, x.len() + 52int) =~= req.subrange(31, 52));
        assert(occurs_at(t, pat, x.len() + 31int));
        assert(t.take(x.len() as int) =~= x);
    }
}

/// The layout selector shows the stored layout and stores the layout shown.
pub proof fn law_layout_round_trip(i: u32, name: Seq<char>)
    ensures
        i < 3 ==> layout_position(layout_at(i)) == i,
        layouts().contains(name) ==> layout_at(layout_position(name)) == name,
{
    reveal_strlit("dwindle");
    reveal_strlit("master");
    reveal_strlit("scrolling");
    assert("dwindle"@.len() == 7 && "master"@.len() == 6 && "scrolling"@.len() == 9);
    if layouts().contains(name) {
        let k = choose|k: int| 0 <= k < 3 && layouts()[k] == name;
        assert(k == 0 || k == 1 || k == 2);
    }
}

/// A preset's file name is `.json` after a non-empty name of safe characters;
/// a name made of safe characters is kept as it is, and sanitizing twice is
/// sanitizing once.
pub proof fn law_preset_file_safe(name: Seq<char>)
    ensures
        preset_file_of(name).len() > 5,
        preset_file_of(name).skip(preset_file_of(name).len() - 5) == ".json"@,
        forall|i: int|
            0 <= i < preset_file_of(name).len() - 5 ==> name_safe(#[trigger] preset_file_of(name)[i]),
        (forall|i: int| 0 <= i < name.len() ==> name_safe(#[trigger] name[i])) ==> sanitize(name)
            == name,
        sanitize(sanitize(name)) == sanitize(name),
{
    reveal_strlit(".json");
    reveal_strlit("preset");
    let stem = if sanitize(name).len() == 0 {
        "preset"@
    } else {
        sanitize(name)
    };
    let f = preset_file_of(name);
    assert(f =~= stem + ".json"@);
    assert(f.skip(f.len() - 5) =~= ".json"@);
    assert forall|i: int| 0 <= i < f.len() - 5 implies name_safe(#[trigger] f[i]) by {
        assert(f[i] == stem[i]);
    }
    assert(sanitize(sanitize(name)) =~= sanitize(name));
    if forall|i: int| 0 <= i < name.len() ==> name_safe(#[trigger] name[i]) {
        assert(sanitize(name) =~= name);
    }
}

/// Reading the rows of a text list that were filled from its stored lines
/// gives the same lines again.
pub proof fn law_row_values_stable(texts: Seq<Seq<char>>)
    ensures
        block_lines(LineKind::Raw, block_lines(LineKind::Raw, texts, Seq::empty()), Seq::empty())
            == block_lines(LineKind::Raw, texts, Seq::empty()),
    decreases texts.len(),
{
    if texts.len() > 0 {
        law_row_values_stable(texts.drop_last());
        let r = block_lines(LineKind::Raw, texts.drop_last(), Seq::empty());
        let l = texts.last();
        if trim(l).len() > 0 {
            lemma_trim_idem(l, CharClass::Whitespace);
            let q = r.push(trim(l));
            assert(q.drop_last() =~= r);
        }
    }
}

/// Every generated Lua file starts with the line that marks it as generated.
pub proof fn law_generated_header(c: Config, scales: Seq<Seq<char>>)
    ensures
        lua_file(c, scales).take(header().len() as int) == header(),
{
    let f = lua_file(c, scales);
    assert(f.take(header().len() as int) =~= header());
}

/// A monitor row shows again the fields it stored; for a monitor that is not
/// disabled, when its fields hold no comma and its mode is not `disabled`.
pub proof fn law_monitor_row_round_trip(
    output: Seq<char>,
    mode: Seq<char>,
    position: Seq<char>,
    scale: Seq<char>,
    disabled: bool,
    r: MonitorRow,
)
    requires
        trim(output).len() > 0,
        !trim(output).contains(','),
        !disabled ==> !trim(mode).contains(','),
        !disabled ==> !trim(position).contains(','),
        !disabled ==> !scale.contains(','),
        !disabled ==> trim(mode) != "disabled"@,
        monitor_fields(monitor_row(output, mode, position, scale, disabled)->0, r),
    ensures
        r.output@ == trim(output),
        r.disabled == disabled,
        !disabled ==> r.mode@ == (if trim(mode).len() == 0 {
            "preferred"@
        } else {
            trim(mode)
        }),
        !disabled ==> r.position@ == (if trim(position).len() == 0 {
            "0x0"@
        } else {
            trim(position)
        }),
        !disabled ==> (r.scale matches Some(s) && s@ == trim(scale)),
        disabled ==> r.scale is None,
{
    reveal_strlit("disabled");
    reveal_strlit(",disabled");
    reveal_strlit("preferred");
    reveal_strlit("0x0");
    let k = CharClass::One(',');
    let o = trim(output);
    lemma_no_cut(o, ',');
    lemma_trim_idem(output, CharClass::Whitespace);
    if disabled {
        let d = "disabled"@;
        assert(forall|j: int| 0 <= j < d.len() ==> !in_class(k, #[trigger] d[j]));
        lemma_split_free(d, k);
        lemma_split_concat(o, ',', d, k);
        assert(o + ",disabled"@ =~= o + seq![','] + d);
        assert(trim_start_by(d, CharClass::Whitespace) == d);
        assert(trim(d) == d);
    } else {
        let m = if trim(mode).len() == 0 {
            "preferred"@
        } else {
            trim(mode)
        };
        let p = if trim(position).len() == 0 {
            "0x0"@
        } else {
            trim(position)
        };
        lemma_trim_idem(mode, CharClass::Whitespace);
        lemma_trim_idem(position, CharClass::Whitespace);
        assert(trim("preferred"@) == "preferred"@) by {
            assert(trim_start_by("preferred"@, CharClass::Whitespace) == "preferred"@);
        }
        assert(trim("0x0"@) == "0x0"@) by {
            assert(trim_start_by("0x0"@, CharClass::Whitespace) == "0x0"@);
        }
        lemma_no_cut(m, ',');
        lemma_no_cut(p, ',');
        lemma_no_cut(scale, ',');
        lemma_split_free(scale, k);
        lemma_split_concat(p, ',', scale, k);
        lemma_split_concat(m, ',', p + seq![','] + scale, k);
        lemma_split_concat(o, ',', m + seq![','] + p + seq![','] + scale, k);
        let line = o + seq![','] + m + seq![','] + p + seq![','] + scale;
        assert(line =~= o + seq![','] + (m + seq![','] + (p + seq![','] + scale)));
        assert(m + seq![','] + (p + seq![','] + scale) =~= m + seq![','] + p + seq![','] + scale);
        assert(split(line, ',') =~= seq![o, m, p, scale]);
        assert(m != "disabled"@);
    }
}

} // verus!
