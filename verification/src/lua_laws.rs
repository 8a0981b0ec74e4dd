//! What the generated Lua file says of each setting: the file prints every
//! general, decoration, animation, input and misc setting after its key.
use vstd::prelude::*;
use crate::config::Config;
use crate::luafile::{bool_lua, lua_file};
use crate::numbers::{dec, fixed1, fixed2};
use crate::text::{contains, occurs_at};

verus! {

broadcast use vstd::string::group_string_axioms;

/// `true` or `false` as Lua writes them.
pub open spec fn lua_bool_literal(b: bool) -> Seq<char> {
    if b {
        "true"@
    } else {
        "false"@
    }
}

/// A text found in one part of a concatenation is found in the whole.
proof fn lemma_contains_grow(t: Seq<char>)
    ensures
        forall|x: Seq<char>, y: Seq<char>|
            (contains(x, t) || contains(y, t)) ==> #[trigger] contains(x + y, t),
{
    assert forall|x: Seq<char>, y: Seq<char>|
        (contains(x, t) || contains(y, t)) implies #[trigger] contains(x + y, t) by {
        if contains(x, t) {
            let i = choose|i: int| occurs_at(x, t, i);
            assert((x + y).subrange(i, i + t.len()) =~= x.subrange(i, i + t.len()));
            assert(occurs_at(x + y, t, i));
        } else {
            let i = choose|i: int| occurs_at(y, t, i);
            assert((x + y).subrange(x.len() + i, x.len() + i + t.len()) =~= y.subrange(
                i,
                i + t.len(),
            ));
            assert(occurs_at(x + y, t, x.len() + i));
        }
    }
}

/// A value printed between a text that ends with its key and a text that
/// starts with what follows it is found, with key and follower, in anything
/// the two texts and the value end.
proof fn lemma_key_value(p: Seq<char>, a: Seq<char>, v: Seq<char>, q: Seq<char>, b: Seq<char>)
    requires
        a.len() <= p.len(),
        p.skip(p.len() - a.len()) == a,
        b.len() <= q.len(),
        q.take(b.len() as int) == b,
    ensures
        forall|x: Seq<char>| #[trigger] contains(x + p + v + q, a + v + b),
{
    assert forall|x: Seq<char>| #[trigger] contains(x + p + v + q, a + v + b) by {
        let s = x + p + v + q;
        let i = x.len() + p.len() - a.len();
        assert(s.subrange(i, i + (a + v + b).len()) =~= a + v + b);
        assert(occurs_at(s, a + v + b, i));
    }
}

proof fn lemma_gaps_in_key(v: Seq<char>)
    ensures
        forall|x: Seq<char>|
            #[trigger] contains(x + "hl.config({\n  general = {\n    gaps_in = "@ + v + ",\n    gaps_out = "@, "gaps_in = "@ + v + ","@),
{
    reveal_strlit("hl.config({\n  general = {\n    gaps_in = ");
    reveal_strlit(",\n    gaps_out = ");
    reveal_strlit("gaps_in = ");
    reveal_strlit(",");
    let p = "hl.config({\n  general = {\n    gaps_in = "@;
    let q = ",\n    gaps_out = "@;
    assert(p.skip(p.len() - "gaps_in = "@.len()) =~= "gaps_in = "@);
    assert(q.take(","@.len() as int) =~= ","@);
    lemma_key_value(p, "gaps_in = "@, v, q, ","@);
}

proof fn lemma_gaps_out_key(v: Seq<char>)
    ensures
        forall|x: Seq<char>|
            #[trigger] contains(x + ",\n    gaps_out = "@ + v + ",\n    border_size = "@, "gaps_out = "@ + v + ","@),
{
    reveal_strlit(",\n    gaps_out = ");
    reveal_strlit(",\n    border_size = ");
    reveal_strlit("gaps_out = ");
    reveal_strlit(",");
    let p = ",\n    gaps_out = "@;
    let q = ",\n    border_size = "@;
    assert(p.skip(p.len() - "gaps_out = "@.len()) =~= "gaps_out = "@);
    assert(q.take(","@.len() as int) =~= ","@);
    lemma_key_value(p, "gaps_out = "@, v, q, ","@);
}

proof fn lemma_border_size_key(v: Seq<char>)
    ensures
        forall|x: Seq<char>|
            #[trigger] contains(x + ",\n    border_size = "@ + v + ",\n    col = {\n      active_border = \""@, "border_size = "@ + v + ","@),
{
    reveal_strlit(",\n    border_size = ");
    reveal_strlit(",\n    col = {\n      active_border = \"");
    reveal_strlit("border_size = ");
    reveal_strlit(",");
    let p = ",\n    border_size = "@;
    let q = ",\n    col = {\n      active_border = \""@;
    assert(p.skip(p.len() - "border_size = "@.len()) =~= "border_size = "@);
    assert(q.take(","@.len() as int) =~= ","@);
    lemma_key_value(p, "border_size = "@, v, q, ","@);
}

proof fn lemma_active_border_key(v: Seq<char>)
    ensures
        forall|x: Seq<char>|
            #[trigger] contains(x + ",\n    col = {\n      active_border = \""@ + v + "\",\n      inactive_border = \""@, "active_border = \""@ + v + "\","@),
{
    reveal_strlit(",\n    col = {\n      active_border = \"");
    reveal_strlit("\",\n      inactive_border = \"");
    reveal_strlit("active_border = \"");
    reveal_strlit("\",");
    let p = ",\n    col = {\n      active_border = \""@;
    let q = "\",\n      inactive_border = \""@;
    assert(p.skip(p.len() - "active_border = \""@.len()) =~= "active_border = \""@);
    assert(q.take("\","@.len() as int) =~= "\","@);
    lemma_key_value(p, "active_border = \""@, v, q, "\","@);
}

proof fn lemma_inactive_border_key(v: Seq<char>)
    ensures
        forall|x: Seq<char>|
            #[trigger] contains(x + "\",\n      inactive_border = \""@ + v + "\",\n    },\n    resize_on_border = "@, "inactive_border = \""@ + v + "\","@),
{
    reveal_strlit("\",\n      inactive_border = \"");
    reveal_strlit("\",\n    },\n    resize_on_border = ");
    reveal_strlit("inactive_border = \"");
    reveal_strlit("\",");
    let p = "\",\n      inactive_border = \""@;
    let q = "\",\n    },\n    resize_on_border = "@;
    assert(p.skip(p.len() - "inactive_border = \""@.len()) =~= "inactive_border = \""@);
    assert(q.take("\","@.len() as int) =~= "\","@);
    lemma_key_value(p, "inactive_border = \""@, v, q, "\","@);
}

proof fn lemma_resize_on_border_key(v: Seq<char>)
    ensures
        forall|x: Seq<char>|
            #[trigger] contains(x + "\",\n    },\n    resize_on_border = "@ + v + ",\n    allow_tearing = "@, "resize_on_border = "@ + v + ","@),
{
    reveal_strlit("\",\n    },\n    resize_on_border = ");
    reveal_strlit(",\n    allow_tearing = ");
    reveal_strlit("resize_on_border = ");
    reveal_strlit(",");
    let p = "\",\n    },\n    resize_on_border = "@;
    let q = ",\n    allow_tearing = "@;
    assert(p.skip(p.len() - "resize_on_border = "@.len()) =~= "resize_on_border = "@);
    assert(q.take(","@.len() as int) =~= ","@);
    lemma_key_value(p, "resize_on_border = "@, v, q, ","@);
}

proof fn lemma_allow_tearing_key(v: Seq<char>)
    ensures
        forall|x: Seq<char>|
            #[trigger] contains(x + ",\n    allow_tearing = "@ + v + ",\n    layout = \""@, "allow_tearing = "@ + v + ","@),
{
    reveal_strlit(",\n    allow_tearing = ");
    reveal_strlit(",\n    layout = \"");
    reveal_strlit("allow_tearing = ");
    reveal_strlit(",");
    let p = ",\n    allow_tearing = "@;
    let q = ",\n    layout = \""@;
    assert(p.skip(p.len() - "allow_tearing = "@.len()) =~= "allow_tearing = "@);
    assert(q.take(","@.len() as int) =~= ","@);
    lemma_key_value(p, "allow_tearing = "@, v, q, ","@);
}

proof fn lemma_layout_key(v: Seq<char>)
    ensures
        forall|x: Seq<char>|
            #[trigger] contains(x + ",\n    layout = \""@ + v + "\",\n  },\n\n  decoration = {\n    rounding = "@, "\n    layout = \""@ + v + "\","@),
{
    reveal_strlit(",\n    layout = \"");
    reveal_strlit("\",\n  },\n\n  decoration = {\n    rounding = ");
    reveal_strlit("\n    layout = \"");
    reveal_strlit("\",");
    let p = ",\n    layout = \""@;
    let q = "\",\n  },\n\n  decoration = {\n    rounding = "@;
    assert(p.skip(p.len() - "\n    layout = \""@.len()) =~= "\n    layout = \""@);
    assert(q.take("\","@.len() as int) =~= "\","@);
    lemma_key_value(p, "\n    layout = \""@, v, q, "\","@);
}

proof fn lemma_rounding_key(v: Seq<char>)
    ensures
        forall|x: Seq<char>|
            #[trigger] contains(x + "\",\n  },\n\n  decoration = {\n    rounding = "@ + v + ",\n    rounding_power = 2,\n    active_opacity = "@, "rounding = "@ + v + ","@),
{
    reveal_strlit("\",\n  },\n\n  decoration = {\n    rounding = ");
    reveal_strlit(",\n    rounding_power = 2,\n    active_opacity = ");
    reveal_strlit("rounding = ");
    reveal_strlit(",");
    let p = "\",\n  },\n\n  decoration = {\n    rounding = "@;
    let q = ",\n    rounding_power = 2,\n    active_opacity = "@;
    assert(p.skip(p.len() - "rounding = "@.len()) =~= "rounding = "@);
    assert(q.take(","@.len() as int) =~= ","@);
    lemma_key_value(p, "rounding = "@, v, q, ","@);
}

proof fn lemma_active_opacity_key(v: Seq<char>)
    ensures
        forall|x: Seq<char>|
            #[trigger] contains(x + ",\n    rounding_power = 2,\n    active_opacity = "@ + v + ",\n    inactive_opacity = "@, "active_opacity = "@ + v + ","@),
{
    reveal_strlit(",\n    rounding_power = 2,\n    active_opacity = ");
    reveal_strlit(",\n    inactive_opacity = ");
    reveal_strlit("active_opacity = ");
    reveal_strlit(",");
    let p = ",\n    rounding_power = 2,\n    active_opacity = "@;
    let q = ",\n    inactive_opacity = "@;
    assert(p.skip(p.len() - "active_opacity = "@.len()) =~= "active_opacity = "@);
    assert(q.take(","@.len() as int) =~= ","@);
    lemma_key_value(p, "active_opacity = "@, v, q, ","@);
}

proof fn lemma_inactive_opacity_key(v: Seq<char>)
    ensures
        forall|x: Seq<char>|
            #[trigger] contains(x + ",\n    inactive_opacity = "@ + v + ",\n    shadow = {\n      enabled = "@, "inactive_opacity = "@ + v + ","@),
{
    reveal_strlit(",\n    inactive_opacity = ");
    reveal_strlit(",\n    shadow = {\n      enabled = ");
    reveal_strlit("inactive_opacity = ");
    reveal_strlit(",");
    let p = ",\n    inactive_opacity = "@;
    let q = ",\n    shadow = {\n      enabled = "@;
    assert(p.skip(p.len() - "inactive_opacity = "@.len()) =~= "inactive_opacity = "@);
    assert(q.take(","@.len() as int) =~= ","@);
    lemma_key_value(p, "inactive_opacity = "@, v, q, ","@);
}

proof fn lemma_shadow_key(v: Seq<char>)
    ensures
        forall|x: Seq<char>|
            #[trigger] contains(x + ",\n    shadow = {\n      enabled = "@ + v + ",\n      range = "@, "shadow = {\n      enabled = "@ + v + ","@),
{
    reveal_strlit(",\n    shadow = {\n      enabled = ");
    reveal_strlit(",\n      range = ");
    reveal_strlit("shadow = {\n      enabled = ");
    reveal_strlit(",");
    let p = ",\n    shadow = {\n      enabled = "@;
    let q = ",\n      range = "@;
    assert(p.skip(p.len() - "shadow = {\n      enabled = "@.len()) =~= "shadow = {\n      enabled = "@);
    assert(q.take(","@.len() as int) =~= ","@);
    lemma_key_value(p, "shadow = {\n      enabled = "@, v, q, ","@);
}

proof fn lemma_shadow_range_key(v: Seq<char>)
    ensures
        forall|x: Seq<char>|
            #[trigger] contains(x + ",\n      range = "@ + v + ",\n      render_power = 3,\n      color = 0xee1a1a1a,\n    },\n    blur = {\n      enabled = "@, "range = "@ + v + ","@),
{
    reveal_strlit(",\n      range = ");
    reveal_strlit(",\n      render_power = 3,\n      color = 0xee1a1a1a,\n    },\n    blur = {\n      enabled = ");
    reveal_strlit("range = ");
    reveal_strlit(",");
    let p = ",\n      range = "@;
    let q = ",\n      render_power = 3,\n      color = 0xee1a1a1a,\n    },\n    blur = {\n      enabled = "@;
    assert(p.skip(p.len() - "range = "@.len()) =~= "range = "@);
    assert(q.take(","@.len() as int) =~= ","@);
    lemma_key_value(p, "range = "@, v, q, ","@);
}

proof fn lemma_blur_key(v: Seq<char>)
    ensures
        forall|x: Seq<char>|
            #[trigger] contains(x + ",\n      render_power = 3,\n      color = 0xee1a1a1a,\n    },\n    blur = {\n      enabled = "@ + v + ",\n      size = "@, "blur = {\n      enabled = "@ + v + ","@),
{
    reveal_strlit(",\n      render_power = 3,\n      color = 0xee1a1a1a,\n    },\n    blur = {\n      enabled = ");
    reveal_strlit(",\n      size = ");
    reveal_strlit("blur = {\n      enabled = ");
    reveal_strlit(",");
    let p = ",\n      render_power = 3,\n      color = 0xee1a1a1a,\n    },\n    blur = {\n      enabled = "@;
    let q = ",\n      size = "@;
    assert(p.skip(p.len() - "blur = {\n      enabled = "@.len()) =~= "blur = {\n      enabled = "@);
    assert(q.take(","@.len() as int) =~= ","@);
    lemma_key_value(p, "blur = {\n      enabled = "@, v, q, ","@);
}

proof fn lemma_blur_size_key(v: Seq<char>)
    ensures
        forall|x: Seq<char>|
            #[trigger] contains(x + ",\n      size = "@ + v + ",\n      passes = "@, "\n      size = "@ + v + ","@),
{
    reveal_strlit(",\n      size = ");
    reveal_strlit(",\n      passes = ");
    reveal_strlit("\n      size = ");
    reveal_strlit(",");
    let p = ",\n      size = "@;
    let q = ",\n      passes = "@;
    assert(p.skip(p.len() - "\n      size = "@.len()) =~= "\n      size = "@);
    assert(q.take(","@.len() as int) =~= ","@);
    lemma_key_value(p, "\n      size = "@, v, q, ","@);
}

proof fn lemma_blur_passes_key(v: Seq<char>)
    ensures
        forall|x: Seq<char>|
            #[trigger] contains(x + ",\n      passes = "@ + v + ",\n      vibrancy = 0.1696,\n    },\n  },\n\n  animations = {\n    enabled = "@, "passes = "@ + v + ","@),
{
    reveal_strlit(",\n      passes = ");
    reveal_strlit(",\n      vibrancy = 0.1696,\n    },\n  },\n\n  animations = {\n    enabled = ");
    reveal_strlit("passes = ");
    reveal_strlit(",");
    let p = ",\n      passes = "@;
    let q = ",\n      vibrancy = 0.1696,\n    },\n  },\n\n  animations = {\n    enabled = "@;
    assert(p.skip(p.len() - "passes = "@.len()) =~= "passes = "@);
    assert(q.take(","@.len() as int) =~= ","@);
    lemma_key_value(p, "passes = "@, v, q, ","@);
}

proof fn lemma_animations_key(v: Seq<char>)
    ensures
        forall|x: Seq<char>|
            #[trigger] contains(x + ",\n      vibrancy = 0.1696,\n    },\n  },\n\n  animations = {\n    enabled = "@ + v + ",\n  },\n})\n\nhl.config({\n  input = {\n    kb_layout = \""@, "animations = {\n    enabled = "@ + v + ","@),
{
    reveal_strlit(",\n      vibrancy = 0.1696,\n    },\n  },\n\n  animations = {\n    enabled = ");
    reveal_strlit(",\n  },\n})\n\nhl.config({\n  input = {\n    kb_layout = \"");
    reveal_strlit("animations = {\n    enabled = ");
    reveal_strlit(",");
    let p = ",\n      vibrancy = 0.1696,\n    },\n  },\n\n  animations = {\n    enabled = "@;
    let q = ",\n  },\n})\n\nhl.config({\n  input = {\n    kb_layout = \""@;
    assert(p.skip(p.len() - "animations = {\n    enabled = "@.len()) =~= "animations = {\n    enabled = "@);
    assert(q.take(","@.len() as int) =~= ","@);
    lemma_key_value(p, "animations = {\n    enabled = "@, v, q, ","@);
}

proof fn lemma_kb_layout_key(v: Seq<char>)
    ensures
        forall|x: Seq<char>|
            #[trigger] contains(x + ",\n  },\n})\n\nhl.config({\n  input = {\n    kb_layout = \""@ + v + "\",\n    kb_variant = \""@, "kb_layout = \""@ + v + "\","@),
{
    reveal_strlit(",\n  },\n})\n\nhl.config({\n  input = {\n    kb_layout = \"");
    reveal_strlit("\",\n    kb_variant = \"");
    reveal_strlit("kb_layout = \"");
    reveal_strlit("\",");
    let p = ",\n  },\n})\n\nhl.config({\n  input = {\n    kb_layout = \""@;
    let q = "\",\n    kb_variant = \""@;
    assert(p.skip(p.len() - "kb_layout = \""@.len()) =~= "kb_layout = \""@);
    assert(q.take("\","@.len() as int) =~= "\","@);
    lemma_key_value(p, "kb_layout = \""@, v, q, "\","@);
}

proof fn lemma_kb_variant_key(v: Seq<char>)
    ensures
        forall|x: Seq<char>|
            #[trigger] contains(x + "\",\n    kb_variant = \""@ + v + "\",\n    kb_model = \"\",\n    kb_options = \"\",\n    kb_rules = \"\",\n    follow_mouse = 1,\n    sensitivity = "@, "kb_variant = \""@ + v + "\","@),
{
    reveal_strlit("\",\n    kb_variant = \"");
    reveal_strlit("\",\n    kb_model = \"\",\n    kb_options = \"\",\n    kb_rules = \"\",\n    follow_mouse = 1,\n    sensitivity = ");
    reveal_strlit("kb_variant = \"");
    reveal_strlit("\",");
    let p = "\",\n    kb_variant = \""@;
    let q = "\",\n    kb_model = \"\",\n    kb_options = \"\",\n    kb_rules = \"\",\n    follow_mouse = 1,\n    sensitivity = "@;
    assert(p.skip(p.len() - "kb_variant = \""@.len()) =~= "kb_variant = \""@);
    assert(q.take("\","@.len() as int) =~= "\","@);
    lemma_key_value(p, "kb_variant = \""@, v, q, "\","@);
}

proof fn lemma_sensitivity_key(v: Seq<char>)
    ensures
        forall|x: Seq<char>|
            #[trigger] contains(x + "\",\n    kb_model = \"\",\n    kb_options = \"\",\n    kb_rules = \"\",\n    follow_mouse = 1,\n    sensitivity = "@ + v + ",\n    touchpad = {\n      natural_scroll = "@, "sensitivity = "@ + v + ","@),
{
    reveal_strlit("\",\n    kb_model = \"\",\n    kb_options = \"\",\n    kb_rules = \"\",\n    follow_mouse = 1,\n    sensitivity = ");
    reveal_strlit(",\n    touchpad = {\n      natural_scroll = ");
    reveal_strlit("sensitivity = ");
    reveal_strlit(",");
    let p = "\",\n    kb_model = \"\",\n    kb_options = \"\",\n    kb_rules = \"\",\n    follow_mouse = 1,\n    sensitivity = "@;
    let q = ",\n    touchpad = {\n      natural_scroll = "@;
    assert(p.skip(p.len() - "sensitivity = "@.len()) =~= "sensitivity = "@);
    assert(q.take(","@.len() as int) =~= ","@);
    lemma_key_value(p, "sensitivity = "@, v, q, ","@);
}

proof fn lemma_natural_scroll_key(v: Seq<char>)
    ensures
        forall|x: Seq<char>|
            #[trigger] contains(x + ",\n    touchpad = {\n      natural_scroll = "@ + v + ",\n    },\n  },\n})\n\nhl.config({\n  misc = {\n    force_default_wallpaper = -1,\n    disable_hyprland_logo = "@, "natural_scroll = "@ + v + ","@),
{
    reveal_strlit(",\n    touchpad = {\n      natural_scroll = ");
    reveal_strlit(",\n    },\n  },\n})\n\nhl.config({\n  misc = {\n    force_default_wallpaper = -1,\n    disable_hyprland_logo = ");
    reveal_strlit("natural_scroll = ");
    reveal_strlit(",");
    let p = ",\n    touchpad = {\n      natural_scroll = "@;
    let q = ",\n    },\n  },\n})\n\nhl.config({\n  misc = {\n    force_default_wallpaper = -1,\n    disable_hyprland_logo = "@;
    assert(p.skip(p.len() - "natural_scroll = "@.len()) =~= "natural_scroll = "@);
    assert(q.take(","@.len() as int) =~= ","@);
    lemma_key_value(p, "natural_scroll = "@, v, q, ","@);
}

proof fn lemma_logo_key(v: Seq<char>)
    ensures
        forall|x: Seq<char>|
            #[trigger] contains(x + ",\n    },\n  },\n})\n\nhl.config({\n  misc = {\n    force_default_wallpaper = -1,\n    disable_hyprland_logo = "@ + v + ",\n  },\n})\n"@, "disable_hyprland_logo = "@ + v + ","@),
{
    reveal_strlit(",\n    },\n  },\n})\n\nhl.config({\n  misc = {\n    force_default_wallpaper = -1,\n    disable_hyprland_logo = ");
    reveal_strlit(",\n  },\n})\n");
    reveal_strlit("disable_hyprland_logo = ");
    reveal_strlit(",");
    let p = ",\n    },\n  },\n})\n\nhl.config({\n  misc = {\n    force_default_wallpaper = -1,\n    disable_hyprland_logo = "@;
    let q = ",\n  },\n})\n"@;
    assert(p.skip(p.len() - "disable_hyprland_logo = "@.len()) =~= "disable_hyprland_logo = "@);
    assert(q.take(","@.len() as int) =~= ","@);
    lemma_key_value(p, "disable_hyprland_logo = "@, v, q, ","@);
}

/// The generated file prints each general setting after its key: the gaps,
/// the border size and colours, resizing on borders, tearing and the layout.
pub proof fn law_lua_general_settings(c: Config, scales: Seq<Seq<char>>)
    ensures
        contains(lua_file(c, scales), "gaps_in = "@ + dec(c.gaps_in as nat) + ","@),
        contains(lua_file(c, scales), "gaps_out = "@ + dec(c.gaps_out as nat) + ","@),
        contains(lua_file(c, scales), "border_size = "@ + dec(c.border_size as nat) + ","@),
        contains(lua_file(c, scales), "active_border = \""@ + c.active_border_color@ + "\","@),
        contains(lua_file(c, scales), "inactive_border = \""@ + c.inactive_border_color@ + "\","@),
        contains(lua_file(c, scales), "resize_on_border = "@ + lua_bool_literal(c.resize_on_border) + ","@),
        contains(lua_file(c, scales), "allow_tearing = "@ + lua_bool_literal(c.allow_tearing) + ","@),
        contains(lua_file(c, scales), "\n    layout = \""@ + c.layout@ + "\","@),
{
    lemma_gaps_in_key(dec(c.gaps_in as nat));
    lemma_contains_grow("gaps_in = "@ + dec(c.gaps_in as nat) + ","@);
    lemma_gaps_out_key(dec(c.gaps_out as nat));
    lemma_contains_grow("gaps_out = "@ + dec(c.gaps_out as nat) + ","@);
    lemma_border_size_key(dec(c.border_size as nat));
    lemma_contains_grow("border_size = "@ + dec(c.border_size as nat) + ","@);
    lemma_active_border_key(c.active_border_color@);
    lemma_contains_grow("active_border = \""@ + c.active_border_color@ + "\","@);
    lemma_inactive_border_key(c.inactive_border_color@);
    lemma_contains_grow("inactive_border = \""@ + c.inactive_border_color@ + "\","@);
    lemma_resize_on_border_key(bool_lua(c.resize_on_border));
    lemma_contains_grow("resize_on_border = "@ + bool_lua(c.resize_on_border) + ","@);
    lemma_allow_tearing_key(bool_lua(c.allow_tearing));
    lemma_contains_grow("allow_tearing = "@ + bool_lua(c.allow_tearing) + ","@);
    lemma_layout_key(c.layout@);
    lemma_contains_grow("\n    layout = \""@ + c.layout@ + "\","@);
}

/// The generated file prints each decoration setting after its key: the
/// rounding, the opacities, the shadow and the blur.
pub proof fn law_lua_decoration_settings(c: Config, scales: Seq<Seq<char>>)
    ensures
        contains(lua_file(c, scales), "rounding = "@ + dec(c.rounding as nat) + ","@),
        contains(lua_file(c, scales), "active_opacity = "@ + fixed2(c.active_opacity_centi as int) + ","@),
        contains(lua_file(c, scales), "inactive_opacity = "@ + fixed2(c.inactive_opacity_centi as int) + ","@),
        contains(lua_file(c, scales), "shadow = {\n      enabled = "@ + lua_bool_literal(c.shadow_enabled) + ","@),
        contains(lua_file(c, scales), "range = "@ + dec(c.shadow_range as nat) + ","@),
        contains(lua_file(c, scales), "blur = {\n      enabled = "@ + lua_bool_literal(c.blur_enabled) + ","@),
        contains(lua_file(c, scales), "\n      size = "@ + dec(c.blur_size as nat) + ","@),
        contains(lua_file(c, scales), "passes = "@ + dec(c.blur_passes as nat) + ","@),
{
    lemma_rounding_key(dec(c.rounding as nat));
    lemma_contains_grow("rounding = "@ + dec(c.rounding as nat) + ","@);
    lemma_active_opacity_key(fixed2(c.active_opacity_centi as int));
    lemma_contains_grow("active_opacity = "@ + fixed2(c.active_opacity_centi as int) + ","@);
    lemma_inactive_opacity_key(fixed2(c.inactive_opacity_centi as int));
    lemma_contains_grow("inactive_opacity = "@ + fixed2(c.inactive_opacity_centi as int) + ","@);
    lemma_shadow_key(bool_lua(c.shadow_enabled));
    lemma_contains_grow("shadow = {\n      enabled = "@ + bool_lua(c.shadow_enabled) + ","@);
    lemma_shadow_range_key(dec(c.shadow_range as nat));
    lemma_contains_grow("range = "@ + dec(c.shadow_range as nat) + ","@);
    lemma_blur_key(bool_lua(c.blur_enabled));
    lemma_contains_grow("blur = {\n      enabled = "@ + bool_lua(c.blur_enabled) + ","@);
    lemma_blur_size_key(dec(c.blur_size as nat));
    lemma_contains_grow("\n      size = "@ + dec(c.blur_size as nat) + ","@);
    lemma_blur_passes_key(dec(c.blur_passes as nat));
    lemma_contains_grow("passes = "@ + dec(c.blur_passes as nat) + ","@);
}

/// The generated file prints whether animations are on, each input setting
/// and the logo setting after its key.
pub proof fn law_lua_input_settings(c: Config, scales: Seq<Seq<char>>)
    ensures
        contains(lua_file(c, scales), "animations = {\n    enabled = "@ + lua_bool_literal(c.animations_enabled) + ","@),
        contains(lua_file(c, scales), "kb_layout = \""@ + c.kb_layout@ + "\","@),
        contains(lua_file(c, scales), "kb_variant = \""@ + c.kb_variant@ + "\","@),
        contains(lua_file(c, scales), "sensitivity = "@ + fixed1(c.sensitivity_deci as int) + ","@),
        contains(lua_file(c, scales), "natural_scroll = "@ + lua_bool_literal(c.natural_scroll) + ","@),
        contains(lua_file(c, scales), "disable_hyprland_logo = "@ + lua_bool_literal(c.disable_hyprland_logo) + ","@),
{
    lemma_animations_key(bool_lua(c.animations_enabled));
    lemma_contains_grow("animations = {\n    enabled = "@ + bool_lua(c.animations_enabled) + ","@);
    lemma_kb_layout_key(c.kb_layout@);
    lemma_contains_grow("kb_layout = \""@ + c.kb_layout@ + "\","@);
    lemma_kb_variant_key(c.kb_variant@);
    lemma_contains_grow("kb_variant = \""@ + c.kb_variant@ + "\","@);
    lemma_sensitivity_key(fixed1(c.sensitivity_deci as int));
    lemma_contains_grow("sensitivity = "@ + fixed1(c.sensitivity_deci as int) + ","@);
    lemma_natural_scroll_key(bool_lua(c.natural_scroll));
    lemma_contains_grow("natural_scroll = "@ + bool_lua(c.natural_scroll) + ","@);
    lemma_logo_key(bool_lua(c.disable_hyprland_logo));
    lemma_contains_grow("disable_hyprland_logo = "@ + bool_lua(c.disable_hyprland_logo) + ","@);
}

} // verus!
