//! An input row read from the line it stored shows the setting and value it
//! stored.
use vstd::prelude::*;
use crate::anim_laws::{
    lemma_in_run, lemma_plain_value, lemma_read_field, lemma_replace_absent,
    lemma_starts_letter, lemma_unquote, lemma_window_free, letters,
};
use crate::dispatch::escape;
use crate::entries::{field_value, input_row, input_value_lua, parse_input_from, plain_name};
use crate::row_laws::lemma_trim_ends;
use crate::tables::{input_settings, pick};
use crate::text::{contains, is_ws, occurs_at, starts_with, trim, trim_by};

verus! {

broadcast use vstd::string::group_string_axioms;

/// The name of the `i`-th input setting inside its Lua table.
spec fn plain(i: int) -> Seq<char> {
    plain_name(input_settings()[i])
}

/// The input settings' names inside their tables are long words; the
/// touchpad ones are the last two.
proof fn lemma_plain_names(i: int)
    requires
        0 <= i < 7,
    ensures
        letters(plain(i)),
        plain(i).len() > 10,
        starts_with(input_settings()[i], "touchpad."@) <==> i >= 5,
        i >= 5 ==> plain(i) == input_settings()[i].skip(9),
        i < 5 ==> plain(i) == input_settings()[i],
{
    reveal_strlit("repeat_rate");
    reveal_strlit("repeat_delay");
    reveal_strlit("numlock_by_default");
    reveal_strlit("follow_mouse");
    reveal_strlit("float_switch_override_focus");
    reveal_strlit("touchpad.scroll_factor");
    reveal_strlit("touchpad.disable_while_typing");
    reveal_strlit("touchpad.");
    let n = input_settings()[i];
    let t = "touchpad."@;
    if i >= 5 {
        assert(n.take(9) =~= t);
        if i == 5 {
            assert(n.skip(9) =~= "scroll_factor"@) by {
                reveal_strlit("scroll_factor");
            }
        } else {
            assert(n.skip(9) =~= "disable_while_typing"@) by {
                reveal_strlit("disable_while_typing");
            }
        }
    } else {
        assert(n[0] != t[0]);
        assert(!starts_with(n, t)) by {
            if starts_with(n, t) {
                assert(n.take(9)[0] == t[0]);
            }
        }
    }
}

/// No input setting's name holds the name of an earlier one.
proof fn lemma_plain_distinct(i: int, s: int)
    requires
        0 <= i < s < 7,
    ensures
        !contains(plain(s), plain(i)),
{
    lemma_plain_names(i);
    lemma_plain_names(s);
    reveal_strlit("repeat_rate");
    reveal_strlit("repeat_delay");
    reveal_strlit("numlock_by_default");
    reveal_strlit("follow_mouse");
    reveal_strlit("float_switch_override_focus");
    reveal_strlit("touchpad.scroll_factor");
    reveal_strlit("touchpad.disable_while_typing");
    let a = plain(s);
    let k = plain(i);
    if i == 0 {
        if s == 1 {
            lemma_window_free(a, k, 7);
        } else {
            lemma_window_free(a, k, 2);
        }
    } else if i == 1 {
        lemma_window_free(a, k, 2);
    } else if i == 2 {
        lemma_window_free(a, k, 6);
    } else if i == 3 {
        lemma_window_free(a, k, 7);
    } else if i == 4 {
        lemma_window_free(a, k, 0);
    } else {
        lemma_window_free(a, k, 7);
    }
}

/// The line of an input setting outside the touchpad table.
spec fn top_line(nm: Seq<char>, v: Seq<char>) -> Seq<char> {
    "hl.config({ input = { "@ + nm + " = "@ + v + " } })"@
}

/// The line of a touchpad input setting.
spec fn pad_line(nm: Seq<char>, v: Seq<char>) -> Seq<char> {
    "hl.config({ input = { touchpad = { "@ + nm + " = "@ + v + " } } })"@
}

/// A setting's value text can be read as a field.
spec fn plain_value(v: Seq<char>) -> bool {
    &&& v.len() > 0
    &&& forall|x: int| 0 <= x < v.len() ==> #[trigger] v[x] != '=' && v[x] != ',' && v[x] != '}'
}

/// A long name that neither the setting name nor the value holds does not
/// occur in an input line.
#[verifier::spinoff_prover]
proof fn lemma_top_absent(nm: Seq<char>, v: Seq<char>, k: Seq<char>)
    requires
        letters(k),
        k.len() > 10,
        !contains(nm, k),
        !contains(v, k),
    ensures
        !contains(top_line(nm, v), k),
{
    let line = top_line(nm, v);
    let n = nm.len() as int;
    let vl = v.len() as int;
    reveal_strlit("hl.config({ input = { ");
    reveal_strlit(" = ");
    reveal_strlit(" } })");
    reveal_strlit(" })");
    reveal_strlit("hl");
    reveal_strlit("config");
    reveal_strlit("input");
    assert(line.subrange(0, 2) =~= "hl"@);
    assert(line.subrange(3, 9) =~= "config"@);
    assert(line.subrange(12, 17) =~= "input"@);
    assert(line.subrange(22, 22 + n) =~= nm);
    assert(line.subrange(25 + n, 25 + n + vl) =~= v);
    assert(line.len() == 30 + n + vl);
    assert forall|j: int| 0 <= j < line.len() implies !occurs_at(line, k, j) by {
        if occurs_at(line, k, j) {
            lemma_starts_letter(line, k, j);
            if 22 <= j <= 22 + n {
                lemma_in_run(line, k, j, 22, nm);
            } else if 25 + n <= j <= 25 + n + vl {
                lemma_in_run(line, k, j, 25 + n, v);
            } else {
                if j <= 2 {
                    lemma_in_run(line, k, j, 0, "hl"@);
                } else if j <= 9 {
                    lemma_in_run(line, k, j, 3, "config"@);
                } else if 12 <= j <= 17 {
                    lemma_in_run(line, k, j, 12, "input"@);
                }
            }
        }
    }
}

/// The setting name of an input line is read with its value text.
#[verifier::spinoff_prover]
proof fn lemma_top_read(nm: Seq<char>, v: Seq<char>)
    requires
        letters(nm),
        nm.len() > 10,
        plain_value(v),
        !contains(v, nm),
    ensures
        contains(top_line(nm, v), nm),
        field_value(top_line(nm, v), nm) == trim_by(
            trim(seq![' '] + v + seq![' ']),
            crate::text::CharClass::One('"'),
        ),
{
    let line = top_line(nm, v);
    let k = nm;
    let n = nm.len() as int;
    let vl = v.len() as int;
    reveal_strlit("hl.config({ input = { ");
    reveal_strlit(" = ");
    reveal_strlit(" } })");
    reveal_strlit(" })");
    reveal_strlit("hl");
    reveal_strlit("config");
    reveal_strlit("input");
    assert(line.subrange(0, 2) =~= "hl"@);
    assert(line.subrange(3, 9) =~= "config"@);
    assert(line.subrange(12, 17) =~= "input"@);
    assert(line.subrange(22, 22 + n) =~= nm);
    assert forall|j: int| 0 <= j < 22 implies !occurs_at(line, k, j) by {
        if occurs_at(line, k, j) {
            lemma_starts_letter(line, k, j);
            if j <= 2 {
                lemma_in_run(line, k, j, 0, "hl"@);
            } else if j <= 9 {
                lemma_in_run(line, k, j, 3, "config"@);
            } else if 12 <= j <= 17 {
                lemma_in_run(line, k, j, 12, "input"@);
            }
        }
    }
    let w = seq![' '] + v + seq![' '];
    let y = " })"@;
    let rest = line.skip(22 + n);
    assert(rest =~= seq![' ', '='] + w + seq!['}'] + y);
    assert forall|j: int| 0 <= j < w.len() implies #[trigger] w[j] != '=' && w[j] != ','
        && w[j] != '}' by {
        if 1 <= j <= vl {
            assert(w[j] == v[j - 1]);
        }
    }
    assert(rest.subrange(3, 3 + vl) =~= v);
    assert forall|j: int| 0 <= j < w.len() + 3 implies !occurs_at(rest, k, j) by {
        if occurs_at(rest, k, j) {
            lemma_starts_letter(rest, k, j);
            if 3 <= j <= 3 + vl {
                lemma_in_run(rest, k, j, 3, v);
            }
        }
    }
    lemma_read_field(line, k, 22, w, '}', y, Seq::empty());
}

/// A long name that neither the setting name nor the value holds does not
/// occur in a touchpad input line.
#[verifier::spinoff_prover]
proof fn lemma_pad_absent(nm: Seq<char>, v: Seq<char>, k: Seq<char>)
    requires
        letters(k),
        k.len() > 10,
        !contains(nm, k),
        !contains(v, k),
    ensures
        !contains(pad_line(nm, v), k),
{
    let line = pad_line(nm, v);
    let n = nm.len() as int;
    let vl = v.len() as int;
    reveal_strlit("hl.config({ input = { touchpad = { ");
    reveal_strlit(" = ");
    reveal_strlit(" } } })");
    reveal_strlit(" } })");
    reveal_strlit("hl");
    reveal_strlit("config");
    reveal_strlit("input");
    reveal_strlit("touchpad");
    assert(line.subrange(0, 2) =~= "hl"@);
    assert(line.subrange(3, 9) =~= "config"@);
    assert(line.subrange(12, 17) =~= "input"@);
    assert(line.subrange(22, 30) =~= "touchpad"@);
    assert(line.subrange(35, 35 + n) =~= nm);
    assert(line.subrange(38 + n, 38 + n + vl) =~= v);
    assert(line.len() == 45 + n + vl);
    assert forall|j: int| 0 <= j < line.len() implies !occurs_at(line, k, j) by {
        if occurs_at(line, k, j) {
            lemma_starts_letter(line, k, j);
            if 35 <= j <= 35 + n {
                lemma_in_run(line, k, j, 35, nm);
            } else if 38 + n <= j <= 38 + n + vl {
                lemma_in_run(line, k, j, 38 + n, v);
            } else {
                if j <= 2 {
                    lemma_in_run(line, k, j, 0, "hl"@);
                } else if j <= 9 {
                    lemma_in_run(line, k, j, 3, "config"@);
                } else if 12 <= j <= 17 {
                    lemma_in_run(line, k, j, 12, "input"@);
                } else if 22 <= j <= 30 {
                    lemma_in_run(line, k, j, 22, "touchpad"@);
                }
            }
        }
    }
}

/// The setting name of a touchpad input line is read with its value text.
#[verifier::spinoff_prover]
proof fn lemma_pad_read(nm: Seq<char>, v: Seq<char>)
    requires
        letters(nm),
        nm.len() > 10,
        plain_value(v),
        !contains(v, nm),
    ensures
        contains(pad_line(nm, v), nm),
        field_value(pad_line(nm, v), nm) == trim_by(
            trim(seq![' '] + v + seq![' ']),
            crate::text::CharClass::One('"'),
        ),
{
    let line = pad_line(nm, v);
    let k = nm;
    let n = nm.len() as int;
    let vl = v.len() as int;
    reveal_strlit("hl.config({ input = { touchpad = { ");
    reveal_strlit(" = ");
    reveal_strlit(" } } })");
    reveal_strlit(" } })");
    reveal_strlit("hl");
    reveal_strlit("config");
    reveal_strlit("input");
    reveal_strlit("touchpad");
    assert(line.subrange(0, 2) =~= "hl"@);
    assert(line.subrange(3, 9) =~= "config"@);
    assert(line.subrange(12, 17) =~= "input"@);
    assert(line.subrange(22, 30) =~= "touchpad"@);
    assert(line.subrange(35, 35 + n) =~= nm);
    assert forall|j: int| 0 <= j < 35 implies !occurs_at(line, k, j) by {
        if occurs_at(line, k, j) {
            lemma_starts_letter(line, k, j);
            if j <= 2 {
                lemma_in_run(line, k, j, 0, "hl"@);
            } else if j <= 9 {
                lemma_in_run(line, k, j, 3, "config"@);
            } else if 12 <= j <= 17 {
                lemma_in_run(line, k, j, 12, "input"@);
            } else if 22 <= j <= 30 {
                lemma_in_run(line, k, j, 22, "touchpad"@);
            }
        }
    }
    let w = seq![' '] + v + seq![' '];
    let y = " } })"@;
    let rest = line.skip(35 + n);
    assert(rest =~= seq![' ', '='] + w + seq!['}'] + y);
    assert forall|j: int| 0 <= j < w.len() implies #[trigger] w[j] != '=' && w[j] != ','
        && w[j] != '}' by {
        if 1 <= j <= vl {
            assert(w[j] == v[j - 1]);
        }
    }
    assert(rest.subrange(3, 3 + vl) =~= v);
    assert forall|j: int| 0 <= j < w.len() + 3 implies !occurs_at(rest, k, j) by {
        if occurs_at(rest, k, j) {
            lemma_starts_letter(rest, k, j);
            if 3 <= j <= 3 + vl {
                lemma_in_run(rest, k, j, 3, v);
            }
        }
    }
    assert(occurs_at(line, k, 35));
    lemma_read_field(line, k, 35, w, '}', y, Seq::empty());
}

/// The value text of an input row: readable as a field, read back as the
/// value, and holding no name that the value does not hold.
proof fn lemma_value_text(val: Seq<char>, k: Seq<char>)
    requires
        val.len() > 0,
        !is_ws(val[0]),
        !is_ws(val.last()),
        forall|x: int| 0 <= x < val.len() ==> {
            let ch = #[trigger] val[x];
            ch != '=' && ch != ',' && ch != '}' && ch != '"' && ch != '\\'
        },
        letters(k),
        k.len() > 0,
    ensures
        plain_value(input_value_lua(val)),
        trim_by(trim(seq![' '] + input_value_lua(val) + seq![' ']), crate::text::CharClass::One('"'))
            == val,
        !contains(val, k) ==> !contains(input_value_lua(val), k),
{
    let v = input_value_lua(val);
    lemma_replace_absent(val, '\\', seq!['\\', '\\']);
    lemma_replace_absent(val, '"', seq!['\\', '"']);
    assert(escape(val) == val);
    if v == val {
        lemma_plain_value(val, seq![' '], seq![' ']);
    } else {
        assert(v =~= seq!['"'] + val + seq!['"']);
        assert forall|x: int| 0 <= x < v.len() implies #[trigger] v[x] != '=' && v[x] != ','
            && v[x] != '}' by {
            if 1 <= x <= val.len() {
                assert(v[x] == val[x - 1]);
            }
        }
        lemma_unquote(val, seq![' '], seq![' ']);
        assert(seq![' '] + v + seq![' '] =~= seq![' '] + seq!['"'] + val + seq!['"'] + seq![' ']);
        if !contains(val, k) {
            assert(v.subrange(1, 1 + val.len() as int) =~= val);
            assert forall|j: int| 0 <= j < v.len() implies !occurs_at(v, k, j) by {
                if occurs_at(v, k, j) {
                    lemma_starts_letter(v, k, j);
                    if 1 <= j <= val.len() {
                        lemma_in_run(v, k, j, 1, val);
                    }
                }
            }
        }
    }
}

/// The search of a line for the input settings' names finds the setting at
/// `s` when no earlier name occurs and that one does.
proof fn lemma_parse_from(line: Seq<char>, i: nat, s: int)
    requires
        i <= s < 7,
        forall|j: int| i <= j < s ==> !contains(line, #[trigger] plain(j)),
        contains(line, plain(s)),
    ensures
        parse_input_from(line, i) == (s, field_value(line, plain(s))),
    decreases s - i,
{
    if i < s {
        assert(!contains(line, plain(i as int)));
        lemma_parse_from(line, i + 1, s);
    }
}

/// An input row read from the line it stored shows the setting and the value
/// it stored; when the value holds none of `=`, `,`, `}`, `"`, `\` and not the
/// name of its own setting or of an earlier one in the settings list.
#[verifier::spinoff_prover]
pub proof fn law_input_row_round_trip(setting: usize, value: Seq<char>)
    requires
        trim(value).len() > 0,
        forall|x: int| 0 <= x < trim(value).len() ==> {
            let ch = #[trigger] trim(value)[x];
            ch != '=' && ch != ',' && ch != '}' && ch != '"' && ch != '\\'
        },
        forall|i: int|
            0 <= i <= (if setting < 7 {
                setting as int
            } else {
                0
            }) ==> !contains(trim(value), plain_name(#[trigger] input_settings()[i])),
    ensures
        parse_input_from(input_row(setting as int, value)->0, 0) == (
            if setting < 7 {
                setting as int
            } else {
                0
            },
            trim(value),
        ),
{
    let si: int = if setting < 7 {
        setting as int
    } else {
        0
    };
    let val = trim(value);
    let v = input_value_lua(val);
    let name = pick(input_settings(), setting as int, "repeat_rate"@);
    assert(name == input_settings()[si]);
    lemma_trim_ends(value);
    lemma_plain_names(si);
    let line = input_row(setting as int, value)->0;
    if si < 5 {
        assert(line == top_line(plain(si), v));
    } else {
        assert(line == pad_line(plain(si), v));
    }
    assert forall|j: int| 0 <= j < si implies !contains(line, #[trigger] plain(j)) by {
        lemma_plain_names(j);
        lemma_plain_distinct(j, si);
        assert(!contains(val, plain(j)));
        lemma_value_text(val, plain(j));
        if si < 5 {
            lemma_top_absent(plain(si), v, plain(j));
        } else {
            lemma_pad_absent(plain(si), v, plain(j));
        }
    }
    assert(!contains(val, plain(si)));
    lemma_value_text(val, plain(si));
    if si < 5 {
        lemma_top_read(plain(si), v);
    } else {
        lemma_pad_read(plain(si), v);
    }
    lemma_parse_from(line, 0, si);
}

/// A stored input line, read back into a row, is stored again as the same
/// line; for a listed setting and a trimmed value that holds none of `=`,
/// `,`, `}`, `"`, `\` and not the name of its own setting or of an earlier
/// one in the settings list.
pub proof fn law_input_line_round_trip(setting: usize, value: Seq<char>)
    requires
        setting < input_settings().len(),
        value.len() > 0,
        trim(value) == value,
        forall|x: int| 0 <= x < value.len() ==> {
            let ch = #[trigger] value[x];
            ch != '=' && ch != ',' && ch != '}' && ch != '"' && ch != '\\'
        },
        forall|i: int|
            0 <= i <= setting ==> !contains(value, plain_name(#[trigger] input_settings()[i])),
    ensures
        input_row(
            parse_input_from(input_row(setting as int, value)->0, 0).0,
            parse_input_from(input_row(setting as int, value)->0, 0).1,
        ) == input_row(setting as int, value),
{
    law_input_row_round_trip(setting, value);
}

} // verus!
