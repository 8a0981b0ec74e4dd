//! Window rules from the classes of open windows: the float rule of a class,
//! and lists of rules kept sorted without repeats.
use vstd::prelude::*;
use crate::blocks::{append_strings, escape_parens};
use crate::text::{chars_of, extend_chars, extend_str, replace_char_exec, string_of, trim, trim_chars, CharClass};

verus! {

broadcast use vstd::string::group_string_axioms;

/// The order of `String`: lexicographic by code point.
pub open spec fn text_lt(a: Seq<char>, b: Seq<char>) -> bool
    decreases a.len(),
{
    if a.len() == 0 {
        b.len() > 0
    } else if b.len() == 0 {
        false
    } else if a[0] != b[0] {
        (a[0] as int) < (b[0] as int)
    } else {
        text_lt(a.drop_first(), b.drop_first())
    }
}

/// Every text is before every later one.
pub open spec fn strictly_sorted(s: Seq<Seq<char>>) -> bool {
    forall|i: int, j: int| 0 <= i < j < s.len() ==> text_lt(#[trigger] s[i], #[trigger] s[j])
}

/// `s` holds the same texts as `t`, once each, in order.
pub open spec fn sorted_set_of(s: Seq<Seq<char>>, t: Seq<Seq<char>>) -> bool {
    strictly_sorted(s) && forall|x: Seq<char>| s.contains(x) <==> t.contains(x)
}

pub proof fn lemma_lt_irreflexive(a: Seq<char>)
    ensures
        !text_lt(a, a),
    decreases a.len(),
{
    if a.len() > 0 {
        lemma_lt_irreflexive(a.drop_first());
    }
}

pub proof fn lemma_lt_transitive(a: Seq<char>, b: Seq<char>, c: Seq<char>)
    requires
        text_lt(a, b),
        text_lt(b, c),
    ensures
        text_lt(a, c),
    decreases a.len(),
{
    if a.len() > 0 && b.len() > 0 && c.len() > 0 {
        if a[0] == b[0] && b[0] == c[0] {
            lemma_lt_transitive(a.drop_first(), b.drop_first(), c.drop_first());
        }
    }
}

pub proof fn lemma_lt_total(a: Seq<char>, b: Seq<char>)
    ensures
        text_lt(a, b) || text_lt(b, a) || a == b,
    decreases a.len(),
{
    if a.len() > 0 && b.len() > 0 {
        if a[0] == b[0] {
            lemma_lt_total(a.drop_first(), b.drop_first());
            if a.drop_first() == b.drop_first() {
                assert(a =~= seq![a[0]] + a.drop_first());
                assert(b =~= seq![b[0]] + b.drop_first());
            }
        } else {
        }
    } else if a.len() == 0 && b.len() == 0 {
        assert(a =~= b);
    }
}

/// Whether `a` comes before `b` in `String` order.
pub fn text_lt_exec(a: &[char], b: &[char]) -> (r: bool)
    ensures
        r == text_lt(a@, b@),
{
    let mut i: usize = 0;
    assert(a@.skip(0) =~= a@);
    assert(b@.skip(0) =~= b@);
    while i < a.len() && i < b.len() && a[i] == b[i]
        invariant
            i <= a.len(),
            i <= b.len(),
            text_lt(a@, b@) == text_lt(a@.skip(i as int), b@.skip(i as int)),
        decreases a.len() - i,
    {
        assert(a@.skip(i as int).drop_first() =~= a@.skip(i + 1));
        assert(b@.skip(i as int).drop_first() =~= b@.skip(i + 1));
        i = i + 1;
    }
    if i == a.len() {
        i < b.len()
    } else if i == b.len() {
        false
    } else {
        a[i] < b[i]
    }
}

fn entry_before(r: &Vec<String>, k: usize, x: &[char]) -> (b: bool)
    requires
        k < r.len(),
    ensures
        b == text_lt(r.deep_view()[k as int], x@),
{
    let rk = chars_of(r[k].as_str());
    text_lt_exec(&rk, x)
}

/// Adds a text to a sorted list of distinct texts, keeping it so.
fn insert_sorted(r: &mut Vec<String>, x: String)
    requires
        strictly_sorted(old(r).deep_view()),
    ensures
        strictly_sorted(final(r).deep_view()),
        forall|y: Seq<char>|
            final(r).deep_view().contains(y) <==> (old(r).deep_view().contains(y) || y == x@),
{
    let xv = chars_of(x.as_str());
    let ghost old_r = r.deep_view();
    let mut k: usize = 0;
    while k < r.len() && entry_before(r, k, &xv)
        invariant
            k <= r.len(),
            r.deep_view() == old_r,
            xv@ == x@,
            strictly_sorted(old_r),
            forall|j: int| 0 <= j < k ==> text_lt(#[trigger] old_r[j], x@),
        decreases r.len() - k,
    {
        k = k + 1;
    }
    if k < r.len() {
        let rk = chars_of(r[k].as_str());
        assert(old_r[k as int] == rk@);
        proof {
            lemma_lt_total(rk@, xv@);
        }
        if text_lt_exec(&xv, &rk) {
            r.insert(k, x);
            proof {
                let n = r.deep_view();
                assert(n =~= old_r.insert(k as int, x@));
                assert forall|i: int, j: int| 0 <= i < j < n.len() implies text_lt(
                    #[trigger] n[i],
                    #[trigger] n[j],
                ) by {
                    if j < k {
                    } else if i < k && j == k {
                    } else if i < k && j > k {
                        assert(text_lt(old_r[i], x@));
                        assert(n[j] == old_r[j - 1]);
                        if j - 1 > k {
                            assert(text_lt(old_r[k as int], old_r[j - 1]));
                            lemma_lt_transitive(x@, old_r[k as int], old_r[j - 1]);
                        }
                        lemma_lt_transitive(old_r[i], x@, old_r[j - 1]);
                    } else if i == k {
                        assert(n[j] == old_r[j - 1]);
                        if j - 1 > k {
                            assert(text_lt(old_r[k as int], old_r[j - 1]));
                            lemma_lt_transitive(x@, old_r[k as int], old_r[j - 1]);
                        }
                    } else {
                        assert(n[i] == old_r[i - 1]);
                        assert(n[j] == old_r[j - 1]);
                    }
                }
                assert forall|y: Seq<char>| n.contains(y) <==> (old_r.contains(y) || y == x@) by {
                    if n.contains(y) {
                        let m = choose|m: int| 0 <= m < n.len() && n[m] == y;
                        if m < k {
                            assert(old_r[m] == y);
                        } else if m > k {
                            assert(old_r[m - 1] == y);
                        }
                    }
                    if old_r.contains(y) {
                        let m = choose|m: int| 0 <= m < old_r.len() && old_r[m] == y;
                        if m < k {
                            assert(n[m] == y);
                        } else {
                            assert(n[m + 1] == y);
                        }
                    }
                    if y == x@ {
                        assert(n[k as int] == y);
                    }
                }
            }
        } else {
            assert(rk@ == xv@) by {
                if text_lt(rk@, xv@) {
                }
            }
            assert(old_r.contains(x@)) by {
                assert(old_r[k as int] == x@);
            }
        }
    } else {
        let ghost before = r.deep_view();
        r.push(x);
        proof {
            let n = r.deep_view();
            assert(n =~= old_r.push(x@));
            assert forall|i: int, j: int| 0 <= i < j < n.len() implies text_lt(
                #[trigger] n[i],
                #[trigger] n[j],
            ) by {
                if j == n.len() - 1 {
                    assert(n[i] == old_r[i]);
                }
            }
            assert forall|y: Seq<char>| n.contains(y) <==> (old_r.contains(y) || y == x@) by {
                if n.contains(y) {
                    let m = choose|m: int| 0 <= m < n.len() && n[m] == y;
                    if m < old_r.len() {
                        assert(old_r[m] == y);
                    }
                }
                if old_r.contains(y) {
                    let m = choose|m: int| 0 <= m < old_r.len() && old_r[m] == y;
                    assert(n[m] == y);
                }
                if y == x@ {
                    assert(n[n.len() - 1] == y);
                }
            }
        }
    }
}

/// The texts of a list sorted in `String` order, each once.
pub fn sorted_unique(items: &Vec<String>) -> (r: Vec<String>)
    ensures
        sorted_set_of(r.deep_view(), items.deep_view()),
{
    let mut r: Vec<String> = Vec::new();
    let mut i: usize = 0;
    while i < items.len()
        invariant
            i <= items.len(),
            strictly_sorted(r.deep_view()),
            forall|y: Seq<char>|
                r.deep_view().contains(y) <==> items.deep_view().take(i as int).contains(y),
        decreases items.len() - i,
    {
        let ghost before = r.deep_view();
        insert_sorted(&mut r, items[i].clone());
        proof {
            let t = items.deep_view().take(i + 1);
            assert(t =~= items.deep_view().take(i as int).push(items@[i as int]@));
            assert forall|y: Seq<char>| r.deep_view().contains(y) <==> t.contains(y) by {
                if items.deep_view().take(i as int).contains(y) {
                    let m = choose|m: int|
                        0 <= m < i && items.deep_view().take(i as int)[m] == y;
                    assert(t[m] == y);
                }
                if y == items@[i as int]@ {
                    assert(t[i as int] == y);
                }
                if t.contains(y) {
                    let m = choose|m: int| 0 <= m < t.len() && t[m] == y;
                    if m < i {
                        assert(items.deep_view().take(i as int)[m] == y);
                    }
                }
            }
        }
        i = i + 1;
    }
    assert(items.deep_view().take(items.len() as int) =~= items.deep_view());
    r
}

/// The float rule that the editor proposes for a window class.
pub open spec fn float_rule(class: Seq<char>) -> Seq<char> {
    "float,class:^("@ + escape_parens(class) + ")$"@
}

/// The float rules of the classes that are not blank, in order.
pub open spec fn float_rules_of(classes: Seq<Seq<char>>) -> Seq<Seq<char>>
    decreases classes.len(),
{
    if classes.len() == 0 {
        Seq::empty()
    } else {
        let r = float_rules_of(classes.drop_last());
        if trim(classes.last()).len() > 0 {
            r.push(float_rule(classes.last()))
        } else {
            r
        }
    }
}

fn float_rule_exec(class: &[char]) -> (r: Vec<char>)
    ensures
        r@ == float_rule(class@),
{
    let lp = vec!['\\', '('];
    let rp = vec!['\\', ')'];
    assert(lp@ =~= seq!['\\', '(']);
    assert(rp@ =~= seq!['\\', ')']);
    let a = replace_char_exec(class, '(', &lp);
    let safe = replace_char_exec(&a, ')', &rp);
    let mut out = chars_of("float,class:^(");
    extend_chars(&mut out, &safe);
    extend_str(&mut out, ")$");
    out
}

/// The float rules for the classes of the open windows, sorted, each once.
pub fn window_float_rules(classes: &Vec<String>) -> (r: Vec<String>)
    ensures
        sorted_set_of(r.deep_view(), float_rules_of(classes.deep_view())),
{
    let mut rules: Vec<String> = Vec::new();
    let mut i: usize = 0;
    while i < classes.len()
        invariant
            i <= classes.len(),
            rules.deep_view() =~= float_rules_of(classes.deep_view().take(i as int)),
        decreases classes.len() - i,
    {
        assert(classes.deep_view().take(i + 1).drop_last() =~= classes.deep_view().take(i as int));
        assert(classes.deep_view().take(i + 1).last() == classes@[i as int]@);
        let c = chars_of(classes[i].as_str());
        let t = trim_chars(&c, CharClass::Whitespace);
        if t.len() > 0 {
            let ghost before = rules.deep_view();
            let f = float_rule_exec(&c);
            rules.push(string_of(&f));
            assert(rules.deep_view() =~= before.push(f@));
        }
        i = i + 1;
    }
    assert(classes.deep_view().take(classes.len() as int) =~= classes.deep_view());
    sorted_unique(&rules)
}

/// The rules already listed together with the proposed ones, sorted, each
/// once.
pub fn merge_rules(existing: &Vec<String>, detected: &Vec<String>) -> (r: Vec<String>)
    ensures
        sorted_set_of(r.deep_view(), existing.deep_view() + detected.deep_view()),
{
    let mut all: Vec<String> = Vec::new();
    append_strings(&mut all, existing);
    append_strings(&mut all, detected);
    assert(all.deep_view() =~= existing.deep_view() + detected.deep_view());
    sorted_unique(&all)
}

} // verus!
