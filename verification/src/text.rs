//! Character-level text operations with their mathematical meaning.
//!
//! Every string is viewed as a `Seq<char>`; the spec functions here give the
//! meaning of the std string operations that the rest of the library uses
//! (`trim`, `split`, `splitn`, `split_once`, `contains`, ...), and the exec
//! functions compute them on `Vec<char>`.
use vstd::prelude::*;
use vstd::slice::slice_subrange;
use vstd::slice::slice_to_vec;

verus! {

broadcast use vstd::string::group_string_axioms;

/// Unicode `White_Space`, the set that `char::is_whitespace` tests.
pub open spec fn is_ws(c: char) -> bool {
    let n = c as u32;
    ||| 0x09 <= n <= 0x0D
    ||| n == 0x20
    ||| n == 0x85
    ||| n == 0xA0
    ||| n == 0x1680
    ||| 0x2000 <= n <= 0x200A
    ||| n == 0x2028
    ||| n == 0x2029
    ||| n == 0x202F
    ||| n == 0x205F
    ||| n == 0x3000
}

/// A set of characters that a trim removes or a split cuts at.
#[derive(Clone, Copy)]
pub enum CharClass {
    Whitespace,
    One(char),
    Either(char, char),
}

pub open spec fn in_class(k: CharClass, c: char) -> bool {
    match k {
        CharClass::Whitespace => is_ws(c),
        CharClass::One(x) => c == x,
        CharClass::Either(x, y) => c == x || c == y,
    }
}

pub fn is_whitespace(c: char) -> (r: bool)
    ensures
        r == is_ws(c),
{
    let n = c as u32;
    (0x09 <= n && n <= 0x0D) || n == 0x20 || n == 0x85 || n == 0xA0 || n == 0x1680 || (0x2000
        <= n && n <= 0x200A) || n == 0x2028 || n == 0x2029 || n == 0x202F || n == 0x205F || n
        == 0x3000
}

pub fn class_has(k: CharClass, c: char) -> (r: bool)
    ensures
        r == in_class(k, c),
{
    match k {
        CharClass::Whitespace => is_whitespace(c),
        CharClass::One(x) => c == x,
        CharClass::Either(x, y) => c == x || c == y,
    }
}

/// `s` without its leading characters of class `k`.
pub open spec fn trim_start_by(s: Seq<char>, k: CharClass) -> Seq<char>
    decreases s.len(),
{
    if s.len() > 0 && in_class(k, s[0]) {
        trim_start_by(s.drop_first(), k)
    } else {
        s
    }
}

/// `s` without its trailing characters of class `k`.
pub open spec fn trim_end_by(s: Seq<char>, k: CharClass) -> Seq<char>
    decreases s.len(),
{
    if s.len() > 0 && in_class(k, s.last()) {
        trim_end_by(s.drop_last(), k)
    } else {
        s
    }
}

/// `str::trim_matches` for a class: both ends stripped.
pub open spec fn trim_by(s: Seq<char>, k: CharClass) -> Seq<char> {
    trim_end_by(trim_start_by(s, k), k)
}

/// `str::trim`.
pub open spec fn trim(s: Seq<char>) -> Seq<char> {
    trim_by(s, CharClass::Whitespace)
}

/// Appends one character to a string. Trusted: it calls `String::push`, whose
/// documentation says that it appends the character to the end of the string;
/// the contract states exactly that of the string's characters.
#[verifier::external_body]
pub(crate) fn push_char(s: &mut String, c: char)
    ensures
        final(s)@ == old(s)@.push(c),
{
    s.push(c);
}

/// The characters of a string.
pub fn chars_of(s: &str) -> (r: Vec<char>)
    ensures
        r@ == s@,
{
    let mut r: Vec<char> = Vec::new();
    for c in it: s.chars()
        invariant
            it.seq() == s@,
            r@ =~= s@.take(it.index() as int),
    {
        assert(s@.take(it.index() as int).push(c) =~= s@.take(it.index() + 1));
        r.push(c);
    }
    assert(r@ =~= s@);
    r
}

/// A string holding the given characters.
pub fn string_of(v: &[char]) -> (r: String)
    ensures
        r@ == v@,
{
    let mut r = String::new();
    let mut i: usize = 0;
    while i < v.len()
        invariant
            i <= v.len(),
            r@ =~= v@.take(i as int),
        decreases v.len() - i,
    {
        push_char(&mut r, v[i]);
        assert(v@.take(i as int).push(v@[i as int]) =~= v@.take(i + 1));
        i = i + 1;
    }
    assert(v@.take(v.len() as int) =~= v@);
    r
}

/// Appends characters to a vector of characters.
pub fn extend_chars(out: &mut Vec<char>, s: &[char])
    ensures
        final(out)@ == old(out)@ + s@,
{
    let mut i: usize = 0;
    while i < s.len()
        invariant
            i <= s.len(),
            out@ =~= old(out)@ + s@.take(i as int),
        decreases s.len() - i,
    {
        out.push(s[i]);
        assert(s@.take(i as int).push(s@[i as int]) =~= s@.take(i + 1));
        i = i + 1;
    }
    assert(s@.take(s.len() as int) =~= s@);
}

/// Appends the characters of a string to a vector of characters.
pub fn extend_str(out: &mut Vec<char>, s: &str)
    ensures
        final(out)@ == old(out)@ + s@,
{
    let v = chars_of(s);
    extend_chars(out, &v);
}

/// Whether two character sequences are equal.
pub fn chars_eq(a: &[char], b: &[char]) -> (r: bool)
    ensures
        r == (a@ == b@),
{
    if a.len() != b.len() {
        return false;
    }
    let mut i: usize = 0;
    while i < a.len()
        invariant
            i <= a.len(),
            a.len() == b.len(),
            forall|k: int| 0 <= k < i ==> a@[k] == b@[k],
        decreases a.len() - i,
    {
        if a[i] != b[i] {
            return false;
        }
        i = i + 1;
    }
    assert(a@ =~= b@);
    true
}

/// Whether a character sequence spells the given string.
pub fn is_text(a: &[char], lit: &str) -> (r: bool)
    ensures
        r == (a@ == lit@),
{
    let b = chars_of(lit);
    chars_eq(a, &b)
}

/// `trim_start_matches` / `trim_end_matches` for a class, computed at once.
pub fn trim_chars(v: &[char], k: CharClass) -> (r: Vec<char>)
    ensures
        r@ == trim_by(v@, k),
{
    let mut i: usize = 0;
    assert(v@.skip(0) =~= v@);
    while i < v.len() && class_has(k, v[i])
        invariant
            i <= v.len(),
            trim_start_by(v@, k) == trim_start_by(v@.skip(i as int), k),
        decreases v.len() - i,
    {
        assert(v@.skip(i as int).drop_first() =~= v@.skip(i + 1));
        i = i + 1;
    }
    let ghost mid = v@.skip(i as int);
    assert(trim_start_by(v@, k) == mid);
    let mut j: usize = v.len();
    assert(v@.subrange(i as int, j as int) =~= mid);
    while j > i && class_has(k, v[j - 1])
        invariant
            i <= j <= v.len(),
            mid == v@.skip(i as int),
            trim_end_by(mid, k) == trim_end_by(v@.subrange(i as int, j as int), k),
        decreases j,
    {
        assert(v@.subrange(i as int, j as int).drop_last() =~= v@.subrange(i as int, j - 1));
        j = j - 1;
    }
    let s = slice_subrange(v, i, j);
    slice_to_vec(s)
}

/// `str::trim` on a string.
pub fn trim_str(s: &str) -> (r: Vec<char>)
    ensures
        r@ == trim(s@),
{
    let v = chars_of(s);
    trim_chars(&v, CharClass::Whitespace)
}


/// `str::split` by a class of characters: the pieces between cut points,
/// always at least one.
pub open spec fn split_by(s: Seq<char>, k: CharClass) -> Seq<Seq<char>>
    decreases s.len(),
{
    if s.len() == 0 {
        seq![Seq::empty()]
    } else {
        let r = split_by(s.drop_last(), k);
        if in_class(k, s.last()) {
            r.push(Seq::empty())
        } else {
            r.update(r.len() - 1, r.last().push(s.last()))
        }
    }
}

/// `str::split` by one character.
pub open spec fn split(s: Seq<char>, c: char) -> Seq<Seq<char>> {
    split_by(s, CharClass::One(c))
}

/// `[..].join(sep)`.
pub open spec fn join(p: Seq<Seq<char>>, sep: Seq<char>) -> Seq<char>
    decreases p.len(),
{
    if p.len() == 0 {
        Seq::empty()
    } else if p.len() == 1 {
        p[0]
    } else {
        join(p.drop_last(), sep) + sep + p.last()
    }
}

/// `str::splitn(n, c)` for `n >= 1`: at most `n` pieces, the last one holding
/// the rest of the text.
pub open spec fn splitn(s: Seq<char>, n: nat, c: char) -> Seq<Seq<char>> {
    let p = split(s, c);
    if p.len() <= n {
        p
    } else {
        p.take(n - 1).push(join(p.skip(n - 1), seq![c]))
    }
}

/// `str::split_once(c)`.
pub open spec fn split_once(s: Seq<char>, c: char) -> Option<(Seq<char>, Seq<char>)> {
    let p = split(s, c);
    if p.len() < 2 {
        None
    } else {
        Some((p[0], join(p.skip(1), seq![c])))
    }
}

/// The texts held by a vector of character vectors.
pub open spec fn views(p: Seq<Vec<char>>) -> Seq<Seq<char>> {
    p.map_values(|x: Vec<char>| x@)
}

/// The text held by an optional character vector.
pub open spec fn opt_view(r: Option<Vec<char>>) -> Option<Seq<char>> {
    match r {
        Some(x) => Some(x@),
        None => None,
    }
}

/// `slice.get(i)` on a sequence of pieces.
pub open spec fn piece(p: Seq<Seq<char>>, i: int) -> Option<Seq<char>> {
    if 0 <= i < p.len() {
        Some(p[i])
    } else {
        None
    }
}

pub proof fn lemma_split_nonempty(s: Seq<char>, k: CharClass)
    ensures
        split_by(s, k).len() >= 1,
    decreases s.len(),
{
    if s.len() > 0 {
        lemma_split_nonempty(s.drop_last(), k);
    }
}

/// Pieces of a split never hold a cut character.
pub proof fn lemma_split_pieces_free(s: Seq<char>, k: CharClass)
    ensures
        forall|i: int, j: int|
            0 <= i < split_by(s, k).len() && 0 <= j < split_by(s, k)[i].len() ==> !in_class(
                k,
                #[trigger] split_by(s, k)[i][j],
            ),
    decreases s.len(),
{
    if s.len() > 0 {
        lemma_split_pieces_free(s.drop_last(), k);
        lemma_split_nonempty(s.drop_last(), k);
    }
}

/// Joining the pieces of a split at `c` with `c` gives the text back.
pub proof fn lemma_join_split(s: Seq<char>, c: char)
    ensures
        join(split(s, c), seq![c]) == s,
    decreases s.len(),
{
    if s.len() == 0 {
    } else {
        let r = split(s.drop_last(), c);
        lemma_join_split(s.drop_last(), c);
        lemma_split_nonempty(s.drop_last(), CharClass::One(c));
        if s.last() == c {
            let q = r.push(Seq::<char>::empty());
            assert(q.drop_last() =~= r);
            assert(join(q, seq![c]) =~= s);
        } else {
            let q = r.update(r.len() - 1, r.last().push(s.last()));
            if r.len() == 1 {
                assert(q.len() == 1);
                assert(join(r, seq![c]) == r[0]);
                assert(join(q, seq![c]) == q[0]);
                assert(s.drop_last().push(s.last()) =~= s);
            } else {
                assert(q.drop_last() =~= r.drop_last());
                assert(join(r, seq![c]) == join(r.drop_last(), seq![c]) + seq![c] + r.last());
                assert(join(q, seq![c]) == join(q.drop_last(), seq![c]) + seq![c] + q.last());
                assert(s.drop_last().push(s.last()) =~= s);
                assert(join(q, seq![c]) =~= s);
            }
        }
    }
}

/// `split` of a text with no cut character is that text alone.
pub proof fn lemma_split_free(s: Seq<char>, k: CharClass)
    requires
        forall|j: int| 0 <= j < s.len() ==> !in_class(k, #[trigger] s[j]),
    ensures
        split_by(s, k) == seq![s],
    decreases s.len(),
{
    if s.len() > 0 {
        assert forall|j: int| 0 <= j < s.drop_last().len() implies !in_class(
            k,
            #[trigger] s.drop_last()[j],
        ) by {
            assert(s.drop_last()[j] == s[j]);
        }
        lemma_split_free(s.drop_last(), k);
        assert(!in_class(k, s[s.len() - 1]));
        assert(s.drop_last().push(s.last()) =~= s);
        assert(seq![s.drop_last()].update(0, s.drop_last().push(s.last())) =~= seq![s]);
    } else {
        assert(s =~= Seq::<char>::empty());
    }
}

/// Splits text into pieces at every character of class `k`.
pub fn split_chars(v: &[char], k: CharClass) -> (r: Vec<Vec<char>>)
    ensures
        views(r@) == split_by(v@, k),
{
    let mut pieces: Vec<Vec<char>> = Vec::new();
    let mut cur: Vec<char> = Vec::new();
    let mut i: usize = 0;
    assert(v@.take(0) =~= Seq::<char>::empty());
    assert(views(pieces@).push(cur@) =~= split_by(v@.take(0), k));
    while i < v.len()
        invariant
            i <= v.len(),
            views(pieces@).push(cur@) =~= split_by(v@.take(i as int), k),
        decreases v.len() - i,
    {
        let ghost before = views(pieces@);
        let ghost prev = split_by(v@.take(i as int), k);
        assert(v@.take(i + 1).drop_last() =~= v@.take(i as int));
        assert(v@.take(i + 1).last() == v@[i as int]);
        if class_has(k, v[i]) {
            let done = cur;
            pieces.push(done);
            cur = Vec::new();
            assert(views(pieces@) =~= before.push(done@));
            assert(views(pieces@).push(cur@) =~= prev.push(Seq::empty()));
        } else {
            cur.push(v[i]);
            assert(views(pieces@).push(cur@) =~= prev.update(
                prev.len() - 1,
                prev.last().push(v@[i as int]),
            ));
        }
        i = i + 1;
    }
    assert(v@.take(v.len() as int) =~= v@);
    let ghost before = views(pieces@);
    let last = cur;
    pieces.push(last);
    assert(views(pieces@) =~= before.push(last@));
    pieces
}

/// Joins pieces with a separator.
pub fn join_chars(p: &Vec<Vec<char>>, sep: &[char]) -> (r: Vec<char>)
    ensures
        r@ == join(views(p@), sep@),
{
    let mut out: Vec<char> = Vec::new();
    let mut i: usize = 0;
    while i < p.len()
        invariant
            i <= p.len(),
            out@ == join(views(p@).take(i as int), sep@),
        decreases p.len() - i,
    {
        let ghost q = views(p@).take(i + 1);
        assert(q.drop_last() =~= views(p@).take(i as int));
        if i > 0 {
            extend_chars(&mut out, sep);
        }
        extend_chars(&mut out, p[i].as_slice());
        assert(q.last() == p[i as int]@);
        if i == 0 {
            assert(out@ =~= join(q, sep@));
        }
        i = i + 1;
    }
    assert(views(p@).take(p.len() as int) =~= views(p@));
    out
}

/// Joins strings with a separator.
pub fn join_strings(p: &Vec<String>, sep: &str) -> (r: String)
    ensures
        r@ == join(p.deep_view(), sep@),
{
    let sep_v = chars_of(sep);
    let mut out: Vec<char> = Vec::new();
    let mut i: usize = 0;
    while i < p.len()
        invariant
            i <= p.len(),
            sep_v@ == sep@,
            out@ == join(p.deep_view().take(i as int), sep@),
        decreases p.len() - i,
    {
        let ghost q = p.deep_view().take(i + 1);
        assert(q.drop_last() =~= p.deep_view().take(i as int));
        if i > 0 {
            extend_chars(&mut out, &sep_v);
        }
        extend_str(&mut out, p[i].as_str());
        assert(q.last() == p[i as int]@);
        if i == 0 {
            assert(out@ =~= join(q, sep@));
        }
        i = i + 1;
    }
    assert(p.deep_view().take(p.len() as int) =~= p.deep_view());
    string_of(&out)
}

/// `str::splitn(n, c)`.
pub fn splitn_chars(v: &[char], n: usize, c: char) -> (r: Vec<Vec<char>>)
    requires
        n >= 1,
    ensures
        views(r@) == splitn(v@, n as nat, c),
{
    let p = split_chars(v, CharClass::One(c));
    if p.len() <= n {
        return p;
    }
    let mut out: Vec<Vec<char>> = Vec::new();
    let mut i: usize = 0;
    while i < n - 1
        invariant
            n >= 1,
            i <= n - 1,
            n < p.len(),
            views(out@) =~= views(p@).take(i as int),
        decreases n - 1 - i,
    {
        let ghost before = views(out@);
        out.push(p[i].clone());
        assert(views(out@) =~= before.push(views(p@)[i as int]));
        i = i + 1;
    }
    let mut rest: Vec<Vec<char>> = Vec::new();
    let mut j: usize = n - 1;
    while j < p.len()
        invariant
            n >= 1,
            n - 1 <= j <= p.len(),
            views(rest@) =~= views(p@).subrange(n - 1, j as int),
        decreases p.len() - j,
    {
        let ghost before = views(rest@);
        rest.push(p[j].clone());
        assert(views(rest@) =~= before.push(views(p@)[j as int]));
        j = j + 1;
    }
    let sep = vec![c];
    let tail = join_chars(&rest, &sep);
    assert(sep@ =~= seq![c]);
    assert(views(rest@) =~= views(p@).skip(n - 1));
    let ghost before = views(out@);
    out.push(tail);
    assert(views(out@) =~= before.push(tail@));
    out
}

/// `str::split_once(c)`.
pub fn split_once_chars(v: &[char], c: char) -> (r: Option<(Vec<char>, Vec<char>)>)
    ensures
        match r {
            Some((a, b)) => split_once(v@, c) == Some((a@, b@)),
            None => split_once(v@, c) is None,
        },
{
    let p = splitn_chars(v, 2, c);
    proof { lemma_split_nonempty(v@, CharClass::One(c)); }
    assert(views(p@).len() == p@.len());
    if p.len() < 2 {
        return None;
    }
    let a = p[0].clone();
    let b = p[1].clone();
    assert(views(p@)[0] == a@);
    assert(views(p@)[1] == b@);
    proof {
        let q = split(v@, c);
        if q.len() == 2 {
            let t = q.skip(1);
            assert(t =~= seq![q[1]]);
        } else {
            assert(q.take(1).push(join(q.skip(1), seq![c]))[0] == q[0]);
        }
    }
    Some((a, b))
}


/// `pat` occurs in `s` at position `i`.
pub open spec fn occurs_at(s: Seq<char>, pat: Seq<char>, i: int) -> bool {
    0 <= i && i + pat.len() <= s.len() && s.subrange(i, i + pat.len()) == pat
}

/// `str::contains(pat)`.
pub open spec fn contains(s: Seq<char>, pat: Seq<char>) -> bool {
    exists|i: int| occurs_at(s, pat, i)
}

/// `i` is the leftmost position where `pat` occurs in `s`.
pub open spec fn first_at(s: Seq<char>, pat: Seq<char>, i: int) -> bool {
    occurs_at(s, pat, i) && forall|j: int| 0 <= j < i ==> !occurs_at(s, pat, j)
}

/// The leftmost position where `pat` occurs in `s` (meaningful when it occurs).
pub open spec fn first_pos(s: Seq<char>, pat: Seq<char>) -> int {
    choose|i: int| first_at(s, pat, i)
}

/// `s.split(pat).nth(1)`: the text between the first occurrence of `pat`
/// and the next one (or the end), when `pat` occurs at all.
pub open spec fn after_first(s: Seq<char>, pat: Seq<char>) -> Option<Seq<char>> {
    if contains(s, pat) {
        let rest = s.skip(first_pos(s, pat) + pat.len());
        if contains(rest, pat) {
            Some(rest.take(first_pos(rest, pat)))
        } else {
            Some(rest)
        }
    } else {
        None
    }
}

/// `str::starts_with(pat)`.
pub open spec fn starts_with(s: Seq<char>, pat: Seq<char>) -> bool {
    pat.len() <= s.len() && s.take(pat.len() as int) == pat
}

/// `str::ends_with(pat)`.
pub open spec fn ends_with(s: Seq<char>, pat: Seq<char>) -> bool {
    pat.len() <= s.len() && s.skip(s.len() - pat.len()) == pat
}

pub proof fn lemma_first_unique(s: Seq<char>, pat: Seq<char>, i: int)
    requires
        first_at(s, pat, i),
    ensures
        first_pos(s, pat) == i,
        contains(s, pat),
{
    let k = first_pos(s, pat);
    assert(first_at(s, pat, k));
    if k < i {
        assert(!occurs_at(s, pat, k));
    } else if i < k {
        assert(!occurs_at(s, pat, i));
    }
}

/// Whether `pat` occurs in `v` at position `i`.
pub fn occurs_at_exec(v: &[char], pat: &[char], i: usize) -> (r: bool)
    ensures
        r == occurs_at(v@, pat@, i as int),
{
    if i > v.len() || pat.len() > v.len() - i {
        return false;
    }
    let mut k: usize = 0;
    while k < pat.len()
        invariant
            i + pat.len() <= v.len(),
            k <= pat.len(),
            forall|m: int| 0 <= m < k ==> v@[i + m] == pat@[m],
        decreases pat.len() - k,
    {
        if v[i + k] != pat[k] {
            assert(v@.subrange(i as int, i + pat.len())[k as int] != pat@[k as int]);
            return false;
        }
        k = k + 1;
    }
    assert(v@.subrange(i as int, i + pat.len()) =~= pat@);
    true
}

/// The leftmost position at or after `start` where `pat` occurs.
pub fn find_from(v: &[char], pat: &[char], start: usize) -> (r: Option<usize>)
    requires
        start <= v.len(),
    ensures
        match r {
            Some(i) => start <= i && occurs_at(v@, pat@, i as int) && forall|j: int|
                start <= j < i ==> !occurs_at(v@, pat@, j),
            None => forall|j: int| start <= j ==> !occurs_at(v@, pat@, j),
        },
{
    let mut i = start;
    while i < v.len()
        invariant
            start <= i <= v.len(),
            forall|j: int| start <= j < i ==> !occurs_at(v@, pat@, j),
        decreases v.len() - i,
    {
        if occurs_at_exec(v, pat, i) {
            return Some(i);
        }
        i = i + 1;
    }
    if occurs_at_exec(v, pat, i) {
        return Some(i);
    }
    assert forall|j: int| start <= j implies !occurs_at(v@, pat@, j) by {
        if j > i {
            assert(j + pat@.len() > v@.len());
        }
    }
    None
}

/// `str::contains(pat)`.
pub fn contains_exec(v: &[char], pat: &[char]) -> (r: bool)
    ensures
        r == contains(v@, pat@),
{
    match find_from(v, pat, 0) {
        Some(i) => true,
        None => {
            assert(!contains(v@, pat@)) by {
                if contains(v@, pat@) {
                    let j = choose|j: int| occurs_at(v@, pat@, j);
                    assert(!occurs_at(v@, pat@, j));
                }
            }
            false
        },
    }
}

/// `str::contains` for a string pattern.
pub fn contains_text(v: &[char], pat: &str) -> (r: bool)
    ensures
        r == contains(v@, pat@),
{
    let p = chars_of(pat);
    contains_exec(v, &p)
}

/// `str::starts_with` for a string pattern.
pub fn starts_with_text(v: &[char], pat: &str) -> (r: bool)
    ensures
        r == starts_with(v@, pat@),
{
    let p = chars_of(pat);
    let r = occurs_at_exec(v, &p, 0);
    assert(r == starts_with(v@, pat@)) by {
        if p@.len() <= v@.len() {
            assert(v@.subrange(0, p@.len() as int) =~= v@.take(p@.len() as int));
        }
    }
    r
}

/// `str::ends_with` for a string pattern.
pub fn ends_with_text(v: &[char], pat: &str) -> (r: bool)
    ensures
        r == ends_with(v@, pat@),
{
    let p = chars_of(pat);
    if p.len() > v.len() {
        return false;
    }
    let r = occurs_at_exec(v, &p, v.len() - p.len());
    assert(v@.subrange(v.len() - p.len(), v.len() as int) =~= v@.skip(v.len() - p.len()));
    r
}

/// The rest of `v` after `n` characters.
pub fn skip_chars(v: &[char], n: usize) -> (r: Vec<char>)
    requires
        n <= v.len(),
    ensures
        r@ == v@.skip(n as int),
{
    let s = slice_subrange(v, n, v.len());
    assert(v@.subrange(n as int, v.len() as int) =~= v@.skip(n as int));
    slice_to_vec(s)
}

/// The characters of `v` from `a` to `b`.
pub fn sub_chars(v: &[char], a: usize, b: usize) -> (r: Vec<char>)
    requires
        a <= b <= v.len(),
    ensures
        r@ == v@.subrange(a as int, b as int),
{
    let s = slice_subrange(v, a, b);
    slice_to_vec(s)
}

/// `s.split(pat).nth(1)`.
pub fn after_first_exec(v: &[char], pat: &[char]) -> (r: Option<Vec<char>>)
    ensures
        match r {
            Some(x) => after_first(v@, pat@) == Some(x@),
            None => after_first(v@, pat@) is None,
        },
{
    match find_from(v, pat, 0) {
        None => {
            assert(!contains(v@, pat@)) by {
                if contains(v@, pat@) {
                    let j = choose|j: int| occurs_at(v@, pat@, j);
                    assert(!occurs_at(v@, pat@, j));
                }
            }
            None
        },
        Some(i) => {
            proof {
                lemma_first_unique(v@, pat@, i as int);
            }
            assert(occurs_at(v@, pat@, i as int));
            assert(i + pat@.len() <= v@.len());
            assert(pat@.len() == pat.len());
            assert(v@.len() == v.len());
            let a = i + pat.len();
            let ghost rest = v@.skip(a as int);
            assert forall|j: int| 0 <= j implies occurs_at(rest, pat@, j) == occurs_at(
                v@,
                pat@,
                a + j,
            ) by {
                if 0 <= j && j + pat@.len() <= rest.len() {
                    assert(rest.subrange(j, j + pat@.len()) =~= v@.subrange(
                        a + j,
                        a + j + pat@.len(),
                    ));
                }
            }
            match find_from(v, pat, a) {
                None => {
                    assert(!contains(rest, pat@)) by {
                        if contains(rest, pat@) {
                            let j = choose|j: int| occurs_at(rest, pat@, j);
                            assert(occurs_at(v@, pat@, a + j));
                        }
                    }
                    Some(skip_chars(v, a))
                },
                Some(j) => {
                    assert(first_at(rest, pat@, j - a)) by {
                        assert(occurs_at(v@, pat@, j as int));
                        assert forall|m: int| 0 <= m < j - a implies !occurs_at(rest, pat@, m) by {
                            assert(!occurs_at(v@, pat@, a + m));
                        }
                    }
                    proof {
                        lemma_first_unique(rest, pat@, j - a);
                    }
                    let x = sub_chars(v, a, j);
                    assert(x@ =~= rest.take(j - a));
                    Some(x)
                },
            }
        },
    }
}

/// `str::replace(c, r)` for one character.
pub open spec fn replace_char(s: Seq<char>, c: char, r: Seq<char>) -> Seq<char>
    decreases s.len(),
{
    if s.len() == 0 {
        Seq::empty()
    } else {
        replace_char(s.drop_last(), c, r) + (if s.last() == c {
            r
        } else {
            seq![s.last()]
        })
    }
}

/// `str::replace(c, r)` for one character.
pub fn replace_char_exec(v: &[char], c: char, rv: &[char]) -> (out: Vec<char>)
    ensures
        out@ == replace_char(v@, c, rv@),
{
    let ghost r = rv@;
    let mut out: Vec<char> = Vec::new();
    let mut i: usize = 0;
    while i < v.len()
        invariant
            i <= v.len(),
            rv@ == r,
            out@ == replace_char(v@.take(i as int), c, r),
        decreases v.len() - i,
    {
        assert(v@.take(i + 1).drop_last() =~= v@.take(i as int));
        if v[i] == c {
            extend_chars(&mut out, &rv);
        } else {
            out.push(v[i]);
            assert(out@ =~= replace_char(v@.take(i as int), c, r) + seq![v@[i as int]]);
        }
        i = i + 1;
    }
    assert(v@.take(v.len() as int) =~= v@);
    out
}

/// The values held by the `Some` entries, in order (`filter_map`).
pub open spec fn somes(s: Seq<Option<Seq<char>>>) -> Seq<Seq<char>>
    decreases s.len(),
{
    if s.len() == 0 {
        Seq::empty()
    } else {
        let r = somes(s.drop_last());
        match s.last() {
            Some(x) => r.push(x),
            None => r,
        }
    }
}

/// The non-empty pieces of a split at whitespace: `str::split_whitespace`.
pub open spec fn split_whitespace(s: Seq<char>) -> Seq<Seq<char>> {
    split_by(s, CharClass::Whitespace).filter(|p: Seq<char>| p.len() > 0)
}

/// `str::split_whitespace`.
pub fn split_whitespace_exec(v: &[char]) -> (r: Vec<Vec<char>>)
    ensures
        views(r@) == split_whitespace(v@),
{
    let p = split_chars(v, CharClass::Whitespace);
    let ghost all = views(p@);
    let mut out: Vec<Vec<char>> = Vec::new();
    let mut i: usize = 0;
    while i < p.len()
        invariant
            i <= p.len(),
            all == views(p@),
            views(out@) == all.take(i as int).filter(|q: Seq<char>| q.len() > 0),
        decreases p.len() - i,
    {
        reveal_with_fuel(Seq::filter, 1);
        assert(all.take(i + 1).drop_last() =~= all.take(i as int));
        let ghost before = views(out@);
        if p[i].len() > 0 {
            out.push(p[i].clone());
            assert(views(out@) =~= before.push(all[i as int]));
        }
        i = i + 1;
    }
    assert(all.take(p.len() as int) =~= all);
    out
}


/// The number of bytes of a character in UTF-8.
pub open spec fn utf8_width(c: char) -> nat {
    let n = c as u32;
    if n < 0x80 {
        1
    } else if n < 0x800 {
        2
    } else if n < 0x10000 {
        3
    } else {
        4
    }
}

/// The number of bytes of a text in UTF-8 (`str::len`).
pub open spec fn utf8_len(s: Seq<char>) -> nat
    decreases s.len(),
{
    if s.len() == 0 {
        0
    } else {
        utf8_len(s.drop_last()) + utf8_width(s.last())
    }
}

pub proof fn lemma_utf8_len_prefix(s: Seq<char>, i: int)
    requires
        0 <= i <= s.len(),
    ensures
        utf8_len(s.take(i)) <= utf8_len(s),
    decreases s.len(),
{
    if i < s.len() {
        lemma_utf8_len_prefix(s.drop_last(), i);
        assert(s.drop_last().take(i) =~= s.take(i));
    } else {
        assert(s.take(i) =~= s);
    }
}

pub fn utf8_width_exec(c: char) -> (r: usize)
    ensures
        r == utf8_width(c),
{
    let n = c as u32;
    if n < 0x80 {
        1
    } else if n < 0x800 {
        2
    } else if n < 0x10000 {
        3
    } else {
        4
    }
}

/// Whether a text takes exactly `k` bytes in UTF-8.
pub fn utf8_len_is(v: &[char], k: usize) -> (r: bool)
    ensures
        r == (utf8_len(v@) == k),
{
    let mut acc: usize = 0;
    let mut i: usize = 0;
    while i < v.len()
        invariant
            i <= v.len(),
            acc == utf8_len(v@.take(i as int)),
            acc <= k,
        decreases v.len() - i,
    {
        assert(v@.take(i + 1).drop_last() =~= v@.take(i as int));
        let w = utf8_width_exec(v[i]);
        if w > k - acc {
            proof {
                lemma_utf8_len_prefix(v@, i + 1);
            }
            return false;
        }
        acc = acc + w;
        i = i + 1;
    }
    assert(v@.take(v.len() as int) =~= v@);
    acc == k
}


/// Replacing characters distributes over concatenation.
pub proof fn lemma_replace_append(a: Seq<char>, b: Seq<char>, c: char, r: Seq<char>)
    ensures
        replace_char(a + b, c, r) == replace_char(a, c, r) + replace_char(b, c, r),
    decreases b.len(),
{
    if b.len() == 0 {
        assert(a + b =~= a);
        assert(replace_char(a, c, r) + replace_char(b, c, r) =~= replace_char(a, c, r));
    } else {
        lemma_replace_append(a, b.drop_last(), c, r);
        assert((a + b).drop_last() =~= a + b.drop_last());
        assert((a + b).last() == b.last());
    }
}

/// Trimming the end of a text whose first character stays, keeps it.
pub proof fn lemma_trim_end_first_kept(s: Seq<char>, k: CharClass)
    requires
        s.len() > 0,
        !in_class(k, s[0]),
    ensures
        trim_end_by(s, k).len() > 0,
        trim_end_by(s, k)[0] == s[0],
    decreases s.len(),
{
    if in_class(k, s.last()) {
        assert(s.len() > 1);
        assert(s.drop_last()[0] == s[0]);
        lemma_trim_end_first_kept(s.drop_last(), k);
    }
}

pub proof fn lemma_trim_start_idem(s: Seq<char>, k: CharClass)
    ensures
        trim_start_by(trim_start_by(s, k), k) == trim_start_by(s, k),
    decreases s.len(),
{
    if s.len() > 0 && in_class(k, s[0]) {
        lemma_trim_start_idem(s.drop_first(), k);
    }
}

pub proof fn lemma_trim_end_idem(s: Seq<char>, k: CharClass)
    ensures
        trim_end_by(trim_end_by(s, k), k) == trim_end_by(s, k),
    decreases s.len(),
{
    if s.len() > 0 && in_class(k, s.last()) {
        lemma_trim_end_idem(s.drop_last(), k);
    }
}

/// A text with no cut character at its start is unchanged by trimming it.
proof fn lemma_trim_start_noop(s: Seq<char>, k: CharClass)
    requires
        s.len() == 0 || !in_class(k, s[0]),
    ensures
        trim_start_by(s, k) == s,
{
}

/// Trimming twice is trimming once.
pub proof fn lemma_trim_idem(s: Seq<char>, k: CharClass)
    ensures
        trim_by(trim_by(s, k), k) == trim_by(s, k),
{
    let a = trim_start_by(s, k);
    let b = trim_end_by(a, k);
    lemma_trim_start_first(s, k);
    if b.len() > 0 {
        lemma_trim_end_first_kept(a, k);
    }
    lemma_trim_start_noop(b, k);
    lemma_trim_end_idem(a, k);
}

/// After trimming the start, the text is empty or starts with a kept
/// character.
pub proof fn lemma_trim_start_first(s: Seq<char>, k: CharClass)
    ensures
        trim_start_by(s, k).len() == 0 || !in_class(k, trim_start_by(s, k)[0]),
    decreases s.len(),
{
    if s.len() > 0 && in_class(k, s[0]) {
        lemma_trim_start_first(s.drop_first(), k);
    }
}

/// Splitting `a`, a cut character, then `b`, where `a` has no cut character:
/// `a` is the first piece and the pieces of `b` follow.
pub proof fn lemma_split_concat(a: Seq<char>, c: char, b: Seq<char>, k: CharClass)
    requires
        in_class(k, c),
        forall|j: int| 0 <= j < a.len() ==> !in_class(k, #[trigger] a[j]),
    ensures
        split_by(a + seq![c] + b, k) == seq![a] + split_by(b, k),
    decreases b.len(),
{
    let s = a + seq![c] + b;
    if b.len() == 0 {
        assert(s =~= a.push(c));
        assert(s.drop_last() =~= a);
        lemma_split_free(a, k);
        assert(split_by(s, k) =~= seq![a].push(Seq::empty()));
        assert(seq![a] + split_by(b, k) =~= seq![a].push(Seq::empty()));
    } else {
        lemma_split_concat(a, c, b.drop_last(), k);
        assert(s.drop_last() =~= a + seq![c] + b.drop_last());
        assert(s.last() == b.last());
        lemma_split_nonempty(b.drop_last(), k);
        let t = split_by(b.drop_last(), k);
        if in_class(k, b.last()) {
            assert((seq![a] + t).push(Seq::empty()) =~= seq![a] + t.push(Seq::empty()));
        } else {
            let q = seq![a] + t;
            assert(q.update(q.len() - 1, q.last().push(b.last())) =~= seq![a] + t.update(
                t.len() - 1,
                t.last().push(b.last()),
            ));
        }
    }
}

} // verus!
