use vstd::prelude::*;

verus! {

/// Appends one character to a string (`String::push`).
#[verifier::external_body]
pub(crate) fn push_char(s: &mut String, c: char)
    ensures
        final(s)@ == old(s)@.push(c),
{
    s.push(c);
}

/// The characters of a string slice, in order.
pub fn chars_of(s: &str) -> (v: Vec<char>)
    ensures
        v@ == s@,
{
    let mut v: Vec<char> = Vec::new();
    for c in it: s.chars()
        invariant
            v@ == it.seq().take(it.index() as int),
    {
        v.push(c);
    }
    v
}

/// A string made of the given characters.
pub fn string_of(v: &[char]) -> (s: String)
    ensures
        s@ == v@,
{
    let mut s = String::new();
    let mut i: usize = 0;
    while i < v.len()
        invariant
            i <= v.len(),
            s@ == v@.take(i as int),
        decreases v.len() - i,
    {
        push_char(&mut s, v[i]);
        proof {
            assert(v@.take(i as int).push(v@[i as int]) =~= v@.take(i + 1));
        }
        i = i + 1;
    }
    proof {
        assert(v@.take(v.len() as int) =~= v@);
    }
    s
}

/// `s` followed by `t`.
pub fn join2(s: &str, t: &str) -> (r: String)
    ensures
        r@ == s@ + t@,
{
    let r = String::from_str(s);
    r.concat(t)
}

/// ASCII upper-case letters are mapped to lower case; every other character is kept.
pub open spec fn lower_char(c: char) -> char {
    if 'A' <= c && c <= 'Z' {
        ((c as u32) + 32) as char
    } else {
        c
    }
}

pub open spec fn ascii_lower(s: Seq<char>) -> Seq<char> {
    s.map_values(|c: char| lower_char(c))
}

/// Equality of two texts when ASCII letters are compared without regard to case.
pub open spec fn eq_ascii_ci(a: Seq<char>, b: Seq<char>) -> bool {
    ascii_lower(a) == ascii_lower(b)
}

pub fn lower_char_exec(c: char) -> (r: char)
    ensures
        r == lower_char(c),
{
    if 'A' <= c && c <= 'Z' {
        let b: u8 = c as u8;
        assert(b as u32 == c as u32);
        ((b + 32) as char)
    } else {
        c
    }
}

/// `str::to_ascii_lowercase`.
pub fn to_ascii_lowercase(s: &str) -> (r: String)
    ensures
        r@ == ascii_lower(s@),
{
    let v = chars_of(s);
    let mut r = String::new();
    let mut i: usize = 0;
    while i < v.len()
        invariant
            i <= v.len(),
            v@ == s@,
            r@ == ascii_lower(s@).take(i as int),
        decreases v.len() - i,
    {
        let c = lower_char_exec(v[i]);
        push_char(&mut r, c);
        proof {
            assert(ascii_lower(s@).take(i as int).push(c) =~= ascii_lower(s@).take(i + 1));
        }
        i = i + 1;
    }
    proof {
        assert(ascii_lower(s@).take(v.len() as int) =~= ascii_lower(s@));
    }
    r
}

/// `str::eq_ignore_ascii_case`.
pub fn eq_ignore_ascii_case(a: &str, b: &str) -> (r: bool)
    ensures
        r == eq_ascii_ci(a@, b@),
{
    let va = chars_of(a);
    let vb = chars_of(b);
    if va.len() != vb.len() {
        proof {
            assert(ascii_lower(a@).len() != ascii_lower(b@).len());
        }
        return false;
    }
    let mut i: usize = 0;
    while i < va.len()
        invariant
            i <= va.len(),
            va.len() == vb.len(),
            va@ == a@,
            vb@ == b@,
            forall|j: int| 0 <= j < i ==> lower_char(a@[j]) == lower_char(b@[j]),
        decreases va.len() - i,
    {
        if lower_char_exec(va[i]) != lower_char_exec(vb[i]) {
            proof {
                assert(ascii_lower(a@)[i as int] != ascii_lower(b@)[i as int]);
            }
            return false;
        }
        i = i + 1;
    }
    proof {
        assert(ascii_lower(a@) =~= ascii_lower(b@));
    }
    true
}


/// A string made of `v[from..to]`.
pub fn string_of_range(v: &[char], from: usize, to: usize) -> (s: String)
    requires
        from <= to <= v.len(),
    ensures
        s@ == v@.subrange(from as int, to as int),
{
    let mut s = String::new();
    let mut i: usize = from;
    while i < to
        invariant
            from <= i <= to <= v.len(),
            s@ == v@.subrange(from as int, i as int),
        decreases to - i,
    {
        push_char(&mut s, v[i]);
        proof {
            assert(v@.subrange(from as int, i as int).push(v@[i as int]) =~= v@.subrange(
                from as int,
                i + 1,
            ));
        }
        i = i + 1;
    }
    s
}

/// `n` occurs in `s` as a contiguous piece.
pub open spec fn has_infix(s: Seq<char>, n: Seq<char>) -> bool {
    exists|i: int| 0 <= i && i + n.len() <= s.len() && #[trigger] s.subrange(i, i + n.len()) == n
}

/// `s[at..at + n.len()] == n`, for `at + n.len() <= s.len()`.
fn matches_at(s: &[char], n: &[char], at: usize) -> (r: bool)
    requires
        at + n.len() <= s.len(),
    ensures
        r == (s@.subrange(at as int, at + n.len()) == n@),
{
    let mut k: usize = 0;
    while k < n.len()
        invariant
            k <= n.len(),
            at + n.len() <= s.len(),
            forall|j: int| 0 <= j < k ==> s@[at + j] == n@[j],
        decreases n.len() - k,
    {
        if s[at + k] != n[k] {
            proof {
                assert(s@.subrange(at as int, at + n.len())[k as int] != n@[k as int]);
            }
            return false;
        }
        k = k + 1;
    }
    proof {
        assert(s@.subrange(at as int, at + n.len()) =~= n@);
    }
    true
}

/// Whether `n` occurs in `s`, over characters.
pub fn contains_chars(s: &[char], n: &[char]) -> (r: bool)
    ensures
        r == has_infix(s@, n@),
{
    if n.len() > s.len() {
        return false;
    }
    if n.len() == 0 {
        proof {
            assert(s@.subrange(0, 0 + n@.len() as int) =~= n@);
            assert(has_infix(s@, n@));
        }
        return true;
    }
    let last: usize = s.len() - n.len();
    let mut i: usize = 0;
    while i <= last
        invariant
            n.len() <= s.len(),
            last == s.len() - n.len(),
            last < s.len(),
            i <= last + 1,
            forall|j: int| 0 <= j < i ==> #[trigger] s@.subrange(j, j + n.len()) != n@,
        decreases last + 1 - i,
    {
        if matches_at(s, n, i) {
            return true;
        }
        i = i + 1;
    }
    false
}

/// `str::contains` for a string pattern.
pub fn contains(s: &str, n: &str) -> (r: bool)
    ensures
        r == has_infix(s@, n@),
{
    let vs = chars_of(s);
    let vn = chars_of(n);
    contains_chars(vs.as_slice(), vn.as_slice())
}

/// `char::is_whitespace`: the characters with the Unicode property White_Space.
pub open spec fn is_ws(c: char) -> bool {
    ||| '\u{9}' <= c && c <= '\u{d}'
    ||| c == ' '
    ||| c == '\u{85}'
    ||| c == '\u{a0}'
    ||| c == '\u{1680}'
    ||| '\u{2000}' <= c && c <= '\u{200a}'
    ||| c == '\u{2028}'
    ||| c == '\u{2029}'
    ||| c == '\u{202f}'
    ||| c == '\u{205f}'
    ||| c == '\u{3000}'
}

pub fn is_ws_exec(c: char) -> (r: bool)
    ensures
        r == is_ws(c),
{
    ('\u{9}' <= c && c <= '\u{d}') || c == ' ' || c == '\u{85}' || c == '\u{a0}' || c == '\u{1680}'
        || ('\u{2000}' <= c && c <= '\u{200a}') || c == '\u{2028}' || c == '\u{2029}' || c
        == '\u{202f}' || c == '\u{205f}' || c == '\u{3000}'
}

pub open spec fn trim_start(s: Seq<char>) -> Seq<char>
    decreases s.len(),
{
    if s.len() > 0 && is_ws(s[0]) {
        trim_start(s.drop_first())
    } else {
        s
    }
}

pub open spec fn trim_end(s: Seq<char>) -> Seq<char>
    decreases s.len(),
{
    if s.len() > 0 && is_ws(s.last()) {
        trim_end(s.drop_last())
    } else {
        s
    }
}

/// `str::trim`: leading and trailing white space removed.
pub open spec fn trim(s: Seq<char>) -> Seq<char> {
    trim_end(trim_start(s))
}

proof fn lemma_trim_start_skip(s: Seq<char>, i: int)
    requires
        0 <= i <= s.len(),
        forall|k: int| 0 <= k < i ==> is_ws(#[trigger] s[k]),
        i == s.len() || !is_ws(s[i]),
    ensures
        trim_start(s) == s.skip(i),
    decreases i,
{
    if i == 0 {
        assert(s.skip(0) =~= s);
    } else {
        assert(is_ws(s[0]));
        let t = s.drop_first();
        assert forall|k: int| 0 <= k < i - 1 implies is_ws(#[trigger] t[k]) by {
            assert(t[k] == s[k + 1]);
        }
        lemma_trim_start_skip(t, i - 1);
        assert(t.skip(i - 1) =~= s.skip(i));
    }
}

proof fn lemma_trim_end_take(s: Seq<char>, j: int)
    requires
        0 <= j <= s.len(),
        forall|k: int| j <= k < s.len() ==> is_ws(#[trigger] s[k]),
        j == 0 || !is_ws(s[j - 1]),
    ensures
        trim_end(s) == s.take(j),
    decreases s.len() - j,
{
    if j == s.len() {
        assert(s.take(j) =~= s);
    } else {
        assert(is_ws(s.last()));
        let t = s.drop_last();
        assert forall|k: int| j <= k < t.len() implies is_ws(#[trigger] t[k]) by {
            assert(t[k] == s[k]);
        }
        lemma_trim_end_take(t, j);
        assert(t.take(j) =~= s.take(j));
    }
}

/// Bounds `(i, j)` such that `v[i..j]` is `v` trimmed.
pub fn trim_bounds(v: &[char]) -> (r: (usize, usize))
    ensures
        r.0 <= r.1 <= v.len(),
        v@.subrange(r.0 as int, r.1 as int) == trim(v@),
{
    let mut i: usize = 0;
    while i < v.len() && is_ws_exec(v[i])
        invariant
            i <= v.len(),
            forall|k: int| 0 <= k < i ==> is_ws(#[trigger] v@[k]),
        decreases v.len() - i,
    {
        i = i + 1;
    }
    proof {
        lemma_trim_start_skip(v@, i as int);
    }
    let mut j: usize = v.len();
    while j > i && is_ws_exec(v[j - 1])
        invariant
            i <= j <= v.len(),
            forall|k: int| j <= k < v.len() ==> is_ws(#[trigger] v@[k]),
        decreases j,
    {
        j = j - 1;
    }
    proof {
        let t = v@.skip(i as int);
        assert forall|k: int| j - i <= k < t.len() implies is_ws(#[trigger] t[k]) by {
            assert(t[k] == v@[k + i]);
        }
        if j > i {
            assert(t[j - i - 1] == v@[j - 1]);
        }
        lemma_trim_end_take(t, j - i);
        assert(t.take(j - i) =~= v@.subrange(i as int, j as int));
    }
    (i, j)
}

/// `str::trim`.
pub fn trim_str(s: &str) -> (r: String)
    ensures
        r@ == trim(s@),
{
    let v = chars_of(s);
    let (i, j) = trim_bounds(v.as_slice());
    string_of_range(v.as_slice(), i, j)
}

/// `s.trim().is_empty()`.
pub fn is_blank(s: &str) -> (r: bool)
    ensures
        r == (trim(s@).len() == 0),
{
    let v = chars_of(s);
    let (i, j) = trim_bounds(v.as_slice());
    i == j
}


/// `s` begins with `p`.
pub open spec fn has_prefix(s: Seq<char>, p: Seq<char>) -> bool {
    p.len() <= s.len() && s.take(p.len() as int) == p
}

/// `s` ends with `p`.
pub open spec fn has_suffix(s: Seq<char>, p: Seq<char>) -> bool {
    p.len() <= s.len() && s.skip(s.len() - p.len()) == p
}

/// `str::starts_with` over characters.
pub fn starts_with_chars(s: &[char], p: &[char]) -> (r: bool)
    ensures
        r == has_prefix(s@, p@),
{
    if p.len() > s.len() {
        return false;
    }
    let r = matches_at(s, p, 0);
    proof {
        assert(s@.subrange(0, 0 + p.len()) =~= s@.take(p.len() as int));
    }
    r
}

/// `str::ends_with` over characters.
pub fn ends_with_chars(s: &[char], p: &[char]) -> (r: bool)
    ensures
        r == has_suffix(s@, p@),
{
    if p.len() > s.len() {
        return false;
    }
    let at = s.len() - p.len();
    let r = matches_at(s, p, at);
    proof {
        assert(s@.subrange(at as int, at + p.len()) =~= s@.skip(s.len() - p.len()));
    }
    r
}

/// `str::strip_prefix` for a string pattern.
pub fn strip_prefix(s: &str, p: &str) -> (r: Option<String>)
    ensures
        match r {
            Some(rest) => has_prefix(s@, p@) && rest@ == s@.skip(p@.len() as int),
            None => !has_prefix(s@, p@),
        },
{
    let vs = chars_of(s);
    let vp = chars_of(p);
    if starts_with_chars(vs.as_slice(), vp.as_slice()) {
        let rest = string_of_range(vs.as_slice(), vp.len(), vs.len());
        proof {
            assert(s@.subrange(p@.len() as int, s@.len() as int) =~= s@.skip(p@.len() as int));
        }
        Some(rest)
    } else {
        None
    }
}

/// `str::replace`: every occurrence of `f`, scanned from the left without overlap, becomes `t`.
pub open spec fn replace_all(s: Seq<char>, f: Seq<char>, t: Seq<char>) -> Seq<char>
    decreases s.len(),
{
    if f.len() == 0 || s.len() < f.len() {
        s
    } else if s.take(f.len() as int) == f {
        t + replace_all(s.skip(f.len() as int), f, t)
    } else {
        seq![s[0]] + replace_all(s.drop_first(), f, t)
    }
}

/// `str::replace` for a non-empty pattern.
pub fn replace(s: &str, f: &str, t: &str) -> (r: String)
    requires
        f@.len() > 0,
    ensures
        r@ == replace_all(s@, f@, t@),
{
    let v = chars_of(s);
    let vf = chars_of(f);
    let mut out = String::new();
    let mut i: usize = 0;
    proof {
        assert(v@.skip(0) =~= v@);
    }
    while i < v.len()
        invariant
            i <= v.len(),
            v@ == s@,
            vf@ == f@,
            f@.len() > 0,
            replace_all(s@, f@, t@) == out@ + replace_all(s@.skip(i as int), f@, t@),
        decreases v.len() - i,
    {
        let ghost rest = s@.skip(i as int);
        if vf.len() <= v.len() - i && matches_at(v.as_slice(), vf.as_slice(), i) {
            proof {
                assert(rest.take(f@.len() as int) =~= s@.subrange(i as int, i + f@.len()));
                assert(rest.skip(f@.len() as int) =~= s@.skip(i + f@.len()));
            }
            out.append(t);
            proof {
                assert(replace_all(s@, f@, t@) == out@ + replace_all(
                    s@.skip(i + vf.len()),
                    f@,
                    t@,
                ));
            }
            i = i + vf.len();
        } else {
            proof {
                if rest.len() >= f@.len() {
                    assert(rest.take(f@.len() as int) =~= s@.subrange(i as int, i + f@.len()));
                }
                assert(rest.drop_first() =~= s@.skip(i + 1));
            }
            let ghost before = out@;
            push_char(&mut out, v[i]);
            proof {
                if rest.len() < f@.len() {
                    assert(replace_all(rest, f@, t@) == rest);
                    assert(rest.drop_first().len() < f@.len());
                    assert(replace_all(rest.drop_first(), f@, t@) == rest.drop_first());
                    assert(rest =~= seq![rest[0]] + rest.drop_first());
                }
                assert(before + replace_all(rest, f@, t@) =~= out@ + replace_all(
                    s@.skip(i + 1),
                    f@,
                    t@,
                ));
            }
            i = i + 1;
        }
    }
    proof {
        assert(s@.skip(i as int).len() == 0);
        assert(out@ + replace_all(s@.skip(i as int), f@, t@) =~= out@);
    }
    out
}

/// `c` begins `x` and occurs nowhere else in it.
pub open spec fn only_first_is(x: Seq<char>, c: char) -> bool {
    x.len() > 0 && x[0] == c && forall|k: int| 1 <= k < x.len() ==> #[trigger] x[k] != c
}

/// Neither of `p` and `t` is a prefix of the other: they differ at some position of both.
pub open spec fn differ_early(p: Seq<char>, t: Seq<char>) -> bool {
    exists|d: int| 0 <= d < p.len() && d < t.len() && #[trigger] p[d] != t[d]
}

proof fn lemma_no_infix_skip(s: Seq<char>, p: Seq<char>, k: int)
    requires
        !has_infix(s, p),
        0 <= k <= s.len(),
    ensures
        !has_infix(s.skip(k), p),
{
    if has_infix(s.skip(k), p) {
        let i = choose|i: int|
            0 <= i && i + p.len() <= s.skip(k).len() && #[trigger] s.skip(k).subrange(i, i + p.len())
                == p;
        assert(s.skip(k).subrange(i, i + p.len()) =~= s.subrange(i + k, i + k + p.len()));
        assert(s.subrange(i + k, (i + k) + p.len()) == p);
    }
}

/// Every prefix of `replace_all(x, f, t)` either is a prefix of `x` or holds a `t[0]`.
proof fn lemma_replace_prefix(x: Seq<char>, f: Seq<char>, t: Seq<char>, m: int)
    requires
        0 <= m <= replace_all(x, f, t).len(),
        t.len() > 0,
    ensures
        (m <= x.len() && replace_all(x, f, t).take(m) == x.take(m)) || exists|j: int|
            0 <= j < m && #[trigger] replace_all(x, f, t)[j] == t[0],
    decreases x.len(),
{
    let r = replace_all(x, f, t);
    if m == 0 {
        assert(r.take(0) =~= x.take(0));
    } else if f.len() == 0 || x.len() < f.len() {
        assert(r == x);
    } else if x.take(f.len() as int) == f {
        assert(r[0] == t[0]);
    } else {
        let y = x.drop_first();
        let ry = replace_all(y, f, t);
        assert(r == seq![x[0]] + ry);
        lemma_replace_prefix(y, f, t, m - 1);
        if m - 1 <= y.len() && ry.take(m - 1) == y.take(m - 1) {
            assert(r.take(m) =~= seq![x[0]] + ry.take(m - 1));
            assert(x.take(m) =~= seq![x[0]] + y.take(m - 1));
        } else {
            let j = choose|j: int| 0 <= j < m - 1 && #[trigger] ry[j] == t[0];
            assert(r[j + 1] == t[0]);
        }
    }
}

/// A replacement creates no occurrence of `p` where `p` and the replacement text both begin
/// with a character found nowhere else in them and neither is a prefix of the other; and it
/// leaves none of the pattern replaced.
pub proof fn lemma_replace_avoids(s: Seq<char>, f: Seq<char>, t: Seq<char>, p: Seq<char>)
    requires
        f.len() > 0,
        only_first_is(p, t[0]),
        only_first_is(t, t[0]),
        differ_early(p, t),
        p == f || !has_infix(s, p),
    ensures
        !has_infix(replace_all(s, f, t), p),
    decreases s.len(),
{
    let r = replace_all(s, f, t);
    if has_infix(r, p) {
        let i = choose|i: int| 0 <= i && i + p.len() <= r.len() && #[trigger] r.subrange(i, i + p.len()) == p;
        assert(r.subrange(i, i + p.len())[0] == p[0]);
        if s.len() < f.len() {
            assert(r == s);
            if p != f {
                assert(has_infix(s, p));
            }
        } else if s.take(f.len() as int) == f {
            let rest = s.skip(f.len() as int);
            if p != f {
                lemma_no_infix_skip(s, p, f.len() as int);
            }
            lemma_replace_avoids(rest, f, t, p);
            let x = replace_all(rest, f, t);
            assert(r == t + x);
            if i >= t.len() {
                assert(x.subrange(i - t.len(), i - t.len() + p.len()) =~= r.subrange(i, i + p.len()));
                assert(has_infix(x, p));
            } else if i >= 1 {
                assert(r[i] == t[i]);
            } else {
                let d = choose|d: int| 0 <= d < p.len() && d < t.len() && #[trigger] p[d] != t[d];
                assert(r.subrange(i, i + p.len())[d] == r[d]);
                assert(r[d] == t[d]);
            }
        } else {
            let rest = s.drop_first();
            if p != f {
                lemma_no_infix_skip(s, p, 1);
                assert(rest =~= s.skip(1));
            }
            lemma_replace_avoids(rest, f, t, p);
            let x = replace_all(rest, f, t);
            assert(r == seq![s[0]] + x);
            if i >= 1 {
                assert(x.subrange(i - 1, i - 1 + p.len()) =~= r.subrange(i, i + p.len()));
                assert(has_infix(x, p));
            } else {
                lemma_replace_prefix(rest, f, t, p.len() - 1);
                if p.len() - 1 <= rest.len() && x.take(p.len() - 1) == rest.take(p.len() - 1) {
                    assert(r.subrange(0, p.len() as int) =~= seq![s[0]] + x.take(p.len() - 1));
                    assert(s.take(p.len() as int) =~= seq![s[0]] + rest.take(p.len() - 1));
                    assert(s.subrange(0, 0 + p.len() as int) =~= s.take(p.len() as int));
                    if p == f {
                        assert(s.take(f.len() as int) == f);
                    } else {
                        assert(has_infix(s, p));
                    }
                } else {
                    let j = choose|j: int| 0 <= j < p.len() - 1 && #[trigger] x[j] == t[0];
                    assert(r.subrange(0, p.len() as int)[j + 1] == r[j + 1]);
                    assert(p[j + 1] == t[0]);
                }
            }
        }
    }
}

/// A text without the pattern is left as it is.
pub proof fn lemma_replace_without_match(s: Seq<char>, f: Seq<char>, t: Seq<char>)
    requires
        f.len() > 0,
        !has_infix(s, f),
    ensures
        replace_all(s, f, t) == s,
    decreases s.len(),
{
    if s.len() >= f.len() {
        if s.take(f.len() as int) == f {
            assert(s.subrange(0, 0 + f.len() as int) =~= s.take(f.len() as int));
            assert(has_infix(s, f));
        } else {
            lemma_no_infix_skip(s, f, 1);
            assert(s.drop_first() =~= s.skip(1));
            lemma_replace_without_match(s.drop_first(), f, t);
            assert(seq![s[0]] + s.drop_first() =~= s);
        }
    }
}

/// The piece of `s` after the last `c` (all of `s` where `c` does not occur):
/// what `str::rsplit(c).next()` yields.
pub open spec fn after_last(s: Seq<char>, c: char) -> Seq<char>
    decreases s.len(),
{
    if s.len() == 0 {
        s
    } else if s.last() == c {
        Seq::empty()
    } else {
        after_last(s.drop_last(), c).push(s.last())
    }
}

/// `s.rsplit(c).next()`.
pub fn after_last_char(s: &[char], c: char) -> (r: String)
    ensures
        r@ == after_last(s@, c),
{
    let mut start: usize = 0;
    let mut i: usize = 0;
    while i < s.len()
        invariant
            start <= i <= s.len(),
            after_last(s@.take(i as int), c) == s@.subrange(start as int, i as int),
        decreases s.len() - i,
    {
        proof {
            assert(s@.take(i + 1).drop_last() =~= s@.take(i as int));
        }
        if s[i] == c {
            start = i + 1;
            proof {
                assert(s@.subrange(start as int, i + 1) =~= Seq::<char>::empty());
            }
        } else {
            proof {
                assert(s@.subrange(start as int, i as int).push(s@[i as int]) =~= s@.subrange(
                    start as int,
                    i + 1,
                ));
            }
        }
        i = i + 1;
    }
    proof {
        assert(s@.take(s.len() as int) =~= s@);
    }
    string_of_range(s, start, s.len())
}


/// The views of a list of strings.
pub open spec fn views(v: Seq<String>) -> Seq<Seq<char>> {
    v.map_values(|x: String| x@)
}

/// Scanning state of `str::split_whitespace` after a prefix: the finished pieces
/// and the piece being read.
pub open spec fn ws_split_state(s: Seq<char>) -> (Seq<Seq<char>>, Seq<char>)
    decreases s.len(),
{
    if s.len() == 0 {
        (Seq::empty(), Seq::empty())
    } else {
        let st = ws_split_state(s.drop_last());
        if is_ws(s.last()) {
            if st.1.len() > 0 {
                (st.0.push(st.1), Seq::empty())
            } else {
                st
            }
        } else {
            (st.0, st.1.push(s.last()))
        }
    }
}

/// `str::split_whitespace`: the maximal runs of non-white-space characters, in order.
pub open spec fn split_ws(s: Seq<char>) -> Seq<Seq<char>> {
    let st = ws_split_state(s);
    if st.1.len() > 0 {
        st.0.push(st.1)
    } else {
        st.0
    }
}

/// `str::split_whitespace`.
pub fn split_whitespace(s: &str) -> (r: Vec<String>)
    ensures
        views(r@) == split_ws(s@),
{
    let v = chars_of(s);
    let mut done: Vec<String> = Vec::new();
    let mut cur: Vec<char> = Vec::new();
    let mut i: usize = 0;
    while i < v.len()
        invariant
            i <= v.len(),
            v@ == s@,
            views(done@) == ws_split_state(s@.take(i as int)).0,
            cur@ == ws_split_state(s@.take(i as int)).1,
        decreases v.len() - i,
    {
        proof {
            assert(s@.take(i + 1).drop_last() =~= s@.take(i as int));
        }
        let c = v[i];
        if is_ws_exec(c) {
            if cur.len() > 0 {
                let piece = string_of(cur.as_slice());
                let ghost before = done@;
                done.push(piece);
                proof {
                    assert(views(done@) =~= views(before).push(piece@));
                }
                cur = Vec::new();
            }
        } else {
            cur.push(c);
        }
        i = i + 1;
    }
    proof {
        assert(s@.take(v.len() as int) =~= s@);
    }
    if cur.len() > 0 {
        let piece = string_of(cur.as_slice());
        let ghost before = done@;
        done.push(piece);
        proof {
            assert(views(done@) =~= views(before).push(piece@));
        }
    }
    done
}

/// A line without the `'\r'` that ended it.
pub open spec fn strip_cr(l: Seq<char>) -> Seq<char> {
    if l.len() > 0 && l.last() == '\r' {
        l.drop_last()
    } else {
        l
    }
}

/// Scanning state of `str::lines` after a prefix: the finished lines and the line being read.
pub open spec fn lines_state(s: Seq<char>) -> (Seq<Seq<char>>, Seq<char>)
    decreases s.len(),
{
    if s.len() == 0 {
        (Seq::empty(), Seq::empty())
    } else {
        let st = lines_state(s.drop_last());
        if s.last() == '\n' {
            (st.0.push(strip_cr(st.1)), Seq::empty())
        } else {
            (st.0, st.1.push(s.last()))
        }
    }
}

/// `str::lines`: pieces ended by `"\n"` or `"\r\n"`; a last piece without a line end is kept
/// when it is not empty.
pub open spec fn split_lines(s: Seq<char>) -> Seq<Seq<char>> {
    let st = lines_state(s);
    if st.1.len() > 0 {
        st.0.push(st.1)
    } else {
        st.0
    }
}

/// `str::lines`.
pub fn lines(s: &str) -> (r: Vec<String>)
    ensures
        views(r@) == split_lines(s@),
{
    let v = chars_of(s);
    let mut done: Vec<String> = Vec::new();
    let mut cur: Vec<char> = Vec::new();
    let mut i: usize = 0;
    while i < v.len()
        invariant
            i <= v.len(),
            v@ == s@,
            views(done@) == lines_state(s@.take(i as int)).0,
            cur@ == lines_state(s@.take(i as int)).1,
        decreases v.len() - i,
    {
        proof {
            assert(s@.take(i + 1).drop_last() =~= s@.take(i as int));
        }
        let c = v[i];
        if c == '\n' {
            let n = cur.len();
            let end = if n > 0 && cur[n - 1] == '\r' {
                n - 1
            } else {
                n
            };
            let piece = string_of_range(cur.as_slice(), 0, end);
            proof {
                assert(cur@.subrange(0, end as int) =~= strip_cr(cur@));
            }
            let ghost before = done@;
            done.push(piece);
            proof {
                assert(views(done@) =~= views(before).push(piece@));
            }
            cur = Vec::new();
        } else {
            cur.push(c);
        }
        i = i + 1;
    }
    proof {
        assert(s@.take(v.len() as int) =~= s@);
    }
    if cur.len() > 0 {
        let piece = string_of(cur.as_slice());
        let ghost before = done@;
        done.push(piece);
        proof {
            assert(views(done@) =~= views(before).push(piece@));
        }
    }
    done
}

/// Reading `p`, a line end, then `q`: the lines of `p` with its last one closed, then those of
/// `q`.
proof fn lemma_lines_state_after_newline(p: Seq<char>, q: Seq<char>)
    ensures
        lines_state(p + seq!['\n'] + q) == (
            lines_state(p).0.push(strip_cr(lines_state(p).1)) + lines_state(q).0,
            lines_state(q).1,
        ),
    decreases q.len(),
{
    let sp = lines_state(p);
    let x = sp.0.push(strip_cr(sp.1));
    let s = p + seq!['\n'] + q;
    if q.len() == 0 {
        assert(s.drop_last() =~= p);
        assert(lines_state(q).0 =~= Seq::<Seq<char>>::empty());
        assert(x + lines_state(q).0 =~= x);
    } else {
        assert(s.drop_last() =~= p + seq!['\n'] + q.drop_last());
        assert(s.last() == q.last());
        lemma_lines_state_after_newline(p, q.drop_last());
        let sq = lines_state(q.drop_last());
        if q.last() == '\n' {
            assert((x + sq.0).push(strip_cr(sq.1)) =~= x + sq.0.push(strip_cr(sq.1)));
        }
    }
}

/// Splitting `a`, a line end, then `b` into lines: the lines of `a` with its last piece closed,
/// then the lines of `b`.
pub proof fn lemma_split_lines_at_newline(a: Seq<char>, b: Seq<char>)
    ensures
        split_lines(a + seq!['\n'] + b) == lines_state(a).0.push(strip_cr(lines_state(a).1))
            + split_lines(b),
{
    lemma_lines_state_after_newline(a, b);
    let x = lines_state(a).0.push(strip_cr(lines_state(a).1));
    let sb = lines_state(b);
    if sb.1.len() > 0 {
        assert((x + sb.0).push(sb.1) =~= x + sb.0.push(sb.1));
    }
}

/// A trailing white-space character adds no piece to `str::split_whitespace`.
pub proof fn lemma_split_ws_trailing_ws(s: Seq<char>)
    requires
        s.len() > 0,
        is_ws(s.last()),
    ensures
        split_ws(s) == split_ws(s.drop_last()),
{
}

pub open spec fn is_digit(c: char) -> bool {
    '0' <= c && c <= '9'
}

pub open spec fn digit_val(c: char) -> nat {
    if is_digit(c) {
        (c as int - 48) as nat
    } else {
        0
    }
}

/// The number written by a sequence of decimal digits.
pub open spec fn digits_value(d: Seq<char>) -> nat
    decreases d.len(),
{
    if d.len() == 0 {
        0
    } else {
        digits_value(d.drop_last()) * 10 + digit_val(d.last())
    }
}

pub open spec fn all_digits(d: Seq<char>) -> bool {
    forall|i: int| 0 <= i < d.len() ==> is_digit(#[trigger] d[i])
}

/// The digits of an unsigned integer literal, after an optional leading `'+'`.
pub open spec fn unsigned_digits(s: Seq<char>) -> Seq<char> {
    if s.len() > 0 && s[0] == '+' {
        s.drop_first()
    } else {
        s
    }
}

/// `str::parse` for an unsigned integer type whose largest value is `max`: an optional `'+'`,
/// then one or more decimal digits whose value is at most `max`.
pub open spec fn parse_unsigned(s: Seq<char>, max: nat) -> Option<nat> {
    let d = unsigned_digits(s);
    if d.len() > 0 && all_digits(d) && digits_value(d) <= max {
        Some(digits_value(d))
    } else {
        None
    }
}

proof fn lemma_digits_value_prefix(d: Seq<char>, k: int)
    requires
        0 <= k <= d.len(),
    ensures
        digits_value(d.take(k)) <= digits_value(d),
    decreases d.len() - k,
{
    if k < d.len() {
        lemma_digits_value_prefix(d.drop_last(), k);
        assert(d.drop_last().take(k) =~= d.take(k));
    } else {
        assert(d.take(k) =~= d);
    }
}

/// `str::parse::<uN>` over characters, where `max` is the largest value of `uN`.
pub fn parse_unsigned_chars(s: &[char], max: u64) -> (r: Option<u64>)
    requires
    ensures
        match r {
            Some(n) => parse_unsigned(s@, max as nat) == Some(n as nat),
            None => parse_unsigned(s@, max as nat) is None,
        },
{
    let start: usize = if s.len() > 0 && s[0] == '+' {
        1
    } else {
        0
    };
    let ghost d = unsigned_digits(s@);
    proof {
        assert(d =~= s@.skip(start as int));
    }
    if start == s.len() {
        return None;
    }
    let mut acc: u128 = 0;
    let mut i: usize = start;
    while i < s.len()
        invariant
            start <= i <= s.len(),
            d == s@.skip(start as int),
            d == unsigned_digits(s@),
            all_digits(d.take(i - start)),
            acc as nat == digits_value(d.take(i - start)),
            acc <= max,
        decreases s.len() - i,
    {
        let c = s[i];
        proof {
            assert(d.take(i - start + 1).drop_last() =~= d.take(i - start));
            assert(d[i - start] == c);
        }
        if !('0' <= c && c <= '9') {
            proof {
                assert(!is_digit(d[i - start]));
                assert(!all_digits(d));
            }
            return None;
        }
        let dv: u128 = (c as u32 - '0' as u32) as u128;
        acc = acc * 10 + dv;
        proof {
            let t = d.take(i - start + 1);
            assert(t.last() == c);
            assert(digit_val(c) == dv as nat);
            assert(digits_value(t) == digits_value(d.take(i - start)) * 10 + digit_val(c));
            assert(acc as nat == digits_value(t));
            assert(all_digits(t));
        }
        if acc > max as u128 {
            proof {
                lemma_digits_value_prefix(d, i - start + 1);
                assert(digits_value(d) > max);
            }
            return None;
        }
        i = i + 1;
    }
    proof {
        assert(d.take(i - start) =~= d);
    }
    Some(acc as u64)
}

/// `str::parse::<uN>`, where `max` is the largest value of `uN`.
pub fn parse_unsigned_str(s: &str, max: u64) -> (r: Option<u64>)
    ensures
        match r {
            Some(n) => parse_unsigned(s@, max as nat) == Some(n as nat),
            None => parse_unsigned(s@, max as nat) is None,
        },
{
    let v = chars_of(s);
    parse_unsigned_chars(v.as_slice(), max)
}

pub open spec fn digit_char(d: nat) -> char {
    (d + 48) as char
}

/// The decimal numeral of `n`, as `Display` writes an unsigned integer.
pub open spec fn decimal(n: nat) -> Seq<char>
    decreases n,
{
    if n < 10 {
        seq![digit_char(n)]
    } else {
        decimal(n / 10).push(digit_char(n % 10))
    }
}

/// Appends the decimal numeral of `n`.
pub fn push_decimal(s: &mut String, n: u64)
    ensures
        final(s)@ == old(s)@ + decimal(n as nat),
    decreases n,
{
    if n >= 10 {
        push_decimal(s, n / 10);
    }
    let d: u8 = (n % 10) as u8;
    let c: char = (d + 48) as char;
    push_char(s, c);
    proof {
        assert(c == digit_char((n % 10) as nat));
        if n >= 10 {
            assert(old(s)@ + decimal((n / 10) as nat).push(c) =~= (old(s)@ + decimal(
                (n / 10) as nat,
            )).push(c));
        } else {
            assert(old(s)@.push(c) =~= old(s)@ + seq![c]);
        }
    }
}

/// The pieces joined with `sep` between each two (`slice::join`).
pub open spec fn join_with(parts: Seq<Seq<char>>, sep: Seq<char>) -> Seq<char>
    decreases parts.len(),
{
    if parts.len() == 0 {
        Seq::empty()
    } else if parts.len() == 1 {
        parts[0]
    } else {
        join_with(parts.drop_last(), sep) + sep + parts.last()
    }
}

/// `parts.join(sep)`.
pub fn join(parts: &[String], sep: &str) -> (r: String)
    ensures
        r@ == join_with(views(parts@), sep@),
{
    let ghost ps = views(parts@);
    let mut r = String::new();
    let mut i: usize = 0;
    while i < parts.len()
        invariant
            i <= parts.len(),
            ps == views(parts@),
            ps.len() == parts@.len(),
            r@ == join_with(ps.take(i as int), sep@),
        decreases parts.len() - i,
    {
        proof {
            assert(ps.take(i + 1).drop_last() =~= ps.take(i as int));
            assert(ps.take(i + 1).last() == parts@[i as int]@);
        }
        if i > 0 {
            r.append(sep);
        } else {
            proof {
                assert(ps.take(1) =~= seq![parts@[0]@]);
            }
        }
        r.append(parts[i].as_str());
        i = i + 1;
    }
    proof {
        assert(ps.take(parts.len() as int) =~= ps);
    }
    r
}

} // verus!
