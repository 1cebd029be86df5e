//! Character and string helpers shared by the thread-key, mention and codec
//! modules: whitespace trimming, ASCII case folding, lexicographic order and
//! splitting, all specified over `Seq<char>`.
use vstd::prelude::*;

verus! {

/// The Unicode white-space characters, as `char::is_whitespace` accepts them.
pub open spec fn is_space_char(c: char) -> bool {
    c == ' ' || c == '\t' || c == '\n' || c == '\r' || c == '\u{b}' || c == '\u{c}'
        || c == '\u{85}' || c == '\u{a0}' || c == '\u{1680}'
        || ('\u{2000}' <= c && c <= '\u{200a}')
        || c == '\u{2028}' || c == '\u{2029}' || c == '\u{202f}' || c == '\u{205f}'
        || c == '\u{3000}'
}

pub fn is_space(c: char) -> (r: bool)
    ensures
        r == is_space_char(c),
{
    c == ' ' || c == '\t' || c == '\n' || c == '\r' || c == '\u{b}' || c == '\u{c}'
        || c == '\u{85}' || c == '\u{a0}' || c == '\u{1680}'
        || ('\u{2000}' <= c && c <= '\u{200a}')
        || c == '\u{2028}' || c == '\u{2029}' || c == '\u{202f}' || c == '\u{205f}'
        || c == '\u{3000}'
}

/// A character that may stand in a mention label: ASCII alphanumeric, `-` or `_`.
pub open spec fn is_label_char(c: char) -> bool {
    ('a' <= c && c <= 'z') || ('A' <= c && c <= 'Z') || ('0' <= c && c <= '9')
        || c == '-' || c == '_'
}

pub fn label_char(c: char) -> (r: bool)
    ensures
        r == is_label_char(c),
{
    ('a' <= c && c <= 'z') || ('A' <= c && c <= 'Z') || ('0' <= c && c <= '9')
        || c == '-' || c == '_'
}

/// ASCII case folding of one character; everything else is unchanged.
pub open spec fn lower_char(c: char) -> char {
    if 'A' <= c && c <= 'Z' {
        ((c as u8) + 32) as char
    } else {
        c
    }
}

pub fn to_lower_char(c: char) -> (r: char)
    ensures
        r == lower_char(c),
{
    if 'A' <= c && c <= 'Z' {
        ((c as u8) + 32) as char
    } else {
        c
    }
}

pub open spec fn lower_seq(s: Seq<char>) -> Seq<char> {
    s.map_values(|c: char| lower_char(c))
}

/// Index of the first non-space character at or after `i`; `s.len()` if none.
pub open spec fn scan_space(s: Seq<char>, i: int) -> int
    decreases s.len() - i,
{
    if 0 <= i < s.len() && is_space_char(s[i]) {
        scan_space(s, i + 1)
    } else {
        i
    }
}

/// Index one past the last non-space character before `j`; `0` if none.
pub open spec fn scan_space_back(s: Seq<char>, j: int) -> int
    decreases j,
{
    if 0 < j <= s.len() && is_space_char(s[j - 1]) {
        scan_space_back(s, j - 1)
    } else {
        j
    }
}

/// What `str::trim` leaves: the input without leading and trailing white space.
pub open spec fn trim_spec(s: Seq<char>) -> Seq<char> {
    let lo = scan_space(s, 0);
    let hi = scan_space_back(s, s.len() as int);
    if lo <= hi {
        s.subrange(lo, hi)
    } else {
        Seq::empty()
    }
}

proof fn lemma_scan_space_back_bounds(s: Seq<char>, j: int)
    requires
        0 <= j <= s.len(),
    ensures
        0 <= scan_space_back(s, j) <= j,
    decreases j,
{
    if 0 < j && is_space_char(s[j - 1]) {
        lemma_scan_space_back_bounds(s, j - 1);
    }
}

/// The characters of `s`, as a vector.
pub fn chars_of(s: &str) -> (r: Vec<char>)
    ensures
        r@ == s@,
{
    let n = s.unicode_len();
    let mut out: Vec<char> = Vec::new();
    let mut i: usize = 0;
    while i < n
        invariant
            i <= n,
            n == s@.len(),
            out@ == s@.take(i as int),
        decreases n - i,
    {
        out.push(s.get_char(i));
        proof {
            assert(out@ =~= s@.take(i + 1 as int));
        }
        i += 1;
    }
    proof {
        assert(s@.take(n as int) =~= s@);
    }
    out
}

/// Relies on `String::push`: appends exactly one character.
#[verifier::external_body]
pub(crate) fn push_char(s: &mut String, c: char)
    ensures
        final(s)@ == old(s)@.push(c),
{
    s.push(c)
}

/// A `String` with exactly the characters of `v`.
pub fn string_of(v: &Vec<char>) -> (r: String)
    ensures
        r@ == v@,
{
    let mut out = String::new();
    let mut i: usize = 0;
    while i < v.len()
        invariant
            i <= v.len(),
            out@ == v@.take(i as int),
        decreases v.len() - i,
    {
        push_char(&mut out, v[i]);
        proof {
            assert(out@ =~= v@.take(i + 1 as int));
        }
        i += 1;
    }
    proof {
        assert(v@.take(v@.len() as int) =~= v@);
    }
    out
}

/// `s` without leading and trailing white space, as `str::trim` gives it.
pub fn trim_str(s: &str) -> (r: String)
    ensures
        r@ == trim_spec(s@),
{
    let n = s.unicode_len();
    let mut lo: usize = 0;
    while lo < n && is_space(s.get_char(lo))
        invariant
            lo <= n,
            n == s@.len(),
            scan_space(s@, 0) == scan_space(s@, lo as int),
        decreases n - lo,
    {
        lo += 1;
    }
    assert(scan_space(s@, 0) == lo);
    let mut hi: usize = n;
    while hi > lo && is_space(s.get_char(hi - 1))
        invariant
            lo <= hi <= n,
            n == s@.len(),
            scan_space_back(s@, n as int) == scan_space_back(s@, hi as int),
        decreases hi,
    {
        hi -= 1;
    }
    if hi == lo {
        proof {
            lemma_scan_space_back_bounds(s@, hi as int);
            assert(s@.subrange(lo as int, hi as int) =~= Seq::<char>::empty());
            let hi2 = scan_space_back(s@, s@.len() as int);
            if scan_space(s@, 0) <= hi2 {
                assert(hi2 == lo);
                assert(s@.subrange(lo as int, lo as int) =~= Seq::<char>::empty());
            }
            assert(trim_spec(s@) =~= s@.subrange(lo as int, hi as int));
        }
        let sub = s.substring_char(lo, hi);
        return sub.to_owned();
    }
    assert(scan_space_back(s@, n as int) == hi);
    assert(trim_spec(s@) == s@.subrange(lo as int, hi as int));
    let sub = s.substring_char(lo, hi);
    sub.to_owned()
}

/// Lexicographic order on character sequences, code point by code point.
pub open spec fn lex_leq(a: Seq<char>, b: Seq<char>) -> bool
    decreases a.len(),
{
    if a.len() == 0 {
        true
    } else if b.len() == 0 {
        false
    } else if a[0] != b[0] {
        a[0] < b[0]
    } else {
        lex_leq(a.drop_first(), b.drop_first())
    }
}

/// `lex_leq` is total: two sequences always compare one way or the other.
pub proof fn lemma_lex_total(a: Seq<char>, b: Seq<char>)
    ensures
        lex_leq(a, b) || lex_leq(b, a),
    decreases a.len(),
{
    if a.len() > 0 && b.len() > 0 && a[0] == b[0] {
        lemma_lex_total(a.drop_first(), b.drop_first());
    }
}

/// `lex_leq` is antisymmetric: mutual order means equality.
pub proof fn lemma_lex_antisymmetric(a: Seq<char>, b: Seq<char>)
    requires
        lex_leq(a, b),
        lex_leq(b, a),
    ensures
        a == b,
    decreases a.len(),
{
    if a.len() > 0 {
        assert(b.len() > 0);
        assert(a[0] == b[0]);
        lemma_lex_antisymmetric(a.drop_first(), b.drop_first());
        assert(a =~= seq![a[0]] + a.drop_first());
        assert(b =~= seq![b[0]] + b.drop_first());
    } else {
        assert(b.len() == 0);
        assert(a =~= b);
    }
}

/// Whether `a` comes at or before `b` in lexicographic order.
pub fn str_lex_leq(a: &str, b: &str) -> (r: bool)
    ensures
        r == lex_leq(a@, b@),
{
    let na = a.unicode_len();
    let nb = b.unicode_len();
    let mut i: usize = 0;
    proof {
        assert(a@.skip(0) =~= a@);
        assert(b@.skip(0) =~= b@);
    }
    loop
        invariant
            i <= na,
            i <= nb,
            na == a@.len(),
            nb == b@.len(),
            lex_leq(a@, b@) == lex_leq(a@.skip(i as int), b@.skip(i as int)),
        decreases na - i,
    {
        if i == na {
            return true;
        }
        if i == nb {
            return false;
        }
        let ca = a.get_char(i);
        let cb = b.get_char(i);
        if ca != cb {
            return ca < cb;
        }
        proof {
            assert(a@.skip(i as int).drop_first() =~= a@.skip(i + 1 as int));
            assert(b@.skip(i as int).drop_first() =~= b@.skip(i + 1 as int));
        }
        i += 1;
    }
}

/// Whether two strings hold the same characters.
pub fn str_eq(a: &str, b: &str) -> (r: bool)
    ensures
        r == (a@ == b@),
{
    let na = a.unicode_len();
    let nb = b.unicode_len();
    if na != nb {
        return false;
    }
    let mut i: usize = 0;
    while i < na
        invariant
            i <= na,
            na == a@.len(),
            na == b@.len(),
            forall|j: int| 0 <= j < i ==> a@[j] == b@[j],
        decreases na - i,
    {
        if s_get(a, i) != s_get(b, i) {
            return false;
        }
        i += 1;
    }
    proof {
        assert(a@ =~= b@);
    }
    true
}

fn s_get(s: &str, i: usize) -> (c: char)
    requires
        i < s@.len(),
    ensures
        c == s@[i as int],
{
    s.get_char(i)
}

/// The pieces of `s` between occurrences of `sep`, in order; there is always
/// at least one piece, and `n` separators give `n + 1` pieces.
pub open spec fn split_on(s: Seq<char>, sep: char) -> Seq<Seq<char>>
    decreases s.len(),
{
    if s.len() == 0 {
        seq![Seq::<char>::empty()]
    } else if s[0] == sep {
        seq![Seq::<char>::empty()] + split_on(s.drop_first(), sep)
    } else {
        let rest = split_on(s.drop_first(), sep);
        seq![seq![s[0]] + rest[0]] + rest.drop_first()
    }
}

pub proof fn lemma_split_on_len(s: Seq<char>, sep: char)
    ensures
        split_on(s, sep).len() >= 1,
    decreases s.len(),
{
    if s.len() > 0 {
        lemma_split_on_len(s.drop_first(), sep);
    }
}

/// Appending one character either opens a fresh piece (the separator) or
/// extends the last piece (anything else).
pub proof fn lemma_split_on_push(s: Seq<char>, sep: char, c: char)
    ensures
        ({
            let parts = split_on(s, sep);
            split_on(s.push(c), sep) == if c == sep {
                parts.push(Seq::<char>::empty())
            } else {
                parts.update(parts.len() - 1, parts.last().push(c))
            }
        }),
    decreases s.len(),
{
    lemma_split_on_len(s, sep);
    let parts = split_on(s, sep);
    if s.len() == 0 {
        assert(s.push(c) =~= seq![c]);
        assert(seq![c].drop_first() =~= Seq::<char>::empty());
        assert(s.push(c)[0] == c);
        assert(split_on(Seq::<char>::empty(), sep) == seq![Seq::<char>::empty()]);
        if c == sep {
            assert(split_on(s.push(c), sep) == seq![Seq::<char>::empty()] + split_on(
                s.push(c).drop_first(),
                sep,
            ));
            assert(split_on(s.push(c).drop_first(), sep) == seq![Seq::<char>::empty()]);
            assert(split_on(s.push(c), sep) =~~= parts.push(Seq::<char>::empty()));
        } else {
            assert(seq![c] + split_on(Seq::<char>::empty(), sep)[0] =~= seq![c]);
            assert(split_on(s.push(c), sep) =~~= parts.update(
                parts.len() - 1,
                parts.last().push(c),
            ));
        }
    } else {
        let t = s.drop_first();
        assert(s.push(c).drop_first() =~= t.push(c));
        assert(s.push(c)[0] == s[0]);
        lemma_split_on_push(t, sep, c);
        lemma_split_on_len(t, sep);
        let rest = split_on(t, sep);
        if s[0] == sep {
            if c == sep {
                assert(split_on(s.push(c), sep) =~~= parts.push(Seq::<char>::empty()));
            } else {
                assert(split_on(s.push(c), sep) =~~= parts.update(
                    parts.len() - 1,
                    parts.last().push(c),
                ));
            }
        } else {
            if c == sep {
                let restp = rest.push(Seq::<char>::empty());
                assert(restp[0] == rest[0]);
                assert(restp.drop_first() =~~= rest.drop_first().push(Seq::<char>::empty()));
                assert(split_on(s.push(c), sep) =~~= parts.push(Seq::<char>::empty()));
            } else {
                let restp = rest.update(rest.len() - 1, rest.last().push(c));
                if rest.len() == 1 {
                    assert(restp[0] == rest[0].push(c));
                    assert(restp.drop_first() =~~= rest.drop_first());
                    assert(seq![s[0]] + rest[0].push(c) =~= (seq![s[0]] + rest[0]).push(c));
                    assert(split_on(s.push(c), sep) =~~= parts.update(
                        parts.len() - 1,
                        parts.last().push(c),
                    ));
                } else {
                    assert(restp[0] == rest[0]);
                    assert(restp.drop_first() =~~= rest.drop_first().update(
                        rest.len() - 2,
                        rest.last().push(c),
                    ));
                    assert(parts.last() == rest.last());
                    assert(split_on(s.push(c), sep) =~~= parts.update(
                        parts.len() - 1,
                        parts.last().push(c),
                    ));
                }
            }
        }
    }
}

/// The view of each element of a vector of strings.
pub open spec fn views_of(v: Seq<String>) -> Seq<Seq<char>> {
    v.map_values(|p: String| p@)
}

/// The pieces of `s` between occurrences of `sep`, as `str::split` yields them.
pub fn split_str(s: &str, sep: char) -> (r: Vec<String>)
    ensures
        views_of(r@) == split_on(s@, sep),
{
    let chars = chars_of(s);
    let mut out: Vec<String> = Vec::new();
    let mut cur: Vec<char> = Vec::new();
    let mut i: usize = 0;
    proof {
        assert(s@.take(0) =~= Seq::<char>::empty());
        assert(views_of(out@).push(cur@) =~~= split_on(s@.take(0), sep));
    }
    while i < chars.len()
        invariant
            chars@ == s@,
            i <= chars@.len(),
            views_of(out@).push(cur@) == split_on(s@.take(i as int), sep),
        decreases chars@.len() - i,
    {
        let c = chars[i];
        proof {
            lemma_split_on_push(s@.take(i as int), sep, c);
            assert(s@.take(i + 1 as int) =~= s@.take(i as int).push(s@[i as int]));
            lemma_split_on_len(s@.take(i as int), sep);
        }
        if c == sep {
            let ghost prev = views_of(out@).push(cur@);
            out.push(string_of(&cur));
            cur = Vec::new();
            proof {
                assert(views_of(out@).push(cur@) =~~= prev.push(Seq::<char>::empty()));
            }
        } else {
            let ghost prev = views_of(out@).push(cur@);
            cur.push(c);
            proof {
                assert(views_of(out@).push(cur@) =~~= prev.update(
                    prev.len() - 1,
                    prev.last().push(c),
                ));
            }
        }
        i += 1;
    }
    proof {
        assert(s@.take(chars@.len() as int) =~= s@);
    }
    let ghost prev = views_of(out@).push(cur@);
    out.push(string_of(&cur));
    proof {
        assert(views_of(out@) =~~= prev);
    }
    out
}

pub proof fn lemma_scan_space_props(s: Seq<char>, i: int)
    requires
        0 <= i <= s.len(),
    ensures
        i <= scan_space(s, i) <= s.len(),
        scan_space(s, i) < s.len() ==> !is_space_char(s[scan_space(s, i)]),
        forall|j: int| i <= j < scan_space(s, i) ==> is_space_char(s[j]),
    decreases s.len() - i,
{
    if i < s.len() && is_space_char(s[i]) {
        lemma_scan_space_props(s, i + 1);
    }
}

pub proof fn lemma_scan_space_back_props(s: Seq<char>, j: int)
    requires
        0 <= j <= s.len(),
    ensures
        0 <= scan_space_back(s, j) <= j,
        scan_space_back(s, j) > 0 ==> !is_space_char(s[scan_space_back(s, j) - 1]),
        forall|k: int| scan_space_back(s, j) <= k < j ==> is_space_char(s[k]),
    decreases j,
{
    if 0 < j <= s.len() && is_space_char(s[j - 1]) {
        lemma_scan_space_back_props(s, j - 1);
    }
}

/// A non-empty sequence with non-space ends is already trimmed.
pub proof fn lemma_trim_fixed_ends(s: Seq<char>)
    requires
        s.len() > 0,
        !is_space_char(s[0]),
        !is_space_char(s[s.len() - 1]),
    ensures
        trim_spec(s) == s,
{
    assert(scan_space(s, 0) == 0);
    assert(scan_space_back(s, s.len() as int) == s.len());
    assert(s.subrange(0, s.len() as int) =~= s);
}

/// A non-empty trimmed sequence has non-space ends.
pub proof fn lemma_trim_stable_no_space_ends(s: Seq<char>)
    requires
        s.len() > 0,
        trim_spec(s) == s,
    ensures
        !is_space_char(s[0]),
        !is_space_char(s[s.len() - 1]),
{
    lemma_scan_space_props(s, 0);
    lemma_scan_space_back_props(s, s.len() as int);
    let lo = scan_space(s, 0);
    let hi = scan_space_back(s, s.len() as int);
    if is_space_char(s[0]) {
        assert(lo == scan_space(s, 1));
        lemma_scan_space_props(s, 1);
        assert(trim_spec(s).len() < s.len());
    }
    if is_space_char(s[s.len() - 1]) {
        assert(hi == scan_space_back(s, s.len() - 1));
        lemma_scan_space_back_props(s, s.len() - 1);
        assert(trim_spec(s).len() < s.len());
    }
}

/// Trimming is idempotent.
pub proof fn lemma_trim_idempotent(s: Seq<char>)
    ensures
        trim_spec(trim_spec(s)) == trim_spec(s),
{
    let t = trim_spec(s);
    if t.len() == 0 {
        assert(scan_space(t, 0) == 0);
        assert(scan_space_back(t, 0) == 0);
        assert(trim_spec(t) =~= t);
    } else {
        lemma_scan_space_props(s, 0);
        lemma_scan_space_back_props(s, s.len() as int);
        let lo = scan_space(s, 0);
        let hi = scan_space_back(s, s.len() as int);
        assert(lo <= hi);
        assert(t == s.subrange(lo, hi));
        assert(t[0] == s[lo]);
        assert(t[t.len() - 1] == s[hi - 1]);
        lemma_trim_fixed_ends(t);
    }
}

/// Splitting a sequence without the separator yields just that sequence.
pub proof fn lemma_split_on_no_sep(s: Seq<char>, sep: char)
    requires
        forall|i: int| 0 <= i < s.len() ==> s[i] != sep,
    ensures
        split_on(s, sep) == seq![s],
    decreases s.len(),
{
    if s.len() > 0 {
        lemma_split_on_no_sep(s.drop_first(), sep);
        assert(seq![s[0]] + s.drop_first() =~= s);
        assert(split_on(s, sep) =~~= seq![s]);
    } else {
        assert(s =~= Seq::<char>::empty());
        assert(split_on(s, sep) =~~= seq![s]);
    }
}

/// Splitting around one separator splits each side independently.
pub proof fn lemma_split_on_join(x: Seq<char>, y: Seq<char>, sep: char)
    ensures
        split_on(x + seq![sep] + y, sep) == split_on(x, sep) + split_on(y, sep),
    decreases x.len(),
{
    lemma_split_on_len(x, sep);
    lemma_split_on_len(y, sep);
    if x.len() == 0 {
        let z = x + seq![sep] + y;
        assert(z[0] == sep);
        assert(z.drop_first() =~= y);
        assert(split_on(z, sep) =~~= split_on(x, sep) + split_on(y, sep));
    } else {
        let z = x + seq![sep] + y;
        assert(z[0] == x[0]);
        assert(z.drop_first() =~= x.drop_first() + seq![sep] + y);
        lemma_split_on_join(x.drop_first(), y, sep);
        lemma_split_on_len(x.drop_first(), sep);
        if x[0] == sep {
            assert(split_on(z, sep) =~~= split_on(x, sep) + split_on(y, sep));
        } else {
            let r = split_on(x.drop_first(), sep) + split_on(y, sep);
            assert(r[0] == split_on(x.drop_first(), sep)[0]);
            assert(r.drop_first() =~~= split_on(x.drop_first(), sep).drop_first() + split_on(
                y,
                sep,
            ));
            assert(split_on(z, sep) =~~= split_on(x, sep) + split_on(y, sep));
        }
    }
}

/// Whether `s` holds any white-space character.
pub fn contains_space(s: &str) -> (r: bool)
    ensures
        r == exists|i: int| 0 <= i < s@.len() && is_space_char(s@[i]),
{
    let n = s.unicode_len();
    let mut i: usize = 0;
    while i < n
        invariant
            i <= n,
            n == s@.len(),
            forall|j: int| 0 <= j < i ==> !is_space_char(s@[j]),
        decreases n - i,
    {
        if is_space(s.get_char(i)) {
            return true;
        }
        i += 1;
    }
    false
}

/// The characters of `v` from `from` (inclusive) to `to` (exclusive).
pub fn sub_chars(v: &Vec<char>, from: usize, to: usize) -> (r: Vec<char>)
    requires
        from <= to <= v@.len(),
    ensures
        r@ == v@.subrange(from as int, to as int),
{
    let mut out: Vec<char> = Vec::new();
    let mut i: usize = from;
    while i < to
        invariant
            from <= i <= to <= v@.len(),
            out@ == v@.subrange(from as int, i as int),
        decreases to - i,
    {
        out.push(v[i]);
        proof {
            assert(out@ =~= v@.subrange(from as int, i + 1 as int));
        }
        i += 1;
    }
    out
}

/// The ASCII-lowercased copy of `s`.
pub fn lower_str(s: &str) -> (r: String)
    ensures
        r@ == lower_seq(s@),
{
    let n = s.unicode_len();
    let mut out: Vec<char> = Vec::new();
    let mut i: usize = 0;
    while i < n
        invariant
            i <= n,
            n == s@.len(),
            out@ == lower_seq(s@.take(i as int)),
        decreases n - i,
    {
        out.push(to_lower_char(s.get_char(i)));
        proof {
            assert(out@ =~= lower_seq(s@.take(i + 1 as int)));
        }
        i += 1;
    }
    proof {
        assert(lower_seq(s@.take(n as int)) =~= lower_seq(s@));
    }
    string_of(&out)
}

} // verus!
