//! Ingestion of the engine's CSV result stream.
//!
//! The first retained line (not blank, not a `#` comment) names the
//! columns; every later retained line must split into exactly as many
//! cells.  Cells must be numeric tokens in the engine's output format.
//! [`spec_parse`] pins the whole grid a line sequence parses to, and
//! [`is_float_text`] pins exactly which cell texts are accepted.

use vstd::prelude::*;

use crate::render::dec_nat;
use crate::stan_command::ArgError;
use vstd::view::View;

verus! {

/// A failure around files: opening, compiling against, or reading one.
#[derive(Debug, Clone, PartialEq, Eq)]
pub enum FileError {
    FileSystem(String),
    Compilation(String),
    EnvVar(String),
    InvalidPath(String, String),
    BadFileFormat(String, String),
}

/// A failure while handing a parsed cell to a consumer.
#[derive(Debug, Clone, PartialEq, Eq)]
pub enum ParamError {
    ParamNotFound(String),
    ParseError(String),
}

/// The top-level failure taxonomy of an invocation.
#[derive(Debug, Clone, PartialEq, Eq)]
pub enum CmdStanError {
    Arg(ArgError),
    Param(ParamError),
    File(FileError),
}

/// ASCII whitespace, as trimmed from the ends of a CSV line.
pub open spec fn is_space(c: char) -> bool {
    c == ' ' || c == '\t' || c == '\r' || c == '\n'
}

/// A decimal digit.
pub open spec fn is_digit(c: char) -> bool {
    '0' <= c && c <= '9'
}

/// Whether every position in `[a, b)` of `t` is a digit.
pub open spec fn all_digits(t: Seq<char>, a: int, b: int) -> bool {
    forall|i: int| a <= i < b ==> is_digit(t[i])
}

/// The text with one leading sign character removed, if present.
pub open spec fn strip_sign(s: Seq<char>) -> Seq<char> {
    if s.len() > 0 && (s[0] == '+' || s[0] == '-') {
        s.skip(1)
    } else {
        s
    }
}

/// The word `inf`, in any letter case.
pub open spec fn is_inf(t: Seq<char>) -> bool {
    t.len() == 3 && (t[0] == 'i' || t[0] == 'I') && (t[1] == 'n' || t[1] == 'N') && (t[2] == 'f'
        || t[2] == 'F')
}

/// The word `infinity`, in any letter case.
pub open spec fn is_infinity(t: Seq<char>) -> bool {
    &&& t.len() == 8
    &&& (t[0] == 'i' || t[0] == 'I')
    &&& (t[1] == 'n' || t[1] == 'N')
    &&& (t[2] == 'f' || t[2] == 'F')
    &&& (t[3] == 'i' || t[3] == 'I')
    &&& (t[4] == 'n' || t[4] == 'N')
    &&& (t[5] == 'i' || t[5] == 'I')
    &&& (t[6] == 't' || t[6] == 'T')
    &&& (t[7] == 'y' || t[7] == 'Y')
}

/// The word `nan`, in any letter case.
pub open spec fn is_nan(t: Seq<char>) -> bool {
    t.len() == 3 && (t[0] == 'n' || t[0] == 'N') && (t[1] == 'a' || t[1] == 'A') && (t[2] == 'n'
        || t[2] == 'N')
}

/// Whether `p` splits the mantissa `m`: digits up to `p`, then
/// optionally a dot and digits, with at least one digit in all.
pub open spec fn mantissa_split(m: Seq<char>, p: int) -> bool {
    &&& 0 <= p <= m.len()
    &&& all_digits(m, 0, p)
    &&& (p == m.len() || (m[p] == '.' && all_digits(m, p + 1, m.len() as int)))
    &&& (p > 0 || p + 1 < m.len())
}

/// A mantissa: digits, optionally split by one dot, at least one digit.
pub open spec fn is_mantissa(m: Seq<char>) -> bool {
    exists|p: int| mantissa_split(m, p)
}

/// An exponent part: empty, or `e`/`E`, an optional sign, and at least
/// one digit.
pub open spec fn is_exp_part(e: Seq<char>) -> bool {
    e.len() == 0 || {
        &&& (e[0] == 'e' || e[0] == 'E')
        &&& {
            let d = strip_sign(e.skip(1));
            d.len() > 0 && all_digits(d, 0, d.len() as int)
        }
    }
}

/// Whether `k` splits `t` into a mantissa and an exponent part.
pub open spec fn float_split(t: Seq<char>, k: int) -> bool {
    0 <= k <= t.len() && is_mantissa(t.take(k)) && is_exp_part(t.skip(k))
}

/// A decimal float: a mantissa followed by an optional exponent part.
pub open spec fn is_decimal_float(t: Seq<char>) -> bool {
    exists|k: int| float_split(t, k)
}

/// A numeric token of the engine's output: an optional sign, then one
/// of the special words or a decimal float.
pub open spec fn is_float_text(s: Seq<char>) -> bool {
    let t = strip_sign(s);
    is_inf(t) || is_infinity(t) || is_nan(t) || is_decimal_float(t)
}

/// The position right after the run of digits starting at `from`.
fn scan_digits(s: &str, from: usize) -> (j: usize)
    requires
        from <= s@.len(),
    ensures
        from <= j <= s@.len(),
        all_digits(s@, from as int, j as int),
        j < s@.len() ==> !is_digit(s@[j as int]),
    decreases s@.len() - from,
{
    if from < s.unicode_len() {
        let c = s.get_char(from);
        if '0' <= c && c <= '9' {
            return scan_digits(s, from + 1);
        }
    }
    from
}

/// Decides whether `s@.skip(start)` is a decimal float, assuming the
/// leading sign (if any) ends at `start` and no special word matched.
#[verifier::rlimit(100)]
#[verifier::spinoff_prover]
fn check_decimal(s: &str, start: usize) -> (r: bool)
    requires
        start <= s@.len(),
        strip_sign(s@) == s@.skip(start as int),
        !(is_inf(s@.skip(start as int)) || is_infinity(s@.skip(start as int)) || is_nan(
            s@.skip(start as int),
        )),
    ensures
        r == is_float_text(s@),
{
    let ghost t = s@.skip(start as int);
    let n = s.unicode_len();
    let d1 = scan_digits(s, start);
    let mut pos = d1;
    let mut digits_after: usize = 0;
    if pos < n && s.get_char(pos) == '.' {
        let d2 = scan_digits(s, pos + 1);
        digits_after = d2 - (pos + 1);
        pos = d2;
    }
    let total_digits = (d1 - start) + digits_after;
    if total_digits == 0 {
        proof {
            lemma_no_mantissa(s@, t, start as int, d1 as int);
        }
        return false;
    }
    let ghost mant_end = pos as int;
    proof {
        assert(mantissa_split(s@.subrange(start as int, mant_end), d1 - start as int));
    }
    if pos == n {
        proof {
            assert(t.take(mant_end - start) =~= s@.subrange(start as int, mant_end));
            assert(t.skip(mant_end - start) =~= Seq::<char>::empty());
            assert(float_split(t, mant_end - start));
        }
        return true;
    }
    let ec = s.get_char(pos);
    if !(ec == 'e' || ec == 'E') {
        proof {
            lemma_not_float(s@, t, start as int, d1 as int, mant_end);
        }
        return false;
    }
    let mut ep = pos + 1;
    if ep < n {
        let sc = s.get_char(ep);
        if sc == '+' || sc == '-' {
            ep = ep + 1;
        }
    }
    let d3 = scan_digits(s, ep);
    if d3 == n && d3 > ep {
        proof {
            assert(t.take(mant_end - start) =~= s@.subrange(start as int, mant_end));
            let e = t.skip(mant_end - start);
            assert(e =~= s@.subrange(mant_end, n as int));
            assert(e[0] == 'e' || e[0] == 'E');
            let d = strip_sign(e.skip(1));
            assert(d =~= s@.subrange(ep as int, n as int));
            assert(float_split(t, mant_end - start));
        }
        return true;
    }
    proof {
        lemma_bad_exp(s@, t, start as int, d1 as int, mant_end, ep as int, d3 as int);
    }
    false
}

/// Decides [`is_float_text`]: whether `s` is a numeric token.
pub fn check_float_text(s: &str) -> (r: bool)
    ensures
        r == is_float_text(s@),
{
    let n = s.unicode_len();
    let start: usize = if n > 0 && {
        let c = s.get_char(0);
        c == '+' || c == '-'
    } {
        1
    } else {
        0
    };
    let ghost t = strip_sign(s@);
    proof {
        assert(t =~= s@.skip(start as int));
    }
    let m = n - start;
    // the special words
    if m == 3 {
        let c0 = s.get_char(start);
        let c1 = s.get_char(start + 1);
        let c2 = s.get_char(start + 2);
        if (c0 == 'i' || c0 == 'I') && (c1 == 'n' || c1 == 'N') && (c2 == 'f' || c2 == 'F') {
            return true;
        }
        if (c0 == 'n' || c0 == 'N') && (c1 == 'a' || c1 == 'A') && (c2 == 'n' || c2 == 'N') {
            return true;
        }
    }
    if m == 8 {
        let c0 = s.get_char(start);
        let c1 = s.get_char(start + 1);
        let c2 = s.get_char(start + 2);
        let c3 = s.get_char(start + 3);
        let c4 = s.get_char(start + 4);
        let c5 = s.get_char(start + 5);
        let c6 = s.get_char(start + 6);
        let c7 = s.get_char(start + 7);
        if (c0 == 'i' || c0 == 'I') && (c1 == 'n' || c1 == 'N') && (c2 == 'f' || c2 == 'F') && (c3
            == 'i' || c3 == 'I') && (c4 == 'n' || c4 == 'N') && (c5 == 'i' || c5 == 'I') && (c6
            == 't' || c6 == 'T') && (c7 == 'y' || c7 == 'Y') {
            return true;
        }
    }
    check_decimal(s, start)
}

/// With no digit at the front and none after a leading dot, no prefix
/// of the remainder is a mantissa, so the text is not a float.
proof fn lemma_no_mantissa(s: Seq<char>, t: Seq<char>, start: int, d1: int)
    requires
        0 <= start <= s.len(),
        t == strip_sign(s),
        t == strip_sign(s),
        t == strip_sign(s),
        t == s.skip(start),
        start <= d1 <= s.len(),
        all_digits(s, start, d1),
        d1 < s.len() ==> !is_digit(s[d1]),
        d1 == start,
        // no digits at all: either no dot, or a dot with no digit after it
        (d1 < s.len() && s[d1] == '.') ==> (d1 + 1 == s.len() || !is_digit(s[d1 + 1])),
        !(is_inf(t) || is_infinity(t) || is_nan(t)),
    ensures
        !is_float_text(s),
{
    assert forall|k: int| !float_split(t, k) by {
        if 0 <= k <= t.len() {
            assert forall|p: int| !mantissa_split(t.take(k), p) by {
                let m = t.take(k);
                if 0 <= p <= m.len() && all_digits(m, 0, p) && (p == m.len() || (m[p] == '.'
                    && all_digits(m, p + 1, m.len() as int))) {
                    // no leading digit forces p == 0; then the dot case
                    // needs a digit right after it, which is absent
                    if p > 0 {
                        assert(m[0] == s[start]);
                        assert(is_digit(s[start]));
                    } else {
                        if p + 1 < m.len() {
                            assert(m[0] == s[start]);
                            assert(m[1] == s[start + 1]);
                        }
                    }
                }
            }
        }
    }
}

/// With the mantissa ending at a character that is no exponent marker,
/// no split of the remainder parses, so the text is not a float.
proof fn lemma_not_float(s: Seq<char>, t: Seq<char>, start: int, d1: int, mant_end: int)
    requires
        0 <= start <= d1 <= mant_end <= s.len(),
        t == strip_sign(s),
        t == s.skip(start),
        all_digits(s, start, d1),
        mant_end == d1 ==> s[d1] != '.',
        mant_end > d1 ==> (s[d1] == '.' && all_digits(s, d1 + 1, mant_end)),
        mant_end < s.len(),
        !is_digit(s[mant_end]),
        !(s[mant_end] == 'e' || s[mant_end] == 'E'),
        !(is_inf(t) || is_infinity(t) || is_nan(t)),
    ensures
        !is_float_text(s),
{
    assert forall|k: int| !float_split(t, k) by {
        if 0 <= k <= t.len() {
            let m = t.take(k);
            let e = t.skip(k);
            if is_exp_part(e) && is_mantissa(m) {
                let p = choose|p: int| mantissa_split(m, p);
                assert(forall|i: int| 0 <= i < m.len() ==> m[i] == s[start + i]);
                assert(forall|i: int| 0 <= i < e.len() ==> e[i] == s[start + k + i]);
                if start + k < mant_end {
                    // the remainder starts inside the mantissa with a
                    // digit or the dot, never an exponent marker
                    assert(e.len() > 0);
                    assert(e[0] == s[start + k]);
                    assert(is_digit(s[start + k]) || s[start + k] == '.');
                    assert(false);
                } else if start + k == mant_end {
                    // the remainder starts at the offending character
                    assert(e.len() > 0);
                    assert(e[0] == s[mant_end]);
                    assert(false);
                } else {
                    // the offending character sits inside the claimed
                    // mantissa, refuting every split position
                    let q = mant_end - start;
                    assert(m[q] == s[mant_end]);
                    if p < q {
                        if mant_end > d1 && p < d1 - start {
                            assert(is_digit(m[p]));
                            assert(m[p] == '.');
                        } else if mant_end > d1 {
                            // p lands on or after the dot: digits are
                            // required up to p, but the dot is not one
                            assert(is_digit(m[d1 - start]) || p == d1 - start);
                            if p == d1 - start {
                                assert(all_digits(m, p + 1, m.len() as int));
                                assert(is_digit(m[q]));
                            }
                        } else {
                            assert(is_digit(m[q]));
                        }
                        assert(false);
                    } else if p == q {
                        assert(m[p] == '.');
                        if mant_end > d1 {
                            assert(is_digit(m[d1 - start]));
                            assert(m[d1 - start] == s[d1]);
                        }
                        assert(false);
                    } else {
                        assert(is_digit(m[q]));
                        assert(false);
                    }
                }
            }
        }
    }
}

/// With a malformed exponent tail, no split parses, so the text is not
/// a float.
#[verifier::rlimit(100)]
#[verifier::spinoff_prover]
proof fn lemma_bad_exp(
    s: Seq<char>,
    t: Seq<char>,
    start: int,
    d1: int,
    mant_end: int,
    ep: int,
    d3: int,
)
    requires
        0 <= start <= d1 <= mant_end < s.len(),
        t == strip_sign(s),
        t == strip_sign(s),
        t == strip_sign(s),
        t == s.skip(start),
        all_digits(s, start, d1),
        d1 < s.len() ==> !is_digit(s[d1]),
        mant_end > d1 ==> (s[d1] == '.' && all_digits(s, d1 + 1, mant_end)),
        mant_end > d1 ==> (mant_end < s.len() ==> !is_digit(s[mant_end])),
        s[mant_end] == 'e' || s[mant_end] == 'E',
        mant_end + 1 <= ep <= s.len(),
        ep > mant_end + 1 ==> (ep == mant_end + 2 && (s[mant_end + 1] == '+' || s[mant_end + 1]
            == '-')),
        ep == mant_end + 1 ==> (ep < s.len() ==> !(s[ep] == '+' || s[ep] == '-')),
        ep <= d3 <= s.len(),
        all_digits(s, ep, d3),
        d3 < s.len() ==> !is_digit(s[d3]),
        !(d3 == s.len() && d3 > ep),
        !(is_inf(t) || is_infinity(t) || is_nan(t)),
    ensures
        !is_float_text(s),
{
    assert forall|k: int| !float_split(t, k) by {
        if 0 <= k <= t.len() {
            let m = t.take(k);
            let e = t.skip(k);
            if is_exp_part(e) && is_mantissa(m) {
                let p = choose|p: int| mantissa_split(m, p);
                assert(forall|i: int| 0 <= i < m.len() ==> m[i] == s[start + i]);
                assert(forall|i: int| 0 <= i < e.len() ==> e[i] == s[start + k + i]);
                if start + k < mant_end {
                    // remainder starts inside the mantissa: not empty,
                    // and its head is a digit or a dot
                    assert(e[0] == s[start + k]);
                    assert(is_digit(s[start + k]) || s[start + k] == '.');
                    assert(false);
                } else if start + k == mant_end {
                    // remainder is exactly the scanned exponent, which
                    // was found malformed
                    assert(e[0] == s[mant_end]);
                    let d = strip_sign(e.skip(1));
                    assert(e.skip(1) =~= s.subrange(mant_end + 1, s.len() as int));
                    assert(d =~= s.subrange(ep, s.len() as int));
                    if d.len() > 0 && all_digits(d, 0, d.len() as int) {
                        assert(is_digit(d[d3 - ep]));
                    }
                } else {
                    // k reaches past the exponent marker: the marker
                    // sits inside m, refuting every split p
                    assert(m[mant_end - start] == s[mant_end]);
                    if p < mant_end - start {
                        assert(is_digit(m[mant_end - start]) || m[mant_end - start] == '.');
                    } else if p == mant_end - start {
                        assert(m[p] == '.');
                    } else {
                        assert(is_digit(m[mant_end - start]));
                    }
                }
            }
        }
    }
}

/// The texts of a string list.
pub open spec fn texts(ss: Seq<String>) -> Seq<Seq<char>> {
    ss.map_values(|s: String| s@)
}

/// The texts of a row list.
pub open spec fn grid_texts(rows: Seq<Vec<String>>) -> Seq<Seq<Seq<char>>> {
    rows.map_values(|r: Vec<String>| texts(r@))
}

/// Appending a string extends the text list by its text.
pub proof fn lemma_texts_push(ss: Seq<String>, s: String)
    ensures
        texts(ss.push(s)) == texts(ss).push(s@),
{
    assert(texts(ss.push(s)) =~= texts(ss).push(s@));
}

/// Appending a row extends the row-text list by its texts.
pub proof fn lemma_grid_push(rows: Seq<Vec<String>>, r: Vec<String>)
    ensures
        grid_texts(rows.push(r)) == grid_texts(rows).push(texts(r@)),
{
    assert(grid_texts(rows.push(r)) =~= grid_texts(rows).push(texts(r@)));
}

/// Dropping the last string drops the last text.
pub proof fn lemma_texts_drop_last(ss: Seq<String>)
    requires
        ss.len() > 0,
    ensures
        texts(ss.drop_last()) == texts(ss).drop_last(),
{
    assert(texts(ss.drop_last()) =~= texts(ss).drop_last());
}

/// `s` with leading ASCII whitespace removed.
pub open spec fn trim_front(s: Seq<char>) -> Seq<char>
    decreases s.len(),
{
    if s.len() > 0 && is_space(s[0]) {
        trim_front(s.skip(1))
    } else {
        s
    }
}

/// `s` with trailing ASCII whitespace removed.
pub open spec fn trim_back(s: Seq<char>) -> Seq<char>
    decreases s.len(),
{
    if s.len() > 0 && is_space(s.last()) {
        trim_back(s.drop_last())
    } else {
        s
    }
}

/// `s` with whitespace removed from both ends.
pub open spec fn spec_trim(s: Seq<char>) -> Seq<char> {
    trim_back(trim_front(s))
}

/// Whether `c` is ASCII whitespace.
fn is_space_char(c: char) -> (r: bool)
    ensures
        r == is_space(c),
{
    c == ' ' || c == '\t' || c == '\r' || c == '\n'
}

/// Removes ASCII whitespace from both ends.
pub fn trim_str<'a>(s: &'a str) -> (r: &'a str)
    ensures
        r@ == spec_trim(s@),
{
    let n = s.unicode_len();
    let mut a: usize = 0;
    proof {
        assert(s@.skip(0) =~= s@);
    }
    while a < n && is_space_char(s.get_char(a))
        invariant
            a <= n,
            n == s@.len(),
            trim_front(s@) == trim_front(s@.skip(a as int)),
        decreases n - a,
    {
        proof {
            assert(s@.skip(a as int).len() > 0);
            assert(s@.skip(a as int)[0] == s@[a as int]);
            assert(s@.skip(a as int).skip(1) =~= s@.skip(a + 1));
        }
        a = a + 1;
    }
    proof {
        if a < n {
            assert(s@.skip(a as int)[0] == s@[a as int]);
        }
        assert(trim_front(s@) == s@.skip(a as int));
    }
    let mut b: usize = n;
    while b > a && is_space_char(s.get_char(b - 1))
        invariant
            a <= b <= n,
            n == s@.len(),
            trim_front(s@) == s@.skip(a as int),
            trim_back(s@.skip(a as int)) == trim_back(s@.subrange(a as int, b as int)),
        decreases b,
    {
        proof {
            let cur = s@.subrange(a as int, b as int);
            assert(cur.last() == s@[b - 1]);
            assert(cur.drop_last() =~= s@.subrange(a as int, b - 1));
        }
        b = b - 1;
    }
    proof {
        assert(s@.skip(a as int) =~= s@.subrange(a as int, n as int));
        let cur = s@.subrange(a as int, b as int);
        if b > a {
            assert(cur.last() == s@[b - 1]);
        }
        assert(trim_back(cur) == cur);
    }
    let r = s.substring_char(a, b);
    r
}

/// The comma-separated fields of a line.  The empty line is one empty
/// field; every comma starts a new field.
pub open spec fn split_commas(s: Seq<char>) -> Seq<Seq<char>>
    decreases s.len(),
{
    if s.len() == 0 {
        seq![Seq::<char>::empty()]
    } else if s.last() == ',' {
        split_commas(s.drop_last()).push(Seq::<char>::empty())
    } else {
        let rest = split_commas(s.drop_last());
        rest.update(rest.len() - 1, rest.last().push(s.last()))
    }
}

/// A line splits into at least one field.
pub proof fn lemma_split_nonempty(s: Seq<char>)
    ensures
        split_commas(s).len() >= 1,
    decreases s.len(),
{
    if s.len() > 0 {
        lemma_split_nonempty(s.drop_last());
    }
}

/// Splits a line on commas.
pub fn split_line(s: &str) -> (r: Vec<String>)
    ensures
        texts(r@) == split_commas(s@),
        r@.len() >= 1,
    decreases s@.len(),
{
    let mut fields: Vec<String> = Vec::new();
    fields.push(String::new());
    let n = s.unicode_len();
    let mut i: usize = 0;
    proof {
        assert(s@.take(0) =~= Seq::<char>::empty());
        assert(texts(fields@) =~= split_commas(s@.take(0)));
    }
    while i < n
        invariant
            i <= n,
            n == s@.len(),
            fields@.len() >= 1,
            texts(fields@) == split_commas(s@.take(i as int)),
        decreases n - i,
    {
        let c = s.get_char(i);
        let ghost prev = fields@;
        proof {
            assert(s@.take(i + 1).drop_last() =~= s@.take(i as int));
            assert(s@.take(i + 1).last() == s@[i as int]);
            lemma_split_nonempty(s@.take(i as int));
        }
        if c == ',' {
            fields.push(String::new());
            proof {
                assert(fields@.last()@ =~= Seq::<char>::empty());
                lemma_texts_push(prev, fields@.last());
                assert(texts(fields@) =~= split_commas(s@.take(i + 1)));
            }
        } else {
            let piece = s.substring_char(i, i + 1);
            proof {
                assert(piece@ =~= seq![s@[i as int]]);
            }
            let popped = fields.pop();
            match popped {
                Some(mut f) => {
                    f.append(piece);
                    fields.push(f);
                    proof {
                        lemma_texts_drop_last(prev);
                        lemma_texts_push(prev.drop_last(), fields@.last());
                        assert(fields@.last()@ == prev.last()@ + piece@);
                        assert(fields@.last()@ =~= texts(prev).last().push(s@[i as int]));
                        assert(texts(fields@) =~= texts(prev).update(
                            texts(prev).len() - 1,
                            texts(prev).last().push(s@[i as int]),
                        ));
                        assert(texts(fields@) =~= split_commas(s@.take(i + 1)));
                    }
                },
                None => {
                    proof {
                        assert(false);
                    }
                },
            }
        }
        i = i + 1;
    }
    proof {
        assert(s@.take(n as int) =~= s@);
        lemma_split_nonempty(s@);
    }
    fields
}

/// Whether a line is retained: not blank and not a `#` comment, after
/// trimming.
pub open spec fn keep_line(l: Seq<char>) -> bool {
    let t = spec_trim(l);
    t.len() > 0 && t[0] != '#'
}

/// The position of the first retained line at or after `i`, or the
/// line count when none remains.
pub open spec fn find_header(lines: Seq<Seq<char>>, i: int) -> int
    decreases lines.len() - i,
{
    if i < 0 || i >= lines.len() {
        lines.len() as int
    } else if keep_line(lines[i]) {
        i
    } else {
        find_header(lines, i + 1)
    }
}

/// The data rows from line `i` on: each retained line split on commas,
/// provided it has exactly `ncols` fields; otherwise the 1-based number
/// of the first offending line.
pub open spec fn parse_rows(lines: Seq<Seq<char>>, i: int, ncols: int) -> Result<
    Seq<Seq<Seq<char>>>,
    int,
>
    decreases lines.len() - i,
{
    if i < 0 || i >= lines.len() {
        Ok(Seq::<Seq<Seq<char>>>::empty())
    } else if !keep_line(lines[i]) {
        parse_rows(lines, i + 1, ncols)
    } else {
        let fields = split_commas(spec_trim(lines[i]));
        if fields.len() != ncols {
            Err(i + 1)
        } else {
            match parse_rows(lines, i + 1, ncols) {
                Ok(rs) => Ok(seq![fields] + rs),
                Err(e) => Err(e),
            }
        }
    }
}

/// The header of a line sequence: the first retained line, split on
/// commas, each cell trimmed.  Empty when no line is retained.
pub open spec fn spec_header(lines: Seq<Seq<char>>) -> Seq<Seq<char>> {
    let h = find_header(lines, 0);
    if h >= lines.len() {
        Seq::<Seq<char>>::empty()
    } else {
        split_commas(spec_trim(lines[h])).map_values(|c: Seq<char>| spec_trim(c))
    }
}

/// The whole grid a line sequence parses to: the header and the data
/// rows, or the 1-based number of the first line whose field count
/// differs from the header's.
pub open spec fn spec_parse(lines: Seq<Seq<char>>) -> Result<
    (Seq<Seq<char>>, Seq<Seq<Seq<char>>>),
    int,
> {
    let h = find_header(lines, 0);
    if h >= lines.len() {
        Ok((Seq::<Seq<char>>::empty(), Seq::<Seq<Seq<char>>>::empty()))
    } else {
        let header = spec_header(lines);
        match parse_rows(lines, h + 1, header.len() as int) {
            Ok(rows) => Ok((header, rows)),
            Err(n) => Err(n),
        }
    }
}

/// A parsed result stream: the column names in order, and the raw cell
/// texts of every data row, each row exactly as wide as the header.
#[derive(Debug, PartialEq, Eq)]
pub struct CsvGrid {
    pub header: Vec<String>,
    pub rows: Vec<Vec<String>>,
}

/// Whether a line is retained.
fn keep_line_exec(l: &str) -> (r: bool)
    ensures
        r == keep_line(l@),
{
    let t = trim_str(l);
    let n = t.unicode_len();
    n > 0 && t.get_char(0) != '#'
}

/// Parses lines into a grid: the first retained line is the header,
/// every later retained line a data row with the same field count.  On
/// a mismatch, the 1-based number of the offending line comes back.
pub fn parse_csv(lines: &Vec<String>) -> (r: Result<CsvGrid, usize>)
    ensures
        match spec_parse(texts(lines@)) {
            Ok((h, rs)) => r matches Ok(g) && texts(g.header@) == h && grid_texts(g.rows@) == rs,
            Err(n) => r matches Err(m) && m == n,
        },
{
    let ghost lv = texts(lines@);
    let n = lines.len();
    let mut i: usize = 0;
    while i < n && !keep_line_exec(lines[i].as_str())
        invariant
            i <= n,
            n == lines@.len(),
            lv == texts(lines@),
            find_header(lv, 0) == find_header(lv, i as int),
        decreases n - i,
    {
        i = i + 1;
    }
    if i == n {
        let g = CsvGrid { header: Vec::new(), rows: Vec::new() };
        proof {
            assert(texts(g.header@) =~= Seq::<Seq<char>>::empty());
            assert(grid_texts(g.rows@) =~= Seq::<Seq<Seq<char>>>::empty());
        }
        return Ok(g);
    }
    let ghost h = i as int;
    let trimmed = trim_str(lines[i].as_str());
    let raw_cells = split_line(trimmed);
    let mut header: Vec<String> = Vec::new();
    let mut j: usize = 0;
    while j < raw_cells.len()
        invariant
            j <= raw_cells@.len(),
            texts(header@) == texts(raw_cells@).map_values(|c: Seq<char>| spec_trim(c)).take(
                j as int,
            ),
        decreases raw_cells@.len() - j,
    {
        let ghost prevh = header@;
        let cell = String::from_str(trim_str(raw_cells[j].as_str()));
        header.push(cell);
        proof {
            lemma_texts_push(prevh, header@.last());
            assert(header@.last()@ == spec_trim(raw_cells@[j as int]@));
            assert(texts(raw_cells@)[j as int] == raw_cells@[j as int]@);
            assert(texts(header@) =~= texts(raw_cells@).map_values(|c: Seq<char>| spec_trim(c)).take(
                j + 1,
            ));
        }
        j = j + 1;
    }
    proof {
        let full = texts(raw_cells@).map_values(|c: Seq<char>| spec_trim(c));
        assert(full.take(raw_cells@.len() as int) =~= full);
        assert(lv[h] == lines@[h]@);
        assert(texts(raw_cells@) == split_commas(spec_trim(lv[h])));
        assert(texts(header@) == spec_header(lv));
    }
    let ncols = header.len();
    let mut rows: Vec<Vec<String>> = Vec::new();
    let mut k: usize = i + 1;
    proof {
        assert(grid_texts(rows@) =~= Seq::<Seq<Seq<char>>>::empty());
    }
    while k < n
        invariant
            h + 1 <= k <= n,
            n == lines@.len(),
            lv == texts(lines@),
            ncols == header@.len(),
            texts(header@) == spec_header(lv),
            find_header(lv, 0) == h,
            h < lv.len(),
            parse_rows(lv, h + 1, ncols as int) == (match parse_rows(lv, k as int, ncols as int) {
                Ok(rs) => Ok::<Seq<Seq<Seq<char>>>, int>(grid_texts(rows@) + rs),
                Err(e) => Err::<Seq<Seq<Seq<char>>>, int>(e),
            }),
        decreases n - k,
    {
        let line = lines[k].as_str();
        if keep_line_exec(line) {
            let t = trim_str(line);
            let fields = split_line(t);
            if fields.len() != ncols {
                return Err(k + 1);
            }
            let ghost prevr = rows@;
            rows.push(fields);
            proof {
                assert(lv[k as int] == lines@[k as int]@);
                let fl = split_commas(spec_trim(lv[k as int]));
                lemma_grid_push(prevr, rows@.last());
                assert(texts(rows@.last()@) == fl);
                let rest = parse_rows(lv, k + 1, ncols as int);
                if rest is Ok {
                    let rs = rest->Ok_0;
                    assert(parse_rows(lv, k as int, ncols as int) == Ok::<Seq<Seq<Seq<char>>>, int>(
                        seq![fl] + rs,
                    ));
                    assert(grid_texts(prevr).push(fl) + rs =~= grid_texts(prevr) + (seq![fl] + rs));
                }
            }
        }
        k = k + 1;
    }
    proof {
        assert(parse_rows(lv, n as int, ncols as int) == Ok::<Seq<Seq<Seq<char>>>, int>(
            Seq::<Seq<Seq<char>>>::empty(),
        ));
        assert(grid_texts(rows@) + Seq::<Seq<Seq<char>>>::empty() =~= grid_texts(rows@));
    }
    Ok(CsvGrid { header, rows })
}

/// A streaming consumer of parsed CSV rows: one `new_line` per data
/// row, then one `set` per (column name, cell) pair, in order.
///
/// `spec_new_line` and `spec_set` are the functional model over the
/// consumer's view; `spec_set` returns `None` exactly on a value-parse
/// failure.  `spec_wf` is the consumer's well-formedness invariant,
/// which both operations preserve.
pub trait AsResult: Sized + View {
    /// The consumer's well-formedness invariant.
    spec fn spec_wf(v: Self::V) -> bool;

    /// What starting a row does to the consumer.
    spec fn spec_new_line(v: Self::V) -> Self::V;

    /// What one (name, cell) pair does: the updated consumer, or
    /// `None` for a value-parse failure.
    spec fn spec_set(v: Self::V, key: Seq<char>, val: Seq<char>) -> Option<Self::V>;

    /// Starts a new row.
    fn new_line(&mut self)
        requires
            Self::spec_wf(old(self)@),
        ensures
            final(self)@ == Self::spec_new_line(old(self)@),
            Self::spec_wf(final(self)@),
    ;

    /// Feeds one (name, cell) pair.
    fn set_value(&mut self, key: &str, val: &str) -> (r: Result<(), ParamError>)
        requires
            Self::spec_wf(old(self)@),
        ensures
            match Self::spec_set(old(self)@, key@, val@) {
                Some(v) => r is Ok && final(self)@ == v && Self::spec_wf(final(self)@),
                None => r matches Err(e) && e matches ParamError::ParseError(_) && final(self)@
                    == old(self)@,
            },
    ;
}

/// Feeding one row's cells from position `j` on into a consumer state.
pub open spec fn feed_row<T: AsResult>(
    v: T::V,
    keys: Seq<Seq<char>>,
    vals: Seq<Seq<char>>,
    j: int,
) -> Option<T::V>
    decreases keys.len() - j,
{
    if j < 0 || j >= keys.len() {
        Some(v)
    } else {
        match T::spec_set(v, keys[j], vals[j]) {
            Some(v2) => feed_row::<T>(v2, keys, vals, j + 1),
            None => None,
        }
    }
}

/// The outcome of streaming data rows into a consumer: the final
/// consumer state; a field-count mismatch at a 1-based line number,
/// with the consumer as fed so far; or a cell the consumer refused.
pub ghost enum StreamOutcome<V> {
    Done(V),
    Bad(int, V),
    ValueFail,
}

/// Streaming the retained lines from `i` on into a consumer state:
/// each row is checked against the header width, then fed cell by
/// cell.  Rows before an offending line have already been fed.
pub open spec fn spec_stream<T: AsResult>(
    v: T::V,
    keys: Seq<Seq<char>>,
    lines: Seq<Seq<char>>,
    i: int,
) -> StreamOutcome<T::V>
    decreases lines.len() - i,
{
    if i < 0 || i >= lines.len() {
        StreamOutcome::Done(v)
    } else if !keep_line(lines[i]) {
        spec_stream::<T>(v, keys, lines, i + 1)
    } else {
        let fields = split_commas(spec_trim(lines[i]));
        if fields.len() != keys.len() {
            StreamOutcome::Bad(i + 1, v)
        } else {
            match feed_row::<T>(T::spec_new_line(v), keys, fields, 0) {
                Some(v2) => spec_stream::<T>(v2, keys, lines, i + 1),
                None => StreamOutcome::ValueFail,
            }
        }
    }
}

/// The message naming a line whose field count differs from the
/// header's.
pub open spec fn bad_line_msg(n: int) -> Seq<char> {
    "Bad CSV Format: line "@ + dec_nat(n as nat) + " has more or less columns than header"@
}

/// Streams the lines into `res` as the engine's CSV format: the first
/// retained line names the columns; every later retained line is one
/// data row, fed as one `new_line` and one `set_value` per (column,
/// cell) pair.  A row whose field count differs from the header's
/// stops the stream with the offending line's 1-based number -- the
/// rows before it have already been delivered.  A cell the consumer
/// refuses stops the stream with that failure.
pub fn analyze_csv<T: AsResult>(csv_path: &str, lines: &Vec<String>, res: &mut T) -> (r: Result<
    (),
    CmdStanError,
>)
    requires
        T::spec_wf(old(res)@),
    ensures
        ({
            let lv = texts(lines@);
            let h = find_header(lv, 0);
            if h >= lv.len() {
                r is Ok && final(res)@ == old(res)@
            } else {
                match spec_stream::<T>(old(res)@, spec_header(lv), lv, h + 1) {
                    StreamOutcome::Done(v) => r is Ok && final(res)@ == v,
                    StreamOutcome::Bad(n, v) => (r matches Err(e) && (e matches
                        CmdStanError::File(FileError::BadFileFormat(m, p)) && m@ == bad_line_msg(n)
                        && p@ == csv_path@)) && final(res)@ == v,
                    StreamOutcome::ValueFail => r matches Err(e) && e matches CmdStanError::Param(
                        ParamError::ParseError(_),
                    ),
                }
            }
        }),
{
    let ghost lv = texts(lines@);
    let n = lines.len();
    let mut i: usize = 0;
    while i < n && !keep_line_exec(lines[i].as_str())
        invariant
            i <= n,
            n == lines@.len(),
            lv == texts(lines@),
            find_header(lv, 0) == find_header(lv, i as int),
        decreases n - i,
    {
        i = i + 1;
    }
    if i == n {
        return Ok(());
    }
    let ghost h = i as int;
    let trimmed = trim_str(lines[i].as_str());
    let raw_cells = split_line(trimmed);
    let mut header: Vec<String> = Vec::new();
    let mut j: usize = 0;
    while j < raw_cells.len()
        invariant
            j <= raw_cells@.len(),
            texts(header@) == texts(raw_cells@).map_values(|c: Seq<char>| spec_trim(c)).take(
                j as int,
            ),
        decreases raw_cells@.len() - j,
    {
        let ghost prevh = header@;
        let cell = String::from_str(trim_str(raw_cells[j].as_str()));
        header.push(cell);
        proof {
            lemma_texts_push(prevh, header@.last());
            assert(header@.last()@ == spec_trim(raw_cells@[j as int]@));
            assert(texts(raw_cells@)[j as int] == raw_cells@[j as int]@);
            assert(texts(header@) =~= texts(raw_cells@).map_values(|c: Seq<char>| spec_trim(c)).take(
                j + 1,
            ));
        }
        j = j + 1;
    }
    proof {
        let full = texts(raw_cells@).map_values(|c: Seq<char>| spec_trim(c));
        assert(full.take(raw_cells@.len() as int) =~= full);
        assert(lv[h] == lines@[h]@);
        assert(texts(raw_cells@) == split_commas(spec_trim(lv[h])));
        assert(texts(header@) == spec_header(lv));
    }
    let ncols = header.len();
    let mut k: usize = i + 1;
    while k < n
        invariant
            h + 1 <= k <= n,
            n == lines@.len(),
            lv == texts(lines@),
            ncols == header@.len(),
            texts(header@) == spec_header(lv),
            find_header(lv, 0) == h,
            h < lv.len(),
            T::spec_wf(res@),
            spec_stream::<T>(old(res)@, spec_header(lv), lv, h + 1) == spec_stream::<T>(
                res@,
                spec_header(lv),
                lv,
                k as int,
            ),
        decreases n - k,
    {
        let line = lines[k].as_str();
        if keep_line_exec(line) {
            let t = trim_str(line);
            let fields = split_line(t);
            proof {
                assert(lv[k as int] == lines@[k as int]@);
                assert(texts(fields@) == split_commas(spec_trim(lv[k as int])));
            }
            if fields.len() != ncols {
                let mut m = String::from_str("Bad CSV Format: line ");
                crate::render::append_u64(&mut m, (k + 1) as u64);
                m.append(" has more or less columns than header");
                proof {
                    reveal_strlit("Bad CSV Format: line ");
                    reveal_strlit(" has more or less columns than header");
                    assert(m@ =~= bad_line_msg(k + 1));
                    assert(spec_stream::<T>(res@, spec_header(lv), lv, k as int)
                        == StreamOutcome::<T::V>::Bad(k + 1, res@));
                }
                return Err(
                    CmdStanError::File(FileError::BadFileFormat(m, String::from_str(csv_path))),
                );
            }
            let ghost row = texts(fields@);
            let ghost pre_nl = res@;
            res.new_line();
            proof {
                assert(spec_stream::<T>(pre_nl, spec_header(lv), lv, k as int) == (
                match feed_row::<T>(T::spec_new_line(pre_nl), spec_header(lv), row, 0) {
                    Some(v2) => spec_stream::<T>(v2, spec_header(lv), lv, k + 1),
                    None => StreamOutcome::<T::V>::ValueFail,
                }));
            }
            let mut c: usize = 0;
            while c < ncols
                invariant
                    c <= ncols,
                    k < n,
                    n == lines@.len(),
                    lv == texts(lines@),
                    find_header(lv, 0) == h,
                    h < lv.len(),
                    ncols == header@.len(),
                    texts(header@) == spec_header(lv),
                    fields@.len() == ncols,
                    row == texts(fields@),
                    row.len() == ncols,
                    T::spec_wf(res@),
                    spec_stream::<T>(old(res)@, spec_header(lv), lv, h + 1) == (
                    match feed_row::<T>(res@, spec_header(lv), row, c as int) {
                        Some(v2) => spec_stream::<T>(v2, spec_header(lv), lv, k + 1),
                        None => StreamOutcome::<T::V>::ValueFail,
                    }),
                decreases ncols - c,
            {
                let key = header[c].as_str();
                let val = fields[c].as_str();
                proof {
                    assert(spec_header(lv)[c as int] == header@[c as int]@);
                    assert(row[c as int] == fields@[c as int]@);
                }
                let ghost pre = res@;
                let set = res.set_value(key, val);
                match set {
                    Ok(()) => {
                        proof {
                            assert(T::spec_set(pre, spec_header(lv)[c as int], row[c as int])
                                is Some);
                        }
                    },
                    Err(e) => {
                        proof {
                            assert(T::spec_set(pre, spec_header(lv)[c as int], row[c as int])
                                is None);
                            assert(feed_row::<T>(pre, spec_header(lv), row, c as int) is None);
                        }
                        return Err(CmdStanError::Param(e));
                    },
                }
                c = c + 1;
            }
        }
        k = k + 1;
    }
    proof {
        assert(spec_stream::<T>(res@, spec_header(lv), lv, n as int) == StreamOutcome::<
            T::V,
        >::Done(res@));
    }
    Ok(())
}

/// Replacing one string replaces its text./// Replacing one string replaces its text.
pub proof fn lemma_texts_update(ss: Seq<String>, i: int, x: String)
    requires
        0 <= i < ss.len(),
    ensures
        texts(ss.update(i, x)) == texts(ss).update(i, x@),
{
    assert(texts(ss.update(i, x)) =~= texts(ss).update(i, x@));
}

/// Replacing one row replaces its texts.
pub proof fn lemma_grid_update(rows: Seq<Vec<String>>, i: int, x: Vec<String>)
    requires
        0 <= i < rows.len(),
    ensures
        grid_texts(rows.update(i, x)) == grid_texts(rows).update(i, texts(x@)),
{
    assert(grid_texts(rows.update(i, x)) =~= grid_texts(rows).update(i, texts(x@)));
}

/// The position of the first column with the given name, or `-1`.
pub open spec fn key_at(ks: Seq<Seq<char>>, key: Seq<char>) -> int
    decreases ks.len(),
{
    if ks.len() == 0 {
        -1
    } else if ks[0] == key {
        0
    } else {
        let r = key_at(ks.skip(1), key);
        if r < 0 {
            -1
        } else {
            r + 1
        }
    }
}

/// Skipping a prefix without the key shifts its first position by the
/// prefix length.
pub proof fn lemma_key_at_from(ks: Seq<Seq<char>>, key: Seq<char>, i: int)
    requires
        0 <= i <= ks.len(),
        forall|j: int| 0 <= j < i ==> ks[j] != key,
    ensures
        key_at(ks, key) == (if key_at(ks.skip(i), key) < 0 {
            -1
        } else {
            i + key_at(ks.skip(i), key)
        }),
    decreases i,
{
    if i == 0 {
        assert(ks.skip(0) =~= ks);
    } else {
        assert(ks[0] != key);
        assert(ks.skip(1).skip(i - 1) =~= ks.skip(i));
        assert(forall|j: int| 0 <= j < i - 1 ==> ks.skip(1)[j] != key);
        lemma_key_at_from(ks.skip(1), key, i - 1);
    }
}

/// A key that has no position occurs nowhere.
pub proof fn lemma_key_at_none(ks: Seq<Seq<char>>, key: Seq<char>)
    requires
        key_at(ks, key) < 0,
    ensures
        forall|j: int| 0 <= j < ks.len() ==> ks[j] != key,
    decreases ks.len(),
{
    if ks.len() > 0 {
        lemma_key_at_none(ks.skip(1), key);
        assert forall|j: int| 0 <= j < ks.len() implies ks[j] != key by {
            if j > 0 {
                assert(ks.skip(1)[j - 1] == ks[j]);
            }
        }
    }
}

/// The first position of a key is in range and carries the key.
pub proof fn lemma_key_at_range(ks: Seq<Seq<char>>, key: Seq<char>)
    ensures
        -1 <= key_at(ks, key) < ks.len(),
        key_at(ks, key) >= 0 ==> ks[key_at(ks, key)] == key,
    decreases ks.len(),
{
    if ks.len() > 0 && !(ks[0] == key) {
        lemma_key_at_range(ks.skip(1), key);
        if key_at(ks, key) >= 0 {
            assert(ks.skip(1)[key_at(ks, key) - 1] == ks[key_at(ks, key)]);
        }
    }
}

/// The abstract contents of a raw table: column names in order, and
/// the cell texts of every row.
pub ghost struct RawTableV {
    pub keys: Seq<Seq<char>>,
    pub values: Seq<Seq<Seq<char>>>,
}

/// Registering a column: already-known names leave the table as it is;
/// a new name is appended and every existing row is backfilled with the
/// neutral `0`.
pub open spec fn raw_register(v: RawTableV, key: Seq<char>) -> RawTableV {
    if key_at(v.keys, key) >= 0 {
        v
    } else {
        RawTableV {
            keys: v.keys.push(key),
            values: v.values.map_values(|r: Seq<Seq<char>>| r.push("0"@)),
        }
    }
}

/// A dynamically-discovered numeric matrix: a column-name list and one
/// row of cell texts per data row, every cell a checked numeric token
/// or the neutral `0`.
#[derive(Debug, PartialEq, Eq)]
pub struct RawTable {
    keys: Vec<String>,
    values: Vec<Vec<String>>,
}

impl View for RawTable {
    type V = RawTableV;

    closed spec fn view(&self) -> RawTableV {
        RawTableV { keys: texts(self.keys@), values: grid_texts(self.values@) }
    }
}

impl RawTable {
    /// An empty table.
    pub fn new() -> (r: RawTable)
        ensures
            r@.keys.len() == 0,
            r@.values.len() == 0,
            <RawTable as AsResult>::spec_wf(r@),
    {
        let r = RawTable { keys: Vec::new(), values: Vec::new() };
        proof {
            assert(r@.keys =~= Seq::<Seq<char>>::empty());
            assert(r@.values =~= Seq::<Seq<Seq<char>>>::empty());
        }
        r
    }

    /// The number of ingested data rows.
    pub fn num_rows(&self) -> (r: usize)
        ensures
            r == self@.values.len(),
    {
        proof {
            assert(self@.values.len() == self.values@.len());
        }
        self.values.len()
    }

    /// The position of the first column with the given name, if any.
    fn find_key(&self, key: &str) -> (r: Option<usize>)
        ensures
            match r {
                Some(j) => j == key_at(self@.keys, key@) && j < self@.keys.len(),
                None => key_at(self@.keys, key@) < 0,
            },
    {
        let needle = String::from_str(key);
        let n = self.keys.len();
        let mut i: usize = 0;
        while i < n
            invariant
                i <= n,
                n == self.keys@.len(),
                needle@ == key@,
                forall|j: int| 0 <= j < i ==> texts(self.keys@)[j] != key@,
            decreases n - i,
        {
            if self.keys[i] == needle {
                proof {
                    lemma_key_at_from(texts(self.keys@), key@, i as int);
                    assert(texts(self.keys@).skip(i as int)[0] == texts(self.keys@)[i as int]);
                    assert(key_at(texts(self.keys@).skip(i as int), key@) == 0);
                }
                return Some(i);
            }
            i = i + 1;
        }
        proof {
            lemma_key_at_from(texts(self.keys@), key@, n as int);
            assert(texts(self.keys@).skip(n as int) =~= Seq::<Seq<char>>::empty());
        }
        None
    }
}

impl AsResult for RawTable {
    open spec fn spec_wf(v: RawTableV) -> bool {
        forall|i: int| 0 <= i < v.values.len() ==> (#[trigger] v.values[i]).len() == v.keys.len()
    }

    open spec fn spec_new_line(v: RawTableV) -> RawTableV {
        RawTableV { keys: v.keys, values: v.values.push(Seq::new(v.keys.len(), |j: int| "0"@)) }
    }

    open spec fn spec_set(v: RawTableV, key: Seq<char>, val: Seq<char>) -> Option<RawTableV> {
        if v.values.len() != 0 && !is_float_text(val) {
            None
        } else {
            let v1 = raw_register(v, key);
            if v1.values.len() == 0 {
                Some(v1)
            } else {
                let j = key_at(v1.keys, key);
                Some(
                    RawTableV {
                        keys: v1.keys,
                        values: v1.values.update(
                            v1.values.len() - 1,
                            v1.values.last().update(j, val),
                        ),
                    },
                )
            }
        }
    }

    fn new_line(&mut self) {
        let ghost v0 = self@;
        let klen = self.keys.len();
        let mut row: Vec<String> = Vec::new();
        let mut j: usize = 0;
        proof {
            assert(texts(row@) =~= Seq::new(0, |x: int| "0"@));
        }
        while j < klen
            invariant
                j <= klen,
                texts(row@) == Seq::new(j as nat, |x: int| "0"@),
            decreases klen - j,
        {
            let ghost prow = row@;
            row.push(String::from_str("0"));
            proof {
                lemma_texts_push(prow, row@.last());
                assert(texts(row@) =~= Seq::new((j + 1) as nat, |x: int| "0"@));
            }
            j = j + 1;
        }
        let ghost pv = self.values@;
        self.values.push(row);
        proof {
            lemma_grid_push(pv, self.values@.last());
            assert(klen == v0.keys.len());
            assert(self@.keys =~= v0.keys);
            assert(self@.values =~= Self::spec_new_line(v0).values);
        }
    }

    fn set_value(&mut self, key: &str, val: &str) -> (r: Result<(), ParamError>) {
        let ghost v0 = self@;
        // a bad cell is rejected before any column registration, so a
        // value-parse failure leaves the table exactly as it was
        if !self.values.is_empty() && !check_float_text(val) {
            proof {
                assert(self@.values.len() == self.values@.len());
            }
            return Err(ParamError::ParseError(String::from_str("not a valid number")));
        }
        let found = self.find_key(key);
        let j: usize = match found {
            Some(jj) => jj,
            None => {
                // a new column: register it and backfill every existing
                // row with the neutral value
                let idx = self.keys.len();
                let ghost prevk = self.keys@;
                self.keys.push(String::from_str(key));
                proof {
                    lemma_texts_push(prevk, self.keys@.last());
                    assert(texts(self.keys@) =~= v0.keys.push(key@));
                }
                let n = self.values.len();
                let mut i: usize = 0;
                while i < n
                    invariant
                        i <= n,
                        n == self.values@.len(),
                        texts(self.keys@) == v0.keys.push(key@),
                        self.values@.len() == v0.values.len(),
                        forall|x: int|
                            0 <= x < i ==> #[trigger] grid_texts(self.values@)[x]
                                == v0.values[x].push("0"@),
                        forall|x: int|
                            i <= x < n ==> #[trigger] grid_texts(self.values@)[x] == v0.values[x],
                    decreases n - i,
                {
                    let ghost pv = self.values@;
                    let mut one = self.values.remove(i);
                    let ghost pone = one@;
                    one.push(String::from_str("0"));
                    let ghost grown = one@;
                    self.values.insert(i, one);
                    proof {
                        lemma_texts_push(pone, grown.last());
                        assert(self.values@ =~= pv.update(i as int, self.values@[i as int]));
                        lemma_grid_update(pv, i as int, self.values@[i as int]);
                        assert(texts(grown) == texts(pv[i as int]@).push("0"@));
                        assert(grid_texts(pv)[i as int] == texts(pv[i as int]@));
                        assert forall|x: int| 0 <= x < n implies #[trigger] grid_texts(
                            self.values@,
                        )[x] == (if x <= i {
                            v0.values[x].push("0"@)
                        } else {
                            v0.values[x]
                        }) by {
                            if x != i {
                                assert(grid_texts(self.values@)[x] == grid_texts(pv)[x]);
                            }
                        }
                    }
                    i = i + 1;
                }
                proof {
                    lemma_key_at_range(v0.keys, key@);
                    lemma_key_at_none(v0.keys, key@);
                    assert(forall|x: int|
                        0 <= x < idx ==> #[trigger] v0.keys.push(key@)[x] == v0.keys[x]);
                    lemma_key_at_from(v0.keys.push(key@), key@, idx as int);
                    assert(v0.keys.push(key@).skip(idx as int) =~= seq![key@]);
                    assert(seq![key@][0] == key@);
                    assert(key_at(seq![key@], key@) == 0);
                    assert(forall|x: int|
                        0 <= x < idx ==> #[trigger] v0.keys.push(key@)[x] == v0.keys[x]);
                    assert(key_at(v0.keys.push(key@), key@) == idx);
                    assert(self@.values =~= v0.values.map_values(
                        |r: Seq<Seq<char>>| r.push("0"@),
                    ));
                }
                idx
            },
        };
        let ghost v1 = raw_register(v0, key@);
        proof {
            assert(self@.keys == v1.keys);
            assert(self@.values == v1.values);
            assert(j == key_at(v1.keys, key@));
            assert(Self::spec_wf(v1));
        }
        if self.values.is_empty() {
            proof {
                assert(self@.values.len() == 0);
            }
            return Ok(());
        }
        let li = self.values.len() - 1;
        let ghost pvals = self.values@;
        let popped = self.values.pop();
        match popped {
            Some(mut row) => {
                let ghost prow = row@;
                proof {
                    assert(grid_texts(pvals)[li as int] == texts(prow));
                    assert(texts(prow).len() == v1.keys.len());
                    assert(prow.len() == texts(prow).len());
                }
                row[j] = String::from_str(val);
                self.values.push(row);
                proof {
                    lemma_texts_update(prow, j as int, row@[j as int]);
                    assert(texts(row@) =~= texts(prow).update(j as int, val@));
                    assert(self.values@ =~= pvals.update(li as int, self.values@[li as int]));
                    lemma_grid_update(pvals, li as int, self.values@[li as int]);
                    assert(grid_texts(pvals).last() == texts(prow));
                    assert(self@.values =~= v1.values.update(
                        v1.values.len() - 1,
                        v1.values.last().update(j as int, val@),
                    ));
                }
                Ok(())
            },
            None => {
                proof {
                    assert(false);
                }
                Ok(())
            },
        }
    }
}

/// A sequence of typed records, one per ingested data row; cells are
/// routed to the freshest record by parameter name.
#[derive(Debug)]
pub struct ParamStream<T: crate::stan_model::WithParam>(pub Vec<T>);

impl<T: crate::stan_model::WithParam> View for ParamStream<T> {
    type V = Seq<T>;

    open spec fn view(&self) -> Seq<T> {
        self.0@
    }
}

impl<T: crate::stan_model::WithParam> ParamStream<T> {
    /// An empty stream.
    pub fn new() -> (r: ParamStream<T>)
        ensures
            r@.len() == 0,
    {
        ParamStream(Vec::new())
    }
}

impl<T: crate::stan_model::WithParam> AsResult for ParamStream<T> {
    open spec fn spec_wf(v: Seq<T>) -> bool {
        true
    }

    open spec fn spec_new_line(v: Seq<T>) -> Seq<T> {
        v.push(T::spec_param_default())
    }

    open spec fn spec_set(v: Seq<T>, key: Seq<char>, val: Seq<char>) -> Option<Seq<T>> {
        if v.len() == 0 {
            Some(v)
        } else {
            match T::spec_set_param(v.last(), key, val) {
                Some(t) => Some(v.update(v.len() - 1, t)),
                None => None,
            }
        }
    }

    fn new_line(&mut self) {
        self.0.push(T::param_default());
    }

    fn set_value(&mut self, key: &str, val: &str) -> (r: Result<(), ParamError>) {
        let ghost v0 = self.0@;
        if self.0.is_empty() {
            return Ok(());
        }
        let popped = self.0.pop();
        match popped {
            Some(mut item) => {
                let set = item.set_param_value(key, val);
                self.0.push(item);
                proof {
                    assert(v0.subrange(0, v0.len() - 1).push(self.0@.last()) =~= v0.update(
                        v0.len() - 1,
                        self.0@.last(),
                    ));
                }
                match set {
                    Ok(()) => Ok(()),
                    Err(e) => match e {
                        ParamError::ParamNotFound(_) => {
                            proof {
                                assert(v0.update(v0.len() - 1, v0.last()) =~= v0);
                            }
                            Ok(())
                        },
                        ParamError::ParseError(m) => {
                            proof {
                                assert(v0.subrange(0, v0.len() - 1).push(v0.last()) =~= v0);
                            }
                            Err(ParamError::ParseError(m))
                        },
                    },
                }
            },
            None => {
                proof {
                    assert(false);
                }
                Ok(())
            },
        }
    }
}

/// Per-column value sequences, with the shared row count.
#[derive(Debug, PartialEq, Eq)]
pub struct SampleSummary {
    /// The column names, in discovery order.
    pub names: Vec<String>,
    /// One full value sequence per column, aligned with `names`.
    pub columns: Vec<Vec<String>>,
    /// The shared number of rows.
    pub rows: usize,
}

impl SampleSummary {
    /// The value sequence of the named column, if it exists.
    pub fn column<'a>(&'a self, name: &str) -> (r: Option<&'a Vec<String>>)
        requires
            self.names@.len() == self.columns@.len(),
        ensures
            ({
                let j = key_at(texts(self.names@), name@);
                if j >= 0 {
                    r matches Some(c) && *c == self.columns@[j]
                } else {
                    r is None
                }
            }),
    {
        let needle = String::from_str(name);
        let n = self.names.len();
        let mut i: usize = 0;
        while i < n
            invariant
                i <= n,
                n == self.names@.len(),
                n == self.columns@.len(),
                needle@ == name@,
                forall|j: int| 0 <= j < i ==> texts(self.names@)[j] != name@,
            decreases n - i,
        {
            if self.names[i] == needle {
                proof {
                    lemma_key_at_from(texts(self.names@), name@, i as int);
                    assert(texts(self.names@).skip(i as int)[0] == texts(self.names@)[i as int]);
                    assert(key_at(texts(self.names@).skip(i as int), name@) == 0);
                }
                return Some(&self.columns[i]);
            }
            i = i + 1;
        }
        proof {
            lemma_key_at_from(texts(self.names@), name@, n as int);
            assert(texts(self.names@).skip(n as int) =~= Seq::<Seq<char>>::empty());
        }
        None
    }
}

/// Per-column converged values, with the conventional log-likelihood
/// column surfaced as a scalar.
#[derive(Debug, PartialEq, Eq)]
pub struct OptimizeSummary {
    /// The column names, in discovery order.
    pub names: Vec<String>,
    /// The last (converged) value of each column, aligned with
    /// `names`; empty when no row was ingested.
    pub last_values: Vec<String>,
    /// The last value of the column conventionally named `lp__`.
    pub log_likelihood: Option<String>,
}

impl RawTable {
    /// Derives the per-column value sequences and the shared row count.
    pub fn sample_summary(&self) -> (r: SampleSummary)
        requires
            <RawTable as AsResult>::spec_wf(self@),
        ensures
            r.rows == self@.values.len(),
            texts(r.names@) == self@.keys,
            r.columns@.len() == self@.keys.len(),
            r.names@.len() == r.columns@.len(),
            forall|j: int|
                0 <= j < self@.keys.len() ==> texts((#[trigger] r.columns@[j])@) == Seq::new(
                    self@.values.len(),
                    |i: int| self@.values[i][j],
                ),
    {
        let mut names: Vec<String> = Vec::new();
        let klen = self.keys.len();
        let mut j: usize = 0;
        proof {
            assert(texts(names@) =~= self@.keys.take(0));
        }
        while j < klen
            invariant
                j <= klen,
                klen == self.keys@.len(),
                texts(names@) == self@.keys.take(j as int),
                names@.len() == j,
            decreases klen - j,
        {
            let ghost pn = names@;
            names.push(self.keys[j].clone());
            proof {
                lemma_texts_push(pn, names@.last());
                assert(texts(names@) =~= self@.keys.take(j + 1));
            }
            j = j + 1;
        }
        proof {
            assert(self@.keys.take(klen as int) =~= self@.keys);
        }
        let nrows = self.values.len();
        let mut columns: Vec<Vec<String>> = Vec::new();
        let mut c: usize = 0;
        while c < klen
            invariant
                c <= klen,
                klen == self.keys@.len(),
                nrows == self.values@.len(),
                <RawTable as AsResult>::spec_wf(self@),
                columns@.len() == c,
                forall|j2: int|
                    0 <= j2 < c ==> texts((#[trigger] columns@[j2])@) == Seq::new(
                        self@.values.len(),
                        |i: int| self@.values[i][j2],
                    ),
            decreases klen - c,
        {
            let mut col: Vec<String> = Vec::new();
            let mut i: usize = 0;
            proof {
                assert(texts(col@) =~= Seq::new(0, |x: int| self@.values[x][c as int]));
            }
            while i < nrows
                invariant
                    i <= nrows,
                    c < klen,
                    klen == self.keys@.len(),
                    nrows == self.values@.len(),
                    <RawTable as AsResult>::spec_wf(self@),
                    texts(col@) == Seq::new(i as nat, |x: int| self@.values[x][c as int]),
                decreases nrows - i,
            {
                let ghost pc = col@;
                proof {
                    assert(self@.values[i as int].len() == self@.keys.len());
                    assert(texts(self.values@[i as int]@) == self@.values[i as int]);
                }
                col.push(self.values[i][c].clone());
                proof {
                    lemma_texts_push(pc, col@.last());
                    assert(col@.last()@ == self@.values[i as int][c as int]);
                    assert(texts(col@) =~= Seq::new(
                        (i + 1) as nat,
                        |x: int| self@.values[x][c as int],
                    ));
                }
                i = i + 1;
            }
            columns.push(col);
            c = c + 1;
        }
        SampleSummary { names, columns, rows: nrows }
    }

    /// Derives the last (converged) value of each column and the final
    /// log-likelihood scalar from the `lp__` column.
    pub fn optimize_summary(&self) -> (r: OptimizeSummary)
        requires
            <RawTable as AsResult>::spec_wf(self@),
        ensures
            texts(r.names@) == self@.keys,
            self@.values.len() == 0 ==> r.last_values@.len() == 0 && r.log_likelihood is None,
            self@.values.len() > 0 ==> texts(r.last_values@) == self@.values.last() && ({
                let j = key_at(self@.keys, "lp__"@);
                if j >= 0 {
                    r.log_likelihood matches Some(s) && s@ == self@.values.last()[j]
                } else {
                    r.log_likelihood is None
                }
            }),
    {
        let summary = self.sample_summary();
        let names = summary.names;
        if self.values.is_empty() {
            proof {
                assert(self@.values.len() == 0);
            }
            return OptimizeSummary { names, last_values: Vec::new(), log_likelihood: None };
        }
        let li = self.values.len() - 1;
        let lastrow = &self.values[li];
        let mut last_values: Vec<String> = Vec::new();
        let m = lastrow.len();
        proof {
            assert(texts(self.values@[li as int]@) == self@.values[li as int]);
            assert(self@.values[li as int].len() == self@.keys.len());
        }
        let mut j: usize = 0;
        proof {
            assert(texts(last_values@) =~= self@.values.last().take(0));
        }
        while j < m
            invariant
                j <= m,
                li == self.values@.len() - 1,
                lastrow == &self.values@[li as int],
                m == lastrow@.len(),
                texts(lastrow@) == self@.values.last(),
                texts(last_values@) == self@.values.last().take(j as int),
            decreases m - j,
        {
            let ghost pl = last_values@;
            last_values.push(lastrow[j].clone());
            proof {
                lemma_texts_push(pl, last_values@.last());
                assert(texts(last_values@) =~= self@.values.last().take(j + 1));
            }
            j = j + 1;
        }
        proof {
            assert(self@.values.last().take(m as int) =~= self@.values.last());
        }
        let lp = self.find_key("lp__");
        let log_likelihood = match lp {
            Some(k) => {
                proof {
                    assert(texts(lastrow@)[k as int] == self@.values.last()[k as int]);
                }
                Some(lastrow[k].clone())
            },
            None => None,
        };
        OptimizeSummary { names, last_values, log_likelihood }
    }
}

} // verus!
