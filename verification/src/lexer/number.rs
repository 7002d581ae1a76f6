//! Reading numeric literals: trimming, integers in the range of `i64`, and
//! the syntax of floating-point literals accepted by Rust's `f64` parser.
use vstd::prelude::*;
use crate::lexer::chars::{char_is_whitespace, whitespace, spec_is_digit_char, is_digit_char};

verus! {

// ============================================================================
// Trimming
// ============================================================================

/// `s` without its leading whitespace.
pub open spec fn trim_start(s: Seq<char>) -> Seq<char>
    decreases s.len(),
{
    if s.len() > 0 && char_is_whitespace(s[0]) {
        trim_start(s.skip(1))
    } else {
        s
    }
}

/// `s` without its trailing whitespace.
pub open spec fn trim_end(s: Seq<char>) -> Seq<char>
    decreases s.len(),
{
    if s.len() > 0 && char_is_whitespace(s.last()) {
        trim_end(s.drop_last())
    } else {
        s
    }
}

/// `s` without leading and trailing whitespace (what `str::trim` gives).
pub open spec fn trim(s: Seq<char>) -> Seq<char> {
    trim_end(trim_start(s))
}

/// `s` without leading and trailing whitespace.
pub fn trim_chars(s: &[char]) -> (r: Vec<char>)
    ensures
        r@ == trim(s@),
{
    let mut lo: usize = 0;
    assert(s@.skip(0) =~= s@);
    while lo < s.len() && whitespace(s[lo])
        invariant
            lo <= s@.len(),
            trim_start(s@) == trim_start(s@.skip(lo as int)),
        decreases s@.len() - lo,
    {
        assert(s@.skip(lo as int).skip(1) =~= s@.skip(lo + 1));
        lo = lo + 1;
    }
    let mut hi: usize = s.len();
    assert(s@.skip(lo as int) =~= s@.subrange(lo as int, hi as int));
    while hi > lo && whitespace(s[hi - 1])
        invariant
            lo <= hi <= s@.len(),
            trim(s@) == trim_end(s@.subrange(lo as int, hi as int)),
        decreases hi - lo,
    {
        assert(s@.subrange(lo as int, hi as int).drop_last() =~= s@.subrange(lo as int, hi - 1));
        hi = hi - 1;
    }
    crate::text::chars_subrange(s, lo, hi)
}

// ============================================================================
// Digits and integers
// ============================================================================

pub open spec fn all_digits(s: Seq<char>) -> bool {
    forall|i: int| 0 <= i < s.len() ==> spec_is_digit_char(#[trigger] s[i])
}

pub open spec fn digit_value(c: char) -> int {
    c as int - '0' as int
}

/// The value of a string of decimal digits.
pub open spec fn digits_value(s: Seq<char>) -> int
    decreases s.len(),
{
    if s.len() == 0 {
        0
    } else {
        digits_value(s.drop_last()) * 10 + digit_value(s.last())
    }
}

/// The part of `s` after an optional sign.
pub open spec fn unsigned_i64_body(s: Seq<char>) -> Seq<char> {
    if s.len() > 0 && (s[0] == '-' || s[0] == '+') {
        s.skip(1)
    } else {
        s
    }
}

/// What `i64::from_str` returns: an optional sign, at least one digit, and
/// a value in the range of `i64`.
pub open spec fn parse_i64(s: Seq<char>) -> Option<i64> {
    let neg = s.len() > 0 && s[0] == '-';
    let body = unsigned_i64_body(s);
    let v = if neg {
        -digits_value(body)
    } else {
        digits_value(body)
    };
    if body.len() == 0 || !all_digits(body) || v < i64::MIN || v > i64::MAX {
        None
    } else {
        Some(v as i64)
    }
}

proof fn lemma_digits_value_nonneg(s: Seq<char>)
    requires
        all_digits(s),
    ensures
        digits_value(s) >= 0,
    decreases s.len(),
{
    if s.len() > 0 {
        assert(all_digits(s.drop_last()));
        lemma_digits_value_nonneg(s.drop_last());
        assert(spec_is_digit_char(s[s.len() - 1]));
    }
}

proof fn lemma_digits_value_prefix(s: Seq<char>, k: int)
    requires
        all_digits(s),
        0 <= k <= s.len(),
    ensures
        digits_value(s.take(k)) <= digits_value(s),
    decreases s.len(),
{
    if k < s.len() {
        assert(all_digits(s.drop_last()));
        lemma_digits_value_prefix(s.drop_last(), k);
        assert(s.drop_last().take(k) =~= s.take(k));
        lemma_digits_value_nonneg(s.drop_last());
        assert(spec_is_digit_char(s[s.len() - 1]));
    } else {
        assert(s.take(k) =~= s);
    }
}

/// Reads `s` as an `i64` the way `i64::from_str` does.
pub fn parse_i64_chars(s: &[char]) -> (r: Option<i64>)
    ensures
        r == parse_i64(s@),
{
    let n = s.len();
    let neg = n > 0 && s[0] == '-';
    let start: usize = if n > 0 && (s[0] == '-' || s[0] == '+') {
        1
    } else {
        0
    };
    let ghost body = s@.skip(start as int);
    assert(s@.skip(0) =~= s@);
    assert(body == unsigned_i64_body(s@));
    if start == n {
        return None;
    }
    let mut acc: i128 = 0;
    let mut i: usize = start;
    while i < n
        invariant
            start <= i <= n == s@.len(),
            body == s@.skip(start as int),
            body == unsigned_i64_body(s@),
            neg == (s@.len() > 0 && s@[0] == '-'),
            all_digits(body.take(i - start)),
            acc == digits_value(body.take(i - start)),
            0 <= acc <= 0x8000_0000_0000_0000,
        decreases n - i,
    {
        let c = s[i];
        if !is_digit_char(c) {
            assert(body[i - start] == c);
            assert(!spec_is_digit_char(body[i - start]));
            assert(!all_digits(body));
            return None;
        }
        let d: i128 = if c == '0' { 0 } else if c == '1' { 1 } else if c == '2' { 2 } else if c == '3' { 3 }
            else if c == '4' { 4 } else if c == '5' { 5 } else if c == '6' { 6 } else if c == '7' { 7 }
            else if c == '8' { 8 } else { 9 };
        assert(d == digit_value(c));
        let ghost pre = body.take(i - start);
        let ghost next = body.take(i + 1 - start);
        assert(next.drop_last() =~= pre);
        assert(next.last() == c);
        acc = acc * 10 + d;
        assert(all_digits(next));
        if acc > 0x8000_0000_0000_0000 {
            // The remaining digits only make the value larger.
            proof {
                if all_digits(body) {
                    lemma_digits_value_prefix(body, (i + 1 - start) as int);
                    assert(digits_value(body) > 0x8000_0000_0000_0000);
                }
            }
            return None;
        }
        i = i + 1;
    }
    assert(body.take(n - start) =~= body);
    assert(acc == digits_value(body));
    assert(body.len() > 0);
    if neg {
        Some((0 - acc) as i64)
    } else if acc > 0x7fff_ffff_ffff_ffff {
        None
    } else {
        Some(acc as i64)
    }
}

// ============================================================================
// Floating-point literal syntax
// ============================================================================

pub open spec fn is_exp_marker(c: char) -> bool {
    c == 'e' || c == 'E'
}

/// The sign-free part of `s`.
pub open spec fn unsigned_part(s: Seq<char>) -> Seq<char> {
    if s.len() > 0 && (s[0] == '+' || s[0] == '-') {
        s.skip(1)
    } else {
        s
    }
}

/// `Digit+ | Digit+ '.' Digit* | Digit* '.' Digit+`
pub open spec fn mantissa_ok(m: Seq<char>) -> bool {
    (m.len() > 0 && all_digits(m)) || exists|d: int|
        0 <= d < m.len() && m[d] == '.' && all_digits(m.take(d)) && all_digits(m.skip(d + 1))
            && m.len() > 1
}

/// `Sign? Digit+`
pub open spec fn exponent_ok(x: Seq<char>) -> bool {
    unsigned_part(x).len() > 0 && all_digits(unsigned_part(x))
}

/// `Mantissa ('e' Sign? Digit+)?`, with `e` in either case.
pub open spec fn decimal_ok(b: Seq<char>) -> bool {
    mantissa_ok(b) || exists|k: int|
        0 <= k < b.len() && is_exp_marker(b[k]) && mantissa_ok(b.take(k)) && exponent_ok(b.skip(k + 1))
}

/// `c` is the lower-case ASCII letter `l`, in either case.
pub open spec fn ci_char_eq(c: char, l: char) -> bool {
    c == l || (l == 'i' && c == 'I') || (l == 'n' && c == 'N') || (l == 'f' && c == 'F') || (l
        == 't' && c == 'T') || (l == 'y' && c == 'Y') || (l == 'a' && c == 'A')
}

/// `s` spells the lower-case word `w`, ignoring case.
pub open spec fn ci_eq(s: Seq<char>, w: Seq<char>) -> bool {
    s.len() == w.len() && forall|i: int| 0 <= i < s.len() ==> ci_char_eq(#[trigger] s[i], w[i])
}

/// Whether `f64::from_str` accepts `s`: by its documented grammar, an
/// optional sign followed by `inf`, `infinity`, `nan` (in any case) or a
/// decimal literal.
pub open spec fn float_syntax_ok(s: Seq<char>) -> bool {
    let b = unsigned_part(s);
    ci_eq(b, seq!['i', 'n', 'f']) || ci_eq(b, seq!['i', 'n', 'f', 'i', 'n', 'i', 't', 'y']) || ci_eq(
        b,
        seq!['n', 'a', 'n'],
    ) || decimal_ok(b)
}

fn all_digits_in(s: &[char], from: usize, to: usize) -> (r: bool)
    requires
        from <= to <= s@.len(),
    ensures
        r == all_digits(s@.subrange(from as int, to as int)),
{
    let mut i = from;
    while i < to
        invariant
            from <= i <= to <= s@.len(),
            forall|j: int| from <= j < i ==> spec_is_digit_char(s@[j]),
        decreases to - i,
    {
        if !is_digit_char(s[i]) {
            assert(s@.subrange(from as int, to as int)[i - from] == s@[i as int]);
            return false;
        }
        i = i + 1;
    }
    assert forall|j: int| 0 <= j < to - from implies spec_is_digit_char(
        #[trigger] s@.subrange(from as int, to as int)[j],
    ) by {
        assert(s@.subrange(from as int, to as int)[j] == s@[from + j]);
    }
    true
}

/// Whether `s[from..to]` is a mantissa.
fn mantissa_ok_in(s: &[char], from: usize, to: usize) -> (r: bool)
    requires
        from <= to <= s@.len(),
    ensures
        r == mantissa_ok(s@.subrange(from as int, to as int)),
{
    let ghost m = s@.subrange(from as int, to as int);
    let mut i = from;
    while i < to && s[i] != '.'
        invariant
            from <= i <= to <= s@.len(),
            forall|j: int| from <= j < i ==> s@[j] != '.',
        decreases to - i,
    {
        i = i + 1;
    }
    if i == to {
        let r = to > from && all_digits_in(s, from, to);
        proof {
            if !r && to > from {
                // a split at a dot is impossible: there is no dot
                assert forall|d: int| 0 <= d < m.len() implies m[d] != '.' by {
                    assert(m[d] == s@[from + d]);
                }
            }
            if to == from {
                assert(m.len() == 0);
            }
        }
        r
    } else {
        let d = i - from;
        let r = to - from > 1 && all_digits_in(s, from, i) && all_digits_in(s, i + 1, to);
        proof {
            assert(m[d as int] == '.');
            assert(m.take(d as int) =~= s@.subrange(from as int, i as int));
            assert(m.skip(d + 1) =~= s@.subrange(i + 1, to as int));
            if !r {
                assert(!all_digits(m)) by {
                    assert(!spec_is_digit_char(m[d as int]));
                }
                assert forall|d2: int|
                    0 <= d2 < m.len() && m[d2] == '.' && all_digits(m.take(d2)) && all_digits(
                        m.skip(d2 + 1),
                    ) implies m.len() <= 1 by {
                    if d2 < d {
                        assert(m.skip(d2 + 1)[d - d2 - 1] == m[d as int]);
                    } else if d2 > d {
                        assert(m.take(d2)[d as int] == m[d as int]);
                    } else {
                        assert(m.take(d2) =~= m.take(d as int));
                    }
                }
            }
        }
        r
    }
}

/// Whether `s[from..to]` is an exponent (`Sign? Digit+`).
fn exponent_ok_in(s: &[char], from: usize, to: usize) -> (r: bool)
    requires
        from <= to <= s@.len(),
    ensures
        r == exponent_ok(s@.subrange(from as int, to as int)),
{
    let ghost x = s@.subrange(from as int, to as int);
    if from < to && (s[from] == '+' || s[from] == '-') {
        assert(unsigned_part(x) =~= s@.subrange(from + 1, to as int));
        from + 1 < to && all_digits_in(s, from + 1, to)
    } else {
        assert(unsigned_part(x) =~= x);
        from < to && all_digits_in(s, from, to)
    }
}

proof fn lemma_mantissa_has_no_exp(m: Seq<char>, k: int)
    requires
        mantissa_ok(m),
        0 <= k < m.len(),
    ensures
        !is_exp_marker(m[k]),
{
    if !(m.len() > 0 && all_digits(m)) {
        let d = choose|d: int|
            0 <= d < m.len() && m[d] == '.' && all_digits(m.take(d)) && all_digits(m.skip(d + 1))
                && m.len() > 1;
        if k < d {
            assert(m.take(d)[k] == m[k]);
        } else if k > d {
            assert(m.skip(d + 1)[k - d - 1] == m[k]);
        }
    }
}

fn ci_eq_word(s: &[char], from: usize, w: &[char]) -> (r: bool)
    requires
        from <= s@.len(),
        forall|i: int| 0 <= i < w@.len() ==> (w@[i] == 'i' || w@[i] == 'n' || w@[i] == 'f' || w@[i] == 't' || w@[i] == 'y' || w@[i] == 'a'),
    ensures
        r == ci_eq(s@.skip(from as int), w@),
{
    let n = s.len();
    if n - from != w.len() {
        return false;
    }
    let mut i: usize = 0;
    while i < w.len()
        invariant
            from + w@.len() == n,
            n == s@.len(),
            i <= w@.len(),
            forall|j: int| 0 <= j < i ==> ci_char_eq(#[trigger] s@.skip(from as int)[j], w@[j]),
        decreases w@.len() - i,
    {
        let c = s[from + i];
        let l = w[i];
        let ok = c == l || (l == 'i' && c == 'I') || (l == 'n' && c == 'N') || (l == 'f' && c == 'F')
            || (l == 't' && c == 'T') || (l == 'y' && c == 'Y') || (l == 'a' && c == 'A');
        assert(s@.skip(from as int)[i as int] == c);
        if !ok {
            return false;
        }
        i = i + 1;
    }
    true
}

proof fn lemma_decimal_no_exp(b: Seq<char>)
    requires
        forall|j: int| 0 <= j < b.len() ==> !is_exp_marker(#[trigger] b[j]),
    ensures
        decimal_ok(b) == mantissa_ok(b),
{
}

proof fn lemma_decimal_first_exp(b: Seq<char>, kb: int)
    requires
        0 <= kb < b.len(),
        is_exp_marker(b[kb]),
        forall|j: int| 0 <= j < kb ==> !is_exp_marker(#[trigger] b[j]),
    ensures
        decimal_ok(b) == (mantissa_ok(b.take(kb)) && exponent_ok(b.skip(kb + 1))),
{
    if mantissa_ok(b) {
        lemma_mantissa_has_no_exp(b, kb);
    }
    if !(mantissa_ok(b.take(kb)) && exponent_ok(b.skip(kb + 1))) {
        assert forall|k2: int|
            0 <= k2 < b.len() && is_exp_marker(b[k2]) && mantissa_ok(b.take(k2)) implies !exponent_ok(
            b.skip(k2 + 1),
        ) by {
            if k2 > kb {
                assert(b.take(k2)[kb] == b[kb]);
                lemma_mantissa_has_no_exp(b.take(k2), kb);
            }
        }
    }
}

/// Whether `f64::from_str` accepts `s` (see [`float_syntax_ok`]).
pub fn float_syntax_ok_chars(s: &[char]) -> (r: bool)
    ensures
        r == float_syntax_ok(s@),
{
    let n = s.len();
    let start: usize = if n > 0 && (s[0] == '+' || s[0] == '-') {
        1
    } else {
        0
    };
    let ghost b = unsigned_part(s@);
    assert(b =~= s@.skip(start as int));
    let inf = vec!['i', 'n', 'f'];
    let infinity = vec!['i', 'n', 'f', 'i', 'n', 'i', 't', 'y'];
    let nan = vec!['n', 'a', 'n'];
    assert(inf@ =~= seq!['i', 'n', 'f']);
    assert(infinity@ =~= seq!['i', 'n', 'f', 'i', 'n', 'i', 't', 'y']);
    assert(nan@ =~= seq!['n', 'a', 'n']);
    if ci_eq_word(s, start, &inf) || ci_eq_word(s, start, &infinity) || ci_eq_word(s, start, &nan) {
        return true;
    }
    let r = decimal_ok_in(s, start);
    r
}

/// Whether `s[start..]` is a decimal literal.
fn decimal_ok_in(s: &[char], start: usize) -> (r: bool)
    requires
        start <= s@.len(),
    ensures
        r == decimal_ok(s@.skip(start as int)),
{
    let n = s.len();
    let ghost b = s@.skip(start as int);
    // split at the first exponent marker, if any
    let mut k = start;
    while k < n && !(s[k] == 'e' || s[k] == 'E')
        invariant
            start <= k <= n == s@.len(),
            forall|j: int| start <= j < k ==> !is_exp_marker(s@[j]),
        decreases n - k,
    {
        k = k + 1;
    }
    assert(b =~= s@.subrange(start as int, n as int));
    if k == n {
        proof {
            assert forall|j: int| 0 <= j < b.len() implies !is_exp_marker(#[trigger] b[j]) by {
                assert(b[j] == s@[start + j]);
            }
            lemma_decimal_no_exp(b);
        }
        mantissa_ok_in(s, start, n)
    } else {
        let kb = k - start;
        proof {
            assert(b.take(kb as int) =~= s@.subrange(start as int, k as int));
            assert(b.skip(kb + 1) =~= s@.subrange(k + 1, n as int));
            assert forall|j: int| 0 <= j < kb implies !is_exp_marker(#[trigger] b[j]) by {
                assert(b[j] == s@[start + j]);
            }
            lemma_decimal_first_exp(b, kb as int);
        }
        mantissa_ok_in(s, start, k) && exponent_ok_in(s, k + 1, n)
    }
}

} // verus!
