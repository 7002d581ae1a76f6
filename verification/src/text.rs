//! Conversions between strings and character sequences.
use vstd::prelude::*;
use vstd::std_specs::iter::IteratorSpec;

verus! {

broadcast use vstd::string::group_string_axioms;

/// Appends `c` to `s` (`String::push`).
#[verifier::external_body]
pub(crate) fn push_char(s: &mut String, c: char)
    ensures
        final(s)@ == old(s)@.push(c),
{
    s.push(c)
}

/// The length of `v`. A vector never allocates more than `isize::MAX`
/// bytes (documented for `Vec`), so a vector of `char`s, four bytes each,
/// holds at most `isize::MAX / 4` of them; the contract claims that bound.
#[verifier::external_body]
pub(crate) fn char_count(v: &Vec<char>) -> (n: usize)
    ensures
        n == v@.len(),
        n <= isize::MAX / 4,
{
    v.len()
}

/// The length of `s` in UTF-8 bytes.
pub open spec fn utf8_len(s: Seq<char>) -> nat {
    vstd::utf8::encode_utf8(s).len()
}

/// The length of `s` in bytes (`str::len`). vstd's specification of
/// `str::len` gives the UTF-8 length cast to `usize`; this contract adds the
/// bound that makes the cast exact: no allocation, and so no string, holds
/// more than `isize::MAX` bytes (documented of Rust allocations and slices).
#[verifier::external_body]
pub(crate) fn str_byte_len(s: &str) -> (n: usize)
    ensures
        n == utf8_len(s@),
        n <= isize::MAX,
{
    s.len()
}

/// A string has no bytes exactly when it has no characters.
pub proof fn lemma_utf8_len_zero_iff_empty(s: Seq<char>)
    ensures
        (utf8_len(s) == 0) == (s.len() == 0),
{
    if s.len() > 0 {
        assert(vstd::utf8::encode_scalar(s[0] as u32).len() > 0);
    }
}

/// The characters of `s`, in order.
pub fn chars_of(s: &str) -> (v: Vec<char>)
    ensures
        v@ == s@,
{
    let mut v: Vec<char> = Vec::new();
    let mut it = s.chars();
    let ghost all = it.remaining();
    loop
        invariant
            all == s@,
            it.obeys_prophetic_iter_laws(),
            v@ + it.remaining() == all,
            it.decrease() is Some,
        ensures
            v@ == s@,
        decreases it.decrease()->0,
    {
        match it.next() {
            Some(c) => {
                v.push(c);
                assert(v@ + it.remaining() =~= all);
            },
            None => {
                assert(v@ =~= all);
                break;
            },
        }
    }
    v
}

/// The string made of the characters of `v`, in order.
pub fn string_of(v: &[char]) -> (s: String)
    ensures
        s@ == v@,
{
    let mut s = String::new();
    let mut i: usize = 0;
    while i < v.len()
        invariant
            i <= v@.len(),
            s@ == v@.take(i as int),
        decreases v@.len() - i,
    {
        push_char(&mut s, v[i]);
        assert(v@.take(i + 1) =~= v@.take(i as int).push(v@[i as int]));
        i = i + 1;
    }
    assert(v@.take(v@.len() as int) =~= v@);
    s
}

/// Whether `a` and `b` hold the same characters.
pub fn chars_eq(a: &[char], b: &[char]) -> (r: bool)
    ensures
        r == (a@ == b@),
{
    if a.len() != b.len() {
        return false;
    }
    let mut i: usize = 0;
    while i < a.len()
        invariant
            a@.len() == b@.len(),
            i <= a@.len(),
            forall|j: int| 0 <= j < i ==> a@[j] == b@[j],
        decreases a@.len() - i,
    {
        if a[i] != b[i] {
            return false;
        }
        i = i + 1;
    }
    assert(a@ =~= b@);
    true
}

/// The characters of `v` from index `from` (inclusive) to `to` (exclusive).
pub fn chars_subrange(v: &[char], from: usize, to: usize) -> (r: Vec<char>)
    requires
        from <= to <= v@.len(),
    ensures
        r@ == v@.subrange(from as int, to as int),
{
    let mut r: Vec<char> = Vec::new();
    let mut i: usize = from;
    while i < to
        invariant
            from <= i <= to <= v@.len(),
            r@ == v@.subrange(from as int, i as int),
        decreases to - i,
    {
        r.push(v[i]);
        assert(r@ =~= v@.subrange(from as int, i + 1));
        i = i + 1;
    }
    r
}

/// Whether `v` holds the character `c`.
pub fn contains_char(v: &[char], c: char) -> (r: bool)
    ensures
        r == v@.contains(c),
{
    let mut i: usize = 0;
    while i < v.len()
        invariant
            i <= v@.len(),
            forall|j: int| 0 <= j < i ==> v@[j] != c,
        decreases v@.len() - i,
    {
        if v[i] == c {
            assert(v@[i as int] == c);
            return true;
        }
        i = i + 1;
    }
    false
}

/// The decimal digit for `d` (for `d` below ten).
pub open spec fn digit_char(d: nat) -> char {
    if d == 0 {
        '0'
    } else if d == 1 {
        '1'
    } else if d == 2 {
        '2'
    } else if d == 3 {
        '3'
    } else if d == 4 {
        '4'
    } else if d == 5 {
        '5'
    } else if d == 6 {
        '6'
    } else if d == 7 {
        '7'
    } else if d == 8 {
        '8'
    } else {
        '9'
    }
}

/// The decimal notation of `n`, without leading zeros.
pub open spec fn decimal(n: nat) -> Seq<char>
    decreases n,
{
    if n < 10 {
        seq![digit_char(n)]
    } else {
        decimal(n / 10).push(digit_char(n % 10))
    }
}

/// The decimal notation of `n`, with a minus sign when it is negative.
pub open spec fn signed_decimal(n: int) -> Seq<char> {
    if n < 0 {
        seq!['-'] + decimal((-n) as nat)
    } else {
        decimal(n as nat)
    }
}

fn digit(d: u64) -> (c: char)
    requires
        d < 10,
    ensures
        c == digit_char(d as nat),
{
    if d == 0 {
        '0'
    } else if d == 1 {
        '1'
    } else if d == 2 {
        '2'
    } else if d == 3 {
        '3'
    } else if d == 4 {
        '4'
    } else if d == 5 {
        '5'
    } else if d == 6 {
        '6'
    } else if d == 7 {
        '7'
    } else if d == 8 {
        '8'
    } else {
        '9'
    }
}

/// Appends the decimal notation of `n` to `s`.
pub fn push_decimal(s: &mut String, n: u64)
    ensures
        final(s)@ == old(s)@ + decimal(n as nat),
{
    let mut m: u64 = n;
    let mut rev: Vec<char> = Vec::new();
    let ghost mut suffix: Seq<char> = seq![];
    while m >= 10
        invariant
            decimal(n as nat) == decimal(m as nat) + suffix,
            rev@.len() == suffix.len(),
            forall|i: int| 0 <= i < rev@.len() ==> #[trigger] rev@[i] == suffix[suffix.len() - 1 - i],
        decreases m,
    {
        let d = digit(m % 10);
        proof {
            assert(decimal(m as nat) == decimal((m / 10) as nat).push(d));
            assert(decimal(m as nat) + suffix =~= decimal((m / 10) as nat) + (seq![d] + suffix));
            suffix = seq![d] + suffix;
        }
        rev.push(d);
        m = m / 10;
    }
    push_char(s, digit(m));
    let ghost base = old(s)@;
    assert(s@ == base + seq![digit_char(m as nat)]);
    let mut j: usize = rev.len();
    while j > 0
        invariant
            j <= rev@.len() == suffix.len(),
            forall|i: int| 0 <= i < rev@.len() ==> #[trigger] rev@[i] == suffix[suffix.len() - 1 - i],
            s@ == base + seq![digit_char(m as nat)] + suffix.take(rev@.len() - j),
        decreases j,
    {
        let c = rev[j - 1];
        push_char(s, c);
        proof {
            let k = rev@.len() - j;
            assert(c == suffix[k]);
            assert(suffix.take(k + 1) =~= suffix.take(k).push(c));
        }
        j = j - 1;
    }
    assert(suffix.take(suffix.len() as int) =~= suffix);
    assert(decimal(m as nat) == seq![digit_char(m as nat)]);
    assert(s@ =~= old(s)@ + decimal(n as nat));
}

/// Appends the decimal notation of `n`, with a minus sign when it is
/// negative, to `s`.
pub fn push_signed_decimal(s: &mut String, n: i64)
    ensures
        final(s)@ == old(s)@ + signed_decimal(n as int),
{
    if n < 0 {
        push_char(s, '-');
        let m: u64 = if n == i64::MIN {
            9223372036854775808u64
        } else {
            (-n) as u64
        };
        push_decimal(s, m);
        assert(s@ =~= old(s)@ + signed_decimal(n as int));
    } else {
        push_decimal(s, n as u64);
    }
}

/// The decimal notation of `n`.
pub fn usize_text(n: usize) -> (s: String)
    ensures
        s@ == decimal(n as nat),
{
    let mut s = String::new();
    push_decimal(&mut s, n as u64);
    assert(s@ =~= decimal(n as nat));
    s
}

/// Appends the characters of `t` to `s`.
pub fn push_str(s: &mut String, t: &str)
    ensures
        final(s)@ == old(s)@ + t@,
{
    s.append(t);
}

} // verus!
