//! Argument counts of built-in functions, tail-call contexts, and shared
//! strings.
use std::rc::Rc;
use vstd::prelude::*;
use crate::text::{decimal, lemma_utf8_len_zero_iff_empty, push_decimal, push_str, str_byte_len, utf8_len};

verus! {

broadcast use vstd::string::group_string_axioms;

// ============================================================================
// Argument counts
// ============================================================================

/// How many arguments a function takes.
#[derive(Debug, Clone, Copy, PartialEq, Eq)]
pub enum FunctionArity {
    /// Exactly this many.
    Exact(usize),
    /// At least this many.
    AtLeast(usize),
    /// Between the two counts, both included.
    Range(usize, usize),
}

/// Whether `actual` arguments satisfy the arity `a`.
pub open spec fn arity_accepts(a: FunctionArity, actual: nat) -> bool {
    match a {
        FunctionArity::Exact(n) => actual == n,
        FunctionArity::AtLeast(min) => actual >= min,
        FunctionArity::Range(min, max) => min <= actual <= max,
    }
}

/// How an arity is described to users: `n`, `at least n`, or
/// `min to max`.
pub open spec fn arity_text(a: FunctionArity) -> Seq<char> {
    match a {
        FunctionArity::Exact(n) => decimal(n as nat),
        FunctionArity::AtLeast(n) => "at least "@ + decimal(n as nat),
        FunctionArity::Range(min, max) => decimal(min as nat) + " to "@ + decimal(max as nat),
    }
}

impl FunctionArity {
    /// Whether `actual` arguments satisfy this arity.
    pub fn matches(&self, actual: usize) -> (b: bool)
        ensures
            b == arity_accepts(*self, actual as nat),
    {
        match self {
            FunctionArity::Exact(expected) => actual == *expected,
            FunctionArity::AtLeast(min) => actual >= *min,
            FunctionArity::Range(min, max) => actual >= *min && actual <= *max,
        }
    }

    /// The description of this arity (see [`arity_text`]).
    pub fn description(&self) -> (s: String)
        ensures
            s@ == arity_text(*self),
    {
        let mut s = String::new();
        match self {
            FunctionArity::Exact(n) => {
                push_decimal(&mut s, *n as u64);
            },
            FunctionArity::AtLeast(n) => {
                push_str(&mut s, "at least ");
                push_decimal(&mut s, *n as u64);
            },
            FunctionArity::Range(min, max) => {
                push_decimal(&mut s, *min as u64);
                push_str(&mut s, " to ");
                push_decimal(&mut s, *max as u64);
            },
        }
        assert(s@ =~= arity_text(*self));
        s
    }
}

/// The signature of a built-in function: its name and arity.
#[derive(Debug)]
pub struct Signature {
    pub name: String,
    pub arity: FunctionArity,
}

/// The built-in functions of the global environment, by name and arity:
/// arithmetic, comparison, list operations and type predicates.
pub open spec fn builtin_table() -> Seq<(Seq<char>, FunctionArity)> {
    seq![
        ("+"@, FunctionArity::AtLeast(0)),
        ("-"@, FunctionArity::AtLeast(1)),
        ("*"@, FunctionArity::AtLeast(0)),
        ("/"@, FunctionArity::AtLeast(1)),
        ("="@, FunctionArity::AtLeast(2)),
        ("<"@, FunctionArity::AtLeast(2)),
        (">"@, FunctionArity::AtLeast(2)),
        ("car"@, FunctionArity::Exact(1)),
        ("cdr"@, FunctionArity::Exact(1)),
        ("cons"@, FunctionArity::Exact(2)),
        ("list"@, FunctionArity::AtLeast(0)),
        ("number?"@, FunctionArity::Exact(1)),
        ("string?"@, FunctionArity::Exact(1)),
        ("boolean?"@, FunctionArity::Exact(1)),
        ("null?"@, FunctionArity::Exact(1)),
        ("pair?"@, FunctionArity::Exact(1)),
    ]
}

/// The signature named `name` with arity `arity`.
fn signature(name: &str, arity: FunctionArity) -> (s: Signature)
    ensures
        s.name@ == name@,
        s.arity == arity,
{
    Signature { name: name.to_owned(), arity }
}

/// The signatures of the built-in functions, in the order of
/// [`builtin_table`].
pub fn builtin_signatures() -> (v: Vec<Signature>)
    ensures
        v@.len() == builtin_table().len(),
        forall|i: int|
            0 <= i < v@.len() ==> (#[trigger] v@[i]).name@ == builtin_table()[i].0 && v@[i].arity
                == builtin_table()[i].1,
{
    let v = vec![
        signature("+", FunctionArity::AtLeast(0)),
        signature("-", FunctionArity::AtLeast(1)),
        signature("*", FunctionArity::AtLeast(0)),
        signature("/", FunctionArity::AtLeast(1)),
        signature("=", FunctionArity::AtLeast(2)),
        signature("<", FunctionArity::AtLeast(2)),
        signature(">", FunctionArity::AtLeast(2)),
        signature("car", FunctionArity::Exact(1)),
        signature("cdr", FunctionArity::Exact(1)),
        signature("cons", FunctionArity::Exact(2)),
        signature("list", FunctionArity::AtLeast(0)),
        signature("number?", FunctionArity::Exact(1)),
        signature("string?", FunctionArity::Exact(1)),
        signature("boolean?", FunctionArity::Exact(1)),
        signature("null?", FunctionArity::Exact(1)),
        signature("pair?", FunctionArity::Exact(1)),
    ];
    v
}

impl Signature {
    /// Whether `actual` arguments satisfy the signature's arity.
    pub fn accepts(&self, actual: usize) -> (b: bool)
        ensures
            b == arity_accepts(self.arity, actual as nat),
    {
        self.arity.matches(actual)
    }
}

// ============================================================================
// Tail-call contexts
// ============================================================================

/// Whether an expression stands in tail position.
#[derive(Debug, Clone, Copy, PartialEq, Eq)]
pub enum TailContext {
    /// In tail position: a call here may replace the current frame.
    TailPosition,
    /// Not in tail position: the caller's frame is still needed.
    NonTailPosition,
}

// ============================================================================
// Shared strings
// ============================================================================

/// Whether `a` and `b` point to the same allocation (`Rc::ptr_eq`). One
/// allocation holds one value, so `true` means equal values; which
/// pointers share an allocation depends on how they were made, and of that
/// the contract says nothing.
#[verifier::external_body]
fn same_allocation<T>(a: &Rc<T>, b: &Rc<T>) -> (r: bool)
    ensures
        r ==> **a == **b,
{
    Rc::ptr_eq(a, b)
}

/// A string shared by reference counting.
#[derive(Debug, Clone)]
pub struct StringRef {
    inner: Rc<String>,
}

impl View for StringRef {
    type V = Seq<char>;

    closed spec fn view(&self) -> Seq<char> {
        (*self.inner)@
    }
}

impl StringRef {
    /// A shared string holding `s`.
    pub fn new(s: String) -> (r: StringRef)
        ensures
            r@ == s@,
    {
        StringRef { inner: Rc::new(s) }
    }

    /// A shared string holding a copy of `s`.
    pub fn from_str(s: &str) -> (r: StringRef)
        ensures
            r@ == s@,
    {
        StringRef { inner: Rc::new(s.to_owned()) }
    }

    /// The characters of the string.
    pub fn as_str(&self) -> (s: &str)
        ensures
            s@ == self@,
    {
        (*self.inner).as_str()
    }

    /// Length of the string in UTF-8 bytes; zero exactly when the string is
    /// empty.
    pub fn len(&self) -> (n: usize)
        ensures
            n == utf8_len(self@),
            (n == 0) == (self@.len() == 0),
    {
        proof {
            lemma_utf8_len_zero_iff_empty(self@);
        }
        str_byte_len((*self.inner).as_str())
    }

    /// Whether the string is empty.
    pub fn is_empty(&self) -> (b: bool)
        ensures
            b == (self@.len() == 0),
    {
        (*self.inner).as_str().is_empty()
    }

    /// Whether the two are the same shared string, not merely equal ones:
    /// a clone is, a string made anew is not. Only the consequence is
    /// stated: the same shared string has the same characters.
    pub fn ptr_eq(&self, other: &StringRef) -> (b: bool)
        ensures
            b ==> self@ == other@,
    {
        same_allocation(&self.inner, &other.inner)
    }
}

impl From<String> for StringRef {
    /// A shared string holding `s` (as [`StringRef::new`]).
    fn from(s: String) -> (r: StringRef) {
        let r = StringRef { inner: Rc::new(s) };
        proof {
            assert(*r.inner == s);
            assert(r == shared_string_of(s));
        }
        r
    }
}

impl vstd::std_specs::convert::FromSpecImpl<String> for StringRef {
    open spec fn obeys_from_spec() -> bool {
        true
    }

    open spec fn from_spec(v: String) -> StringRef {
        shared_string_of(v)
    }
}

/// The shared string holding `v`.
pub closed spec fn shared_string_of(v: String) -> StringRef {
    choose|r: StringRef| *r.inner == v
}

/// The shared string made from `v` holds the characters of `v`.
pub proof fn lemma_shared_string_of(v: String)
    ensures
        shared_string_of(v)@ == v@,
{
    let r = StringRef { inner: Rc::new(v) };
    assert(*r.inner == v);
}

/// A string of a runtime object, shared by reference counting.
#[derive(Debug, Clone)]
pub struct RcString {
    inner: Rc<String>,
}

impl View for RcString {
    type V = Seq<char>;

    closed spec fn view(&self) -> Seq<char> {
        (*self.inner)@
    }
}

impl RcString {
    /// A shared string holding `s`.
    pub fn new(s: String) -> (r: RcString)
        ensures
            r@ == s@,
    {
        RcString { inner: Rc::new(s) }
    }

    /// The characters of the string.
    pub fn as_str(&self) -> (s: &str)
        ensures
            s@ == self@,
    {
        (*self.inner).as_str()
    }
}

} // verus!
