//! Values of the evaluator and the errors of evaluation.
use vstd::prelude::*;
use crate::environment::manager::EnvironmentId;
use crate::parser::display::escape_seq;
use crate::parser::types::{Number, SExpr, SExprContent, Value as ParsedValue};
use crate::text::{decimal, digit_char, push_char, push_signed_decimal, push_str, signed_decimal};
use crate::lexer::chars::spec_is_digit_char;
use crate::lexer::number::{all_digits, digit_value, digits_value, parse_i64};

verus! {

broadcast use vstd::string::group_string_axioms;

/// The built-in functions of the global environment.
#[derive(Debug, Clone, Copy, PartialEq, Eq)]
pub enum Builtin {
    Add,
    Subtract,
    Multiply,
    Divide,
    Equal,
    LessThan,
    GreaterThan,
    LessEqual,
    GreaterEqual,
    Abs,
    Max,
    Min,
    Cons,
    Car,
    Cdr,
    List,
    IsNull,
    IsPair,
    IsNumber,
    IsSymbol,
    IsString,
}

/// The name a built-in function is bound to.
pub fn builtin_name(op: Builtin) -> (s: &'static str)
    ensures
        s@ == builtin_name_spec(op),
{
    match op {
        Builtin::Add => "+",
        Builtin::Subtract => "-",
        Builtin::Multiply => "*",
        Builtin::Divide => "/",
        Builtin::Equal => "=",
        Builtin::LessThan => "<",
        Builtin::GreaterThan => ">",
        Builtin::LessEqual => "<=",
        Builtin::GreaterEqual => ">=",
        Builtin::Abs => "abs",
        Builtin::Max => "max",
        Builtin::Min => "min",
        Builtin::Cons => "cons",
        Builtin::Car => "car",
        Builtin::Cdr => "cdr",
        Builtin::List => "list",
        Builtin::IsNull => "null?",
        Builtin::IsPair => "pair?",
        Builtin::IsNumber => "number?",
        Builtin::IsSymbol => "symbol?",
        Builtin::IsString => "string?",
    }
}

/// The name a built-in function is bound to.
pub open spec fn builtin_name_spec(op: Builtin) -> Seq<char> {
    match op {
        Builtin::Add => "+"@,
        Builtin::Subtract => "-"@,
        Builtin::Multiply => "*"@,
        Builtin::Divide => "/"@,
        Builtin::Equal => "="@,
        Builtin::LessThan => "<"@,
        Builtin::GreaterThan => ">"@,
        Builtin::LessEqual => "<="@,
        Builtin::GreaterEqual => ">="@,
        Builtin::Abs => "abs"@,
        Builtin::Max => "max"@,
        Builtin::Min => "min"@,
        Builtin::Cons => "cons"@,
        Builtin::Car => "car"@,
        Builtin::Cdr => "cdr"@,
        Builtin::List => "list"@,
        Builtin::IsNull => "null?"@,
        Builtin::IsPair => "pair?"@,
        Builtin::IsNumber => "number?"@,
        Builtin::IsSymbol => "symbol?"@,
        Builtin::IsString => "string?"@,
    }
}

/// A value of the evaluator. A floating-point number keeps the text of its
/// literal.
#[derive(Debug, PartialEq)]
pub enum Value {
    Integer(i64),
    Float(String),
    String(String),
    Bool(bool),
    Char(char),
    Symbol(String),
    /// The empty list.
    Nil,
    /// A pair.
    Cons(Box<Value>, Box<Value>),
    /// A built-in function (named by [`builtin_name`]); `arity` is its exact
    /// argument count, if it has one.
    BuiltinFunction { op: Builtin, arity: Option<usize> },
    /// A procedure: its parameter list (a list of symbols), its body, and the
    /// environment it was made in.
    Lambda { params: Box<Value>, body: Box<Value>, env_id: EnvironmentId },
}

impl Clone for Value {
    fn clone(&self) -> (r: Value)
        ensures
            r == *self,
        decreases self,
    {
        match self {
            Value::Integer(n) => Value::Integer(*n),
            Value::Float(t) => Value::Float(t.clone()),
            Value::String(s) => Value::String(s.clone()),
            Value::Bool(b) => Value::Bool(*b),
            Value::Char(c) => Value::Char(*c),
            Value::Symbol(s) => Value::Symbol(s.clone()),
            Value::Nil => Value::Nil,
            Value::Cons(a, d) => {
                let a2 = (**a).clone();
                let d2 = (**d).clone();
                Value::Cons(Box::new(a2), Box::new(d2))
            },
            Value::BuiltinFunction { op, arity } => Value::BuiltinFunction { op: *op, arity: *arity },
            Value::Lambda { params, body, env_id } => {
                let p2 = (**params).clone();
                let b2 = (**body).clone();
                Value::Lambda { params: Box::new(p2), body: Box::new(b2), env_id: *env_id }
            },
        }
    }
}

/// Why evaluation failed.
#[derive(Debug, PartialEq)]
pub enum SchemeError {
    RuntimeError(String),
    TypeError(String),
    ArityError(String),
    SyntaxError(String),
    UndefinedVariable(String),
    DivisionByZero,
}

/// Model of [`SchemeError`].
pub ghost enum SchemeErrorModel {
    RuntimeError(Seq<char>),
    TypeError(Seq<char>),
    ArityError(Seq<char>),
    SyntaxError(Seq<char>),
    UndefinedVariable(Seq<char>),
    DivisionByZero,
}

impl View for SchemeError {
    type V = SchemeErrorModel;

    open spec fn view(&self) -> SchemeErrorModel {
        match self {
            SchemeError::RuntimeError(m) => SchemeErrorModel::RuntimeError(m@),
            SchemeError::TypeError(m) => SchemeErrorModel::TypeError(m@),
            SchemeError::ArityError(m) => SchemeErrorModel::ArityError(m@),
            SchemeError::SyntaxError(m) => SchemeErrorModel::SyntaxError(m@),
            SchemeError::UndefinedVariable(n) => SchemeErrorModel::UndefinedVariable(n@),
            SchemeError::DivisionByZero => SchemeErrorModel::DivisionByZero,
        }
    }
}

/// Every value but `#f` counts as true.
pub open spec fn truthy(v: Value) -> bool {
    !(v matches Value::Bool(false))
}

/// Whether `v` counts as true (every value but `#f`).
pub fn is_truthy(v: &Value) -> (b: bool)
    ensures
        b == truthy(*v),
{
    match v {
        Value::Bool(false) => false,
        _ => true,
    }
}

/// The elements of `v` when it is a proper list.
pub open spec fn list_items(v: Value) -> Option<Seq<Value>>
    decreases v,
{
    match v {
        Value::Nil => Some(Seq::empty()),
        Value::Cons(a, d) => match list_items(*d) {
            Some(rest) => Some(seq![*a] + rest),
            None => None,
        },
        _ => None,
    }
}

/// The proper list of `items`.
pub open spec fn list_of(items: Seq<Value>) -> Value
    decreases items.len(),
{
    if items.len() == 0 {
        Value::Nil
    } else {
        Value::Cons(Box::new(items[0]), Box::new(list_of(items.drop_first())))
    }
}

pub proof fn lemma_list_of_items(items: Seq<Value>)
    ensures
        list_items(list_of(items)) == Some(items),
    decreases items.len(),
{
    if items.len() > 0 {
        lemma_list_of_items(items.drop_first());
        assert(seq![items[0]] + items.drop_first() =~= items);
    }
}

/// The elements of `v` when it is a proper list (`to_vec`).
pub fn to_vec(v: &Value) -> (r: Option<Vec<Value>>)
    ensures
        match list_items(*v) {
            Some(s) => r matches Some(x) && x@ == s,
            None => r is None,
        },
{
    let mut out: Vec<Value> = Vec::new();
    let mut cur = v;
    loop
        invariant
            list_items(*v) == match list_items(*cur) {
                Some(rest) => Some(out@ + rest),
                None => None::<Seq<Value>>,
            },
        decreases *cur,
    {
        match cur {
            Value::Nil => {
                assert(out@ + Seq::<Value>::empty() =~= out@);
                return Some(out);
            },
            Value::Cons(a, d) => {
                let ghost before = out@;
                out.push((**a).clone());
                proof {
                    match list_items(**d) {
                        Some(rest) => {
                            assert(before + (seq![**a] + rest) =~= out@ + rest);
                        },
                        None => {},
                    }
                }
                cur = &**d;
            },
            _ => {
                return None;
            },
        }
    }
}

/// The proper list of the elements of `items` (`from_vec`).
pub fn from_vec(items: &Vec<Value>) -> (r: Value)
    ensures
        r == list_of(items@),
{
    let mut r = Value::Nil;
    let mut i = items.len();
    assert(items@.skip(i as int) =~= Seq::<Value>::empty());
    while i > 0
        invariant
            i <= items@.len(),
            r == list_of(items@.skip(i as int)),
        decreases i,
    {
        i = i - 1;
        let x = items[i].clone();
        proof {
            let s = items@.skip(i as int);
            assert(s.drop_first() =~= items@.skip(i + 1));
            assert(s[0] == items@[i as int]);
        }
        r = Value::Cons(Box::new(x), Box::new(r));
    }
    assert(items@.skip(0) =~= items@);
    r
}

/// How a value is written: numbers as themselves, strings quoted with
/// escapes, `#t`/`#f`, characters as `#\c`, symbols by name, lists in
/// parentheses (a dotted tail after ` . `), built-in functions as
/// `#<builtin:name>` and procedures as `#<lambda>`.
pub open spec fn value_text(v: Value) -> Seq<char>
    decreases v, 1nat,
{
    match v {
        Value::Cons(a, d) => seq!['('] + value_text(*a) + tail_text(*d) + seq![')'],
        _ => atom_text(v),
    }
}

/// How a value other than a pair is written.
pub open spec fn atom_text(v: Value) -> Seq<char> {
    match v {
        Value::Integer(n) => signed_decimal(n as int),
        Value::Float(t) => t@,
        Value::String(s) => seq!['"'] + escape_seq(s@) + seq!['"'],
        Value::Bool(b) => if b {
            "#t"@
        } else {
            "#f"@
        },
        Value::Char(c) => seq!['#', '\\', c],
        Value::Symbol(s) => s@,
        Value::Nil => "()"@,
        Value::Cons(..) => Seq::empty(),
        Value::BuiltinFunction { op, .. } => "#<builtin:"@ + builtin_name_spec(op) + ">"@,
        Value::Lambda { .. } => "#<lambda>"@,
    }
}

/// How the rest of a list after an element is written.
pub open spec fn tail_text(d: Value) -> Seq<char>
    decreases d, 0nat,
{
    match d {
        Value::Nil => Seq::empty(),
        Value::Cons(a, d2) => seq![' '] + value_text(*a) + tail_text(*d2),
        _ => " . "@ + atom_text(d),
    }
}

/// Appends how `v` is written (see [`value_text`]).
pub fn write_value(out: &mut String, v: &Value)
    ensures
        final(out)@ == old(out)@ + value_text(*v),
    decreases v, 1nat,
{
    match v {
        Value::Cons(a, d) => {
            push_char(out, '(');
            write_value(out, &**a);
            write_tail(out, &**d);
            push_char(out, ')');
        },
        _ => write_atom(out, v),
    }
    proof {
        assert(final(out)@ =~= old(out)@ + value_text(*v));
    }
}

fn write_atom(out: &mut String, v: &Value)
    requires
        !(*v is Cons),
    ensures
        final(out)@ == old(out)@ + atom_text(*v),
{
    match v {
        Value::Integer(n) => push_signed_decimal(out, *n),
        Value::Float(t) => push_str(out, t.as_str()),
        Value::String(s) => {
            push_char(out, '"');
            let e = crate::parser::display::escape_string(s.as_str());
            push_str(out, e.as_str());
            push_char(out, '"');
        },
        Value::Bool(b) => {
            if *b {
                push_str(out, "#t");
            } else {
                push_str(out, "#f");
            }
        },
        Value::Char(c) => {
            push_char(out, '#');
            push_char(out, '\\');
            push_char(out, *c);
        },
        Value::Symbol(s) => push_str(out, s.as_str()),
        Value::Nil => push_str(out, "()"),
        Value::Cons(..) => {},
        Value::BuiltinFunction { op, .. } => {
            push_str(out, "#<builtin:");
            push_str(out, builtin_name(*op));
            push_str(out, ">");
        },
        Value::Lambda { .. } => push_str(out, "#<lambda>"),
    }
    proof {
        assert(final(out)@ =~= old(out)@ + atom_text(*v));
    }
}

fn write_tail(out: &mut String, d: &Value)
    ensures
        final(out)@ == old(out)@ + tail_text(*d),
    decreases d, 0nat,
{
    match d {
        Value::Nil => {},
        Value::Cons(a, d2) => {
            push_char(out, ' ');
            write_value(out, &**a);
            write_tail(out, &**d2);
        },
        _ => {
            push_str(out, " . ");
            write_atom(out, d);
        },
    }
    proof {
        assert(final(out)@ =~= old(out)@ + tail_text(*d));
    }
}

/// How `v` is written (see [`value_text`]).
pub fn value_to_string(v: &Value) -> (s: String)
    ensures
        s@ == value_text(*v),
{
    let mut s = String::new();
    write_value(&mut s, v);
    assert(s@ =~= value_text(*v));
    s
}

/// The value an S-expression denotes as data; vectors have none.
pub open spec fn sexpr_value(e: SExpr) -> Option<Value>
    decreases e,
{
    match e.content {
        SExprContent::Atom(a) => Some(atom_value(a)),
        SExprContent::Nil => Some(Value::Nil),
        SExprContent::Cons { car, cdr } => match (sexpr_value(*car), sexpr_value(*cdr)) {
            (Some(a), Some(d)) => Some(Value::Cons(Box::new(a), Box::new(d))),
            _ => None,
        },
        SExprContent::Vector(_) => None,
    }
}

/// The value of an atom.
pub open spec fn atom_value(a: ParsedValue) -> Value {
    match a {
        ParsedValue::Number(Number::Integer(i)) => Value::Integer(i),
        ParsedValue::Number(Number::Float(t)) => Value::Float(t),
        ParsedValue::String(s) => Value::String(s),
        ParsedValue::Character(c) => Value::Char(c),
        ParsedValue::Boolean(b) => Value::Bool(b),
        ParsedValue::Symbol(s) => Value::Symbol(s),
    }
}

/// The value `e` denotes as data (see [`sexpr_value`]); `None` when it holds
/// a vector.
pub fn value_of_sexpr(e: &SExpr) -> (r: Option<Value>)
    ensures
        r == sexpr_value(*e),
    decreases e,
{
    match &e.content {
        SExprContent::Atom(a) => Some(
            match a {
                ParsedValue::Number(Number::Integer(i)) => Value::Integer(*i),
                ParsedValue::Number(Number::Float(t)) => Value::Float(t.clone()),
                ParsedValue::String(s) => Value::String(s.clone()),
                ParsedValue::Character(c) => Value::Char(*c),
                ParsedValue::Boolean(b) => Value::Bool(*b),
                ParsedValue::Symbol(s) => Value::Symbol(s.clone()),
            },
        ),
        SExprContent::Nil => Some(Value::Nil),
        SExprContent::Cons { car, cdr } => {
            let a = value_of_sexpr(&**car);
            let d = value_of_sexpr(&**cdr);
            match (a, d) {
                (Some(a), Some(d)) => Some(Value::Cons(Box::new(a), Box::new(d))),
                _ => None,
            }
        },
        SExprContent::Vector(_) => None,
    }
}

proof fn lemma_digit_char(d: nat)
    requires
        d < 10,
    ensures
        spec_is_digit_char(digit_char(d)),
        digit_value(digit_char(d)) == d,
{
}

proof fn lemma_decimal_reads_back(x: nat)
    ensures
        decimal(x).len() > 0,
        all_digits(decimal(x)),
        digits_value(decimal(x)) == x,
    decreases x,
{
    if x < 10 {
        lemma_digit_char(x);
        assert(decimal(x).drop_last() =~= Seq::<char>::empty());
        assert(digits_value(decimal(x)) == digits_value(decimal(x).drop_last()) * 10 + digit_value(
            decimal(x).last(),
        ));
    } else {
        lemma_digit_char(x % 10);
        lemma_decimal_reads_back(x / 10);
        let d = decimal(x / 10);
        let s = d.push(digit_char(x % 10));
        assert(s.drop_last() =~= d);
        assert(decimal(x) == s);
        assert(digits_value(s) == digits_value(d) * 10 + digit_value(s.last()));
        assert(s.last() == digit_char(x % 10));
        assert(x == (x / 10) * 10 + x % 10);
        assert forall|i: int| 0 <= i < s.len() implies spec_is_digit_char(#[trigger] s[i]) by {
            if i < d.len() {
                assert(s[i] == d[i]);
            }
        }
    }
}

/// A written integer reads back as itself: `i64::from_str` of
/// `value_to_string` of `Integer(n)` is `n`, sign included. The text starts
/// with `-` exactly when `n` is negative.
pub proof fn lemma_integer_text_reads_back(n: i64)
    ensures
        parse_i64(value_text(Value::Integer(n))) == Some(n),
        (value_text(Value::Integer(n))[0] == '-') == (n < 0),
{
    let t = value_text(Value::Integer(n));
    if n < 0 {
        let m = (-(n as int)) as nat;
        lemma_decimal_reads_back(m);
        assert(t == seq!['-'] + decimal(m));
        assert(t.skip(1) =~= decimal(m));
    } else {
        lemma_decimal_reads_back(n as nat);
        assert(t == decimal(n as nat));
        assert(spec_is_digit_char(t[0]));
    }
}

} // verus!
