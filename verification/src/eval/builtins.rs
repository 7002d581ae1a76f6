//! The built-in list functions and type predicates.
use vstd::prelude::*;
use crate::eval::value::{
    SchemeError, SchemeErrorModel, Value, from_vec, list_of, value_text, value_to_string,
};
use crate::text::push_str;

verus! {

broadcast use vstd::string::group_string_axioms;

/// A result with its error taken by its model.
pub open spec fn result_view(r: Result<Value, SchemeError>) -> Result<Value, SchemeErrorModel> {
    match r {
        Ok(v) => Ok(v),
        Err(e) => Err(e@),
    }
}

/// `<name> requires exactly <count> argument(s)`.
pub open spec fn exact_count_error(name: Seq<char>, one: bool) -> SchemeErrorModel {
    SchemeErrorModel::ArityError(
        name + if one {
            " requires exactly 1 argument"@
        } else {
            " requires exactly 2 arguments"@
        },
    )
}

fn count_error(name: &str, one: bool) -> (e: SchemeError)
    ensures
        e@ == exact_count_error(name@, one),
{
    let mut s = String::new();
    push_str(&mut s, name);
    if one {
        push_str(&mut s, " requires exactly 1 argument");
    } else {
        push_str(&mut s, " requires exactly 2 arguments");
    }
    SchemeError::ArityError(s)
}

/// `cons`: the pair of its two arguments.
pub open spec fn spec_cons(args: Seq<Value>) -> Result<Value, SchemeErrorModel> {
    if args.len() != 2 {
        Err(exact_count_error("cons"@, false))
    } else {
        Ok(Value::Cons(Box::new(args[0]), Box::new(args[1])))
    }
}

/// `car` or `cdr` (`first`): the first or second part of a pair; the empty
/// list is a runtime error, anything else a type error.
pub open spec fn spec_pair_part(args: Seq<Value>, first: bool) -> Result<Value, SchemeErrorModel> {
    let name = if first {
        "car"@
    } else {
        "cdr"@
    };
    if args.len() != 1 {
        Err(exact_count_error(name, true))
    } else {
        match args[0] {
            Value::Cons(a, d) => Ok(
                if first {
                    *a
                } else {
                    *d
                },
            ),
            Value::Nil => Err(SchemeErrorModel::RuntimeError(name + " of empty list"@)),
            _ => Err(SchemeErrorModel::TypeError(name + " expects a pair, got "@ + value_text(args[0]))),
        }
    }
}

/// `list`: the proper list of its arguments.
pub open spec fn spec_list(args: Seq<Value>) -> Result<Value, SchemeErrorModel> {
    Ok(list_of(args))
}

/// The type predicates.
#[derive(Debug, Clone, Copy, PartialEq, Eq)]
pub enum Predicate {
    Null,
    Pair,
    Number,
    Symbol,
    String,
}

pub open spec fn predicate_name(p: Predicate) -> Seq<char> {
    match p {
        Predicate::Null => "null?"@,
        Predicate::Pair => "pair?"@,
        Predicate::Number => "number?"@,
        Predicate::Symbol => "symbol?"@,
        Predicate::String => "string?"@,
    }
}

pub open spec fn predicate_holds(p: Predicate, v: Value) -> bool {
    match p {
        Predicate::Null => v is Nil,
        Predicate::Pair => v is Cons,
        Predicate::Number => v is Integer || v is Float,
        Predicate::Symbol => v is Symbol,
        Predicate::String => v is String,
    }
}

/// A type predicate: `#t` or `#f` for its one argument.
pub open spec fn spec_predicate(p: Predicate, args: Seq<Value>) -> Result<Value, SchemeErrorModel> {
    if args.len() != 1 {
        Err(exact_count_error(predicate_name(p), true))
    } else {
        Ok(Value::Bool(predicate_holds(p, args[0])))
    }
}

/// The pair of the two arguments.
pub fn cons(args: &[Value]) -> (r: Result<Value, SchemeError>)
    ensures
        result_view(r) == spec_cons(args@),
{
    if args.len() != 2 {
        return Err(count_error("cons", false));
    }
    Ok(Value::Cons(Box::new(args[0].clone()), Box::new(args[1].clone())))
}

fn pair_part(args: &[Value], first: bool) -> (r: Result<Value, SchemeError>)
    ensures
        result_view(r) == spec_pair_part(args@, first),
{
    let name = if first {
        "car"
    } else {
        "cdr"
    };
    if args.len() != 1 {
        return Err(count_error(name, true));
    }
    match &args[0] {
        Value::Cons(a, d) => {
            if first {
                Ok((**a).clone())
            } else {
                Ok((**d).clone())
            }
        },
        Value::Nil => {
            let mut s = String::new();
            push_str(&mut s, name);
            push_str(&mut s, " of empty list");
            Err(SchemeError::RuntimeError(s))
        },
        _ => {
            let mut s = String::new();
            push_str(&mut s, name);
            push_str(&mut s, " expects a pair, got ");
            let t = value_to_string(&args[0]);
            push_str(&mut s, t.as_str());
            Err(SchemeError::TypeError(s))
        },
    }
}

/// The first part of a pair.
pub fn car(args: &[Value]) -> (r: Result<Value, SchemeError>)
    ensures
        result_view(r) == spec_pair_part(args@, true),
{
    pair_part(args, true)
}

/// The second part of a pair.
pub fn cdr(args: &[Value]) -> (r: Result<Value, SchemeError>)
    ensures
        result_view(r) == spec_pair_part(args@, false),
{
    pair_part(args, false)
}

/// The proper list of the arguments.
pub fn list(args: &[Value]) -> (r: Result<Value, SchemeError>)
    ensures
        result_view(r) == spec_list(args@),
{
    let mut v: Vec<Value> = Vec::new();
    let mut i: usize = 0;
    while i < args.len()
        invariant
            i <= args@.len(),
            v@ == args@.take(i as int),
        decreases args@.len() - i,
    {
        v.push(args[i].clone());
        i = i + 1;
        assert(v@ =~= args@.take(i as int));
    }
    assert(args@.take(args@.len() as int) =~= args@);
    Ok(from_vec(&v))
}

fn predicate(p: Predicate, args: &[Value]) -> (r: Result<Value, SchemeError>)
    ensures
        result_view(r) == spec_predicate(p, args@),
{
    let name = match p {
        Predicate::Null => "null?",
        Predicate::Pair => "pair?",
        Predicate::Number => "number?",
        Predicate::Symbol => "symbol?",
        Predicate::String => "string?",
    };
    if args.len() != 1 {
        return Err(count_error(name, true));
    }
    let b = match p {
        Predicate::Null => matches!(args[0], Value::Nil),
        Predicate::Pair => matches!(args[0], Value::Cons(..)),
        Predicate::Number => matches!(args[0], Value::Integer(_) | Value::Float(_)),
        Predicate::Symbol => matches!(args[0], Value::Symbol(_)),
        Predicate::String => matches!(args[0], Value::String(_)),
    };
    Ok(Value::Bool(b))
}

/// `#t` when the argument is the empty list.
pub fn is_null(args: &[Value]) -> (r: Result<Value, SchemeError>)
    ensures
        result_view(r) == spec_predicate(Predicate::Null, args@),
{
    predicate(Predicate::Null, args)
}

/// `#t` when the argument is a pair.
pub fn is_pair(args: &[Value]) -> (r: Result<Value, SchemeError>)
    ensures
        result_view(r) == spec_predicate(Predicate::Pair, args@),
{
    predicate(Predicate::Pair, args)
}

/// `#t` when the argument is a number.
pub fn is_number(args: &[Value]) -> (r: Result<Value, SchemeError>)
    ensures
        result_view(r) == spec_predicate(Predicate::Number, args@),
{
    predicate(Predicate::Number, args)
}

/// `#t` when the argument is a symbol.
pub fn is_symbol(args: &[Value]) -> (r: Result<Value, SchemeError>)
    ensures
        result_view(r) == spec_predicate(Predicate::Symbol, args@),
{
    predicate(Predicate::Symbol, args)
}

/// `#t` when the argument is a string.
pub fn is_string(args: &[Value]) -> (r: Result<Value, SchemeError>)
    ensures
        result_view(r) == spec_predicate(Predicate::String, args@),
{
    predicate(Predicate::String, args)
}

/// `car` and `cdr` take apart what `cons` builds: `(car (cons a b))` is
/// `a` and `(cdr (cons a b))` is `b`.
pub proof fn lemma_car_cdr_of_cons(a: Value, b: Value)
    ensures
        spec_cons(seq![a, b]) == Ok::<Value, SchemeErrorModel>(Value::Cons(Box::new(a), Box::new(b))),
        spec_pair_part(seq![Value::Cons(Box::new(a), Box::new(b))], true) == Ok::<Value, SchemeErrorModel>(a),
        spec_pair_part(seq![Value::Cons(Box::new(a), Box::new(b))], false) == Ok::<Value, SchemeErrorModel>(b),
{
}

/// `list` makes a proper list of its arguments, in order.
pub proof fn lemma_list_holds_arguments(args: Seq<Value>)
    ensures
        spec_list(args) matches Ok(l) && crate::eval::value::list_items(l) == Some(args),
{
    crate::eval::value::lemma_list_of_items(args);
}

/// The type predicates on one argument: `number?` holds exactly of integers
/// and floats, `null?` of the empty list, `pair?` of pairs, `symbol?` of
/// symbols and `string?` of strings.
pub proof fn lemma_type_predicates(v: Value)
    ensures
        spec_predicate(Predicate::Number, seq![v]) == Ok::<Value, SchemeErrorModel>(
            Value::Bool(v matches Value::Integer(_) || v matches Value::Float(_)),
        ),
        spec_predicate(Predicate::Null, seq![v]) == Ok::<Value, SchemeErrorModel>(Value::Bool(v matches Value::Nil)),
        spec_predicate(Predicate::Pair, seq![v]) == Ok::<Value, SchemeErrorModel>(
            Value::Bool(v matches Value::Cons(_, _)),
        ),
        spec_predicate(Predicate::Symbol, seq![v]) == Ok::<Value, SchemeErrorModel>(
            Value::Bool(v matches Value::Symbol(_)),
        ),
        spec_predicate(Predicate::String, seq![v]) == Ok::<Value, SchemeErrorModel>(
            Value::Bool(v matches Value::String(_)),
        ),
{
}

/// Numbers are numbers: `(number? n)` is `#t` for every integer `n` and
/// every float literal.
pub proof fn lemma_numbers_are_numbers(n: i64, t: String)
    ensures
        spec_predicate(Predicate::Number, seq![Value::Integer(n)]) == Ok::<Value, SchemeErrorModel>(Value::Bool(true)),
        spec_predicate(Predicate::Number, seq![Value::Float(t)]) == Ok::<Value, SchemeErrorModel>(Value::Bool(true)),
        spec_predicate(Predicate::Number, seq![Value::Nil]) == Ok::<Value, SchemeErrorModel>(Value::Bool(false)),
{
}

} // verus!
