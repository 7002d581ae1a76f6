//! The evaluation machine: one step at a time, an expression is evaluated
//! in an environment, or a value is handed to the rest of the computation.
//! Arithmetic built-ins are not computed here: the machine stops with an
//! arithmetic request, and the caller resumes it with the result.
use vstd::prelude::*;
use crate::environment::manager::{
    EnvError, EnvErrorModel, EnvironmentId, EnvironmentManager, EnvironmentModel, Resolution,
    bind, chain_ends, not_found_message, resolve, zip_bindings,
};
use crate::eval::builtins::{
    Predicate, car, cdr, cons, is_null, is_number, is_pair, is_string, is_symbol, list,
    result_view, spec_cons, spec_list, spec_pair_part, spec_predicate,
};
use crate::eval::value::{
    Builtin, SchemeError, SchemeErrorModel, Value, from_vec, is_truthy, list_items, list_of,
    to_vec, truthy, value_text, value_to_string,
};
use crate::text::{decimal, push_decimal, push_str};

verus! {

broadcast use vstd::string::group_string_axioms;

/// The elements of `v` as a list; none when it is not a proper list.
pub open spec fn items(v: Value) -> Seq<Value> {
    match list_items(v) {
        Some(s) => s,
        None => Seq::empty(),
    }
}

/// What remains to be done with the value of the expression being
/// evaluated.
#[derive(Debug)]
pub enum Cont {
    /// Nothing: the value is the result.
    Done,
    /// Choose a branch of `if`.
    If { then_e: Box<Value>, else_e: Option<Box<Value>>, env: EnvironmentId, next: Box<Cont> },
    /// Bind the value to `name` in `env`.
    Define { name: String, env: EnvironmentId, next: Box<Cont> },
    /// Assign the value to `name` as seen from `env`.
    Assign { name: String, env: EnvironmentId, next: Box<Cont> },
    /// The value is that of the binding named `pending` of a `let`; `names`
    /// and `values` hold the bindings evaluated so far, `rest` the binding
    /// forms still to come.
    Let {
        names: Box<Value>,
        values: Box<Value>,
        pending: String,
        rest: Box<Value>,
        body: Box<Value>,
        env: EnvironmentId,
        next: Box<Cont>,
    },
    /// Evaluate the expressions of `rest` in turn; the last gives the value.
    Begin { rest: Box<Value>, env: EnvironmentId, next: Box<Cont> },
    /// `and`: stop at a false value; after the last expression, evaluate
    /// `last` once more.
    And { rest: Box<Value>, last: Box<Value>, env: EnvironmentId, next: Box<Cont> },
    /// `or`: stop at a true value; after the last expression, evaluate `last`
    /// once more.
    Or { rest: Box<Value>, last: Box<Value>, env: EnvironmentId, next: Box<Cont> },
    /// The value is the test of a `cond` clause with body `body`; `rest`
    /// holds the clauses after it.
    Cond { rest: Box<Value>, body: Box<Value>, env: EnvironmentId, next: Box<Cont> },
    /// A call: `done` holds the values of the operator and the arguments
    /// evaluated so far, `rest` the argument expressions still to come.
    Apply { done: Box<Value>, rest: Box<Value>, env: EnvironmentId, next: Box<Cont> },
}

/// A state of the machine.
#[derive(Debug)]
pub enum State {
    /// Evaluate `expr` in `env`, then continue with `k`.
    Eval { expr: Value, env: EnvironmentId, k: Cont },
    /// Hand `value` to `k`.
    Return { value: Value, k: Cont },
    /// The arithmetic built-in `op` is to be applied to the list `args`;
    /// resume with its result and `k`.
    Arithmetic { op: Builtin, args: Value, k: Cont },
    /// Evaluation ended with this result.
    Done(Result<Value, SchemeError>),
}

/// Model of [`State`]: the error of a finished evaluation taken by its
/// model.
pub ghost enum StateModel {
    Eval { expr: Value, env: EnvironmentId, k: Cont },
    Return { value: Value, k: Cont },
    Arithmetic { op: Builtin, args: Value, k: Cont },
    Done(Result<Value, SchemeErrorModel>),
}

impl View for State {
    type V = StateModel;

    open spec fn view(&self) -> StateModel {
        match self {
            State::Eval { expr, env, k } => StateModel::Eval { expr: *expr, env: *env, k: *k },
            State::Return { value, k } => StateModel::Return { value: *value, k: *k },
            State::Arithmetic { op, args, k } => StateModel::Arithmetic { op: *op, args: *args, k: *k },
            State::Done(r) => StateModel::Done(result_view(*r)),
        }
    }
}

pub open spec fn fail(e: SchemeErrorModel) -> StateModel {
    StateModel::Done(Err(e))
}

pub open spec fn env_error(e: EnvErrorModel) -> SchemeErrorModel {
    match e {
        EnvErrorModel::RuntimeError(m) => SchemeErrorModel::RuntimeError(m),
        EnvErrorModel::UndefinedVariable(n) => SchemeErrorModel::UndefinedVariable(n),
        EnvErrorModel::ArityError(m) => SchemeErrorModel::ArityError(m),
    }
}

fn from_env_error(e: EnvError) -> (r: SchemeError)
    ensures
        r@ == env_error(e@),
{
    match e {
        EnvError::RuntimeError(m) => SchemeError::RuntimeError(m),
        EnvError::UndefinedVariable(n) => SchemeError::UndefinedVariable(n),
        EnvError::ArityError(m) => SchemeError::ArityError(m),
    }
}

/// The message when the chain of parents from an environment runs in a
/// circle.
pub open spec fn cycle_message() -> Seq<char> {
    "Environment chain has a cycle"@
}

/// The message when no more environments can be numbered.
pub open spec fn full_message() -> Seq<char> {
    "Too many environments"@
}

/// `Expected <n> arguments, got <m>`.
pub open spec fn count_message(n: nat, m: nat) -> Seq<char> {
    "Expected "@ + decimal(n) + " arguments, got "@ + decimal(m)
}

/// The names of `items` when all are symbols.
pub open spec fn symbol_names(items: Seq<Value>) -> Option<Seq<String>>
    decreases items.len(),
{
    if items.len() == 0 {
        Some(Seq::empty())
    } else {
        match items.last() {
            Value::Symbol(s) => match symbol_names(items.drop_last()) {
                Some(ns) => Some(ns.push(s)),
                None => None,
            },
            _ => None,
        }
    }
}

/// `list` with `v` added at its end.
pub open spec fn snoc(list: Value, v: Value) -> Value {
    list_of(items(list).push(v))
}

/// The special forms, by keyword.
pub open spec fn is_keyword(s: Seq<char>) -> bool {
    s == "quote"@ || s == "if"@ || s == "define"@ || s == "set!"@ || s == "lambda"@ || s == "let"@
        || s == "begin"@ || s == "and"@ || s == "or"@ || s == "cond"@
}

/// Start evaluating the expressions `exprs` in turn (`begin`).
pub open spec fn spec_begin(exprs: Seq<Value>, env: EnvironmentId, k: Cont) -> StateModel {
    if exprs.len() == 0 {
        StateModel::Return { value: Value::Nil, k }
    } else {
        StateModel::Eval {
            expr: exprs[0],
            env,
            k: Cont::Begin { rest: Box::new(list_of(exprs.drop_first())), env, next: Box::new(k) },
        }
    }
}

/// Try the `cond` clauses `clauses` in turn.
pub open spec fn spec_cond(clauses: Seq<Value>, env: EnvironmentId, k: Cont) -> StateModel {
    if clauses.len() == 0 {
        StateModel::Return { value: Value::Nil, k }
    } else {
        match list_items(clauses[0]) {
            None => fail(SchemeErrorModel::SyntaxError("cond clause must be a list"@)),
            Some(c) => if c.len() == 0 {
                fail(SchemeErrorModel::SyntaxError("cond clause must have at least a condition"@))
            } else if (c[0] matches Value::Symbol(s) && s@ == "else"@) {
                if c.len() == 1 {
                    StateModel::Return { value: Value::Nil, k }
                } else if c.len() == 2 {
                    StateModel::Eval { expr: c[1], env, k }
                } else {
                    spec_begin(c.drop_first(), env, k)
                }
            } else {
                StateModel::Eval {
                    expr: c[0],
                    env,
                    k: Cont::Cond {
                        rest: Box::new(list_of(clauses.drop_first())),
                        body: Box::new(list_of(c.drop_first())),
                        env,
                        next: Box::new(k),
                    },
                }
            },
        }
    }
}

/// Take the next binding form of a `let`, or, with none left, bind the
/// names and evaluate the body.
pub open spec fn spec_let_next(
    envs: Seq<EnvironmentModel<Value>>,
    names: Value,
    values: Value,
    rest: Seq<Value>,
    body: Value,
    env: EnvironmentId,
    k: Cont,
) -> (Seq<EnvironmentModel<Value>>, StateModel) {
    if rest.len() == 0 {
        let ns = symbol_names(items(names));
        match ns {
            None => (envs, fail(SchemeErrorModel::TypeError("let binding name must be a symbol"@))),
            Some(ns) => spec_extend_then(envs, env, ns, items(values), body, k),
        }
    } else {
        match list_items(rest[0]) {
            None => (envs, fail(SchemeErrorModel::TypeError("let binding must be a list"@))),
            Some(pair) => if pair.len() != 2 {
                (envs, fail(SchemeErrorModel::TypeError("let binding must have exactly 2 elements"@)))
            } else {
                match pair[0] {
                    Value::Symbol(name) => (
                        envs,
                        StateModel::Eval {
                            expr: pair[1],
                            env,
                            k: Cont::Let {
                                names: Box::new(names),
                                values: Box::new(values),
                                pending: name,
                                rest: Box::new(list_of(rest.drop_first())),
                                body: Box::new(body),
                                env,
                                next: Box::new(k),
                            },
                        },
                    ),
                    _ => (envs, fail(SchemeErrorModel::TypeError("let binding name must be a symbol"@))),
                }
            },
        }
    }
}

/// Make a child of `parent` binding `names` to `values` and evaluate `body`
/// there.
pub open spec fn spec_extend_then(
    envs: Seq<EnvironmentModel<Value>>,
    parent: EnvironmentId,
    names: Seq<String>,
    values: Seq<Value>,
    body: Value,
    k: Cont,
) -> (Seq<EnvironmentModel<Value>>, StateModel) {
    if envs.len() >= usize::MAX {
        (envs, fail(SchemeErrorModel::RuntimeError(full_message())))
    } else if names.len() != values.len() {
        (envs, fail(SchemeErrorModel::ArityError(count_message(names.len(), values.len()))))
    } else {
        (
            envs.push(EnvironmentModel { bindings: zip_bindings(names, values), parent_id: Some(parent) }),
            StateModel::Eval { expr: body, env: envs.len() as usize, k },
        )
    }
}

/// Evaluate `expr` in `env`, continuing with `k`.
pub open spec fn spec_eval(envs: Seq<EnvironmentModel<Value>>, expr: Value, env: EnvironmentId, k: Cont) -> (
    Seq<EnvironmentModel<Value>>,
    StateModel,
) {
    match expr {
        Value::Integer(_) | Value::Float(_) | Value::String(_) | Value::Bool(_) | Value::Char(_)
        | Value::Nil => (envs, StateModel::Return { value: expr, k }),
        Value::Symbol(name) => (envs, spec_lookup(envs, name, env, k)),
        Value::Cons(_, _) => match list_items(expr) {
            None => (envs, fail(SchemeErrorModel::RuntimeError("Invalid list structure"@))),
            Some(l) => match l[0] {
                Value::Symbol(op) => if is_keyword(op@) {
                    spec_special(envs, op@, l.drop_first(), env, k)
                } else {
                    (envs, spec_start_apply(l, env, k))
                },
                _ => (envs, spec_start_apply(l, env, k)),
            },
        },
        _ => (envs, fail(SchemeErrorModel::RuntimeError("Cannot evaluate "@ + value_text(expr)))),
    }
}

/// The value of the variable `name` seen from `env`.
pub open spec fn spec_lookup(envs: Seq<EnvironmentModel<Value>>, name: String, env: EnvironmentId, k: Cont) -> StateModel {
    if !chain_ends(envs, env, envs.len()) {
        fail(SchemeErrorModel::RuntimeError(cycle_message()))
    } else {
        match resolve(envs, env, name@, envs.len()) {
            Resolution::Bound(_, v) => StateModel::Return { value: v, k },
            Resolution::Unbound => fail(SchemeErrorModel::UndefinedVariable(name@)),
            Resolution::MissingEnv(m) => fail(SchemeErrorModel::RuntimeError(not_found_message(m))),
        }
    }
}

/// Evaluate the operator of the call `l`.
pub open spec fn spec_start_apply(l: Seq<Value>, env: EnvironmentId, k: Cont) -> StateModel {
    StateModel::Eval {
        expr: l[0],
        env,
        k: Cont::Apply {
            done: Box::new(Value::Nil),
            rest: Box::new(list_of(l.drop_first())),
            env,
            next: Box::new(k),
        },
    }
}

/// The parameter list of a `lambda` as stored: checked to be a list of
/// symbols.
pub open spec fn spec_lambda(args: Seq<Value>, env: EnvironmentId, k: Cont) -> StateModel {
    let params = args[0];
    let ok_list = params is Nil || list_items(params) is Some;
    if !ok_list {
        fail(SchemeErrorModel::TypeError("lambda parameters must be a list"@))
    } else if symbol_names(items(params)) is None {
        fail(SchemeErrorModel::TypeError("lambda parameters must be symbols"@))
    } else {
        StateModel::Return {
            value: Value::Lambda { params: Box::new(params), body: Box::new(args[1]), env_id: env },
            k,
        }
    }
}

/// The special form `op` with arguments `args`.
pub open spec fn spec_special(
    envs: Seq<EnvironmentModel<Value>>,
    op: Seq<char>,
    args: Seq<Value>,
    env: EnvironmentId,
    k: Cont,
) -> (Seq<EnvironmentModel<Value>>, StateModel) {
    if op == "quote"@ {
        if args.len() != 1 {
            (envs, fail(SchemeErrorModel::ArityError("quote requires exactly 1 argument"@)))
        } else {
            (envs, StateModel::Return { value: args[0], k })
        }
    } else if op == "if"@ {
        if args.len() < 2 || args.len() > 3 {
            (envs, fail(SchemeErrorModel::ArityError("if requires 2 or 3 arguments"@)))
        } else {
            (
                envs,
                StateModel::Eval {
                    expr: args[0],
                    env,
                    k: Cont::If {
                        then_e: Box::new(args[1]),
                        else_e: if args.len() == 3 {
                            Some(Box::new(args[2]))
                        } else {
                            None
                        },
                        env,
                        next: Box::new(k),
                    },
                },
            )
        }
    } else if op == "define"@ || op == "set!"@ {
        if args.len() != 2 {
            (envs, fail(SchemeErrorModel::ArityError(op + " requires exactly 2 arguments"@)))
        } else {
            match args[0] {
                Value::Symbol(name) => (
                    envs,
                    StateModel::Eval {
                        expr: args[1],
                        env,
                        k: if op == "define"@ {
                            Cont::Define { name, env, next: Box::new(k) }
                        } else {
                            Cont::Assign { name, env, next: Box::new(k) }
                        },
                    },
                ),
                _ => (envs, fail(SchemeErrorModel::TypeError(op + " expects a symbol"@))),
            }
        }
    } else if op == "lambda"@ {
        if args.len() != 2 {
            (envs, fail(SchemeErrorModel::ArityError("lambda requires exactly 2 arguments"@)))
        } else {
            (envs, spec_lambda(args, env, k))
        }
    } else if op == "let"@ {
        if args.len() != 2 {
            (envs, fail(SchemeErrorModel::ArityError("let requires exactly 2 arguments"@)))
        } else if list_items(args[0]) is None {
            (envs, fail(SchemeErrorModel::TypeError("let bindings must be a list"@)))
        } else {
            spec_let_next(envs, Value::Nil, Value::Nil, items(args[0]), args[1], env, k)
        }
    } else if op == "begin"@ {
        (envs, spec_begin(args, env, k))
    } else if op == "and"@ || op == "or"@ {
        if args.len() == 0 {
            (envs, StateModel::Return { value: Value::Bool(op == "and"@), k })
        } else {
            let rest = Box::new(list_of(args.drop_first()));
            let last = Box::new(args.last());
            (
                envs,
                StateModel::Eval {
                    expr: args[0],
                    env,
                    k: if op == "and"@ {
                        Cont::And { rest, last, env, next: Box::new(k) }
                    } else {
                        Cont::Or { rest, last, env, next: Box::new(k) }
                    },
                },
            )
        }
    } else {
        (envs, spec_cond(args, env, k))
    }
}

/// A built-in applied to `args`: list functions and predicates here,
/// arithmetic handed out.
pub open spec fn spec_builtin(op: Builtin, args: Seq<Value>, k: Cont) -> StateModel {
    let r = match op {
        Builtin::Cons => spec_cons(args),
        Builtin::Car => spec_pair_part(args, true),
        Builtin::Cdr => spec_pair_part(args, false),
        Builtin::List => spec_list(args),
        Builtin::IsNull => spec_predicate(Predicate::Null, args),
        Builtin::IsPair => spec_predicate(Predicate::Pair, args),
        Builtin::IsNumber => spec_predicate(Predicate::Number, args),
        Builtin::IsSymbol => spec_predicate(Predicate::Symbol, args),
        Builtin::IsString => spec_predicate(Predicate::String, args),
        _ => Ok(Value::Nil),
    };
    if is_arithmetic(op) {
        match spec_integer_arithmetic(op, args) {
            Some(x) => StateModel::Return { value: x, k },
            None => StateModel::Arithmetic { op, args: list_of(args), k },
        }
    } else {
        match r {
            Ok(x) => StateModel::Return { value: x, k },
            Err(e) => fail(e),
        }
    }
}

/// Integer `+` (`add`) or `*` over `args` from `acc`, as long as every
/// argument is an integer and every partial result fits in an `i64`.
pub open spec fn integer_fold(add: bool, args: Seq<Value>, acc: int) -> Option<i64>
    decreases args.len(),
{
    if args.len() == 0 {
        if i64::MIN <= acc <= i64::MAX {
            Some(acc as i64)
        } else {
            None
        }
    } else {
        match args[0] {
            Value::Integer(n) => {
                let next = if add {
                    acc + n
                } else {
                    acc * n
                };
                if i64::MIN <= next <= i64::MAX {
                    integer_fold(add, args.drop_first(), next)
                } else {
                    None
                }
            },
            _ => None,
        }
    }
}

/// What an arithmetic built-in gives when only integers are involved and
/// nothing overflows: sums and products of integers, and comparisons of two
/// integers. Otherwise (a float among the arguments, an overflow, a type
/// error, or another function) the arithmetic is handed out.
pub open spec fn spec_integer_arithmetic(op: Builtin, args: Seq<Value>) -> Option<Value> {
    match op {
        Builtin::Add => match integer_fold(true, args, 0) {
            Some(n) => Some(Value::Integer(n)),
            None => None,
        },
        Builtin::Multiply => match integer_fold(false, args, 1) {
            Some(n) => Some(Value::Integer(n)),
            None => None,
        },
        Builtin::Equal | Builtin::LessThan | Builtin::GreaterThan | Builtin::LessEqual
        | Builtin::GreaterEqual => if args.len() == 2 {
            match (args[0], args[1]) {
                (Value::Integer(a), Value::Integer(b)) => Some(
                    Value::Bool(
                        match op {
                            Builtin::Equal => a == b,
                            Builtin::LessThan => a < b,
                            Builtin::GreaterThan => a > b,
                            Builtin::LessEqual => a <= b,
                            _ => a >= b,
                        },
                    ),
                ),
                _ => None,
            }
        } else {
            None
        },
        _ => None,
    }
}

fn integer_fold_exec(add: bool, args: &Vec<Value>) -> (r: Option<i64>)
    ensures
        r == integer_fold(add, args@, if add {
            0
        } else {
            1
        }),
{
    let mut acc: i64 = if add {
        0
    } else {
        1
    };
    let mut i: usize = 0;
    assert(args@.skip(0) =~= args@);
    while i < args.len()
        invariant
            i <= args@.len(),
            integer_fold(add, args@, if add {
                0
            } else {
                1
            }) == integer_fold(add, args@.skip(i as int), acc as int),
        decreases args@.len() - i,
    {
        let ghost rest = args@.skip(i as int);
        assert(rest[0] == args@[i as int]);
        assert(rest.drop_first() =~= args@.skip(i + 1));
        match &args[i] {
            Value::Integer(n) => {
                let next = if add {
                    acc.checked_add(*n)
                } else {
                    acc.checked_mul(*n)
                };
                match next {
                    Some(x) => {
                        acc = x;
                    },
                    None => {
                        return None;
                    },
                }
            },
            _ => {
                return None;
            },
        }
        i = i + 1;
    }
    assert(args@.skip(i as int).len() == 0);
    Some(acc)
}

fn integer_arithmetic(op: Builtin, args: &Vec<Value>) -> (r: Option<Value>)
    ensures
        r == spec_integer_arithmetic(op, args@),
{
    match op {
        Builtin::Add | Builtin::Multiply => {
            let add = matches!(op, Builtin::Add);
            match integer_fold_exec(add, args) {
                Some(n) => Some(Value::Integer(n)),
                None => None,
            }
        },
        Builtin::Equal | Builtin::LessThan | Builtin::GreaterThan | Builtin::LessEqual
        | Builtin::GreaterEqual => {
            if args.len() != 2 {
                return None;
            }
            match (&args[0], &args[1]) {
                (Value::Integer(a), Value::Integer(b)) => {
                    let (a, b) = (*a, *b);
                    let r = match op {
                        Builtin::Equal => a == b,
                        Builtin::LessThan => a < b,
                        Builtin::GreaterThan => a > b,
                        Builtin::LessEqual => a <= b,
                        _ => a >= b,
                    };
                    Some(Value::Bool(r))
                },
                _ => None,
            }
        },
        _ => None,
    }
}

/// The built-ins that compute with numbers.
pub open spec fn is_arithmetic(op: Builtin) -> bool {
    !(op is Cons || op is Car || op is Cdr || op is List || op is IsNull || op is IsPair
        || op is IsNumber || op is IsSymbol || op is IsString)
}

/// Apply the operator `vals[0]` to the arguments `vals[1..]`.
pub open spec fn spec_apply(envs: Seq<EnvironmentModel<Value>>, vals: Seq<Value>, k: Cont) -> (
    Seq<EnvironmentModel<Value>>,
    StateModel,
) {
    let f = vals[0];
    let args = vals.drop_first();
    match f {
        Value::BuiltinFunction { op, arity, .. } => match arity {
            Some(n) if args.len() != n => (
                envs,
                fail(SchemeErrorModel::ArityError(count_message(n as nat, args.len()))),
            ),
            _ => (envs, spec_builtin(op, args, k)),
        },
        Value::Lambda { params, body, env_id } => match symbol_names(items(*params)) {
            None => (envs, fail(SchemeErrorModel::TypeError("lambda parameters must be symbols"@))),
            Some(names) => if names.len() != args.len() {
                (envs, fail(SchemeErrorModel::ArityError(count_message(names.len(), args.len()))))
            } else {
                spec_extend_then(envs, env_id, names, args, *body, k)
            },
        },
        _ => (envs, fail(SchemeErrorModel::TypeError("Cannot apply non-function: "@ + value_text(f)))),
    }
}

/// Hand the value `v` to `k`.
pub open spec fn spec_return(envs: Seq<EnvironmentModel<Value>>, v: Value, k: Cont) -> (
    Seq<EnvironmentModel<Value>>,
    StateModel,
) {
    match k {
        Cont::Done => (envs, StateModel::Done(Ok(v))),
        Cont::If { then_e, else_e, env, next } => if truthy(v) {
            (envs, StateModel::Eval { expr: *then_e, env, k: *next })
        } else {
            match else_e {
                Some(e) => (envs, StateModel::Eval { expr: *e, env, k: *next }),
                None => (envs, StateModel::Return { value: Value::Nil, k: *next }),
            }
        },
        Cont::Define { name, env, next } => if env < envs.len() {
            (bind(envs, env, name@, v), StateModel::Return { value: Value::Nil, k: *next })
        } else {
            (envs, fail(SchemeErrorModel::RuntimeError(not_found_message(env))))
        },
        Cont::Assign { name, env, next } => if !chain_ends(envs, env, envs.len()) {
            (envs, fail(SchemeErrorModel::RuntimeError(cycle_message())))
        } else {
            match resolve(envs, env, name@, envs.len()) {
                Resolution::Bound(j, _) => (
                    bind(envs, j, name@, v),
                    StateModel::Return { value: Value::Nil, k: *next },
                ),
                Resolution::Unbound => (envs, fail(SchemeErrorModel::UndefinedVariable(name@))),
                Resolution::MissingEnv(m) => (envs, fail(SchemeErrorModel::RuntimeError(not_found_message(m)))),
            }
        },
        Cont::Let { names, values, pending, rest, body, env, next } => spec_let_next(
            envs,
            snoc(*names, Value::Symbol(pending)),
            snoc(*values, v),
            items(*rest),
            *body,
            env,
            *next,
        ),
        Cont::Begin { rest, env, next } => (envs, spec_begin_rest(v, items(*rest), env, *next)),
        Cont::And { rest, last, env, next } => if !truthy(v) {
            (envs, StateModel::Return { value: v, k: *next })
        } else {
            (envs, spec_logic_next(true, items(*rest), *last, env, *next))
        },
        Cont::Or { rest, last, env, next } => if truthy(v) {
            (envs, StateModel::Return { value: v, k: *next })
        } else {
            (envs, spec_logic_next(false, items(*rest), *last, env, *next))
        },
        Cont::Cond { rest, body, env, next } => if truthy(v) {
            let b = items(*body);
            if b.len() == 0 {
                (envs, StateModel::Return { value: v, k: *next })
            } else if b.len() == 1 {
                (envs, StateModel::Eval { expr: b[0], env, k: *next })
            } else {
                (envs, spec_begin(b, env, *next))
            }
        } else {
            (envs, spec_cond(items(*rest), env, *next))
        },
        Cont::Apply { done, rest, env, next } => {
            let done2 = snoc(*done, v);
            let r = items(*rest);
            if r.len() == 0 {
                spec_apply(envs, items(done2), *next)
            } else {
                (
                    envs,
                    StateModel::Eval {
                        expr: r[0],
                        env,
                        k: Cont::Apply {
                            done: Box::new(done2),
                            rest: Box::new(list_of(r.drop_first())),
                            env,
                            next: Box::new(*next),
                        },
                    },
                )
            }
        },
    }
}

/// After an expression of `begin`, the value `v` or the next expression.
pub open spec fn spec_begin_rest(v: Value, rest: Seq<Value>, env: EnvironmentId, k: Cont) -> StateModel {
    if rest.len() == 0 {
        StateModel::Return { value: v, k }
    } else {
        spec_begin(rest, env, k)
    }
}

/// After a value of `and` (`is_and`) or `or` that does not decide: the next
/// expression, or the last one once more.
pub open spec fn spec_logic_next(is_and: bool, rest: Seq<Value>, last: Value, env: EnvironmentId, k: Cont) -> StateModel {
    if rest.len() == 0 {
        StateModel::Eval { expr: last, env, k }
    } else {
        let rest2 = Box::new(list_of(rest.drop_first()));
        StateModel::Eval {
            expr: rest[0],
            env,
            k: if is_and {
                Cont::And { rest: rest2, last: Box::new(last), env, next: Box::new(k) }
            } else {
                Cont::Or { rest: rest2, last: Box::new(last), env, next: Box::new(k) }
            },
        }
    }
}

/// One step of the machine from `s`.
pub open spec fn spec_step(envs: Seq<EnvironmentModel<Value>>, s: StateModel) -> (
    Seq<EnvironmentModel<Value>>,
    StateModel,
) {
    match s {
        StateModel::Eval { expr, env, k } => spec_eval(envs, expr, env, k),
        StateModel::Return { value, k } => spec_return(envs, value, k),
        _ => (envs, s),
    }
}


// ============================================================================
// The machine
// ============================================================================

fn text(s: &str) -> (r: String)
    ensures
        r@ == s@,
{
    s.to_owned()
}

fn fail_with(e: SchemeError) -> (r: State)
    ensures
        r@ == fail(e@),
{
    State::Done(Err(e))
}

fn is_word(s: &String, w: &str) -> (b: bool)
    ensures
        b == (s@ == w@),
{
    let t = w.to_owned();
    *s == t
}

fn items_of(v: &Value) -> (r: Vec<Value>)
    ensures
        r@ == items(*v),
{
    match to_vec(v) {
        Some(x) => x,
        None => Vec::new(),
    }
}

fn snoc_value(list: &Value, v: Value) -> (r: Value)
    ensures
        r == snoc(*list, v),
{
    let mut x = items_of(list);
    x.push(v);
    from_vec(&x)
}

/// The list of `v[start..]`.
fn list_from(v: &Vec<Value>, start: usize) -> (r: Value)
    requires
        start <= v@.len(),
    ensures
        r == list_of(v@.subrange(start as int, v@.len() as int)),
{
    let mut tail: Vec<Value> = Vec::new();
    let mut i = start;
    while i < v.len()
        invariant
            start <= i <= v@.len(),
            tail@ == v@.subrange(start as int, i as int),
        decreases v@.len() - i,
    {
        tail.push(v[i].clone());
        i = i + 1;
        assert(tail@ =~= v@.subrange(start as int, i as int));
    }
    from_vec(&tail)
}

fn symbol_names_of(v: &Vec<Value>) -> (r: Option<Vec<String>>)
    ensures
        match symbol_names(v@) {
            Some(ns) => r matches Some(x) && x@ == ns,
            None => r is None,
        },
{
    let mut out: Vec<String> = Vec::new();
    let mut i: usize = 0;
    while i < v.len()
        invariant
            i <= v@.len(),
            symbol_names(v@.take(i as int)) == Some(out@),
        decreases v@.len() - i,
    {
        assert(v@.take(i + 1).drop_last() =~= v@.take(i as int));
        match &v[i] {
            Value::Symbol(s) => {
                out.push(s.clone());
            },
            _ => {
                proof {
                    lemma_names_prefix(v@, i + 1);
                }
                return None;
            },
        }
        i = i + 1;
    }
    assert(v@.take(v@.len() as int) =~= v@);
    Some(out)
}

proof fn lemma_names_prefix(v: Seq<Value>, n: int)
    requires
        0 <= n <= v.len(),
        symbol_names(v.take(n)) is None,
    ensures
        symbol_names(v) is None,
    decreases v.len() - n,
{
    if n < v.len() {
        assert(v.take(n + 1).drop_last() =~= v.take(n));
        lemma_names_prefix(v, n + 1);
    } else {
        assert(v.take(n) =~= v);
    }
}

fn count_error(n: usize, m: usize) -> (e: SchemeError)
    ensures
        e@ == SchemeErrorModel::ArityError(count_message(n as nat, m as nat)),
{
    let mut s = String::new();
    push_str(&mut s, "Expected ");
    push_decimal(&mut s, n as u64);
    push_str(&mut s, " arguments, got ");
    push_decimal(&mut s, m as u64);
    assert(s@ =~= count_message(n as nat, m as nat));
    SchemeError::ArityError(s)
}

fn lookup_state(m: &EnvironmentManager<Value>, name: &String, env: EnvironmentId, k: Cont) -> (r: State)
    requires
        m.wf(),
    ensures
        r@ == spec_lookup(m@, *name, env, k),
{
    if !m.chain_ends_from(env) {
        return fail_with(SchemeError::RuntimeError(text("Environment chain has a cycle")));
    }
    match m.lookup(env, name.as_str()) {
        Ok(x) => State::Return { value: x, k },
        Err(e) => fail_with(from_env_error(e)),
    }
}

fn begin_state(exprs: Vec<Value>, env: EnvironmentId, k: Cont) -> (r: State)
    ensures
        r@ == spec_begin(exprs@, env, k),
{
    if exprs.len() == 0 {
        return State::Return { value: Value::Nil, k };
    }
    let rest = list_from(&exprs, 1);
    assert(exprs@.subrange(1, exprs@.len() as int) =~= exprs@.drop_first());
    let first = exprs[0].clone();
    State::Eval { expr: first, env, k: Cont::Begin { rest: Box::new(rest), env, next: Box::new(k) } }
}

fn cond_state(clauses: Vec<Value>, env: EnvironmentId, k: Cont) -> (r: State)
    ensures
        r@ == spec_cond(clauses@, env, k),
{
    if clauses.len() == 0 {
        return State::Return { value: Value::Nil, k };
    }
    match to_vec(&clauses[0]) {
        None => fail_with(SchemeError::SyntaxError(text("cond clause must be a list"))),
        Some(c) => {
            if c.len() == 0 {
                return fail_with(SchemeError::SyntaxError(text("cond clause must have at least a condition")));
            }
            let is_else = match &c[0] {
                Value::Symbol(s) => is_word(s, "else"),
                _ => false,
            };
            assert(c@.subrange(1, c@.len() as int) =~= c@.drop_first());
            if is_else {
                if c.len() == 1 {
                    State::Return { value: Value::Nil, k }
                } else if c.len() == 2 {
                    State::Eval { expr: c[1].clone(), env, k }
                } else {
                    let mut body = c;
                    body.remove(0);
                    assert(body@ =~= c@.drop_first());
                    begin_state(body, env, k)
                }
            } else {
                let rest = list_from(&clauses, 1);
                assert(clauses@.subrange(1, clauses@.len() as int) =~= clauses@.drop_first());
                let body = list_from(&c, 1);
                State::Eval {
                    expr: c[0].clone(),
                    env,
                    k: Cont::Cond { rest: Box::new(rest), body: Box::new(body), env, next: Box::new(k) },
                }
            }
        },
    }
}

fn extend_then(
    m: &mut EnvironmentManager<Value>,
    parent: EnvironmentId,
    names: Vec<String>,
    values: Vec<Value>,
    body: Value,
    k: Cont,
) -> (r: State)
    requires
        old(m).wf(),
    ensures
        final(m).wf(),
        (final(m)@, r@) == spec_extend_then(old(m)@, parent, names@, values@, body, k),
{
    if m.env_count() >= usize::MAX {
        return fail_with(SchemeError::RuntimeError(text("Too many environments")));
    }
    if names.len() != values.len() {
        return fail_with(count_error(names.len(), values.len()));
    }
    match m.extend(parent, names, values) {
        Ok(id) => State::Eval { expr: body, env: id, k },
        Err(e) => fail_with(from_env_error(e)),
    }
}

fn let_next(
    m: &mut EnvironmentManager<Value>,
    names: Value,
    values: Value,
    rest: Vec<Value>,
    body: Value,
    env: EnvironmentId,
    k: Cont,
) -> (r: State)
    requires
        old(m).wf(),
    ensures
        final(m).wf(),
        (final(m)@, r@) == spec_let_next(old(m)@, names, values, rest@, body, env, k),
{
    if rest.len() == 0 {
        let name_items = items_of(&names);
        match symbol_names_of(&name_items) {
            None => fail_with(SchemeError::TypeError(text("let binding name must be a symbol"))),
            Some(ns) => {
                let vs = items_of(&values);
                extend_then(m, env, ns, vs, body, k)
            },
        }
    } else {
        match to_vec(&rest[0]) {
            None => fail_with(SchemeError::TypeError(text("let binding must be a list"))),
            Some(pair) => {
                if pair.len() != 2 {
                    return fail_with(SchemeError::TypeError(text("let binding must have exactly 2 elements")));
                }
                match &pair[0] {
                    Value::Symbol(name) => {
                        let rest2 = list_from(&rest, 1);
                        assert(rest@.subrange(1, rest@.len() as int) =~= rest@.drop_first());
                        State::Eval {
                            expr: pair[1].clone(),
                            env,
                            k: Cont::Let {
                                names: Box::new(names),
                                values: Box::new(values),
                                pending: name.clone(),
                                rest: Box::new(rest2),
                                body: Box::new(body),
                                env,
                                next: Box::new(k),
                            },
                        }
                    },
                    _ => fail_with(SchemeError::TypeError(text("let binding name must be a symbol"))),
                }
            },
        }
    }
}

fn lambda_state(args: &Vec<Value>, env: EnvironmentId, k: Cont) -> (r: State)
    requires
        args@.len() == 2,
    ensures
        r@ == spec_lambda(args@, env, k),
{
    let params = args[0].clone();
    match to_vec(&params) {
        None => fail_with(SchemeError::TypeError(text("lambda parameters must be a list"))),
        Some(ps) => match symbol_names_of(&ps) {
            None => fail_with(SchemeError::TypeError(text("lambda parameters must be symbols"))),
            Some(_) => State::Return {
                value: Value::Lambda { params: Box::new(params), body: Box::new(args[1].clone()), env_id: env },
                k,
            },
        },
    }
}

fn special(
    m: &mut EnvironmentManager<Value>,
    op: &String,
    args: Vec<Value>,
    env: EnvironmentId,
    k: Cont,
) -> (r: State)
    requires
        old(m).wf(),
    ensures
        final(m).wf(),
        (final(m)@, r@) == spec_special(old(m)@, op@, args@, env, k),
{
    if is_word(op, "quote") {
        if args.len() != 1 {
            return fail_with(SchemeError::ArityError(text("quote requires exactly 1 argument")));
        }
        State::Return { value: args[0].clone(), k }
    } else if is_word(op, "if") {
        if args.len() < 2 || args.len() > 3 {
            return fail_with(SchemeError::ArityError(text("if requires 2 or 3 arguments")));
        }
        let else_e = if args.len() == 3 {
            Some(Box::new(args[2].clone()))
        } else {
            None
        };
        State::Eval {
            expr: args[0].clone(),
            env,
            k: Cont::If { then_e: Box::new(args[1].clone()), else_e, env, next: Box::new(k) },
        }
    } else if is_word(op, "define") || is_word(op, "set!") {
        let is_define = is_word(op, "define");
        if args.len() != 2 {
            let mut s = String::new();
            push_str(&mut s, op.as_str());
            push_str(&mut s, " requires exactly 2 arguments");
            return fail_with(SchemeError::ArityError(s));
        }
        match &args[0] {
            Value::Symbol(name) => {
                let name = name.clone();
                let k2 = if is_define {
                    Cont::Define { name, env, next: Box::new(k) }
                } else {
                    Cont::Assign { name, env, next: Box::new(k) }
                };
                State::Eval { expr: args[1].clone(), env, k: k2 }
            },
            _ => {
                let mut s = String::new();
                push_str(&mut s, op.as_str());
                push_str(&mut s, " expects a symbol");
                fail_with(SchemeError::TypeError(s))
            },
        }
    } else if is_word(op, "lambda") {
        if args.len() != 2 {
            return fail_with(SchemeError::ArityError(text("lambda requires exactly 2 arguments")));
        }
        lambda_state(&args, env, k)
    } else if is_word(op, "let") {
        if args.len() != 2 {
            return fail_with(SchemeError::ArityError(text("let requires exactly 2 arguments")));
        }
        match to_vec(&args[0]) {
            None => fail_with(SchemeError::TypeError(text("let bindings must be a list"))),
            Some(bs) => let_next(m, Value::Nil, Value::Nil, bs, args[1].clone(), env, k),
        }
    } else if is_word(op, "begin") {
        begin_state(args, env, k)
    } else if is_word(op, "and") || is_word(op, "or") {
        let is_and = is_word(op, "and");
        if args.len() == 0 {
            return State::Return { value: Value::Bool(is_and), k };
        }
        let rest = Box::new(list_from(&args, 1));
        assert(args@.subrange(1, args@.len() as int) =~= args@.drop_first());
        let last = Box::new(args[args.len() - 1].clone());
        let k2 = if is_and {
            Cont::And { rest, last, env, next: Box::new(k) }
        } else {
            Cont::Or { rest, last, env, next: Box::new(k) }
        };
        State::Eval { expr: args[0].clone(), env, k: k2 }
    } else {
        cond_state(args, env, k)
    }
}

fn keyword(op: &String) -> (b: bool)
    ensures
        b == is_keyword(op@),
{
    is_word(op, "quote") || is_word(op, "if") || is_word(op, "define") || is_word(op, "set!")
        || is_word(op, "lambda") || is_word(op, "let") || is_word(op, "begin") || is_word(op, "and")
        || is_word(op, "or") || is_word(op, "cond")
}

/// Evaluates `expr` in `env` one step: see [`spec_eval`].
pub fn eval_expr(m: &mut EnvironmentManager<Value>, expr: Value, env: EnvironmentId, k: Cont) -> (r: State)
    requires
        old(m).wf(),
    ensures
        final(m).wf(),
        (final(m)@, r@) == spec_eval(old(m)@, expr, env, k),
{
    match &expr {
        Value::Integer(_) | Value::Float(_) | Value::String(_) | Value::Bool(_) | Value::Char(_)
        | Value::Nil => State::Return { value: expr, k },
        Value::Symbol(name) => lookup_state(m, name, env, k),
        Value::Cons(_, _) => match to_vec(&expr) {
            None => fail_with(SchemeError::RuntimeError(text("Invalid list structure"))),
            Some(l) => {
                let ghost l0 = l@;
                let mut args = l;
                let head = args.remove(0);
                assert(args@ =~= l0.drop_first());
                assert(l0 =~= seq![head] + args@);
                match &head {
                    Value::Symbol(op) => {
                        if keyword(op) {
                            special(m, op, args, env, k)
                        } else {
                            start_apply(head, args, env, k)
                        }
                    },
                    _ => start_apply(head, args, env, k),
                }
            },
        },
        _ => {
            let mut s = String::new();
            push_str(&mut s, "Cannot evaluate ");
            let t = value_to_string(&expr);
            push_str(&mut s, t.as_str());
            fail_with(SchemeError::RuntimeError(s))
        },
    }
}

fn start_apply(head: Value, args: Vec<Value>, env: EnvironmentId, k: Cont) -> (r: State)
    ensures
        r@ == spec_start_apply(seq![head] + args@, env, k),
{
    let rest = from_vec(&args);
    assert((seq![head] + args@).drop_first() =~= args@);
    State::Eval {
        expr: head,
        env,
        k: Cont::Apply { done: Box::new(Value::Nil), rest: Box::new(rest), env, next: Box::new(k) },
    }
}

fn builtin_state(op: Builtin, args: Vec<Value>, k: Cont) -> (r: State)
    ensures
        r@ == spec_builtin(op, args@, k),
{
    let a = args.as_slice();
    let r = match op {
        Builtin::Cons => cons(a),
        Builtin::Car => car(a),
        Builtin::Cdr => cdr(a),
        Builtin::List => list(a),
        Builtin::IsNull => is_null(a),
        Builtin::IsPair => is_pair(a),
        Builtin::IsNumber => is_number(a),
        Builtin::IsSymbol => is_symbol(a),
        Builtin::IsString => is_string(a),
        _ => {
            match integer_arithmetic(op, &args) {
                Some(x) => {
                    return State::Return { value: x, k };
                },
                None => {
                    let l = from_vec(&args);
                    return State::Arithmetic { op, args: l, k };
                },
            }
        },
    };
    match r {
        Ok(x) => State::Return { value: x, k },
        Err(e) => fail_with(e),
    }
}

fn apply_state(m: &mut EnvironmentManager<Value>, vals: Vec<Value>, k: Cont) -> (r: State)
    requires
        old(m).wf(),
        vals@.len() >= 1,
    ensures
        final(m).wf(),
        (final(m)@, r@) == spec_apply(old(m)@, vals@, k),
{
    let ghost v0 = vals@;
    let mut args = vals;
    let f = args.remove(0);
    assert(args@ =~= v0.drop_first());
    match f {
        Value::BuiltinFunction { op, arity } => {
            match arity {
                Some(n) => {
                    if args.len() != n {
                        return fail_with(count_error(n, args.len()));
                    }
                },
                None => {},
            }
            builtin_state(op, args, k)
        },
        Value::Lambda { params, body, env_id } => {
            let ps = items_of(&*params);
            match symbol_names_of(&ps) {
                None => fail_with(SchemeError::TypeError(text("lambda parameters must be symbols"))),
                Some(names) => {
                    if names.len() != args.len() {
                        return fail_with(count_error(names.len(), args.len()));
                    }
                    extend_then(m, env_id, names, args, *body, k)
                },
            }
        },
        _ => {
            let mut s = String::new();
            push_str(&mut s, "Cannot apply non-function: ");
            let t = value_to_string(&f);
            push_str(&mut s, t.as_str());
            fail_with(SchemeError::TypeError(s))
        },
    }
}

fn logic_next(is_and: bool, rest: Vec<Value>, last: Value, env: EnvironmentId, k: Cont) -> (r: State)
    ensures
        r@ == spec_logic_next(is_and, rest@, last, env, k),
{
    if rest.len() == 0 {
        return State::Eval { expr: last, env, k };
    }
    let rest2 = Box::new(list_from(&rest, 1));
    assert(rest@.subrange(1, rest@.len() as int) =~= rest@.drop_first());
    let k2 = if is_and {
        Cont::And { rest: rest2, last: Box::new(last), env, next: Box::new(k) }
    } else {
        Cont::Or { rest: rest2, last: Box::new(last), env, next: Box::new(k) }
    };
    State::Eval { expr: rest[0].clone(), env, k: k2 }
}

/// Hands `v` to `k`: see [`spec_return`].
pub fn return_to(m: &mut EnvironmentManager<Value>, v: Value, k: Cont) -> (r: State)
    requires
        old(m).wf(),
    ensures
        final(m).wf(),
        (final(m)@, r@) == spec_return(old(m)@, v, k),
{
    match k {
        Cont::Done => State::Done(Ok(v)),
        Cont::If { then_e, else_e, env, next } => {
            if is_truthy(&v) {
                State::Eval { expr: *then_e, env, k: *next }
            } else {
                match else_e {
                    Some(e) => State::Eval { expr: *e, env, k: *next },
                    None => State::Return { value: Value::Nil, k: *next },
                }
            }
        },
        Cont::Define { name, env, next } => {
            let ghost key = name@;
            match m.define(env, name, v) {
                Ok(()) => State::Return { value: Value::Nil, k: *next },
                Err(e) => fail_with(from_env_error(e)),
            }
        },
        Cont::Assign { name, env, next } => {
            if !m.chain_ends_from(env) {
                return fail_with(SchemeError::RuntimeError(text("Environment chain has a cycle")));
            }
            match m.set(env, name.as_str(), v) {
                Ok(()) => State::Return { value: Value::Nil, k: *next },
                Err(e) => fail_with(from_env_error(e)),
            }
        },
        Cont::Let { names, values, pending, rest, body, env, next } => {
            let names2 = snoc_value(&*names, Value::Symbol(pending));
            let values2 = snoc_value(&*values, v);
            let rest_items = items_of(&*rest);
            let_next(m, names2, values2, rest_items, *body, env, *next)
        },
        Cont::Begin { rest, env, next } => {
            let r = items_of(&*rest);
            if r.len() == 0 {
                State::Return { value: v, k: *next }
            } else {
                begin_state(r, env, *next)
            }
        },
        Cont::And { rest, last, env, next } => {
            if !is_truthy(&v) {
                State::Return { value: v, k: *next }
            } else {
                logic_next(true, items_of(&*rest), *last, env, *next)
            }
        },
        Cont::Or { rest, last, env, next } => {
            if is_truthy(&v) {
                State::Return { value: v, k: *next }
            } else {
                logic_next(false, items_of(&*rest), *last, env, *next)
            }
        },
        Cont::Cond { rest, body, env, next } => {
            if is_truthy(&v) {
                let b = items_of(&*body);
                if b.len() == 0 {
                    State::Return { value: v, k: *next }
                } else if b.len() == 1 {
                    State::Eval { expr: b[0].clone(), env, k: *next }
                } else {
                    begin_state(b, env, *next)
                }
            } else {
                cond_state(items_of(&*rest), env, *next)
            }
        },
        Cont::Apply { done, rest, env, next } => {
            let done2 = snoc_value(&*done, v);
            let r = items_of(&*rest);
            if r.len() == 0 {
                let vals = items_of(&done2);
                proof {
                    crate::eval::value::lemma_list_of_items(items(*done).push(v));
                }
                apply_state(m, vals, *next)
            } else {
                let rest2 = list_from(&r, 1);
                assert(r@.subrange(1, r@.len() as int) =~= r@.drop_first());
                State::Eval {
                    expr: r[0].clone(),
                    env,
                    k: Cont::Apply { done: Box::new(done2), rest: Box::new(rest2), env, next },
                }
            }
        },
    }
}

/// Whether the machine is still running (evaluating or returning).
pub open spec fn running(s: StateModel) -> bool {
    s is Eval || s is Return
}

/// One step of the machine: see [`spec_step`]. Other states are left as
/// they are.
pub fn step(m: &mut EnvironmentManager<Value>, s: State) -> (r: State)
    requires
        old(m).wf(),
    ensures
        final(m).wf(),
        (final(m)@, r@) == spec_step(old(m)@, s@),
{
    match s {
        State::Eval { expr, env, k } => eval_expr(m, expr, env, k),
        State::Return { value, k } => return_to(m, value, k),
        other => other,
    }
}

/// The state after an arithmetic request `s` is answered with `result`.
pub open spec fn spec_resume(k: Cont, result: Result<Value, SchemeErrorModel>) -> StateModel {
    match result {
        Ok(v) => StateModel::Return { value: v, k },
        Err(e) => fail(e),
    }
}

/// Resumes the machine after an arithmetic request with its result.
pub fn resume(k: Cont, result: Result<Value, SchemeError>) -> (r: State)
    ensures
        r@ == spec_resume(k, result_view(result)),
{
    match result {
        Ok(v) => State::Return { value: v, k },
        Err(e) => fail_with(e),
    }
}

/// The built-in functions bound in the global environment: name, function
/// and exact argument count where there is one.
pub open spec fn builtin_entries() -> Seq<(Builtin, Option<usize>)> {
    seq![
        (Builtin::Add, None),
        (Builtin::Subtract, None),
        (Builtin::Multiply, None),
        (Builtin::Divide, None),
        (Builtin::Equal, Some(2usize)),
        (Builtin::LessThan, Some(2usize)),
        (Builtin::GreaterThan, Some(2usize)),
        (Builtin::LessEqual, Some(2usize)),
        (Builtin::GreaterEqual, Some(2usize)),
        (Builtin::Abs, Some(1usize)),
        (Builtin::Max, None),
        (Builtin::Min, None),
        (Builtin::Cons, Some(2usize)),
        (Builtin::Car, Some(1usize)),
        (Builtin::Cdr, Some(1usize)),
        (Builtin::List, None),
        (Builtin::IsNull, Some(1usize)),
        (Builtin::IsPair, Some(1usize)),
        (Builtin::IsNumber, Some(1usize)),
        (Builtin::IsSymbol, Some(1usize)),
        (Builtin::IsString, Some(1usize)),
    ]
}

/// The environments after binding each built-in of `es`, in order, in
/// environment `env`.
pub open spec fn bind_builtins(envs: Seq<EnvironmentModel<Value>>, env: EnvironmentId, es: Seq<(Builtin, Option<usize>)>) -> Seq<EnvironmentModel<Value>>
    decreases es.len(),
{
    if es.len() == 0 {
        envs
    } else {
        let e = es.last();
        bind(
            bind_builtins(envs, env, es.drop_last()),
            env,
            crate::eval::value::builtin_name_spec(e.0),
            Value::BuiltinFunction { op: e.0, arity: e.1 },
        )
    }
}

/// Binds every built-in function in environment `env` (see
/// [`builtin_entries`]).
pub fn register_builtins(m: &mut EnvironmentManager<Value>, env: EnvironmentId)
    requires
        old(m).wf(),
        env < old(m)@.len(),
    ensures
        final(m).wf(),
        final(m)@ == bind_builtins(old(m)@, env, builtin_entries()),
{
    let table: Vec<(Builtin, Option<usize>)> = vec![
        (Builtin::Add, None),
        (Builtin::Subtract, None),
        (Builtin::Multiply, None),
        (Builtin::Divide, None),
        (Builtin::Equal, Some(2)),
        (Builtin::LessThan, Some(2)),
        (Builtin::GreaterThan, Some(2)),
        (Builtin::LessEqual, Some(2)),
        (Builtin::GreaterEqual, Some(2)),
        (Builtin::Abs, Some(1)),
        (Builtin::Max, None),
        (Builtin::Min, None),
        (Builtin::Cons, Some(2)),
        (Builtin::Car, Some(1)),
        (Builtin::Cdr, Some(1)),
        (Builtin::List, None),
        (Builtin::IsNull, Some(1)),
        (Builtin::IsPair, Some(1)),
        (Builtin::IsNumber, Some(1)),
        (Builtin::IsSymbol, Some(1)),
        (Builtin::IsString, Some(1)),
    ];
    assert(table@ =~= builtin_entries());
    let mut i: usize = 0;
    while i < table.len()
        invariant
            m.wf(),
            i <= table@.len(),
            table@ == builtin_entries(),
            m@.len() == old(m)@.len(),
            env < old(m)@.len(),
            m@ == bind_builtins(old(m)@, env, table@.take(i as int)),
        decreases table@.len() - i,
    {
        let (op, arity) = table[i];
        let name = crate::eval::value::builtin_name(op).to_owned();
        let _ = m.define(env, name, Value::BuiltinFunction { op, arity });
        assert(table@.take(i + 1).drop_last() =~= table@.take(i as int));
        i = i + 1;
    }
    assert(table@.take(table@.len() as int) =~= table@);
}

/// An evaluator: the environments and the number of the global one.
pub struct Evaluator {
    pub manager: EnvironmentManager<Value>,
    pub global_env_id: EnvironmentId,
}

impl Evaluator {
    /// An evaluator whose global environment binds the built-in functions.
    pub fn new() -> (e: Evaluator)
        ensures
            e.manager.wf(),
            e.global_env_id == 0,
            e.manager@ == bind_builtins(
                seq![EnvironmentModel { bindings: Map::<Seq<char>, Value>::empty(), parent_id: None }],
                0,
                builtin_entries(),
            ),
    {
        let mut manager = EnvironmentManager::new();
        let id = manager.create_root_env();
        register_builtins(&mut manager, id);
        assert(Seq::<EnvironmentModel<Value>>::empty().push(
            EnvironmentModel { bindings: Map::<Seq<char>, Value>::empty(), parent_id: None },
        ) =~= seq![EnvironmentModel { bindings: Map::<Seq<char>, Value>::empty(), parent_id: None }]);
        Evaluator { manager, global_env_id: id }
    }

    /// The machine state that evaluates `expr` in the global environment.
    pub fn start(&self, expr: Value) -> (s: State)
        ensures
            s@ == (StateModel::Eval { expr, env: self.global_env_id, k: Cont::Done }),
    {
        State::Eval { expr, env: self.global_env_id, k: Cont::Done }
    }

    /// One step of the machine (see [`step`]).
    pub fn step(&mut self, s: State) -> (r: State)
        requires
            old(self).manager.wf(),
        ensures
            final(self).manager.wf(),
            final(self).global_env_id == old(self).global_env_id,
            (final(self).manager@, r@) == spec_step(old(self).manager@, s@),
    {
        step(&mut self.manager, s)
    }
}

// ============================================================================
// Laws
// ============================================================================

/// Atoms evaluate to themselves, without touching the environments.
pub proof fn lemma_atoms_evaluate_to_themselves(envs: Seq<EnvironmentModel<Value>>, v: Value, env: EnvironmentId, k: Cont)
    requires
        v is Integer || v is Float || v is String || v is Bool || v is Char || v is Nil,
    ensures
        spec_eval(envs, v, env, k) == (envs, StateModel::Return { value: v, k }),
{
}

/// `(quote d)` evaluates to `d` itself.
pub proof fn lemma_quote_returns_datum(
    envs: Seq<EnvironmentModel<Value>>,
    quote: String,
    d: Value,
    env: EnvironmentId,
    k: Cont,
)
    requires
        quote@ == "quote"@,
    ensures
        spec_eval(envs, list_of(seq![Value::Symbol(quote), d]), env, k) == (
            envs,
            StateModel::Return { value: d, k },
        ),
{
    let l = seq![Value::Symbol(quote), d];
    crate::eval::value::lemma_list_of_items(l);
    assert(l.drop_first() =~= seq![d]);
}

/// A definition is seen by later lookups: once `(define name ...)` hands its
/// value `v` over, looking `name` up in the same environment gives `v`.
pub proof fn lemma_lookup_sees_define(
    envs: Seq<EnvironmentModel<Value>>,
    name: String,
    v: Value,
    env: EnvironmentId,
    next: Cont,
    k: Cont,
)
    requires
        env < envs.len(),
        chain_ends(bind(envs, env, name@, v), env, envs.len()),
    ensures
        ({
            let (after, s) = spec_return(envs, v, Cont::Define { name, env, next: Box::new(next) });
            &&& s == StateModel::Return { value: Value::Nil, k: next }
            &&& spec_lookup(after, name, env, k) == StateModel::Return { value: v, k }
        }),
{
    crate::environment::manager::lemma_lookup_sees_define(envs, env, name@, v, envs.len());
}

/// Applying a procedure binds its parameters to the arguments in a new
/// environment whose parent is the procedure's, and evaluates its body
/// there.
pub proof fn lemma_apply_binds_parameters(
    envs: Seq<EnvironmentModel<Value>>,
    params: Value,
    body: Value,
    env_id: EnvironmentId,
    args: Seq<Value>,
    names: Seq<String>,
    k: Cont,
)
    requires
        symbol_names(items(params)) == Some(names),
        names.len() == args.len(),
        envs.len() < usize::MAX,
    ensures
        spec_apply(
            envs,
            seq![Value::Lambda { params: Box::new(params), body: Box::new(body), env_id }] + args,
            k,
        ) == (
            envs.push(EnvironmentModel { bindings: zip_bindings(names, args), parent_id: Some(env_id) }),
            StateModel::Eval { expr: body, env: envs.len() as usize, k },
        ),
{
    let vals = seq![Value::Lambda { params: Box::new(params), body: Box::new(body), env_id }] + args;
    assert(vals.drop_first() =~= args);
}

proof fn lemma_chain_ends_after_bind(
    envs: Seq<EnvironmentModel<Value>>,
    j: usize,
    name: Seq<char>,
    v: Value,
    id: usize,
    fuel: nat,
)
    requires
        j < envs.len(),
    ensures
        chain_ends(bind(envs, j, name, v), id, fuel) == chain_ends(envs, id, fuel),
    decreases fuel,
{
    let after = bind(envs, j, name, v);
    if id < envs.len() {
        assert(after[id as int].parent_id == envs[id as int].parent_id);
        match envs[id as int].parent_id {
            Some(p) => {
                if fuel > 0 {
                    lemma_chain_ends_after_bind(envs, j, name, v, p, (fuel - 1) as nat);
                }
            },
            None => {},
        }
    }
}

/// An assignment is seen by later lookups: once `(set! name ...)` hands its
/// value `v` over where `name` is bound, looking `name` up from the same
/// environment gives `v`.
pub proof fn lemma_lookup_sees_set(
    envs: Seq<EnvironmentModel<Value>>,
    name: String,
    v: Value,
    env: EnvironmentId,
    next: Cont,
    k: Cont,
)
    requires
        chain_ends(envs, env, envs.len()),
        resolve(envs, env, name@, envs.len()) is Bound,
    ensures
        ({
            let (after, s) = spec_return(envs, v, Cont::Assign { name, env, next: Box::new(next) });
            &&& s == StateModel::Return { value: Value::Nil, k: next }
            &&& spec_lookup(after, name, env, k) == StateModel::Return { value: v, k }
        }),
{
    let j = resolve(envs, env, name@, envs.len())->Bound_0;
    crate::environment::manager::lemma_lookup_sees_set(envs, env, name@, v, envs.len());
    crate::environment::manager::lemma_resolve_bound(envs, env, name@, envs.len());
    lemma_chain_ends_after_bind(envs, j, name@, v, env, envs.len());
}

/// The list of the symbols named `ps`, in order.
pub open spec fn symbol_list(ps: Seq<String>) -> Value {
    list_of(Seq::new(ps.len(), |i: int| Value::Symbol(ps[i])))
}

/// No two of `ps` are the same name.
pub open spec fn distinct_names(ps: Seq<String>) -> bool {
    forall|i: int, j: int| 0 <= i < j < ps.len() ==> ps[i]@ != ps[j]@
}

proof fn lemma_items_list_of(s: Seq<Value>)
    ensures
        items(list_of(s)) == s,
{
    crate::eval::value::lemma_list_of_items(s);
}

proof fn lemma_symbol_names_in_order(ps: Seq<String>)
    ensures
        symbol_names(Seq::new(ps.len(), |i: int| Value::Symbol(ps[i]))) == Some(ps),
    decreases ps.len(),
{
    let syms = Seq::new(ps.len(), |i: int| Value::Symbol(ps[i]));
    if ps.len() > 0 {
        let init = ps.drop_last();
        lemma_symbol_names_in_order(init);
        assert(syms.drop_last() =~= Seq::new(init.len(), |i: int| Value::Symbol(init[i])));
        assert(init.push(ps.last()) =~= ps);
    } else {
        assert(ps =~= Seq::<String>::empty());
    }
}

proof fn lemma_zip_bindings_at(ns: Seq<String>, vs: Seq<Value>)
    requires
        ns.len() == vs.len(),
        distinct_names(ns),
    ensures
        forall|i: int|
            0 <= i < ns.len() ==> zip_bindings(ns, vs).dom().contains(#[trigger] ns[i]@)
                && zip_bindings(ns, vs)[ns[i]@] == vs[i],
    decreases ns.len(),
{
    if ns.len() > 0 {
        let (n2, v2) = (ns.drop_last(), vs.drop_last());
        assert(distinct_names(n2)) by {
            assert forall|i: int, j: int| 0 <= i < j < n2.len() implies n2[i]@ != n2[j]@ by {
                assert(n2[i] == ns[i] && n2[j] == ns[j]);
            }
        }
        lemma_zip_bindings_at(n2, v2);
        assert forall|i: int| 0 <= i < ns.len() implies zip_bindings(ns, vs).dom().contains(
            #[trigger] ns[i]@,
        ) && zip_bindings(ns, vs)[ns[i]@] == vs[i] by {
            if i < ns.len() - 1 {
                assert(n2[i] == ns[i] && v2[i] == vs[i]);
                assert(ns[i]@ != ns.last()@);
            }
        }
    }
}

/// The integer comparisons compare: applied to two integers `a` and `b`,
/// `=`, `<`, `>`, `<=` and `>=` give `a == b`, `a < b`, `a > b`, `a <= b` and
/// `a >= b` (so `(< n n)` is `#f` and `(<= n n)` is `#t`).
pub proof fn lemma_integer_comparisons(a: i64, b: i64, k: Cont)
    ensures
        spec_builtin(Builtin::Equal, seq![Value::Integer(a), Value::Integer(b)], k)
            == (StateModel::Return { value: Value::Bool(a == b), k }),
        spec_builtin(Builtin::LessThan, seq![Value::Integer(a), Value::Integer(b)], k)
            == (StateModel::Return { value: Value::Bool(a < b), k }),
        spec_builtin(Builtin::GreaterThan, seq![Value::Integer(a), Value::Integer(b)], k)
            == (StateModel::Return { value: Value::Bool(a > b), k }),
        spec_builtin(Builtin::LessEqual, seq![Value::Integer(a), Value::Integer(b)], k)
            == (StateModel::Return { value: Value::Bool(a <= b), k }),
        spec_builtin(Builtin::GreaterEqual, seq![Value::Integer(a), Value::Integer(b)], k)
            == (StateModel::Return { value: Value::Bool(a >= b), k }),
{
}

/// Integer sums and products: `(+ a b)` and `(* a b)` give `a + b` and
/// `a * b` when the result fits in an `i64`; otherwise the operation is
/// handed out with its arguments.
pub proof fn lemma_integer_sum_and_product(a: i64, b: i64, k: Cont)
    ensures
        i64::MIN <= a + b <= i64::MAX ==> spec_builtin(
            Builtin::Add,
            seq![Value::Integer(a), Value::Integer(b)],
            k,
        ) == (StateModel::Return { value: Value::Integer((a + b) as i64), k }),
        i64::MIN <= a * b <= i64::MAX ==> spec_builtin(
            Builtin::Multiply,
            seq![Value::Integer(a), Value::Integer(b)],
            k,
        ) == (StateModel::Return { value: Value::Integer((a * b) as i64), k }),
        !(i64::MIN <= a + b <= i64::MAX) ==> spec_builtin(
            Builtin::Add,
            seq![Value::Integer(a), Value::Integer(b)],
            k,
        ) == (StateModel::Arithmetic {
            op: Builtin::Add,
            args: list_of(seq![Value::Integer(a), Value::Integer(b)]),
            k,
        }),
{
    let args = seq![Value::Integer(a), Value::Integer(b)];
    assert(args.drop_first() =~= seq![Value::Integer(b)]);
    assert(seq![Value::Integer(b)].drop_first() =~= Seq::<Value>::empty());
    reveal_with_fuel(integer_fold, 3);
}

/// Applying a procedure pairs its parameters with the arguments in order:
/// for `(lambda (p1 ... pk) body)` applied to `a1 ... ak`, the body is
/// evaluated in a new child of the procedure's environment in which each
/// `pi` is bound to `ai`.
pub proof fn lemma_apply_pairs_parameters_in_order(
    envs: Seq<EnvironmentModel<Value>>,
    ps: Seq<String>,
    body: Value,
    env_id: EnvironmentId,
    args: Seq<Value>,
    k: Cont,
)
    requires
        ps.len() == args.len(),
        distinct_names(ps),
        envs.len() < usize::MAX,
    ensures
        ({
            let f = Value::Lambda { params: Box::new(symbol_list(ps)), body: Box::new(body), env_id };
            let (after, s) = spec_apply(envs, seq![f] + args, k);
            &&& s == (StateModel::Eval { expr: body, env: envs.len() as usize, k })
            &&& after.len() == envs.len() + 1
            &&& after.drop_last() == envs
            &&& after.last().parent_id == Some(env_id)
            &&& forall|i: int|
                0 <= i < ps.len() ==> after.last().bindings.dom().contains(#[trigger] ps[i]@)
                    && after.last().bindings[ps[i]@] == args[i]
        }),
{
    let syms = Seq::new(ps.len(), |i: int| Value::Symbol(ps[i]));
    lemma_items_list_of(syms);
    lemma_symbol_names_in_order(ps);
    let f = Value::Lambda { params: Box::new(symbol_list(ps)), body: Box::new(body), env_id };
    assert((seq![f] + args).drop_first() =~= args);
    lemma_zip_bindings_at(ps, args);
    let after = spec_apply(envs, seq![f] + args, k).0;
    assert(after.drop_last() =~= envs);
}

/// A `let` binds each name to the value of its own expression: when the
/// last binding's value `v` comes in, with the earlier names `ns` bound so
/// far to `vs` in order, the body is evaluated in a new child environment in
/// which each earlier name is bound to its value and the last name to `v`.
pub proof fn lemma_let_binds_in_order(
    envs: Seq<EnvironmentModel<Value>>,
    ns: Seq<String>,
    vs: Seq<Value>,
    pending: String,
    v: Value,
    body: Value,
    env: EnvironmentId,
    next: Cont,
)
    requires
        ns.len() == vs.len(),
        distinct_names(ns.push(pending)),
        envs.len() < usize::MAX,
    ensures
        ({
            let k = Cont::Let {
                names: Box::new(symbol_list(ns)),
                values: Box::new(list_of(vs)),
                pending,
                rest: Box::new(Value::Nil),
                body: Box::new(body),
                env,
                next: Box::new(next),
            };
            let (after, s) = spec_return(envs, v, k);
            &&& s == (StateModel::Eval { expr: body, env: envs.len() as usize, k: next })
            &&& after.len() == envs.len() + 1
            &&& after.drop_last() == envs
            &&& after.last().parent_id == Some(env)
            &&& after.last().bindings.dom().contains(pending@)
            &&& after.last().bindings[pending@] == v
            &&& forall|i: int|
                0 <= i < ns.len() ==> after.last().bindings.dom().contains(#[trigger] ns[i]@)
                    && after.last().bindings[ns[i]@] == vs[i]
        }),
{
    let syms = Seq::new(ns.len(), |i: int| Value::Symbol(ns[i]));
    lemma_items_list_of(syms);
    lemma_items_list_of(vs);
    let all = ns.push(pending);
    let syms2 = Seq::new(all.len(), |i: int| Value::Symbol(all[i]));
    assert(syms.push(Value::Symbol(pending)) =~= syms2);
    lemma_items_list_of(syms2);
    lemma_items_list_of(vs.push(v));
    lemma_symbol_names_in_order(all);
    lemma_items_list_of(Seq::<Value>::empty());
    lemma_zip_bindings_at(all, vs.push(v));
    assert(all[ns.len() as int] == pending);
    assert forall|i: int| 0 <= i < ns.len() implies all[i] == ns[i] && vs.push(v)[i] == vs[i] by {}
    let after = spec_return(
        envs,
        v,
        Cont::Let {
            names: Box::new(symbol_list(ns)),
            values: Box::new(list_of(vs)),
            pending,
            rest: Box::new(Value::Nil),
            body: Box::new(body),
            env,
            next: Box::new(next),
        },
    ).0;
    assert(after.drop_last() =~= envs);
}

/// A `let` collects its bindings in order: when the value `v` of the
/// binding named `pending` comes in and the binding `(n2 e2)` is next, `e2`
/// is evaluated with `pending` and `v` added at the end of the names and
/// values bound so far.
pub proof fn lemma_let_collects_in_order(
    envs: Seq<EnvironmentModel<Value>>,
    ns: Seq<String>,
    vs: Seq<Value>,
    pending: String,
    v: Value,
    n2: String,
    e2: Value,
    more: Seq<Value>,
    body: Value,
    env: EnvironmentId,
    next: Cont,
)
    ensures
        ({
            let k = Cont::Let {
                names: Box::new(symbol_list(ns)),
                values: Box::new(list_of(vs)),
                pending,
                rest: Box::new(list_of(seq![list_of(seq![Value::Symbol(n2), e2])] + more)),
                body: Box::new(body),
                env,
                next: Box::new(next),
            };
            spec_return(envs, v, k) == (
                envs,
                StateModel::Eval {
                    expr: e2,
                    env,
                    k: Cont::Let {
                        names: Box::new(symbol_list(ns.push(pending))),
                        values: Box::new(list_of(vs.push(v))),
                        pending: n2,
                        rest: Box::new(list_of(more)),
                        body: Box::new(body),
                        env,
                        next: Box::new(next),
                    },
                },
            )
        }),
{
    let syms = Seq::new(ns.len(), |i: int| Value::Symbol(ns[i]));
    lemma_items_list_of(syms);
    lemma_items_list_of(vs);
    let all = ns.push(pending);
    assert(syms.push(Value::Symbol(pending)) =~= Seq::new(all.len(), |i: int| Value::Symbol(all[i])));
    let pair = seq![Value::Symbol(n2), e2];
    let rest = seq![list_of(pair)] + more;
    lemma_items_list_of(rest);
    lemma_items_list_of(pair);
    assert(rest.drop_first() =~= more);
}

/// `if` takes the first branch on any value but `#f`, the second on `#f`,
/// and gives `()` on `#f` without a second branch.
pub proof fn lemma_if_chooses_branch(
    envs: Seq<EnvironmentModel<Value>>,
    v: Value,
    then_e: Value,
    else_e: Value,
    env: EnvironmentId,
    next: Cont,
)
    ensures
        spec_return(
            envs,
            v,
            Cont::If { then_e: Box::new(then_e), else_e: Some(Box::new(else_e)), env, next: Box::new(next) },
        ) == (envs, if v == Value::Bool(false) {
            StateModel::Eval { expr: else_e, env, k: next }
        } else {
            StateModel::Eval { expr: then_e, env, k: next }
        }),
        v == Value::Bool(false) ==> spec_return(
            envs,
            v,
            Cont::If { then_e: Box::new(then_e), else_e: None, env, next: Box::new(next) },
        ) == (envs, StateModel::Return { value: Value::Nil, k: next }),
{
}

/// `and` stops at `#f` and gives it; `or` stops at any other value and
/// gives it; `begin` gives the value of its last expression.
pub proof fn lemma_and_or_begin_results(
    envs: Seq<EnvironmentModel<Value>>,
    v: Value,
    rest: Value,
    last: Value,
    env: EnvironmentId,
    next: Cont,
)
    ensures
        spec_return(
            envs,
            Value::Bool(false),
            Cont::And { rest: Box::new(rest), last: Box::new(last), env, next: Box::new(next) },
        ) == (envs, StateModel::Return { value: Value::Bool(false), k: next }),
        v != Value::Bool(false) ==> spec_return(
            envs,
            v,
            Cont::Or { rest: Box::new(rest), last: Box::new(last), env, next: Box::new(next) },
        ) == (envs, StateModel::Return { value: v, k: next }),
        spec_return(envs, v, Cont::Begin { rest: Box::new(Value::Nil), env, next: Box::new(next) })
            == (envs, StateModel::Return { value: v, k: next }),
{
    crate::eval::value::lemma_list_of_items(Seq::<Value>::empty());
}

/// Applying a procedure to the wrong number of arguments is an arity error
/// naming both counts, and changes no environment; applying a value that is
/// not a function is a type error.
pub proof fn lemma_apply_errors(
    envs: Seq<EnvironmentModel<Value>>,
    ps: Seq<String>,
    body: Value,
    env_id: EnvironmentId,
    args: Seq<Value>,
    n: i64,
    k: Cont,
)
    requires
        ps.len() != args.len(),
    ensures
        spec_apply(
            envs,
            seq![Value::Lambda { params: Box::new(symbol_list(ps)), body: Box::new(body), env_id }] + args,
            k,
        ) == (envs, fail(SchemeErrorModel::ArityError(count_message(ps.len(), args.len())))),
        spec_apply(envs, seq![Value::Integer(n)] + args, k) == (
            envs,
            fail(SchemeErrorModel::TypeError("Cannot apply non-function: "@ + value_text(Value::Integer(n)))),
        ),
{
    let syms = Seq::new(ps.len(), |i: int| Value::Symbol(ps[i]));
    lemma_items_list_of(syms);
    lemma_symbol_names_in_order(ps);
    let f = Value::Lambda { params: Box::new(symbol_list(ps)), body: Box::new(body), env_id };
    assert((seq![f] + args).drop_first() =~= args);
    assert((seq![Value::Integer(n)] + args).drop_first() =~= args);
}

} // verus!
