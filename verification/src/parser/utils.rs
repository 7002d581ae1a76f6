//! Helpers of the parser: values of atom tokens, and building lists.
use std::rc::Rc;
use vstd::prelude::*;
use crate::lexer::types::{TokenType, TokenTypeModel};
use crate::parser::types::{
    ContentModel, DottedListError, Number, NumberModel, SExpr, SExprContent, SExprModel, Value,
    ValueModel, no_span,
};

verus! {

/// The value an atom token stands for; `None` for other tokens.
pub open spec fn token_value(t: TokenTypeModel) -> Option<ValueModel> {
    match t {
        TokenTypeModel::Integer(n) => Some(ValueModel::Number(NumberModel::Integer(n))),
        TokenTypeModel::Float(text) => Some(ValueModel::Number(NumberModel::Float(text))),
        TokenTypeModel::String(s) => Some(ValueModel::String(s)),
        TokenTypeModel::Character(c) => Some(ValueModel::Character(c)),
        TokenTypeModel::Boolean(b) => Some(ValueModel::Boolean(b)),
        TokenTypeModel::Symbol(s) => Some(ValueModel::Symbol(s)),
        _ => None,
    }
}

/// Whether a token of type `t` is an atom: a number, string, character,
/// boolean or symbol.
pub open spec fn is_atom(t: TokenTypeModel) -> bool {
    t is Integer || t is Float || t is String || t is Character || t is Boolean || t is Symbol
}

/// The value a token of type `token_type` stands for, if it is an atom.
pub fn token_to_value(token_type: TokenType) -> (v: Option<Value>)
    ensures
        match v {
            Some(x) => token_value(token_type@) == Some(x@),
            None => token_value(token_type@) is None,
        },
{
    match token_type {
        TokenType::Integer(n) => Some(Value::Number(Number::Integer(n))),
        TokenType::Float(text) => Some(Value::Number(Number::Float(text))),
        TokenType::String(s) => Some(Value::String(s)),
        TokenType::Character(c) => Some(Value::Character(c)),
        TokenType::Boolean(b) => Some(Value::Boolean(b)),
        TokenType::Symbol(s) => Some(Value::Symbol(s)),
        _ => None,
    }
}

/// Whether a token of this type is an atom.
pub fn is_atom_token(token_type: &TokenType) -> (b: bool)
    ensures
        b == is_atom(token_type@),
{
    match token_type {
        TokenType::Integer(_) | TokenType::Float(_) | TokenType::String(_) | TokenType::Character(
            _,
        ) | TokenType::Boolean(_) | TokenType::Symbol(_) => true,
        _ => false,
    }
}

/// The content of the chain of pairs whose cars are `elems`, in order, and
/// whose last cdr has content `tail`. The inner pairs have no span.
pub open spec fn chain_content(elems: Seq<SExprModel>, tail: ContentModel) -> ContentModel
    decreases elems.len(),
{
    if elems.len() == 0 {
        tail
    } else {
        ContentModel::Cons(
            Box::new(elems[0]),
            Box::new(SExprModel { content: chain_content(elems.drop_first(), tail), span: no_span() }),
        )
    }
}

proof fn lemma_chain_prepend(e: SExprModel, elems: Seq<SExprModel>, tail: ContentModel)
    ensures
        chain_content(seq![e] + elems, tail) == ContentModel::Cons(
            Box::new(e),
            Box::new(SExprModel { content: chain_content(elems, tail), span: no_span() }),
        ),
{
    assert((seq![e] + elems).drop_first() =~= elems);
}

/// Puts `elements` in front of `tail`, as a chain of pairs.
fn build_chain(elements: Vec<SExpr>, tail: SExprContent) -> (c: SExprContent)
    ensures
        c.model() == chain_content(elements@.map_values(|e: SExpr| e.model()), tail.model()),
{
    let ghost all = elements@.map_values(|e: SExpr| e.model());
    let mut elements = elements;
    let mut acc = tail;
    assert(all.skip(elements@.len() as int) =~= Seq::<SExprModel>::empty());
    while elements.len() > 0
        invariant
            elements@.len() <= all.len(),
            forall|i: int| 0 <= i < elements@.len() ==> #[trigger] elements@[i].model() == all[i],
            acc.model() == chain_content(all.skip(elements@.len() as int), tail.model()),
        decreases elements@.len(),
    {
        let ghost n = elements@.len();
        let ghost old_elems = elements@;
        assert(elements@[n - 1].model() == all[n - 1]);
        let e = elements.pop().unwrap();
        assert(e == old_elems[n - 1]);
        proof {
            assert(all.skip(n - 1) =~= seq![all[n - 1]] + all.skip(n as int));
            lemma_chain_prepend(all[n - 1], all.skip(n as int), tail.model());
        }
        let ghost acc_model = acc.model();
        let rest = SExpr::without_span(acc);
        let car = Rc::new(e);
        let cdr = Rc::new(rest);
        acc = SExprContent::Cons { car, cdr };
        assert(acc.model() == ContentModel::Cons(
            Box::new(all[n - 1]),
            Box::new(SExprModel { content: acc_model, span: no_span() }),
        ));
        assert(forall|i: int| 0 <= i < elements@.len() ==> #[trigger] elements@[i] == old_elems[i]);
    }
    assert(all.skip(0) =~= all);
    acc
}

/// The content of the proper list of `elements`.
pub fn build_list(elements: Vec<SExpr>) -> (c: SExprContent)
    ensures
        c.model() == chain_content(elements@.map_values(|e: SExpr| e.model()), ContentModel::Nil),
{
    build_chain(elements, SExprContent::Nil)
}

/// The content of the dotted list of `elements` ending in `tail`.
pub fn build_dotted_list(elements: Vec<SExpr>, tail: SExpr) -> (c: SExprContent)
    ensures
        c.model() == chain_content(
            elements@.map_values(|e: SExpr| e.model()),
            tail.model().content,
        ),
{
    build_chain(elements, tail.content)
}

/// Checks the elements before the dot of a dotted list whose dot stands at
/// index `dot_position`: the dot may not come first, and it must come
/// after at least one element and within the elements.
pub fn validate_dotted_list_structure(elements: &[SExpr], dot_position: usize) -> (r: Result<
    (),
    DottedListError,
>)
    ensures
        r == (if dot_position == 0 {
            Err(DottedListError::InvalidDotPosition)
        } else if elements@.len() == 0 {
            Err(DottedListError::InsufficientElements)
        } else if dot_position > elements@.len() {
            Err(DottedListError::InvalidDotPosition)
        } else {
            Ok::<(), DottedListError>(())
        }),
{
    if dot_position == 0 {
        return Err(DottedListError::InvalidDotPosition);
    }
    if elements.len() == 0 {
        return Err(DottedListError::InsufficientElements);
    }
    if dot_position > elements.len() {
        return Err(DottedListError::InvalidDotPosition);
    }
    Ok(())
}

} // verus!
