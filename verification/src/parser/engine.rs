//! The recursive-descent parser.
//!
//! The model reads a sequence of lexer results `toks` from an index and
//! returns the result with the index after the last token it consumed.
//! Consumed tokens are always results that are tokens, never errors; the
//! source text of a run is rebuilt from the consumed prefix of `toks`.
use std::rc::Rc;
use vstd::prelude::*;
use crate::lexer::types::{LexError, LexErrorModel, Span, Token, TokenModel, TokenType, TokenTypeModel};
use crate::lexer::rules::token_result_model;
use crate::parser::types::{
    ContentModel, DottedListError, ParseError, ParseErrorModel, ParseOutput, QuoteType, SExpr,
    SExprContent, SExprModel, UnexpectedTokenReason, UnexpectedTokenReasonModel, Value, ValueModel,
    dotted_error, eof_error, eof_placeholder, exprs_model, parse_result_model, quote_symbol,
};
use crate::parser::source::{SourceBuilder, builder_add, builder_add_all, builder_empty, rebuilt_text};
use crate::parser::utils::{
    build_dotted_list, build_list, chain_content, is_atom, is_atom_token, token_to_value,
    token_value, validate_dotted_list_structure,
};

verus! {

// ============================================================================
// Model of the parser
// ============================================================================

/// The token of a lexer result (a placeholder for an error).
pub open spec fn tok(r: Result<TokenModel, LexErrorModel>) -> TokenModel {
    match r {
        Ok(t) => t,
        Err(_) => eof_placeholder(),
    }
}

/// The type of the token at `i`, or the error met there: the lexical error,
/// or the end-of-input error past the last result.
pub open spec fn peek_type(toks: Seq<Result<TokenModel, LexErrorModel>>, i: int) -> Result<TokenTypeModel, ParseErrorModel> {
    if 0 <= i < toks.len() {
        match toks[i] {
            Ok(t) => Ok(t.token_type),
            Err(e) => Err(ParseErrorModel::LexError(e)),
        }
    } else {
        Err(eof_error())
    }
}

/// Whether the result at `i` is a trivia token.
pub open spec fn is_trivia_at(toks: Seq<Result<TokenModel, LexErrorModel>>, i: int) -> bool {
    0 <= i < toks.len() && toks[i] is Ok && tok(toks[i]).token_type.is_trivia()
}

/// The index of the first result at or after `i` that is not a trivia
/// token.
pub open spec fn skip_trivia(toks: Seq<Result<TokenModel, LexErrorModel>>, i: int) -> int
    decreases toks.len() - i,
{
    if is_trivia_at(toks, i) {
        skip_trivia(toks, i + 1)
    } else {
        i
    }
}

/// Whether parsing stops at `i`: no results are left, or the end-of-input
/// token stands there.
pub open spec fn at_end(toks: Seq<Result<TokenModel, LexErrorModel>>, i: int) -> bool {
    !(0 <= i < toks.len()) || (toks[i] is Ok && tok(toks[i]).token_type is Eof)
}

/// The error for a token that cannot start an expression.
pub open spec fn not_expression_error(t: TokenModel) -> ParseErrorModel {
    ParseErrorModel::UnexpectedToken {
        found: t,
        reason: UnexpectedTokenReasonModel::Expected("expression"@),
    }
}

/// `(q x)` for the quotation `q` read at `qspan` and the expression `x`:
/// the quote symbol has the span of the quotation mark, the inner pair
/// the span of `x`, the closing empty list the empty span at the end of
/// `x`, and the whole the span from the mark to the end of `x`.
pub open spec fn quoted_model(q: QuoteType, qspan: Span, x: SExprModel) -> SExprModel {
    let sym = SExprModel { content: ContentModel::Atom(ValueModel::Symbol(quote_symbol(q))), span: qspan };
    let nil = SExprModel { content: ContentModel::Nil, span: Span { start: x.span.end, end: x.span.end } };
    let inner = SExprModel { content: ContentModel::Cons(Box::new(x), Box::new(nil)), span: x.span };
    SExprModel {
        content: ContentModel::Cons(Box::new(sym), Box::new(inner)),
        span: Span { start: qspan.start, end: x.span.end },
    }
}

/// The quotation form a token type opens, if any.
pub open spec fn quote_of(t: TokenTypeModel) -> Option<QuoteType> {
    match t {
        TokenTypeModel::Quote => Some(QuoteType::Quote),
        TokenTypeModel::Quasiquote => Some(QuoteType::Quasiquote),
        TokenTypeModel::Unquote => Some(QuoteType::Unquote),
        TokenTypeModel::UnquoteSplicing => Some(QuoteType::UnquoteSplicing),
        _ => None,
    }
}

/// Skipping trivia from `i` moves forward, stays within the results, passes
/// only trivia and stops at a result that is not trivia.
pub proof fn lemma_skip_trivia(toks: Seq<Result<TokenModel, LexErrorModel>>, i: int)
    ensures
        skip_trivia(toks, i) >= i,
        0 <= i <= toks.len() ==> skip_trivia(toks, i) <= toks.len(),
        !is_trivia_at(toks, skip_trivia(toks, i)),
        forall|j: int| i <= j < skip_trivia(toks, i) ==> is_trivia_at(toks, j),
    decreases toks.len() - i,
{
    if is_trivia_at(toks, i) {
        lemma_skip_trivia(toks, i + 1);
    }
}

/// One expression at `i`.
pub open spec fn parse_expr(toks: Seq<Result<TokenModel, LexErrorModel>>, i: int) -> (Result<SExprModel, ParseErrorModel>, int)
    decreases toks.len() - i, 1int,
{
    match peek_type(toks, i) {
        Err(e) => (Err(e), i),
        Ok(tt) => if tt is LeftParen {
            parse_list(toks, i)
        } else if quote_of(tt) is Some {
            parse_quoted(toks, i, quote_of(tt)->0)
        } else if is_atom(tt) {
            parse_atom(toks, i)
        } else {
            (Err(not_expression_error(tok(toks[i]))), i + 1)
        },
    }
}

/// A list whose opening parenthesis stands at `i`.
pub open spec fn parse_list(toks: Seq<Result<TokenModel, LexErrorModel>>, i: int) -> (Result<SExprModel, ParseErrorModel>, int)
    decreases toks.len() - i, 0int,
{
    if 0 <= i < toks.len() {
        list_items(toks, i + 1, tok(toks[i]).span, seq![])
    } else {
        (Err(eof_error()), i)
    }
}

/// The rest of a list opened at `start` whose elements so far are `elems`,
/// from index `j` on.
pub open spec fn list_items(
    toks: Seq<Result<TokenModel, LexErrorModel>>,
    j: int,
    start: Span,
    elems: Seq<SExprModel>,
) -> (Result<SExprModel, ParseErrorModel>, int)
    decreases toks.len() - j, 2int,
{
    let k = skip_trivia(toks, j);
    proof {
        lemma_skip_trivia(toks, j);
    }
    match peek_type(toks, k) {
        Err(e) => (Err(e), k),
        Ok(tt) => if tt is RightParen {
            (
                Ok(
                    SExprModel {
                        content: chain_content(elems, ContentModel::Nil),
                        span: Span { start: start.start, end: tok(toks[k]).span.end },
                    },
                ),
                k + 1,
            )
        } else if tt is Dot {
            parse_dotted(toks, k, start, elems)
        } else {
            let (r, k2) = parse_expr(toks, k);
            match r {
                Err(e) => (Err(e), k2),
                Ok(x) => if k < k2 <= toks.len() {
                    list_items(toks, k2, start, elems.push(x))
                } else {
                    (Err(eof_error()), k2)
                },
            }
        },
    }
}

/// The rest of a list opened at `start` with elements `elems`, from the
/// dot at `k` on.
pub open spec fn parse_dotted(
    toks: Seq<Result<TokenModel, LexErrorModel>>,
    k: int,
    start: Span,
    elems: Seq<SExprModel>,
) -> (Result<SExprModel, ParseErrorModel>, int)
    decreases toks.len() - k, 0int,
{
    if !(0 <= k < toks.len()) {
        (Err(eof_error()), k)
    } else if elems.len() == 0 {
        (Err(dotted_error(tok(toks[k]), DottedListError::InvalidDotPosition)), k + 1)
    } else {
        let dot = tok(toks[k]);
        let k1 = skip_trivia(toks, k + 1);
        proof {
            lemma_skip_trivia(toks, k + 1);
        }
        let (r, k2) = parse_expr(toks, k1);
        match r {
            Err(e) => (Err(e), k2),
            Ok(tail) => {
                let k3 = skip_trivia(toks, k2);
                match peek_type(toks, k3) {
                    Err(e) => (Err(e), k3),
                    Ok(tt) => if tt is RightParen {
                        (
                            Ok(
                                SExprModel {
                                    content: chain_content(elems, tail.content),
                                    span: Span { start: start.start, end: tok(toks[k3]).span.end },
                                },
                            ),
                            k3 + 1,
                        )
                    } else {
                        (Err(dotted_error(dot, DottedListError::MultipleTailElements)), k3 + 1)
                    },
                }
            },
        }
    }
}

/// A quotation `q` whose mark stands at `i`, and the expression right
/// after the mark.
pub open spec fn parse_quoted(toks: Seq<Result<TokenModel, LexErrorModel>>, i: int, q: QuoteType) -> (Result<SExprModel, ParseErrorModel>, int)
    decreases toks.len() - i, 0int,
{
    if 0 <= i < toks.len() {
        let (r, k) = parse_expr(toks, i + 1);
        match r {
            Err(e) => (Err(e), k),
            Ok(x) => (Ok(quoted_model(q, tok(toks[i]).span, x)), k),
        }
    } else {
        (Err(eof_error()), i)
    }
}

/// The atom at `i`.
pub open spec fn parse_atom(toks: Seq<Result<TokenModel, LexErrorModel>>, i: int) -> (Result<SExprModel, ParseErrorModel>, int) {
    let t = tok(toks[i]);
    match token_value(t.token_type) {
        Some(v) => (Ok(SExprModel { content: ContentModel::Atom(v), span: t.span }), i + 1),
        None => (
            Err(
                ParseErrorModel::UnexpectedToken {
                    found: t,
                    reason: UnexpectedTokenReasonModel::Expected("atomic value"@),
                },
            ),
            i + 1,
        ),
    }
}

/// The top-level expressions from `i` (which follows any trivia) on,
/// after the expressions `acc` already read.
pub open spec fn parse_all_from(
    toks: Seq<Result<TokenModel, LexErrorModel>>,
    i: int,
    acc: Seq<SExprModel>,
) -> (Result<Seq<SExprModel>, ParseErrorModel>, int)
    decreases toks.len() - i,
{
    if at_end(toks, i) {
        (Ok(acc), i)
    } else {
        let (r, k) = parse_expr(toks, i);
        match r {
            Err(e) => (Err(e), k),
            Ok(x) => {
                let k2 = skip_trivia(toks, k);
                if i < k2 <= toks.len() {
                    parse_all_from(toks, k2, acc.push(x))
                } else {
                    (Err(eof_error()), k2)
                }
            },
        }
    }
}

/// Parsing a whole sequence of lexer results: the expressions read, or the
/// first error, and the number of results consumed.
pub open spec fn spec_parse(toks: Seq<Result<TokenModel, LexErrorModel>>) -> (Result<Seq<SExprModel>, ParseErrorModel>, int) {
    parse_all_from(toks, skip_trivia(toks, 0), seq![])
}

/// The tokens of the first `k` results.
pub open spec fn consumed_tokens(toks: Seq<Result<TokenModel, LexErrorModel>>, k: int) -> Seq<TokenModel> {
    toks.take(k).map_values(|r: Result<TokenModel, LexErrorModel>| tok(r))
}

/// The source text rebuilt from the first `k` results.
pub open spec fn consumed_text(toks: Seq<Result<TokenModel, LexErrorModel>>, k: int) -> Seq<char> {
    rebuilt_text(consumed_tokens(toks, k))
}

/// Model of a parse result for one expression.
pub open spec fn expr_result_model(r: Result<SExpr, ParseError>) -> Result<SExprModel, ParseErrorModel> {
    match r {
        Ok(e) => Ok(e.model()),
        Err(e) => Err(e@),
    }
}

// ============================================================================
// What the parser consumes
// ============================================================================

/// Every result from `i` (inclusive) to `k` (exclusive) is a token.
pub open spec fn consumed_ok(toks: Seq<Result<TokenModel, LexErrorModel>>, i: int, k: int) -> bool {
    forall|j: int| i <= j < k ==> 0 <= j < toks.len() && #[trigger] toks[j] is Ok
}

/// No result from `i` to `k` is the end-of-input token.
pub open spec fn consumed_non_eof(toks: Seq<Result<TokenModel, LexErrorModel>>, i: int, k: int) -> bool {
    forall|j: int| i <= j < k ==> !(#[trigger] tok(toks[j]).token_type is Eof)
}

/// What every parsing step from `i` to `k` satisfies: it moves forward,
/// consumes only tokens, and, when it succeeds, no end-of-input token.
pub open spec fn step_ok(toks: Seq<Result<TokenModel, LexErrorModel>>, i: int, r: (Result<SExprModel, ParseErrorModel>, int)) -> bool {
    &&& i <= r.1
    &&& consumed_ok(toks, i, r.1)
    &&& r.0 is Ok ==> consumed_non_eof(toks, i, r.1)
}

/// `toks[i]` is a token other than the end-of-input token.
pub open spec fn real_token_at(toks: Seq<Result<TokenModel, LexErrorModel>>, i: int) -> bool {
    0 <= i < toks.len() && toks[i] is Ok && !(tok(toks[i]).token_type is Eof)
}

proof fn lemma_skip_consumes(toks: Seq<Result<TokenModel, LexErrorModel>>, i: int)
    ensures
        i <= skip_trivia(toks, i),
        consumed_ok(toks, i, skip_trivia(toks, i)),
        consumed_non_eof(toks, i, skip_trivia(toks, i)),
{
    lemma_skip_trivia(toks, i);
    assert forall|j: int| i <= j < skip_trivia(toks, i) implies 0 <= j < toks.len() && #[trigger] toks[j] is Ok by {
        assert(is_trivia_at(toks, j));
    }
    assert forall|j: int| i <= j < skip_trivia(toks, i) implies !(#[trigger] tok(toks[j]).token_type is Eof) by {
        assert(is_trivia_at(toks, j));
    }
}

proof fn lemma_join(toks: Seq<Result<TokenModel, LexErrorModel>>, a: int, b: int, c: int)
    requires
        a <= b <= c,
        consumed_ok(toks, a, b),
        consumed_ok(toks, b, c),
    ensures
        consumed_ok(toks, a, c),
{
    assert forall|j: int| a <= j < c implies 0 <= j < toks.len() && #[trigger] toks[j] is Ok by {
        if j < b {
            assert(consumed_ok(toks, a, b));
        } else {
            assert(consumed_ok(toks, b, c));
        }
    }
}

proof fn lemma_join_non_eof(toks: Seq<Result<TokenModel, LexErrorModel>>, a: int, b: int, c: int)
    requires
        a <= b <= c,
        consumed_non_eof(toks, a, b),
        consumed_non_eof(toks, b, c),
    ensures
        consumed_non_eof(toks, a, c),
{
    assert forall|j: int| a <= j < c implies !(#[trigger] tok(toks[j]).token_type is Eof) by {
        if j < b {
            assert(consumed_non_eof(toks, a, b));
        } else {
            assert(consumed_non_eof(toks, b, c));
        }
    }
}

proof fn lemma_expr_consumes(toks: Seq<Result<TokenModel, LexErrorModel>>, i: int)
    requires
        0 <= i,
    ensures
        step_ok(toks, i, parse_expr(toks, i)),
    decreases toks.len() - i, 1int,
{
    match peek_type(toks, i) {
        Err(_) => {},
        Ok(tt) => {
            if tt is LeftParen {
                lemma_list_consumes(toks, i);
            } else if quote_of(tt) is Some {
                lemma_quoted_consumes(toks, i, quote_of(tt)->0);
            } else {
                assert(toks[i] is Ok);
            }
        },
    }
}

proof fn lemma_list_consumes(toks: Seq<Result<TokenModel, LexErrorModel>>, i: int)
    requires
        real_token_at(toks, i),
    ensures
        step_ok(toks, i, parse_list(toks, i)),
    decreases toks.len() - i, 0int,
{
    lemma_items_consumes(toks, i + 1, tok(toks[i]).span, seq![]);
    let k = parse_list(toks, i).1;
    lemma_join(toks, i, i + 1, k);
    if parse_list(toks, i).0 is Ok {
        lemma_join_non_eof(toks, i, i + 1, k);
    }
}

proof fn lemma_quoted_consumes(toks: Seq<Result<TokenModel, LexErrorModel>>, i: int, q: QuoteType)
    requires
        real_token_at(toks, i),
    ensures
        step_ok(toks, i, parse_quoted(toks, i, q)),
    decreases toks.len() - i, 0int,
{
    lemma_expr_consumes(toks, i + 1);
    let k = parse_expr(toks, i + 1).1;
    lemma_join(toks, i, i + 1, k);
    if parse_expr(toks, i + 1).0 is Ok {
        lemma_join_non_eof(toks, i, i + 1, k);
    }
}

proof fn lemma_items_consumes(toks: Seq<Result<TokenModel, LexErrorModel>>, j: int, start: Span, elems: Seq<SExprModel>)
    requires
        0 <= j,
    ensures
        step_ok(toks, j, list_items(toks, j, start, elems)),
    decreases toks.len() - j, 2int,
{
    let k = skip_trivia(toks, j);
    lemma_skip_consumes(toks, j);
    lemma_skip_trivia(toks, j);
    match peek_type(toks, k) {
        Err(_) => {},
        Ok(tt) => {
            if tt is RightParen {
                lemma_join(toks, j, k, k + 1);
                lemma_join_non_eof(toks, j, k, k + 1);
            } else if tt is Dot {
                lemma_dotted_consumes(toks, k, start, elems);
                let k2 = parse_dotted(toks, k, start, elems).1;
                lemma_join(toks, j, k, k2);
                if parse_dotted(toks, k, start, elems).0 is Ok {
                    lemma_join_non_eof(toks, j, k, k2);
                }
            } else {
                lemma_expr_consumes(toks, k);
                let (r, k2) = parse_expr(toks, k);
                lemma_join(toks, j, k, k2);
                match r {
                    Err(_) => {},
                    Ok(x) => {
                        lemma_join_non_eof(toks, j, k, k2);
                        if k < k2 <= toks.len() {
                            lemma_items_consumes(toks, k2, start, elems.push(x));
                            let k3 = list_items(toks, k2, start, elems.push(x)).1;
                            lemma_join(toks, j, k2, k3);
                            if list_items(toks, k2, start, elems.push(x)).0 is Ok {
                                lemma_join_non_eof(toks, j, k2, k3);
                            }
                        }
                    },
                }
            }
        },
    }
}

proof fn lemma_dotted_consumes(toks: Seq<Result<TokenModel, LexErrorModel>>, k: int, start: Span, elems: Seq<SExprModel>)
    requires
        real_token_at(toks, k),
    ensures
        step_ok(toks, k, parse_dotted(toks, k, start, elems)),
    decreases toks.len() - k, 0int,
{
    if elems.len() > 0 {
        let k1 = skip_trivia(toks, k + 1);
        lemma_skip_consumes(toks, k + 1);
        lemma_skip_trivia(toks, k + 1);
        lemma_join(toks, k, k + 1, k1);
        lemma_join_non_eof(toks, k, k + 1, k1);
        lemma_expr_consumes(toks, k1);
        let (r, k2) = parse_expr(toks, k1);
        lemma_join(toks, k, k1, k2);
        match r {
            Err(_) => {},
            Ok(tail) => {
                lemma_join_non_eof(toks, k, k1, k2);
                let k3 = skip_trivia(toks, k2);
                lemma_skip_consumes(toks, k2);
                lemma_join(toks, k, k2, k3);
                lemma_join_non_eof(toks, k, k2, k3);
                match peek_type(toks, k3) {
                    Err(_) => {},
                    Ok(tt) => {
                        lemma_join(toks, k, k3, k3 + 1);
                        if tt is RightParen {
                            lemma_join_non_eof(toks, k, k3, k3 + 1);
                        }
                    },
                }
            },
        }
    }
}

proof fn lemma_all_consumes(toks: Seq<Result<TokenModel, LexErrorModel>>, i: int, acc: Seq<SExprModel>)
    requires
        0 <= i,
    ensures
        i <= parse_all_from(toks, i, acc).1,
        consumed_ok(toks, i, parse_all_from(toks, i, acc).1),
        parse_all_from(toks, i, acc).0 is Ok ==> consumed_non_eof(toks, i, parse_all_from(toks, i, acc).1)
            && at_end(toks, parse_all_from(toks, i, acc).1),
    decreases toks.len() - i,
{
    if !at_end(toks, i) {
        lemma_expr_consumes(toks, i);
        let (r, k) = parse_expr(toks, i);
        match r {
            Err(_) => {},
            Ok(x) => {
                let k2 = skip_trivia(toks, k);
                lemma_skip_consumes(toks, k);
                lemma_join(toks, i, k, k2);
                lemma_join_non_eof(toks, i, k, k2);
                if i < k2 <= toks.len() {
                    lemma_all_consumes(toks, k2, acc.push(x));
                    let k3 = parse_all_from(toks, k2, acc.push(x)).1;
                    lemma_join(toks, i, k2, k3);
                    if parse_all_from(toks, k2, acc.push(x)).0 is Ok {
                        lemma_join_non_eof(toks, i, k2, k3);
                    }
                }
            },
        }
    }
}

/// The parser never reads past a lexical error: every result it consumes
/// is a token. A successful parse consumes no end-of-input token and stops
/// where the end-of-input token stands or past the last result.
pub proof fn lemma_parse_consumes_tokens(toks: Seq<Result<TokenModel, LexErrorModel>>)
    ensures
        0 <= spec_parse(toks).1,
        consumed_ok(toks, 0, spec_parse(toks).1),
        spec_parse(toks).0 is Ok ==> consumed_non_eof(toks, 0, spec_parse(toks).1) && at_end(
            toks,
            spec_parse(toks).1,
        ),
{
    let i = skip_trivia(toks, 0);
    lemma_skip_consumes(toks, 0);
    lemma_all_consumes(toks, i, seq![]);
    let k = spec_parse(toks).1;
    lemma_join(toks, 0, i, k);
    if spec_parse(toks).0 is Ok {
        lemma_join_non_eof(toks, 0, i, k);
    }
}

// ============================================================================
// The parser
// ============================================================================

/// A recursive-descent parser over a sequence of lexer results.
pub struct SimpleParser {
    tokens: Vec<Result<Token, LexError>>,
    index: usize,
    source_builder: SourceBuilder,
    position: usize,
}

impl SimpleParser {
    /// The models of the parser's lexer results.
    pub closed spec fn toks(&self) -> Seq<Result<TokenModel, LexErrorModel>> {
        self.tokens@.map_values(|r: Result<Token, LexError>| token_result_model(r))
    }

    /// How many results the parser has consumed.
    pub closed spec fn consumed(&self) -> int {
        self.index as int
    }

    /// The text rebuilt so far.
    pub closed spec fn text(&self) -> Seq<char> {
        self.source_builder@.text
    }

    /// The parser's invariant: it has consumed a prefix of its results, and
    /// its builder holds the text of that prefix.
    pub closed spec fn inv(&self) -> bool {
        &&& self.index <= self.tokens@.len()
        &&& self.position == self.index
        &&& self.source_builder@ == builder_add_all(
            builder_empty(),
            consumed_tokens(self.toks(), self.index as int),
        )
    }

    /// A parser at the start of `tokens`.
    pub fn new(tokens: Vec<Result<Token, LexError>>) -> (p: SimpleParser)
        ensures
            p.inv(),
            p.toks() == tokens@.map_values(|r: Result<Token, LexError>| token_result_model(r)),
            p.consumed() == 0,
    {
        let p = SimpleParser { tokens, index: 0, source_builder: SourceBuilder::new(), position: 0 };
        assert(consumed_tokens(p.toks(), 0) =~= Seq::<TokenModel>::empty());
        p
    }

    proof fn lemma_consume_one(&self, t: TokenModel)
        requires
            self.inv(),
            self.index < self.tokens@.len(),
            self.toks()[self.index as int] == Ok::<TokenModel, LexErrorModel>(t),
        ensures
            builder_add_all(builder_empty(), consumed_tokens(self.toks(), self.index + 1)) == builder_add(
                self.source_builder@,
                t,
            ),
    {
        let s = self.toks();
        let i = self.index as int;
        assert(consumed_tokens(s, i + 1).drop_last() =~= consumed_tokens(s, i));
        assert(consumed_tokens(s, i + 1).last() == t);
    }

    /// Consumes the token at the current index.
    fn consume_token(&mut self) -> (t: Token)
        requires
            old(self).inv(),
            old(self).index < old(self).tokens@.len(),
            old(self).toks()[old(self).index as int] is Ok,
        ensures
            final(self).inv(),
            final(self).tokens == old(self).tokens,
            final(self).index == old(self).index + 1,
            old(self).toks()[old(self).index as int] == Ok::<TokenModel, LexErrorModel>(t@),
    {
        let n = self.tokens.len();
        let t = match &self.tokens[self.index] {
            Ok(t) => t.clone(),
            Err(_) => {
                assert(false);
                Token::new(TokenType::Eof, Span::empty(0), String::new())
            },
        };
        proof {
            self.lemma_consume_one(t@);
        }
        self.index = self.index + 1;
        self.position = self.position + 1;
        self.source_builder.add_token(&t);
        t
    }

    /// The type of the token at the current index, or the error met there.
    fn peek_token_type(&self) -> (r: Result<TokenType, ParseError>)
        requires
            self.inv(),
        ensures
            match r {
                Ok(tt) => peek_type(self.toks(), self.index as int) == Ok::<TokenTypeModel, ParseErrorModel>(
                    tt@,
                ),
                Err(e) => peek_type(self.toks(), self.index as int) == Err::<TokenTypeModel, ParseErrorModel>(
                    e@,
                ),
            },
    {
        if self.index < self.tokens.len() {
            match &self.tokens[self.index] {
                Ok(t) => Ok(t.token_type.clone()),
                Err(e) => Err(ParseError::LexError(e.clone())),
            }
        } else {
            Err(ParseError::unexpected_eof())
        }
    }

    /// Whether parsing stops at the current index.
    fn is_at_end(&self) -> (b: bool)
        requires
            self.inv(),
        ensures
            b == at_end(self.toks(), self.index as int),
    {
        if self.index < self.tokens.len() {
            match &self.tokens[self.index] {
                Ok(t) => match t.token_type {
                    TokenType::Eof => true,
                    _ => false,
                },
                Err(_) => false,
            }
        } else {
            true
        }
    }

    /// Consumes whitespace, newline and comment tokens.
    fn skip_trivia(&mut self)
        requires
            old(self).inv(),
        ensures
            final(self).inv(),
            final(self).tokens == old(self).tokens,
            final(self).index == skip_trivia(old(self).toks(), old(self).index as int),
            final(self).index >= old(self).index,
    {
        let ghost s = self.toks();
        let ghost start = self.index as int;
        proof {
            lemma_skip_trivia(s, start);
        }
        loop
            invariant
                self.inv(),
                self.tokens == old(self).tokens,
                s == self.toks(),
                s == old(self).toks(),
                start == old(self).index,
                start <= self.index,
                skip_trivia(s, self.index as int) == skip_trivia(s, start),
            decreases self.tokens@.len() - self.index,
        {
            if self.index >= self.tokens.len() {
                assert(!is_trivia_at(s, self.index as int));
                assert(skip_trivia(s, self.index as int) == self.index as int);
                return;
            }
            assert(s[self.index as int] == token_result_model(self.tokens@[self.index as int]));
            let trivia = match &self.tokens[self.index] {
                Ok(t) => t.token_type.is_trivia(),
                Err(_) => false,
            };
            if !trivia {
                assert(!is_trivia_at(s, self.index as int));
                assert(skip_trivia(s, self.index as int) == self.index as int);
                return;
            }
            self.consume_token();
        }
    }

    /// One expression.
    fn parse_expression(&mut self) -> (r: Result<SExpr, ParseError>)
        requires
            old(self).inv(),
        ensures
            final(self).inv(),
            final(self).tokens == old(self).tokens,
            (expr_result_model(r), final(self).index as int) == parse_expr(
                old(self).toks(),
                old(self).index as int,
            ),
            r is Ok ==> old(self).index < final(self).index,
        decreases old(self).tokens@.len() - old(self).index, 1nat,
    {
        let tt = match self.peek_token_type() {
            Ok(tt) => tt,
            Err(e) => {
                return Err(e);
            },
        };
        match tt {
            TokenType::LeftParen => self.parse_list(),
            TokenType::Quote => self.parse_quoted(QuoteType::Quote),
            TokenType::Quasiquote => self.parse_quoted(QuoteType::Quasiquote),
            TokenType::Unquote => self.parse_quoted(QuoteType::Unquote),
            TokenType::UnquoteSplicing => self.parse_quoted(QuoteType::UnquoteSplicing),
            _ => {
                if is_atom_token(&tt) {
                    self.parse_atom()
                } else {
                    let token = self.consume_token();
                    Err(
                        ParseError::unexpected_token(
                            token,
                            UnexpectedTokenReason::Expected(String::from_str("expression")),
                        ),
                    )
                }
            },
        }
    }

    /// A list: `(e1 e2 ...)` or a dotted list `(e1 ... . tail)`.
    fn parse_list(&mut self) -> (r: Result<SExpr, ParseError>)
        requires
            old(self).inv(),
            peek_type(old(self).toks(), old(self).index as int) matches Ok(tt) && tt is LeftParen,
        ensures
            final(self).inv(),
            final(self).tokens == old(self).tokens,
            (expr_result_model(r), final(self).index as int) == parse_list(
                old(self).toks(),
                old(self).index as int,
            ),
            r is Ok ==> old(self).index < final(self).index,
        decreases old(self).tokens@.len() - old(self).index, 0nat,
    {
        let ghost s = self.toks();
        let ghost i0 = self.index as int;
        let start_token = self.consume_token();
        let start_span = start_token.span;
        let mut elements: Vec<SExpr> = Vec::new();
        assert(elements@.map_values(|e: SExpr| e.model()) =~= Seq::<SExprModel>::empty());
        loop
            invariant
                self.inv(),
                self.tokens == old(self).tokens,
                s == self.toks(),
                i0 == old(self).index,
                i0 < self.index,
                start_span == tok(s[i0]).span,
                parse_list(s, i0) == list_items(
                    s,
                    self.index as int,
                    start_span,
                    elements@.map_values(|e: SExpr| e.model()),
                ),
            decreases self.tokens@.len() - self.index,
        {
            let ghost j = self.index as int;
            let ghost elems = elements@.map_values(|e: SExpr| e.model());
            self.skip_trivia();
            proof {
                lemma_skip_trivia(s, j);
            }
            let tt = match self.peek_token_type() {
                Ok(tt) => tt,
                Err(e) => {
                    return Err(e);
                },
            };
            match tt {
                TokenType::RightParen => {
                    let end_token = self.consume_token();
                    let full_span = Span { start: start_span.start, end: end_token.span.end };
                    let content = build_list(elements);
                    return Ok(SExpr::with_span(content, full_span));
                },
                TokenType::Dot => {
                    return self.parse_dotted_list(elements, start_span);
                },
                _ => {
                    let expr = match self.parse_expression() {
                        Ok(e) => e,
                        Err(e) => {
                            return Err(e);
                        },
                    };
                    let ghost x = expr.model();
                    elements.push(expr);
                    assert(elements@.map_values(|e: SExpr| e.model()) =~= elems.push(x));
                },
            }
        }
    }

    /// The rest of a dotted list whose dot is the current token.
    fn parse_dotted_list(&mut self, elements: Vec<SExpr>, start_span: Span) -> (r: Result<SExpr, ParseError>)
        requires
            old(self).inv(),
            peek_type(old(self).toks(), old(self).index as int) matches Ok(tt) && tt is Dot,
        ensures
            final(self).inv(),
            final(self).tokens == old(self).tokens,
            (expr_result_model(r), final(self).index as int) == parse_dotted(
                old(self).toks(),
                old(self).index as int,
                start_span,
                elements@.map_values(|e: SExpr| e.model()),
            ),
            r is Ok ==> old(self).index < final(self).index,
        decreases old(self).tokens@.len() - old(self).index, 0nat,
    {
        let ghost s = self.toks();
        let ghost elems = elements@.map_values(|e: SExpr| e.model());
        let dot_token = self.consume_token();
        match validate_dotted_list_structure(elements.as_slice(), elements.len()) {
            Ok(()) => {},
            Err(err) => {
                return Err(ParseError::invalid_dotted_list(dot_token, err));
            },
        }
        self.skip_trivia();
        proof {
            lemma_skip_trivia(s, old(self).index + 1);
        }
        let tail = match self.parse_expression() {
            Ok(e) => e,
            Err(e) => {
                return Err(e);
            },
        };
        self.skip_trivia();
        let tt = match self.peek_token_type() {
            Ok(tt) => tt,
            Err(e) => {
                return Err(e);
            },
        };
        match tt {
            TokenType::RightParen => {
                let end_token = self.consume_token();
                let full_span = Span { start: start_span.start, end: end_token.span.end };
                let content = build_dotted_list(elements, tail);
                Ok(SExpr::with_span(content, full_span))
            },
            _ => {
                let _token = self.consume_token();
                Err(ParseError::invalid_dotted_list(dot_token, DottedListError::MultipleTailElements))
            },
        }
    }

    /// A quotation `'x`, `` `x ``, `,x` or `,@x`, read as `(quote x)`,
    /// `(quasiquote x)`, `(unquote x)` or `(unquote-splicing x)`.
    fn parse_quoted(&mut self, quote_type: QuoteType) -> (r: Result<SExpr, ParseError>)
        requires
            old(self).inv(),
            peek_type(old(self).toks(), old(self).index as int) matches Ok(tt) && quote_of(tt)
                == Some(quote_type),
        ensures
            final(self).inv(),
            final(self).tokens == old(self).tokens,
            (expr_result_model(r), final(self).index as int) == parse_quoted(
                old(self).toks(),
                old(self).index as int,
                quote_type,
            ),
            r is Ok ==> old(self).index < final(self).index,
        decreases old(self).tokens@.len() - old(self).index, 0nat,
    {
        let quote_token = self.consume_token();
        let quote_span = quote_token.span;
        let expr = match self.parse_expression() {
            Ok(e) => e,
            Err(e) => {
                return Err(e);
            },
        };
        let expr_span: Span = *expr.span;
        let quote_symbol = SExpr::with_span(
            SExprContent::Atom(Value::Symbol(String::from_str(quote_type.symbol_name()))),
            quote_span,
        );
        let nil_node = SExpr::with_span(SExprContent::Nil, Span::empty(expr_span.end));
        let inner_cons = SExpr::with_span(
            SExprContent::Cons { car: Rc::new(expr), cdr: Rc::new(nil_node) },
            expr_span,
        );
        let full_span = Span { start: quote_span.start, end: expr_span.end };
        Ok(
            SExpr::with_span(
                SExprContent::Cons { car: Rc::new(quote_symbol), cdr: Rc::new(inner_cons) },
                full_span,
            ),
        )
    }

    /// An atom.
    fn parse_atom(&mut self) -> (r: Result<SExpr, ParseError>)
        requires
            old(self).inv(),
            peek_type(old(self).toks(), old(self).index as int) is Ok,
        ensures
            final(self).inv(),
            final(self).tokens == old(self).tokens,
            (expr_result_model(r), final(self).index as int) == parse_atom(
                old(self).toks(),
                old(self).index as int,
            ),
            r is Ok ==> old(self).index < final(self).index,
    {
        let token = self.consume_token();
        let span = token.span;
        match token_to_value(token.token_type.clone()) {
            Some(value) => Ok(SExpr::with_span(SExprContent::Atom(value), span)),
            None => Err(
                ParseError::unexpected_token(
                    token,
                    UnexpectedTokenReason::Expected(String::from_str("atomic value")),
                ),
            ),
        }
    }

    /// All top-level expressions, and the text rebuilt from the tokens
    /// consumed.
    pub fn parse_all(&mut self) -> (out: ParseOutput)
        requires
            old(self).inv(),
            old(self).consumed() == 0,
        ensures
            final(self).inv(),
            parse_result_model(out.result) == spec_parse(old(self).toks()).0,
            final(self).consumed() == spec_parse(old(self).toks()).1,
            out.source_text@ == consumed_text(old(self).toks(), spec_parse(old(self).toks()).1),
    {
        let ghost s = self.toks();
        let mut expressions: Vec<SExpr> = Vec::new();
        self.skip_trivia();
        assert(exprs_model(expressions@) =~= Seq::<SExprModel>::empty());
        loop
            invariant
                self.inv(),
                self.tokens == old(self).tokens,
                s == self.toks(),
                spec_parse(s) == parse_all_from(s, self.index as int, exprs_model(expressions@)),
            decreases self.tokens@.len() - self.index,
        {
            if self.is_at_end() {
                let text = self.source_builder.clone().build();
                return ParseOutput::success(expressions, text);
            }
            let ghost i = self.index as int;
            let ghost acc = exprs_model(expressions@);
            match self.parse_expression() {
                Ok(expr) => {
                    let ghost x = expr.model();
                    let ghost k = self.index as int;
                    expressions.push(expr);
                    assert(exprs_model(expressions@) =~= acc.push(x));
                    proof {
                        lemma_skip_trivia(s, k);
                    }
                    self.skip_trivia();
                },
                Err(error) => {
                    let text = self.source_builder.clone().build();
                    return ParseOutput::error(error, text);
                },
            }
        }
    }
}

/// Parses the lexer results `tokens`: the expressions read, or the first
/// error, with the source text rebuilt from the tokens consumed.
pub fn parse(tokens: Vec<Result<Token, LexError>>) -> (out: ParseOutput)
    ensures
        parse_result_model(out.result) == spec_parse(
            tokens@.map_values(|r: Result<Token, LexError>| token_result_model(r)),
        ).0,
        out.source_text@ == consumed_text(
            tokens@.map_values(|r: Result<Token, LexError>| token_result_model(r)),
            spec_parse(tokens@.map_values(|r: Result<Token, LexError>| token_result_model(r))).1,
        ),
{
    let mut parser = SimpleParser::new(tokens);
    parser.parse_all()
}

} // verus!
