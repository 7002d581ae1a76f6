//! The parser: reads S-expressions from the lexer's results.
pub mod types;
pub mod source;
pub mod utils;
pub mod engine;
pub mod display;
pub mod messages;

use vstd::prelude::*;
use crate::lexer::engine::{initial_lex_state, lex_tokens_from, spec_token_stream, spec_tokenize, tokenize_string};
use crate::lexer::coverage::{lemma_error_run_has_no_eof, lemma_tokenize_covers_input};
use crate::lexer::rules::token_result_model;
use crate::lexer::types::{LexErrorModel, TokenModel};
use crate::parser::engine::{at_end, consumed_non_eof, consumed_ok, consumed_text, consumed_tokens, lemma_parse_consumes_tokens, parse, spec_parse, tok};
use crate::parser::source::rebuilt_text;
use crate::parser::messages::parse_error_message;
use crate::parser::types::{ParseOutput, parse_result_model};

verus! {

/// Parses the source text `source`: lexes it, then parses the lexer's
/// results up to the first lexical error.
pub fn parse_from_string(source: &str) -> (out: ParseOutput)
    ensures
        parse_result_model(out.result) == spec_parse(spec_token_stream(source@)).0,
        out.source_text@ == consumed_text(
            spec_token_stream(source@),
            spec_parse(spec_token_stream(source@)).1,
        ),
{
    let tokens = tokenize_string(source);
    parse(tokens)
}

/// Whether parsing succeeded.
pub fn is_parse_success(output: &ParseOutput) -> (b: bool)
    ensures
        b == output.result is Ok,
{
    output.result.is_ok()
}

/// The message of the error that stopped parsing, if any.
pub fn get_error_summary(output: &ParseOutput) -> (r: Option<String>)
    ensures
        match output.result {
            Err(e) => r matches Some(s) && s@ == parse_error_message(e@),
            Ok(_) => r is None,
        },
{
    match &output.result {
        Err(error) => Some(error.message()),
        Ok(_) => None,
    }
}

/// Parsing source text succeeds only when lexing it succeeds, and then
/// consumes every token but the final end-of-input token: the source text
/// of the output is rebuilt from all of them.
pub proof fn lemma_parse_success_reads_all_tokens(source: Seq<char>)
    ensures
        spec_parse(spec_token_stream(source)).0 is Ok ==> (spec_tokenize(source) matches Ok(ts) && (
        spec_parse(spec_token_stream(source)).1 == ts.len() - 1 && consumed_text(
            spec_token_stream(source),
            ts.len() - 1,
        ) == rebuilt_text(ts.drop_last()))),
{
    let stream = spec_token_stream(source);
    let (ts, e) = lex_tokens_from(source, initial_lex_state());
    let oks = ts.map_values(|t: TokenModel| Ok::<TokenModel, LexErrorModel>(t));
    lemma_parse_consumes_tokens(stream);
    lemma_tokenize_covers_input(source);
    lemma_error_run_has_no_eof(source);
    let k = spec_parse(stream).1;
    let n = ts.len() as int;
    if spec_parse(stream).0 is Ok {
        match e {
            Some(err) => {
                assert(stream == oks.push(Err(err)));
                assert(stream[n] is Err);
                if k > n {
                    assert(stream[n] is Ok);
                }
                assert(stream[k] == Ok::<TokenModel, LexErrorModel>(ts[k]));
                assert(ts[k].token_type is Eof);
            },
            None => {
                assert(stream == oks);
                assert(stream[n - 1] == Ok::<TokenModel, LexErrorModel>(ts[n - 1]));
                if k > n - 1 {
                    assert(tok(stream[n - 1]).token_type is Eof);
                }
                assert(stream[k] == Ok::<TokenModel, LexErrorModel>(ts[k]));
                if k < n - 1 {
                    assert(!(ts[k].token_type is Eof));
                }
                assert(consumed_tokens(stream, n - 1) =~= ts.drop_last());
            },
        }
    }
}

} // verus!
