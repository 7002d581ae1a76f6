//! What a successful run of the lexer says about its input: the raw texts
//! of the tokens spell the input in order, and the run ends with the
//! end-of-input token.
use vstd::prelude::*;
use crate::lexer::types::{LexErrorModel, LexErrorReasonModel, Pattern, TokenEmitter, TokenModel, TokenTypeModel};
use crate::lexer::rules::{lex_error, spec_emit};
use crate::lexer::machine::{scheme_fallback, scheme_rules};
use crate::lexer::engine::{
    LexState, find_rule_from, initial_lex_state, lemma_escape_matches, lemma_fallbacks,
    lemma_find_rule, lemma_next_decreases, lemma_rules_consume, lex_eof, lex_measure, lex_next,
    lex_state_ok, lex_step, lex_tokens_from, pattern_len, spec_tokenize,
};

verus! {

/// The raw texts of `ts`, one after the other.
pub open spec fn raw_concat(ts: Seq<TokenModel>) -> Seq<char>
    decreases ts.len(),
{
    if ts.len() == 0 {
        seq![]
    } else {
        ts[0].raw_text + raw_concat(ts.drop_first())
    }
}

/// `ts` ends with the end-of-input token, which has no text, no earlier
/// token is an end-of-input token, and the raw texts of `ts` spell
/// `input` from offset `start` to its end.
pub open spec fn tokens_cover(input: Seq<char>, start: int, ts: Seq<TokenModel>) -> bool {
    let text = raw_concat(ts);
    &&& ts.len() >= 1
    &&& ts.last().token_type is Eof
    &&& ts.last().raw_text.len() == 0
    &&& forall|i: int| 0 <= i < ts.len() - 1 ==> !(#[trigger] ts[i].token_type is Eof)
    &&& 0 <= start
    &&& start + text.len() == input.len()
    &&& input.subrange(start, input.len() as int) == text
}

/// What the buffer of a run holds: the characters read since the last
/// token, which in the string states begin with the opening quote.
pub open spec fn buffer_ok(input: Seq<char>, s: LexState) -> bool {
    &&& s.state < 12
    &&& s.buffer.len() <= s.pos <= input.len()
    &&& s.buffer == input.subrange(s.pos - s.buffer.len(), s.pos as int)
    &&& s.state == 0 ==> s.buffer.len() == 0
    &&& s.state == 2 ==> s.buffer.len() >= 1 && s.buffer[0] == '"'
    &&& s.state == 3 ==> s.buffer.len() >= 2 && s.buffer[0] == '"' && s.buffer.last() == '\\'
}

/// The shape of the machine's rules: emitting rules return to the initial
/// state and emit neither an error nor an end-of-input token; the rules
/// that enter a string state are the opening quote, the characters of a
/// string and the backslash of an escape.
proof fn lemma_rule_shapes(state: int, j: int)
    requires
        0 <= state < 12,
        0 <= j < scheme_rules(state).len(),
    ensures
        ({
            let r = scheme_rules(state)[j];
            let a = r.action;
            &&& a.emit_token is Some ==> a.next_state == 0 && a.emit_token != Some(TokenEmitter::Eof)
                && a.emit_token != Some(TokenEmitter::Error)
            &&& a.emit_token is None ==> a.next_state != 0
            &&& (a.emit_token is None && a.next_state == 3) ==> (state == 2 && r.pattern
                == Pattern::Char('\\'))
            &&& (a.emit_token is None && a.next_state == 2) ==> ((state == 0 && r.pattern
                == Pattern::Char('"')) || state == 2 || state == 3)
        }),
{
}

proof fn lemma_fallback_not_eof(state: int)
    requires
        0 <= state < 12,
    ensures
        scheme_fallback(state).emit_token != Some(TokenEmitter::Eof),
{
}

/// A token built by an emitter other than the end-of-input one carries the
/// text it was built from and is not an end-of-input token.
proof fn lemma_emit_raw(e: TokenEmitter, raw: Seq<char>, pos: usize)
    requires
        e != TokenEmitter::Eof,
    ensures
        spec_emit(e, raw, pos) matches Ok(t) ==> (t.raw_text == raw && !(t.token_type is Eof)),
{
}

/// One step before the end of input keeps the buffer invariant; a token it
/// emits carries the text read since the previous token.
proof fn lemma_step_cover(input: Seq<char>, s: LexState)
    requires
        buffer_ok(input, s),
        !s.finished,
        s.pos < input.len(),
    ensures
        !lex_step(input, s).0.finished,
        lex_step(input, s).1 is None ==> buffer_ok(input, lex_step(input, s).0),
        lex_step(input, s).1 is None ==> lex_step(input, s).0.pos - lex_step(input, s).0.buffer.len()
            == s.pos - s.buffer.len(),
        lex_step(input, s).1 is None ==> s.pos < lex_step(input, s).0.pos,
        lex_step(input, s).1 matches Some(Ok(t)) ==> buffer_ok(input, lex_step(input, s).0),
        lex_step(input, s).1 matches Some(Ok(t)) ==> lex_step(input, s).0.buffer.len() == 0,
        lex_step(input, s).1 matches Some(Ok(t)) ==> t.raw_text == input.subrange(
            s.pos - s.buffer.len(),
            lex_step(input, s).0.pos as int,
        ),
        lex_step(input, s).1 matches Some(Ok(t)) ==> !(t.token_type is Eof),
{
    let rest = input.skip(s.pos as int);
    let rules = scheme_rules(s.state as int);
    let start = s.pos - s.buffer.len();
    lemma_find_rule(rules, rest, 0);
    lemma_fallbacks(s.state as int);
    match find_rule_from(rules, rest, 0) {
        Some(i) => {
            lemma_rules_consume(s.state as int, i);
            lemma_rule_shapes(s.state as int, i);
            let r = rules[i];
            let k = pattern_len(r.pattern);
            match r.pattern {
                Pattern::String(st) => {
                    assert(rest.take(st@.len() as int).len() == st@.len());
                },
                _ => {},
            }
            assert(k <= rest.len());
            assert(rest.take(k as int) =~= input.subrange(s.pos as int, s.pos + k as int));
            let buf = s.buffer + rest.take(k as int);
            assert(buf =~= input.subrange(start, s.pos + k as int));
            match r.action.emit_token {
                Some(e) => {
                    lemma_emit_raw(e, buf, s.pos as usize);
                    let s2 = lex_step(input, s).0;
                    assert(s2.buffer =~= Seq::<char>::empty());
                    assert(input.subrange(s2.pos as int, s2.pos as int) =~= Seq::<char>::empty());
                },
                None => {
                    let s2 = lex_step(input, s).0;
                    assert(s2.buffer == buf);
                    if s2.state == 2 {
                        if s.state == 0 {
                            assert(rest[0] == '"');
                            assert(buf[0] == '"');
                        } else {
                            assert(buf[0] == s.buffer[0]);
                        }
                    }
                    if s2.state == 3 {
                        assert(rest[0] == '\\');
                        assert(buf.last() == '\\');
                        assert(buf[0] == s.buffer[0]);
                    }
                },
            }
        },
        None => {
            if s.state == 3 {
                lemma_escape_matches(rest);
            }
            let fb = scheme_fallback(s.state as int);
            lemma_fallback_not_eof(s.state as int);
            assert(s.buffer =~= input.subrange(start, s.pos as int));
            assert(lex_step(input, s).0.buffer =~= Seq::<char>::empty());
            assert(input.subrange(s.pos as int, s.pos as int) =~= Seq::<char>::empty());
            match fb.emit_token {
                Some(e) => {
                    lemma_emit_raw(e, s.buffer, s.pos as usize);
                },
                None => {},
            }
        },
    }
}

/// What the next call of the lexer yields from a state with a sound
/// buffer: always something; a token is either one that carries the text
/// read since the previous token, or the final end-of-input token, which
/// comes only once every character has been read into a token.
proof fn lemma_next_cover(input: Seq<char>, s: LexState)
    requires
        buffer_ok(input, s),
        !s.finished,
    ensures
        lex_next(input, s).1 is Some,
        lex_next(input, s).1 matches Some(Ok(t)) ==> (lex_next(input, s).0.finished ==> (
        t.token_type is Eof && t.raw_text.len() == 0)),
        lex_next(input, s).1 matches Some(Ok(t)) ==> (lex_next(input, s).0.finished
            ==> s.pos - s.buffer.len() == input.len()),
        lex_next(input, s).1 matches Some(Ok(t)) ==> (!lex_next(input, s).0.finished ==> buffer_ok(
            input,
            lex_next(input, s).0,
        )),
        lex_next(input, s).1 matches Some(Ok(t)) ==> (!lex_next(input, s).0.finished
            ==> lex_next(input, s).0.buffer.len() == 0),
        lex_next(input, s).1 matches Some(Ok(t)) ==> (!lex_next(input, s).0.finished
            ==> t.raw_text == input.subrange(s.pos - s.buffer.len(), lex_next(input, s).0.pos as int)),
        lex_next(input, s).1 matches Some(Ok(t)) ==> (!lex_next(input, s).0.finished ==> !(
        t.token_type is Eof)),
    decreases input.len() - s.pos,
{
    let start = s.pos - s.buffer.len();
    if s.pos >= input.len() {
        lemma_fallbacks(s.state as int);
        lemma_fallback_not_eof(s.state as int);
        if s.buffer.len() > 0 {
            let fb = scheme_fallback(s.state as int);
            assert(s.buffer =~= input.subrange(start, input.len() as int));
            match fb.emit_token {
                Some(e) => {
                    lemma_emit_raw(e, s.buffer, s.pos as usize);
                    assert(lex_eof(s).0.buffer =~= Seq::<char>::empty());
                    assert(input.subrange(s.pos as int, s.pos as int) =~= Seq::<char>::empty());
                },
                None => {},
            }
        } else {
            assert(input.subrange(start, input.len() as int) =~= Seq::<char>::empty());
        }
    } else {
        lemma_step_cover(input, s);
        let (s2, out) = lex_step(input, s);
        match out {
            Some(_) => {},
            None => {
                lemma_next_cover(input, s2);
            },
        }
    }
}

/// The tokens a run yields from a state with a sound buffer cover the rest
/// of the input from the start of the buffer, unless an error stops it.
proof fn lemma_tokens_cover_from(input: Seq<char>, s: LexState)
    requires
        buffer_ok(input, s),
        !s.finished,
    ensures
        lex_tokens_from(input, s).1 is None ==> tokens_cover(
            input,
            s.pos - s.buffer.len(),
            lex_tokens_from(input, s).0,
        ),
        lex_tokens_from(input, s).1 is Some ==> forall|i: int|
            0 <= i < lex_tokens_from(input, s).0.len() ==> !(
            #[trigger] lex_tokens_from(input, s).0[i].token_type is Eof),
    decreases lex_measure(input, s),
{
    let start = s.pos - s.buffer.len();
    lemma_next_cover(input, s);
    lemma_next_decreases(input, s);
    let (s2, out) = lex_next(input, s);
    match out {
        Some(Ok(t)) => {
            if s2.finished {
                let ts = lex_tokens_from(input, s).0;
                assert(lex_tokens_from(input, s2).0 == Seq::<TokenModel>::empty());
                assert(ts =~= seq![t]);
                assert(ts.drop_first() =~= Seq::<TokenModel>::empty());
                assert(raw_concat(ts.drop_first()) =~= Seq::<char>::empty());
                assert(t.raw_text =~= Seq::<char>::empty());
                assert(raw_concat(ts) =~= t.raw_text + raw_concat(ts.drop_first()));
                assert(raw_concat(ts) =~= Seq::<char>::empty());
                assert(input.subrange(start, input.len() as int) =~= Seq::<char>::empty());
            } else {
                lemma_tokens_cover_from(input, s2);
                let (ts2, e2) = lex_tokens_from(input, s2);
                let ts = seq![t] + ts2;
                assert(lex_tokens_from(input, s).0 == ts);
                if e2 is Some {
                    assert forall|i: int| 0 <= i < ts.len() implies !(#[trigger] ts[i].token_type is Eof) by {
                        if i > 0 {
                            assert(ts[i] == ts2[i - 1]);
                        }
                    }
                }
                if e2 is None {
                    assert(ts.drop_first() =~= ts2);
                    let text2 = raw_concat(ts2);
                    let mid = s2.pos as int;
                    assert(raw_concat(ts) == t.raw_text + text2);
                    assert(input.subrange(start, mid + text2.len()) =~= input.subrange(start, mid)
                        + input.subrange(mid, mid + text2.len()));
                    assert(ts.last() == ts2.last());
                    assert forall|i: int| 0 <= i < ts.len() - 1 implies !(#[trigger] ts[i].token_type is Eof) by {
                        if i > 0 {
                            assert(ts[i] == ts2[i - 1]);
                        }
                    }
                }
            }
        },
        _ => {},
    }
}

/// A run of the lexer that stops at a lexical error yields no end-of-input
/// token.
pub proof fn lemma_error_run_has_no_eof(input: Seq<char>)
    ensures
        lex_tokens_from(input, initial_lex_state()).1 is Some ==> forall|i: int|
            0 <= i < lex_tokens_from(input, initial_lex_state()).0.len() ==> !(
            #[trigger] lex_tokens_from(input, initial_lex_state()).0[i].token_type is Eof),
{
    let s = initial_lex_state();
    assert(s.buffer =~= input.subrange(0, 0));
    lemma_tokens_cover_from(input, s);
}

/// Tokenization loses no text: when the lexer succeeds, the raw texts of
/// its tokens, in order, spell the whole input. The last token is the
/// end-of-input token, and no other token is.
pub proof fn lemma_tokenize_covers_input(input: Seq<char>)
    ensures
        spec_tokenize(input) matches Ok(ts) ==> tokens_cover(input, 0, ts),
        spec_tokenize(input) matches Ok(ts) ==> raw_concat(ts) == input,
{
    let s = initial_lex_state();
    assert(s.buffer =~= input.subrange(0, 0));
    lemma_tokens_cover_from(input, s);
    assert(input.subrange(0, input.len() as int) =~= input);
}

/// The error for input that ends inside a string literal at `len`.
pub open spec fn unterminated_at(len: nat) -> LexErrorModel {
    lex_error(len as usize, None, LexErrorReasonModel::UnterminatedString)
}

/// Inside a string literal whose closing quote never comes, the lexer reads
/// to the end of the input and reports the string as unterminated.
proof fn lemma_open_string_run(input: Seq<char>, s: LexState)
    requires
        s.state == 2 || s.state == 3,
        !s.finished,
        s.buffer.len() > 0,
        s.pos <= input.len(),
        forall|i: int| s.pos <= i < input.len() ==> input[i] != '"',
    ensures
        lex_next(input, s).1 == Some(Err::<TokenModel, LexErrorModel>(unterminated_at(input.len()))),
    decreases input.len() - s.pos,
{
    if s.pos < input.len() {
        let rest = input.skip(s.pos as int);
        assert(rest[0] == input[s.pos as int]);
        let rules = scheme_rules(s.state as int);
        reveal_with_fuel(find_rule_from, 4);
        let (s2, out) = lex_step(input, s);
        assert(out is None);
        assert(s2.pos == s.pos + 1);
        lemma_open_string_run(input, s2);
    }
}

/// An input that opens a string literal and never closes it is rejected:
/// a `"` followed by text without another `"` (a final backslash included)
/// gives the unterminated-string error at the end of the input.
pub proof fn lemma_open_string_is_unterminated(body: Seq<char>)
    requires
        forall|i: int| 0 <= i < body.len() ==> body[i] != '"',
    ensures
        spec_tokenize(seq!['"'] + body) == Err::<Seq<TokenModel>, LexErrorModel>(
            unterminated_at(body.len() + 1),
        ),
{
    let input = seq!['"'] + body;
    let s = initial_lex_state();
    reveal_strlit(",@");
    reveal_with_fuel(find_rule_from, 11);
    let (s2, out) = lex_step(input, s);
    assert(input.skip(0)[0] == '"');
    assert(out is None);
    assert(s2.state == 2 && s2.pos == 1 && s2.buffer.len() == 1);
    assert forall|i: int| s2.pos <= i < input.len() implies input[i] != '"' by {
        assert(input[i] == body[i - 1]);
    }
    lemma_open_string_run(input, s2);
}

} // verus!
