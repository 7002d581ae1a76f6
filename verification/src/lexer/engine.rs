//! The lexer: runs the Scheme state machine over the input, one step at a
//! time, and collects the tokens it emits.
//!
//! The model: a step looks for the first rule of the current state whose
//! pattern matches at the current position. A matching rule consumes the
//! characters it matched into the buffer and moves to its next state; if it
//! has an emitter, the buffer becomes a token whose recorded start is the
//! position before the matched characters, and the buffer is cleared. When
//! no rule matches, the state's fallback action applies to the buffer at the
//! current position without consuming anything. At the end of input a
//! non-empty buffer goes through the fallback action, and then an
//! end-of-input token is emitted.
use vstd::prelude::*;
use crate::lexer::types::{
    LexError, LexErrorModel, Pattern, StateAction, StateMachine, Token, TokenEmitter, TokenModel,
    TokenType, TokenTypeModel, TransitionRule, token_from_text,
};
use crate::lexer::chars::{class_holds, class_matches};
use crate::lexer::rules::{emit_chars, spec_emit, token_of_chars, token_result_model};
use crate::lexer::machine::{scheme_fallback, scheme_rules, scheme_state_machine, get_scheme_state_machine};
use crate::text::{char_count, chars_of};

verus! {

broadcast use vstd::string::group_string_axioms;

// ============================================================================
// Model of a lexer run
// ============================================================================

/// The state of a lexer run: machine state, position (characters read so
/// far), buffered text, and whether the end-of-input token was emitted.
pub ghost struct LexState {
    pub state: usize,
    pub pos: nat,
    pub buffer: Seq<char>,
    pub finished: bool,
}

pub open spec fn initial_lex_state() -> LexState {
    LexState { state: 0, pos: 0, buffer: seq![], finished: false }
}

/// Whether `p` matches at the start of `rest`.
pub open spec fn pattern_matches(p: Pattern, rest: Seq<char>) -> bool {
    match p {
        Pattern::Char(c) => rest.len() > 0 && rest[0] == c,
        Pattern::String(s) => s@.len() <= rest.len() && rest.take(s@.len() as int) == s@,
        Pattern::CharClass(cls) => rest.len() > 0 && class_holds(cls, rest[0]),
    }
}

/// How many characters `p` consumes when it matches.
pub open spec fn pattern_len(p: Pattern) -> nat {
    match p {
        Pattern::String(s) => s@.len(),
        _ => 1,
    }
}

/// Index of the first rule at or after `i` whose pattern matches.
pub open spec fn find_rule_from(rules: Seq<TransitionRule>, rest: Seq<char>, i: int) -> Option<int>
    decreases rules.len() - i,
{
    if i < 0 || i >= rules.len() {
        None
    } else if pattern_matches(rules[i].pattern, rest) {
        Some(i)
    } else {
        find_rule_from(rules, rest, i + 1)
    }
}

/// The end-of-input token at `pos`.
pub open spec fn eof_token(pos: nat) -> TokenModel {
    token_from_text(TokenTypeModel::Eof, seq![], pos as int)
}

/// One step of the machine before the end of input.
pub open spec fn lex_step(input: Seq<char>, s: LexState) -> (LexState, Option<Result<TokenModel, LexErrorModel>>) {
    let rest = input.skip(s.pos as int);
    let rules = scheme_rules(s.state as int);
    match find_rule_from(rules, rest, 0) {
        Some(i) => {
            let r = rules[i];
            let k = pattern_len(r.pattern);
            let buf = s.buffer + rest.take(k as int);
            match r.action.emit_token {
                Some(e) => (
                    LexState { state: r.action.next_state, pos: s.pos + k, buffer: seq![], finished: false },
                    Some(spec_emit(e, buf, s.pos as usize)),
                ),
                None => (
                    LexState { state: r.action.next_state, pos: s.pos + k, buffer: buf, finished: false },
                    None,
                ),
            }
        },
        None => {
            let fb = scheme_fallback(s.state as int);
            let out = match fb.emit_token {
                Some(e) => Some(spec_emit(e, s.buffer, s.pos as usize)),
                None => None,
            };
            (LexState { state: fb.next_state, pos: s.pos, buffer: seq![], finished: false }, out)
        },
    }
}

/// What happens at the end of input.
pub open spec fn lex_eof(s: LexState) -> (LexState, Option<Result<TokenModel, LexErrorModel>>) {
    if s.buffer.len() > 0 {
        let fb = scheme_fallback(s.state as int);
        match fb.emit_token {
            Some(e) => (
                LexState { state: fb.next_state, pos: s.pos, buffer: seq![], finished: false },
                Some(spec_emit(e, s.buffer, s.pos as usize)),
            ),
            None => (
                LexState { state: fb.next_state, pos: s.pos, buffer: seq![], finished: true },
                Some(Ok(eof_token(s.pos))),
            ),
        }
    } else {
        (LexState { state: s.state, pos: s.pos, buffer: s.buffer, finished: true }, Some(Ok(eof_token(s.pos))))
    }
}

/// Steps the machine until it emits something, reaches the end, or (which
/// never happens for this machine) stands still without emitting.
pub open spec fn lex_next(input: Seq<char>, s: LexState) -> (LexState, Option<Result<TokenModel, LexErrorModel>>)
    decreases input.len() - s.pos,
{
    if s.finished {
        (s, None)
    } else if s.pos >= input.len() {
        lex_eof(s)
    } else {
        let (s2, out) = lex_step(input, s);
        match out {
            Some(o) => (s2, Some(o)),
            None => if s.pos < s2.pos <= input.len() {
                lex_next(input, s2)
            } else {
                (s2, None)
            },
        }
    }
}

/// A measure that every emitted token decreases.
pub open spec fn lex_measure(input: Seq<char>, s: LexState) -> nat {
    let left: nat = if s.pos <= input.len() {
        (input.len() - s.pos) as nat
    } else {
        0
    };
    4 * left + (if s.finished {
        0nat
    } else {
        2nat
    }) + (if s.buffer.len() > 0 {
        1nat
    } else {
        0nat
    }) + (if s.state != 0 {
        1nat
    } else {
        0nat
    })
}

/// The tokens emitted from state `s` on, and the error that stopped the run
/// if there was one.
pub open spec fn lex_tokens_from(input: Seq<char>, s: LexState) -> (Seq<TokenModel>, Option<LexErrorModel>)
    decreases lex_measure(input, s),
{
    let (s2, out) = lex_next(input, s);
    match out {
        None => (seq![], None),
        Some(Err(e)) => (seq![], Some(e)),
        Some(Ok(t)) => if lex_measure(input, s2) < lex_measure(input, s) {
            let (ts, e) = lex_tokens_from(input, s2);
            (seq![t] + ts, e)
        } else {
            (seq![t], None)
        },
    }
}

/// The tokens of `input`, ending with the end-of-input token, or the first
/// lexical error.
pub open spec fn spec_tokenize(input: Seq<char>) -> Result<Seq<TokenModel>, LexErrorModel> {
    let (ts, e) = lex_tokens_from(input, initial_lex_state());
    match e {
        Some(err) => Err(err),
        None => Ok(ts),
    }
}

/// The stream of results the lexer yields for `input`, up to and including
/// the first error.
pub open spec fn spec_token_stream(input: Seq<char>) -> Seq<Result<TokenModel, LexErrorModel>> {
    let (ts, e) = lex_tokens_from(input, initial_lex_state());
    let oks = ts.map_values(|t: TokenModel| Ok::<TokenModel, LexErrorModel>(t));
    match e {
        Some(err) => oks.push(Err(err)),
        None => oks,
    }
}

// ============================================================================
// Facts about the machine
// ============================================================================

pub open spec fn lex_state_ok(input: Seq<char>, s: LexState) -> bool {
    s.state < 12 && s.pos <= input.len()
}

pub(crate) proof fn lemma_find_rule(rules: Seq<TransitionRule>, rest: Seq<char>, i: int)
    ensures
        find_rule_from(rules, rest, i) matches Some(j) ==> (i <= j < rules.len() && pattern_matches(
            rules[j].pattern,
            rest,
        )),
    decreases rules.len() - i,
{
    if 0 <= i < rules.len() && !pattern_matches(rules[i].pattern, rest) {
        lemma_find_rule(rules, rest, i + 1);
    }
}

/// Every rule of the machine consumes at least one character and moves to
/// a state of the machine.
pub(crate) proof fn lemma_rules_consume(state: int, j: int)
    requires
        0 <= state < 12,
        0 <= j < scheme_rules(state).len(),
    ensures
        pattern_len(scheme_rules(state)[j].pattern) >= 1,
        scheme_rules(state)[j].action.next_state < 12,
{
    reveal_strlit(",@");
    reveal_strlit("#(");
    reveal_strlit("#\\");
}

/// An emitting fallback that can produce a token returns to the initial
/// state; the fallbacks that do not return there emit errors, or emit
/// nothing.
pub(crate) proof fn lemma_fallbacks(state: int)
    requires
        0 <= state < 12,
    ensures
        scheme_fallback(state).next_state < 12,
        scheme_fallback(state).emit_token matches Some(e) ==> (e == TokenEmitter::Error
            || e == TokenEmitter::UnterminatedString || scheme_fallback(state).next_state == 0),
        scheme_fallback(state).emit_token is Some,
        state == 0 ==> scheme_fallback(state).emit_token == Some(TokenEmitter::Error),
{
}

pub(crate) proof fn lemma_error_emitter(raw: Seq<char>, pos: usize)
    ensures
        spec_emit(TokenEmitter::Error, raw, pos) is Err,
        spec_emit(TokenEmitter::UnterminatedString, raw, pos) is Err,
{
}

/// In the escape state a rule always matches before the end of input.
pub(crate) proof fn lemma_escape_matches(rest: Seq<char>)
    requires
        rest.len() > 0,
    ensures
        find_rule_from(scheme_rules(3), rest, 0) == Some(0int),
{
}

/// A step that emits nothing consumes input.
pub(crate) proof fn lemma_silent_step(input: Seq<char>, s: LexState)
    requires
        lex_state_ok(input, s),
        !s.finished,
        s.pos < input.len(),
        lex_step(input, s).1 is None,
    ensures
        s.pos < lex_step(input, s).0.pos <= input.len(),
        lex_state_ok(input, lex_step(input, s).0),
        lex_measure(input, lex_step(input, s).0) < lex_measure(input, s),
{
    let rest = input.skip(s.pos as int);
    let rules = scheme_rules(s.state as int);
    lemma_find_rule(rules, rest, 0);
    lemma_fallbacks(s.state as int);
    match find_rule_from(rules, rest, 0) {
        Some(i) => {
            lemma_rules_consume(s.state as int, i);
            let p = rules[i].pattern;
            let k = pattern_len(p);
            match p {
                Pattern::String(st) => {
                    assert(rest.take(st@.len() as int).len() == st@.len());
                },
                _ => {},
            }
            assert(k <= rest.len());
            assert(s.pos + k <= input.len());
        },
        None => {
            if s.state == 3 {
                lemma_escape_matches(rest);
            }
        },
    }
}

/// Every token the lexer emits decreases the measure, and the run stays
/// within the machine's states and the input.
pub(crate) proof fn lemma_next_decreases(input: Seq<char>, s: LexState)
    requires
        lex_state_ok(input, s),
    ensures
        lex_state_ok(input, lex_next(input, s).0),
        lex_next(input, s).1 matches Some(Ok(_)) ==> lex_measure(input, lex_next(input, s).0)
            < lex_measure(input, s),
        lex_next(input, s).1 is None ==> lex_next(input, s).0.finished,
    decreases input.len() - s.pos,
{
    if s.finished {
    } else if s.pos >= input.len() {
        lemma_fallbacks(s.state as int);
        if s.buffer.len() > 0 {
            let fb = scheme_fallback(s.state as int);
            if let Some(e) = fb.emit_token {
                if e == TokenEmitter::Error || e == TokenEmitter::UnterminatedString {
                    lemma_error_emitter(s.buffer, s.pos as usize);
                }
            }
        }
    } else {
        let (s2, out) = lex_step(input, s);
        let rest = input.skip(s.pos as int);
        let rules = scheme_rules(s.state as int);
        lemma_find_rule(rules, rest, 0);
        lemma_fallbacks(s.state as int);
        match out {
            Some(o) => {
                match find_rule_from(rules, rest, 0) {
                    Some(i) => {
                        lemma_rules_consume(s.state as int, i);
                        let p = rules[i].pattern;
                        match p {
                            Pattern::String(st) => {
                                assert(rest.take(st@.len() as int).len() == st@.len());
                            },
                            _ => {},
                        }
                    },
                    None => {
                        let fb = scheme_fallback(s.state as int);
                        if let Some(e) = fb.emit_token {
                            if e == TokenEmitter::Error || e == TokenEmitter::UnterminatedString {
                                lemma_error_emitter(s.buffer, s.pos as usize);
                            }
                        }
                    },
                }
            },
            None => {
                lemma_silent_step(input, s);
                lemma_next_decreases(input, s2);
            },
        }
    }
}

// ============================================================================
// The lexer
// ============================================================================

/// The state of a lexer run over `chars`.
pub struct LexerState {
    pub chars: Vec<char>,
    pub current_pos: usize,
    pub state: usize,
    pub buffer: Vec<char>,
    pub state_machine: StateMachine,
}

impl LexerState {
    pub open spec fn model(&self, finished: bool) -> LexState {
        LexState { state: self.state, pos: self.current_pos as nat, buffer: self.buffer@, finished }
    }

    pub open spec fn inv(&self) -> bool {
        &&& self.state_machine@ == scheme_state_machine()
        &&& self.state < 12
        &&& self.current_pos <= self.chars@.len()
        &&& self.chars@.len() <= isize::MAX / 4
        &&& self.buffer@.len() <= self.current_pos
    }

    /// A lexer state at the start of `input`.
    pub fn new(input: &str) -> (st: LexerState)
        ensures
            st.inv(),
            st.chars@ == input@,
            st.model(false) == initial_lex_state(),
    {
        let chars = chars_of(input);
        let _ = char_count(&chars);
        let st = LexerState {
            chars,
            current_pos: 0,
            state: 0,
            buffer: Vec::new(),
            state_machine: get_scheme_state_machine(),
        };
        assert(st.buffer@ =~= Seq::<char>::empty());
        st
    }
}

/// Model of an optional lexer result.
pub open spec fn opt_result_model(o: Option<Result<Token, LexError>>) -> Option<Result<TokenModel, LexErrorModel>> {
    match o {
        Some(r) => Some(token_result_model(r)),
        None => None,
    }
}

/// Whether `pattern` matches at the current position.
fn does_pattern_match(state: &LexerState, pattern: &Pattern) -> (b: bool)
    requires
        state.current_pos <= state.chars@.len(),
    ensures
        b == pattern_matches(*pattern, state.chars@.skip(state.current_pos as int)),
{
    let ghost rest = state.chars@.skip(state.current_pos as int);
    let pos = state.current_pos;
    let n = state.chars.len();
    match pattern {
        Pattern::Char(expected) => pos < n && state.chars[pos] == *expected,
        Pattern::String(expected) => {
            let ex = chars_of(expected);
            let k = ex.len();
            if k > n - pos {
                return false;
            }
            let mut i: usize = 0;
            assert(pattern_matches(*pattern, rest) <==> rest.take(k as int) == expected@);
            while i < k
                invariant
                    pattern_matches(*pattern, rest) <==> rest.take(k as int) == expected@,
                    i <= k == ex@.len(),
                    ex@ == expected@,
                    pos + k <= n == state.chars@.len(),
                    rest == state.chars@.skip(pos as int),
                    pos == state.current_pos,
                    forall|j: int| 0 <= j < i ==> rest[j] == ex@[j],
                decreases k - i,
            {
                if state.chars[pos + i] != ex[i] {
                    assert(rest.take(k as int)[i as int] != expected@[i as int]);
                    assert(rest.take(k as int) != expected@);
                    return false;
                }
                i = i + 1;
            }
            assert(rest.take(k as int) =~= ex@);
            true
        },
        Pattern::CharClass(cls) => pos < n && class_matches(*cls, state.chars[pos]),
    }
}

/// Index of the first rule whose pattern matches at the current position.
fn find_matching_rule(state: &LexerState, rules: &Vec<TransitionRule>) -> (r: Option<usize>)
    requires
        state.current_pos <= state.chars@.len(),
    ensures
        match r {
            Some(i) => find_rule_from(rules@, state.chars@.skip(state.current_pos as int), 0) == Some(
                i as int,
            ),
            None => find_rule_from(rules@, state.chars@.skip(state.current_pos as int), 0) is None,
        },
{
    let ghost rest = state.chars@.skip(state.current_pos as int);
    let mut i: usize = 0;
    while i < rules.len()
        invariant
            i <= rules@.len(),
            state.current_pos <= state.chars@.len(),
            rest == state.chars@.skip(state.current_pos as int),
            find_rule_from(rules@, rest, 0) == find_rule_from(rules@, rest, i as int),
        decreases rules@.len() - i,
    {
        if does_pattern_match(state, &rules[i].pattern) {
            return Some(i);
        }
        i = i + 1;
    }
    None
}

/// Consumes what `rule` matched and carries out its action.
fn execute_transition(state: &mut LexerState, rule: &TransitionRule) -> (r: Option<Result<Token, LexError>>)
    requires
        old(state).inv(),
        pattern_matches(rule.pattern, old(state).chars@.skip(old(state).current_pos as int)),
        pattern_len(rule.pattern) >= 1,
        rule.action.next_state < 12,
    ensures
        final(state).inv(),
        final(state).chars == old(state).chars,
        ({
            let rest = old(state).chars@.skip(old(state).current_pos as int);
            let k = pattern_len(rule.pattern);
            let buf = old(state).buffer@ + rest.take(k as int);
            &&& final(state).state == rule.action.next_state
            &&& final(state).current_pos == old(state).current_pos + k
            &&& match rule.action.emit_token {
                Some(e) => final(state).buffer@ == Seq::<char>::empty() && opt_result_model(r) == Some(
                    spec_emit(e, buf, old(state).current_pos),
                ),
                None => final(state).buffer@ == buf && r is None,
            }
        }),
{
    let token_start_pos = state.current_pos;
    let ghost rest = state.chars@.skip(state.current_pos as int);
    let k: usize = match &rule.pattern {
        Pattern::String(s) => {
            let ex = chars_of(s);
            ex.len()
        },
        _ => 1,
    };
    assert(rest.take(k as int).len() == k);
    let ghost old_buf = state.buffer@;
    let mut i: usize = 0;
    while i < k
        invariant
            i <= k,
            token_start_pos + k <= state.chars@.len(),
            state.chars@.len() <= isize::MAX / 4,
            state.buffer@ == old_buf + rest.take(i as int),
            old_buf.len() <= token_start_pos,
            rest == state.chars@.skip(token_start_pos as int),
            state.chars == old(state).chars,
            state.state_machine == old(state).state_machine,
            state.state == old(state).state,
            state.current_pos == token_start_pos,
        decreases k - i,
    {
        let c = state.chars[token_start_pos + i];
        state.buffer.push(c);
        assert(rest.take(i + 1) =~= rest.take(i as int).push(c));
        assert(state.buffer@ =~= old_buf + rest.take(i + 1));
        i = i + 1;
    }
    state.current_pos = token_start_pos + k;
    state.state = rule.action.next_state;
    match rule.action.emit_token {
        Some(emitter) => {
            let mut buffer_copy: Vec<char> = Vec::new();
            std::mem::swap(&mut buffer_copy, &mut state.buffer);
            Some(emit_chars(emitter, &buffer_copy, token_start_pos))
        },
        None => None,
    }
}

/// Carries out a fallback action on the buffer at the current position.
fn execute_fallback(state: &mut LexerState, fallback: &StateAction) -> (r: Option<Result<Token, LexError>>)
    requires
        old(state).inv(),
        fallback.next_state < 12,
    ensures
        final(state).inv(),
        final(state).chars == old(state).chars,
        final(state).current_pos == old(state).current_pos,
        final(state).state == fallback.next_state,
        final(state).buffer@ == Seq::<char>::empty(),
        opt_result_model(r) == match fallback.emit_token {
            Some(e) => Some(spec_emit(e, old(state).buffer@, old(state).current_pos)),
            None => None::<Result<TokenModel, LexErrorModel>>,
        },
{
    let mut buffer_copy: Vec<char> = Vec::new();
    std::mem::swap(&mut buffer_copy, &mut state.buffer);
    let token_result = match fallback.emit_token {
        Some(emitter) => Some(emit_chars(emitter, &buffer_copy, state.current_pos)),
        None => None,
    };
    state.state = fallback.next_state;
    token_result
}

/// One step of the machine before the end of input.
fn execute_state_machine_step(state: &mut LexerState) -> (r: Option<Result<Token, LexError>>)
    requires
        old(state).inv(),
        old(state).current_pos < old(state).chars@.len(),
    ensures
        final(state).inv(),
        final(state).chars == old(state).chars,
        (final(state).model(false), opt_result_model(r)) == lex_step(
            old(state).chars@,
            old(state).model(false),
        ),
{
    let current_state = state.state;
    proof {
        let m = state.state_machine@;
        assert(m.rules.len() == 12);
        assert(state.state_machine.rules@.len() == 12);
        assert(m.rules[current_state as int] == state.state_machine.rules@[current_state as int]@);
        assert(state.state_machine.rules@[current_state as int]@ == scheme_rules(current_state as int));
        assert(state.state_machine.fallback_rules@.len() == 12);
    }
    let found = find_matching_rule(state, &state.state_machine.rules[current_state]);
    let ghost rest = state.chars@.skip(state.current_pos as int);
    proof {
        lemma_find_rule(scheme_rules(current_state as int), rest, 0);
        lemma_fallbacks(current_state as int);
    }
    match found {
        Some(i) => {
            let rule = state.state_machine.rules[current_state][i];
            proof {
                lemma_rules_consume(current_state as int, i as int);
            }
            execute_transition(state, &rule)
        },
        None => {
            let fallback = state.state_machine.fallback_rules[current_state];
            assert(fallback == scheme_fallback(current_state as int));
            execute_fallback(state, &fallback)
        },
    }
}

/// A lexer over one input: yields the tokens one by one, then `None`.
pub struct LexerIterator {
    state: LexerState,
    finished: bool,
}

impl LexerIterator {
    pub closed spec fn input(&self) -> Seq<char> {
        self.state.chars@
    }

    pub closed spec fn model(&self) -> LexState {
        self.state.model(self.finished)
    }

    pub closed spec fn inv(&self) -> bool {
        self.state.inv()
    }

    /// A lexer at the start of `input`.
    pub fn new(input: &str) -> (it: LexerIterator)
        ensures
            it.inv(),
            it.input() == input@,
            it.model() == initial_lex_state(),
    {
        LexerIterator { state: LexerState::new(input), finished: false }
    }

    /// The next token or error; `None` once the end-of-input token has been
    /// yielded.
    pub fn next_token(&mut self) -> (r: Option<Result<Token, LexError>>)
        requires
            old(self).inv(),
        ensures
            final(self).inv(),
            final(self).input() == old(self).input(),
            (final(self).model(), opt_result_model(r)) == lex_next(old(self).input(), old(self).model()),
    {
        if self.finished {
            return None;
        }
        loop
            invariant
                self.state.inv(),
                !self.finished,
                self.state.chars@ == old(self).state.chars@,
                lex_next(old(self).input(), old(self).model()) == lex_next(
                    self.state.chars@,
                    self.state.model(false),
                ),
            decreases self.state.chars@.len() - self.state.current_pos,
        {
            let ghost s0 = self.state.model(false);
            let ghost input = self.state.chars@;
            if self.state.current_pos >= self.state.chars.len() {
                // End of input: flush the buffer, then the end-of-input token.
                if self.state.buffer.len() > 0 {
                    let cur = self.state.state;
                    let fallback = self.state.state_machine.fallback_rules[cur];
                    proof {
                        lemma_fallbacks(cur as int);
                    }
                    assert(fallback == scheme_fallback(cur as int));
                    let had_emitter = fallback.emit_token.is_some();
                    let res = execute_fallback(&mut self.state, &fallback);
                    if had_emitter {
                        return res;
                    }
                }
                self.finished = true;
                let empty: Vec<char> = Vec::new();
                return Some(Ok(token_of_chars(TokenType::Eof, &empty, self.state.current_pos)));
            }
            let res = execute_state_machine_step(&mut self.state);
            match res {
                Some(r) => {
                    return Some(r);
                },
                None => {
                    proof {
                        lemma_silent_step(input, s0);
                    }
                },
            }
        }
    }
}

/// A lexer over `input`.
pub fn tokenize(input: &str) -> (it: LexerIterator)
    ensures
        it.inv(),
        it.input() == input@,
        it.model() == initial_lex_state(),
{
    LexerIterator::new(input)
}

impl LexerIterator {
    proof fn lemma_state_ok(&self)
        requires
            self.inv(),
        ensures
            lex_state_ok(self.input(), self.model()),
    {
    }
}

/// `toks`, followed by what the run yields from `s` on, is what it yields
/// from `start` on.
spec fn drained(input: Seq<char>, start: LexState, toks: Seq<TokenModel>, s: LexState) -> bool {
    let rest = lex_tokens_from(input, s);
    lex_tokens_from(input, start) == (toks + rest.0, rest.1)
}

proof fn lemma_drain_start(input: Seq<char>, start: LexState)
    ensures
        drained(input, start, seq![], start),
{
    let rest = lex_tokens_from(input, start);
    assert(Seq::<TokenModel>::empty() + rest.0 =~= rest.0);
}

proof fn lemma_drain_step(input: Seq<char>, start: LexState, toks: Seq<TokenModel>, s: LexState, t: TokenModel, s2: LexState)
    requires
        drained(input, start, toks, s),
        lex_state_ok(input, s),
        lex_next(input, s) == (s2, Some(Ok::<TokenModel, LexErrorModel>(t))),
    ensures
        drained(input, start, toks.push(t), s2),
        lex_state_ok(input, s2),
        lex_measure(input, s2) < lex_measure(input, s),
{
    lemma_next_decreases(input, s);
    let rest = lex_tokens_from(input, s2);
    assert(lex_tokens_from(input, s) == (seq![t] + rest.0, rest.1));
    assert(toks + (seq![t] + rest.0) =~= toks.push(t) + rest.0);
}

proof fn lemma_drain_end(input: Seq<char>, start: LexState, toks: Seq<TokenModel>, s: LexState)
    requires
        drained(input, start, toks, s),
        !(lex_next(input, s).1 matches Some(Ok(_))),
    ensures
        lex_tokens_from(input, start) == (toks, match lex_next(input, s).1 {
            Some(Err(e)) => Some(e),
            _ => None::<LexErrorModel>,
        }),
{
    assert(toks + Seq::<TokenModel>::empty() =~= toks);
}

/// Runs `it` to the end: the tokens and the error that stopped it, if any.
fn drain(it: &mut LexerIterator) -> (r: (Vec<Token>, Option<LexError>))
    requires
        old(it).inv(),
    ensures
        r.0@.map_values(|t: Token| t@) == lex_tokens_from(old(it).input(), old(it).model()).0,
        match r.1 {
            Some(e) => lex_tokens_from(old(it).input(), old(it).model()).1 == Some(e@),
            None => lex_tokens_from(old(it).input(), old(it).model()).1 is None,
        },
{
    let ghost input = it.input();
    let ghost start = it.model();
    let mut tokens: Vec<Token> = Vec::new();
    let ghost mut models: Seq<TokenModel> = seq![];
    proof {
        it.lemma_state_ok();
        lemma_drain_start(input, start);
        assert(tokens@.map_values(|t: Token| t@) =~= models);
    }
    loop
        invariant
            it.inv(),
            it.input() == input,
            input == old(it).input(),
            start == old(it).model(),
            lex_state_ok(input, it.model()),
            tokens@.map_values(|t: Token| t@) == models,
            drained(input, start, models, it.model()),
        decreases lex_measure(input, it.model()),
    {
        let ghost s = it.model();
        let r = it.next_token();
        match r {
            Some(Ok(t)) => {
                proof {
                    lemma_drain_step(input, start, models, s, t@, it.model());
                    models = models.push(t@);
                }
                tokens.push(t);
                assert(tokens@.map_values(|t: Token| t@) =~= models);
            },
            _ => {
                proof {
                    lemma_drain_end(input, start, models, s);
                    assert(lex_tokens_from(input, start).0 == models);
                    assert(tokens@.map_values(|t: Token| t@) == models);
                }
                match r {
                    Some(Err(e)) => {
                        return (tokens, Some(e));
                    },
                    _ => {
                        return (tokens, None);
                    },
                }
            },
        }
    }
}

/// Collects all tokens of `input`, ending with the end-of-input token, or
/// returns the first lexical error.
pub fn tokenize_to_vec(input: &str) -> (r: Result<Vec<Token>, LexError>)
    ensures
        match r {
            Ok(ts) => spec_tokenize(input@) == Ok::<Seq<TokenModel>, LexErrorModel>(
                ts@.map_values(|t: Token| t@),
            ),
            Err(e) => spec_tokenize(input@) == Err::<Seq<TokenModel>, LexErrorModel>(e@),
        },
{
    let mut it = tokenize(input);
    let (tokens, err) = drain(&mut it);
    match err {
        Some(e) => Err(e),
        None => Ok(tokens),
    }
}

/// The results the lexer yields for `input`, up to and including the
/// first error: the tokens ending with the end-of-input token, or the
/// tokens before the first error followed by that error.
pub fn tokenize_string(input: &str) -> (r: Vec<Result<Token, LexError>>)
    ensures
        r@.map_values(|x: Result<Token, LexError>| token_result_model(x)) == spec_token_stream(input@),
{
    let mut it = tokenize(input);
    let (tokens, err) = drain(&mut it);
    let ghost ts = tokens@.map_values(|t: Token| t@);
    let mut out: Vec<Result<Token, LexError>> = Vec::new();
    let mut i: usize = 0;
    while i < tokens.len()
        invariant
            i <= tokens@.len(),
            ts == tokens@.map_values(|t: Token| t@),
            out@.map_values(|x: Result<Token, LexError>| token_result_model(x)) == ts.take(i as int).map_values(
                |t: TokenModel| Ok::<TokenModel, LexErrorModel>(t),
            ),
        decreases tokens@.len() - i,
    {
        let ghost before = out@;
        out.push(Ok(tokens[i].clone()));
        proof {
            let got = out@.map_values(|x: Result<Token, LexError>| token_result_model(x));
            let want = ts.take(i + 1).map_values(|t: TokenModel| Ok::<TokenModel, LexErrorModel>(t));
            let prev = before.map_values(|x: Result<Token, LexError>| token_result_model(x));
            assert(out@ == before.push(Ok(tokens@[i as int])));
            assert(ts.len() == tokens@.len());
            assert(prev.len() == i);
            assert(before.len() == i);
            assert(got.len() == i + 1);
            assert(want.len() == i + 1);
            assert forall|j: int| 0 <= j < i + 1 implies got[j] == want[j] by {
                if j < i {
                    assert(got[j] == prev[j]);
                    assert(prev[j] == Ok::<TokenModel, LexErrorModel>(ts.take(i as int)[j]));
                    assert(ts.take(i as int)[j] == ts[j]);
                } else {
                    assert(ts[j] == tokens@[j]@);
                }
            }
            assert(got =~= want);
        }
        i = i + 1;
    }
    assert(ts.take(tokens@.len() as int) =~= ts);
    match err {
        Some(e) => {
            let ghost before = out@;
            out.push(Err(e));
            assert(out@.map_values(|x: Result<Token, LexError>| token_result_model(x)) =~= before.map_values(
                |x: Result<Token, LexError>| token_result_model(x),
            ).push(Err(e@)));
        },
        None => {},
    }
    out
}

/// Collects the tokens of `input` as [`tokenize_to_vec`] does.
pub fn tokenize_and_analyze(input: &str) -> (r: Result<Vec<Token>, LexError>)
    ensures
        match r {
            Ok(ts) => spec_tokenize(input@) == Ok::<Seq<TokenModel>, LexErrorModel>(
                ts@.map_values(|t: Token| t@),
            ),
            Err(e) => spec_tokenize(input@) == Err::<Seq<TokenModel>, LexErrorModel>(e@),
        },
{
    tokenize_to_vec(input)
}

/// Whether a lexer result survives [`filter_trivia_tokens`]: errors and
/// tokens that are not trivia.
pub open spec fn keeps_result(r: Result<TokenModel, LexErrorModel>) -> bool {
    match r {
        Ok(t) => !t.token_type.is_trivia(),
        Err(_) => true,
    }
}

/// The results of `s` that are errors or tokens other than trivia, in order.
pub open spec fn filter_trivia(s: Seq<Result<TokenModel, LexErrorModel>>) -> Seq<Result<TokenModel, LexErrorModel>>
    decreases s.len(),
{
    if s.len() == 0 {
        seq![]
    } else {
        let rest = filter_trivia(s.drop_last());
        if keeps_result(s.last()) {
            rest.push(s.last())
        } else {
            rest
        }
    }
}

/// A copy of a lexer result.
pub fn clone_result(r: &Result<Token, LexError>) -> (c: Result<Token, LexError>)
    ensures
        c == *r,
{
    match r {
        Ok(t) => Ok(t.clone()),
        Err(e) => Err(e.clone()),
    }
}

/// Drops whitespace, newline and comment tokens; keeps errors.
pub fn filter_trivia_tokens(items: &Vec<Result<Token, LexError>>) -> (r: Vec<Result<Token, LexError>>)
    ensures
        r@.map_values(|x: Result<Token, LexError>| token_result_model(x)) == filter_trivia(
            items@.map_values(|x: Result<Token, LexError>| token_result_model(x)),
        ),
{
    let ghost src = items@.map_values(|x: Result<Token, LexError>| token_result_model(x));
    let mut out: Vec<Result<Token, LexError>> = Vec::new();
    let mut i: usize = 0;
    assert(src.take(0) =~= Seq::<Result<TokenModel, LexErrorModel>>::empty());
    while i < items.len()
        invariant
            i <= items@.len(),
            src == items@.map_values(|x: Result<Token, LexError>| token_result_model(x)),
            out@.map_values(|x: Result<Token, LexError>| token_result_model(x)) == filter_trivia(
                src.take(i as int),
            ),
        decreases items@.len() - i,
    {
        assert(src.take(i + 1).drop_last() =~= src.take(i as int));
        let keep = match &items[i] {
            Ok(t) => !t.token_type.is_trivia(),
            Err(_) => true,
        };
        if keep {
            let ghost before = out@;
            out.push(clone_result(&items[i]));
            assert(out@.map_values(|x: Result<Token, LexError>| token_result_model(x)) =~= before.map_values(
                |x: Result<Token, LexError>| token_result_model(x),
            ).push(src[i as int]));
        }
        i = i + 1;
    }
    assert(src.take(items@.len() as int) =~= src);
    out
}

} // verus!
