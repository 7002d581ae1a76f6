//! The rules of the Scheme lexer's state machine.
use vstd::prelude::*;
use crate::lexer::types::{
    CharClass, Pattern, StateAction, StateMachine, StateMachineModel, TokenEmitter, TransitionRule,
};

verus! {

/// Number of states of the Scheme lexer.
pub const STATE_COUNT: usize = 12;

pub open spec fn rule(pattern: Pattern, next_state: usize, emit: Option<TokenEmitter>) -> TransitionRule {
    TransitionRule { pattern, action: StateAction { next_state, emit_token: emit } }
}

pub open spec fn class_rule(cls: CharClass, next_state: usize, emit: Option<TokenEmitter>) -> TransitionRule {
    rule(Pattern::CharClass(cls), next_state, emit)
}

/// The rules of each state, in the order they are tried.
pub open spec fn scheme_rules(state: int) -> Seq<TransitionRule> {
    if state == 0 {
        seq![
            rule(Pattern::Char('('), 0, Some(TokenEmitter::LeftParen)),
            rule(Pattern::Char(')'), 0, Some(TokenEmitter::RightParen)),
            rule(Pattern::Char('['), 0, Some(TokenEmitter::LeftBracket)),
            rule(Pattern::Char(']'), 0, Some(TokenEmitter::RightBracket)),
            rule(Pattern::Char('\''), 0, Some(TokenEmitter::Quote)),
            rule(Pattern::Char('`'), 0, Some(TokenEmitter::Quasiquote)),
            rule(Pattern::String(",@"), 0, Some(TokenEmitter::UnquoteSplicing)),
            rule(Pattern::Char(','), 0, Some(TokenEmitter::Unquote)),
            rule(Pattern::Char('.'), 0, Some(TokenEmitter::Dot)),
            rule(Pattern::Char('"'), 2, None),
            rule(Pattern::Char(';'), 5, None),
            class_rule(CharClass::Newline, 0, Some(TokenEmitter::Newline)),
            class_rule(CharClass::Whitespace, 6, None),
            rule(Pattern::String("#("), 0, Some(TokenEmitter::VectorStart)),
            rule(Pattern::String("#\\"), 7, None),
            class_rule(CharClass::Sign, 8, None),
            class_rule(CharClass::Digit, 1, None),
            class_rule(CharClass::SymbolStartNotSign, 4, None),
        ]
    } else if state == 1 {
        seq![
            rule(Pattern::Char('.'), 9, None),
            class_rule(CharClass::ExponentMarker, 10, None),
            class_rule(CharClass::Digit, 1, None),
        ]
    } else if state == 2 {
        seq![
            rule(Pattern::Char('"'), 0, Some(TokenEmitter::String)),
            rule(Pattern::Char('\\'), 3, None),
            class_rule(CharClass::NotQuoteOrBackslash, 2, None),
        ]
    } else if state == 3 {
        seq![class_rule(CharClass::Any, 2, None)]
    } else if state == 4 {
        seq![class_rule(CharClass::SymbolChar, 4, None)]
    } else if state == 5 {
        seq![
            class_rule(CharClass::Newline, 0, Some(TokenEmitter::Comment)),
            class_rule(CharClass::NotNewline, 5, None),
        ]
    } else if state == 6 {
        seq![class_rule(CharClass::Whitespace, 6, None)]
    } else if state == 7 {
        seq![
            class_rule(CharClass::Alphabetic, 7, None),
            class_rule(CharClass::NotAlphabeticNorDelimiter, 0, Some(TokenEmitter::Character)),
        ]
    } else if state == 8 {
        seq![class_rule(CharClass::Digit, 1, None)]
    } else if state == 9 {
        seq![class_rule(CharClass::Digit, 9, None), class_rule(CharClass::ExponentMarker, 10, None)]
    } else if state == 10 {
        seq![class_rule(CharClass::Sign, 11, None), class_rule(CharClass::Digit, 10, None)]
    } else if state == 11 {
        seq![class_rule(CharClass::Digit, 10, None)]
    } else {
        seq![]
    }
}

/// What each state does when none of its rules matches.
pub open spec fn scheme_fallback(state: int) -> StateAction {
    let (next_state, emit) = if state == 0 {
        (0usize, Some(TokenEmitter::Error))
    } else if state == 1 {
        (0, Some(TokenEmitter::Number))
    } else if state == 2 {
        (2, Some(TokenEmitter::UnterminatedString))
    } else if state == 3 {
        (2, Some(TokenEmitter::UnterminatedString))
    } else if state == 4 {
        (0, Some(TokenEmitter::Symbol))
    } else if state == 5 {
        (0, Some(TokenEmitter::Comment))
    } else if state == 6 {
        (0, Some(TokenEmitter::Whitespace))
    } else if state == 7 {
        (0, Some(TokenEmitter::Character))
    } else if state == 8 {
        (0, Some(TokenEmitter::Symbol))
    } else if state == 9 {
        (0, Some(TokenEmitter::Number))
    } else if state == 10 {
        (0, Some(TokenEmitter::Number))
    } else {
        (0, Some(TokenEmitter::Error))
    };
    StateAction { next_state, emit_token: emit }
}

/// The state machine of the Scheme lexer.
pub open spec fn scheme_state_machine() -> StateMachineModel {
    StateMachineModel {
        rules: Seq::new(STATE_COUNT as nat, |s: int| scheme_rules(s)),
        fallback_rules: Seq::new(STATE_COUNT as nat, |s: int| scheme_fallback(s)),
    }
}

fn mk(pattern: Pattern, next_state: usize, emit: Option<TokenEmitter>) -> (r: TransitionRule)
    ensures
        r == rule(pattern, next_state, emit),
{
    TransitionRule::new(pattern, StateAction::new(next_state, emit))
}

fn mkc(cls: CharClass, next_state: usize, emit: Option<TokenEmitter>) -> (r: TransitionRule)
    ensures
        r == class_rule(cls, next_state, emit),
{
    mk(Pattern::CharClass(cls), next_state, emit)
}

fn initial_rules() -> (v: Vec<TransitionRule>)
    ensures
        v@ == scheme_rules(0),
{
    let v = vec![
        mk(Pattern::Char('('), 0, Some(TokenEmitter::LeftParen)),
        mk(Pattern::Char(')'), 0, Some(TokenEmitter::RightParen)),
        mk(Pattern::Char('['), 0, Some(TokenEmitter::LeftBracket)),
        mk(Pattern::Char(']'), 0, Some(TokenEmitter::RightBracket)),
        mk(Pattern::Char('\''), 0, Some(TokenEmitter::Quote)),
        mk(Pattern::Char('`'), 0, Some(TokenEmitter::Quasiquote)),
        mk(Pattern::String(",@"), 0, Some(TokenEmitter::UnquoteSplicing)),
        mk(Pattern::Char(','), 0, Some(TokenEmitter::Unquote)),
        mk(Pattern::Char('.'), 0, Some(TokenEmitter::Dot)),
        mk(Pattern::Char('"'), 2, None),
        mk(Pattern::Char(';'), 5, None),
        mkc(CharClass::Newline, 0, Some(TokenEmitter::Newline)),
        mkc(CharClass::Whitespace, 6, None),
        mk(Pattern::String("#("), 0, Some(TokenEmitter::VectorStart)),
        mk(Pattern::String("#\\"), 7, None),
        mkc(CharClass::Sign, 8, None),
        mkc(CharClass::Digit, 1, None),
        mkc(CharClass::SymbolStartNotSign, 4, None),
    ];
    assert(v@ =~= scheme_rules(0));
    v
}

/// Builds the state machine of the Scheme lexer.
pub fn get_scheme_state_machine() -> (m: StateMachine)
    ensures
        m@ == scheme_state_machine(),
{
    let r0 = initial_rules();
    let r1 = vec![
        mk(Pattern::Char('.'), 9, None),
        mkc(CharClass::ExponentMarker, 10, None),
        mkc(CharClass::Digit, 1, None),
    ];
    let r2 = vec![
        mk(Pattern::Char('"'), 0, Some(TokenEmitter::String)),
        mk(Pattern::Char('\\'), 3, None),
        mkc(CharClass::NotQuoteOrBackslash, 2, None),
    ];
    let r3 = vec![mkc(CharClass::Any, 2, None)];
    let r4 = vec![mkc(CharClass::SymbolChar, 4, None)];
    let r5 = vec![
        mkc(CharClass::Newline, 0, Some(TokenEmitter::Comment)),
        mkc(CharClass::NotNewline, 5, None),
    ];
    let r6 = vec![mkc(CharClass::Whitespace, 6, None)];
    let r7 = vec![
        mkc(CharClass::Alphabetic, 7, None),
        mkc(CharClass::NotAlphabeticNorDelimiter, 0, Some(TokenEmitter::Character)),
    ];
    let r8 = vec![mkc(CharClass::Digit, 1, None)];
    let r9 = vec![mkc(CharClass::Digit, 9, None), mkc(CharClass::ExponentMarker, 10, None)];
    let r10 = vec![mkc(CharClass::Sign, 11, None), mkc(CharClass::Digit, 10, None)];
    let r11 = vec![mkc(CharClass::Digit, 10, None)];
    assert(r1@ =~= scheme_rules(1));
    assert(r2@ =~= scheme_rules(2));
    assert(r3@ =~= scheme_rules(3));
    assert(r4@ =~= scheme_rules(4));
    assert(r5@ =~= scheme_rules(5));
    assert(r6@ =~= scheme_rules(6));
    assert(r7@ =~= scheme_rules(7));
    assert(r8@ =~= scheme_rules(8));
    assert(r9@ =~= scheme_rules(9));
    assert(r10@ =~= scheme_rules(10));
    assert(r11@ =~= scheme_rules(11));
    let rules = vec![r0, r1, r2, r3, r4, r5, r6, r7, r8, r9, r10, r11];
    let fallback_rules = vec![
        StateAction::new(0, Some(TokenEmitter::Error)),
        StateAction::new(0, Some(TokenEmitter::Number)),
        StateAction::new(2, Some(TokenEmitter::UnterminatedString)),
        StateAction::new(2, Some(TokenEmitter::UnterminatedString)),
        StateAction::new(0, Some(TokenEmitter::Symbol)),
        StateAction::new(0, Some(TokenEmitter::Comment)),
        StateAction::new(0, Some(TokenEmitter::Whitespace)),
        StateAction::new(0, Some(TokenEmitter::Character)),
        StateAction::new(0, Some(TokenEmitter::Symbol)),
        StateAction::new(0, Some(TokenEmitter::Number)),
        StateAction::new(0, Some(TokenEmitter::Number)),
        StateAction::new(0, Some(TokenEmitter::Error)),
    ];
    let m = StateMachine { rules, fallback_rules };
    assert(m@.rules =~= scheme_state_machine().rules);
    assert(m@.fallback_rules =~= scheme_state_machine().fallback_rules);
    m
}

} // verus!
