//! Rebuilding source text from the tokens the parser consumes.
use vstd::prelude::*;
use crate::lexer::types::{Token, TokenModel, TokenType, TokenTypeModel};
use crate::text::{lemma_utf8_len_zero_iff_empty, push_char, str_byte_len, utf8_len};

verus! {

/// Model of a [`SourceBuilder`]: the text so far, and whether the next
/// token that asks for separation gets a space before it.
pub ghost struct SourceBuilderModel {
    pub text: Seq<char>,
    pub need_space: bool,
}

/// Whether a token of type `t` is separated from what precedes it: all but
/// closing brackets, the dot, and trivia.
pub open spec fn spaced_before(t: TokenTypeModel) -> bool {
    !(t is RightParen || t is RightBracket || t is Dot || t is Whitespace || t is Newline
        || t is Comment)
}

/// Whether what follows a token of type `t` is separated from it: all but
/// opening brackets, quotation marks, and trivia.
pub open spec fn spaced_after(t: TokenTypeModel) -> bool {
    !(t is LeftParen || t is LeftBracket || t is Quote || t is Quasiquote || t is Unquote
        || t is UnquoteSplicing || t is Whitespace || t is Newline || t is Comment)
}

/// The builder after adding `t`. Trivia is copied as it is and leaves the
/// spacing state alone; any other token gets a space before it when it
/// asks for one, the previous token asked for one, and the text is not
/// empty.
pub open spec fn builder_add(m: SourceBuilderModel, t: TokenModel) -> SourceBuilderModel {
    if t.token_type.is_trivia() {
        SourceBuilderModel { text: m.text + t.raw_text, need_space: m.need_space }
    } else {
        let gap: Seq<char> = if spaced_before(t.token_type) && m.need_space && m.text.len() > 0 {
            seq![' ']
        } else {
            seq![]
        };
        SourceBuilderModel { text: m.text + gap + t.raw_text, need_space: spaced_after(t.token_type) }
    }
}

/// A fresh builder.
pub open spec fn builder_empty() -> SourceBuilderModel {
    SourceBuilderModel { text: seq![], need_space: false }
}

/// The builder after adding the tokens of `ts` in order to `m`.
pub open spec fn builder_add_all(m: SourceBuilderModel, ts: Seq<TokenModel>) -> SourceBuilderModel
    decreases ts.len(),
{
    if ts.len() == 0 {
        m
    } else {
        builder_add(builder_add_all(m, ts.drop_last()), ts.last())
    }
}

/// The text rebuilt from the tokens `ts`.
pub open spec fn rebuilt_text(ts: Seq<TokenModel>) -> Seq<char> {
    builder_add_all(builder_empty(), ts).text
}

/// The raw texts of `ts` in order, each preceded by a single space where
/// `gaps` holds.
pub open spec fn interleave(ts: Seq<TokenModel>, gaps: Seq<bool>) -> Seq<char>
    decreases ts.len(),
{
    if ts.len() == 0 || gaps.len() != ts.len() {
        seq![]
    } else {
        interleave(ts.drop_last(), gaps.drop_last()) + (if gaps.last() {
            seq![' ']
        } else {
            Seq::<char>::empty()
        }) + ts.last().raw_text
    }
}

/// Where the builder puts a space when it rebuilds `ts`.
spec fn space_gaps(ts: Seq<TokenModel>) -> Seq<bool>
    decreases ts.len(),
{
    if ts.len() == 0 {
        seq![]
    } else {
        let m = builder_add_all(builder_empty(), ts.drop_last());
        let t = ts.last();
        space_gaps(ts.drop_last()).push(
            !t.token_type.is_trivia() && spaced_before(t.token_type) && m.need_space && m.text.len()
                > 0,
        )
    }
}

proof fn lemma_space_gaps(ts: Seq<TokenModel>)
    ensures
        space_gaps(ts).len() == ts.len(),
        forall|i: int|
            0 <= i < ts.len() && #[trigger] space_gaps(ts)[i] ==> !ts[i].token_type.is_trivia()
                && spaced_before(ts[i].token_type),
        interleave(ts, space_gaps(ts)) == rebuilt_text(ts),
    decreases ts.len(),
{
    if ts.len() > 0 {
        let init = ts.drop_last();
        lemma_space_gaps(init);
        let g = space_gaps(ts);
        assert(g.drop_last() =~= space_gaps(init));
        assert forall|i: int|
            0 <= i < ts.len() && #[trigger] space_gaps(ts)[i] implies !ts[i].token_type.is_trivia()
                && spaced_before(ts[i].token_type) by {
            if i < ts.len() - 1 {
                assert(space_gaps(ts)[i] == space_gaps(init)[i]);
                assert(ts[i] == init[i]);
            }
        }
        let m = builder_add_all(builder_empty(), init);
        let t = ts.last();
        if t.token_type.is_trivia() {
            assert(rebuilt_text(ts) =~= rebuilt_text(init) + Seq::<char>::empty() + t.raw_text);
        }
    }
}

/// The rebuilt text keeps every token's raw text as it is and in order: it
/// is the raw texts, each preceded by nothing or by a single space, and a
/// space comes only before a token that is not trivia and asks for
/// separation.
pub proof fn lemma_rebuilt_text_keeps_raw_text(ts: Seq<TokenModel>)
    ensures
        exists|gaps: Seq<bool>|
            {
                &&& gaps.len() == ts.len()
                &&& forall|i: int|
                    0 <= i < ts.len() && #[trigger] gaps[i] ==> !ts[i].token_type.is_trivia()
                        && spaced_before(ts[i].token_type)
                &&& interleave(ts, gaps) == rebuilt_text(ts)
            },
{
    lemma_space_gaps(ts);
    let gaps = space_gaps(ts);
    assert(interleave(ts, gaps) == rebuilt_text(ts));
}

/// Rebuilds source text from tokens: keeps each token's raw text and puts
/// single spaces between tokens where the language needs them.
#[derive(Debug)]
pub struct SourceBuilder {
    text: String,
    need_space: bool,
}

impl View for SourceBuilder {
    type V = SourceBuilderModel;

    closed spec fn view(&self) -> SourceBuilderModel {
        SourceBuilderModel { text: self.text@, need_space: self.need_space }
    }
}

impl Clone for SourceBuilder {
    fn clone(&self) -> (r: SourceBuilder)
        ensures
            r@ == self@,
    {
        SourceBuilder { text: self.text.clone(), need_space: self.need_space }
    }
}

impl SourceBuilder {
    /// An empty builder.
    pub fn new() -> (b: SourceBuilder)
        ensures
            b@ == builder_empty(),
    {
        SourceBuilder { text: String::new(), need_space: false }
    }

    /// Appends `token` (see [`builder_add`]).
    pub fn add_token(&mut self, token: &Token)
        ensures
            final(self)@ == builder_add(old(self)@, token@),
    {
        if token.token_type.is_trivia() {
            self.text.append(token.raw_text.as_str());
            return;
        }
        let needs_spacing = Self::should_add_space(&token.token_type);
        if needs_spacing && self.need_space && !self.text.as_str().is_empty() {
            push_char(&mut self.text, ' ');
        }
        self.text.append(token.raw_text.as_str());
        self.need_space = Self::should_space_after(&token.token_type);
        proof {
            let gap: Seq<char> = if spaced_before(token.token_type@) && old(self)@.need_space
                && old(self)@.text.len() > 0 {
                seq![' ']
            } else {
                seq![]
            };
            assert(self.text@ =~= old(self)@.text + gap + token.raw_text@);
        }
    }

    /// The text built so far.
    pub fn build(self) -> (s: String)
        ensures
            s@ == self@.text,
    {
        self.text
    }

    /// Length of the text in bytes (UTF-8); zero exactly when the text is
    /// empty.
    pub fn len(&self) -> (n: usize)
        ensures
            n == utf8_len(self@.text),
            (n == 0) == (self@.text.len() == 0),
    {
        proof {
            lemma_utf8_len_zero_iff_empty(self@.text);
        }
        str_byte_len(self.text.as_str())
    }

    /// Whether the text is empty.
    pub fn is_empty(&self) -> (b: bool)
        ensures
            b == (self@.text.len() == 0),
    {
        self.text.as_str().is_empty()
    }

    /// Whether a token of this type is separated from what precedes it.
    fn should_add_space(token_type: &TokenType) -> (b: bool)
        ensures
            b == spaced_before(token_type@),
    {
        match token_type {
            TokenType::RightParen | TokenType::RightBracket | TokenType::Dot | TokenType::Whitespace(
                _,
            ) | TokenType::Newline | TokenType::Comment(_) => false,
            _ => true,
        }
    }

    /// Whether what follows a token of this type is separated from it.
    fn should_space_after(token_type: &TokenType) -> (b: bool)
        ensures
            b == spaced_after(token_type@),
    {
        match token_type {
            TokenType::LeftParen | TokenType::LeftBracket | TokenType::Quote | TokenType::Quasiquote
            | TokenType::Unquote | TokenType::UnquoteSplicing | TokenType::Whitespace(_)
            | TokenType::Newline | TokenType::Comment(_) => false,
            _ => true,
        }
    }
}

impl Default for SourceBuilder {
    fn default() -> (b: SourceBuilder)
        ensures
            b@ == builder_empty(),
    {
        SourceBuilder::new()
    }
}

} // verus!
