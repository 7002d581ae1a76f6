//! Printing S-expressions as Scheme text annotated with their spans.
//!
//! Every expression is followed by a datum comment `#; (start end)` that
//! gives its span.
use vstd::prelude::*;
use crate::lexer::types::Span;
use crate::parser::types::{
    ContentModel, Number, NumberModel, SExpr, SExprContent, SExprModel, Value, ValueModel,
};
use crate::text::{
    chars_of, decimal, push_char, push_decimal, push_signed_decimal, push_str, signed_decimal,
    str_byte_len, utf8_len,
};
use crate::lexer::rules::{character_name, escape_value, unescape};

verus! {

broadcast use vstd::string::group_string_axioms;

// ============================================================================
// Escaping
// ============================================================================

/// How a character of a string literal is written.
pub open spec fn escape_char_seq(c: char) -> Seq<char> {
    if c == '"' {
        seq!['\\', '"']
    } else if c == '\\' {
        seq!['\\', '\\']
    } else if c == '\n' {
        seq!['\\', 'n']
    } else if c == '\r' {
        seq!['\\', 'r']
    } else if c == '\t' {
        seq!['\\', 't']
    } else {
        seq![c]
    }
}

/// The body of the string literal for `s`: quotes, backslashes, newlines,
/// carriage returns and tabs escaped.
pub open spec fn escape_seq(s: Seq<char>) -> Seq<char>
    decreases s.len(),
{
    if s.len() == 0 {
        seq![]
    } else {
        escape_seq(s.drop_last()) + escape_char_seq(s.last())
    }
}

/// The name a character literal uses for `c`: `space`, `newline`,
/// `return` and `tab`, and the character itself otherwise.
pub open spec fn character_display(c: char) -> Seq<char> {
    if c == ' ' {
        "space"@
    } else if c == '\n' {
        "newline"@
    } else if c == '\r' {
        "return"@
    } else if c == '\t' {
        "tab"@
    } else {
        seq![c]
    }
}

/// Escapes quotes, backslashes, newlines, carriage returns and tabs.
pub fn escape_string(s: &str) -> (r: String)
    ensures
        r@ == escape_seq(s@),
{
    let chars = chars_of(s);
    let mut result = String::new();
    let mut i: usize = 0;
    while i < chars.len()
        invariant
            i <= chars@.len(),
            chars@ == s@,
            result@ == escape_seq(chars@.take(i as int)),
        decreases chars@.len() - i,
    {
        let c = chars[i];
        let ghost before = result@;
        if c == '"' {
            push_char(&mut result, '\\');
            push_char(&mut result, '"');
        } else if c == '\\' {
            push_char(&mut result, '\\');
            push_char(&mut result, '\\');
        } else if c == '\n' {
            push_char(&mut result, '\\');
            push_char(&mut result, 'n');
        } else if c == '\r' {
            push_char(&mut result, '\\');
            push_char(&mut result, 'r');
        } else if c == '\t' {
            push_char(&mut result, '\\');
            push_char(&mut result, 't');
        } else {
            push_char(&mut result, c);
        }
        proof {
            assert(chars@.take(i + 1).drop_last() =~= chars@.take(i as int));
            assert(result@ =~= before + escape_char_seq(c));
        }
        i = i + 1;
    }
    assert(chars@.take(chars@.len() as int) =~= chars@);
    result
}

/// The name a character literal uses for `c`.
pub fn escape_character(c: char) -> (r: String)
    ensures
        r@ == character_display(c),
{
    if c == ' ' {
        String::from_str("space")
    } else if c == '\n' {
        String::from_str("newline")
    } else if c == '\r' {
        String::from_str("return")
    } else if c == '\t' {
        String::from_str("tab")
    } else {
        let mut s = String::new();
        push_char(&mut s, c);
        s
    }
}

proof fn lemma_escape_concat(a: Seq<char>, b: Seq<char>)
    ensures
        escape_seq(a + b) == escape_seq(a) + escape_seq(b),
    decreases b.len(),
{
    if b.len() == 0 {
        assert(a + b =~= a);
        assert(escape_seq(a) + escape_seq(b) =~= escape_seq(a));
    } else {
        lemma_escape_concat(a, b.drop_last());
        assert((a + b).drop_last() =~= a + b.drop_last());
        assert((a + b).last() == b.last());
        assert(escape_seq(a) + escape_seq(b.drop_last()) + escape_char_seq(b.last()) =~= escape_seq(a)
            + (escape_seq(b.drop_last()) + escape_char_seq(b.last())));
    }
}

proof fn lemma_unescape_char(c: char, rest: Seq<char>, position: usize)
    ensures
        unescape(escape_char_seq(c) + rest, position) == match unescape(rest, position) {
            Ok(r) => Ok(seq![c] + r),
            Err(e) => Err(e),
        },
{
    let t = escape_char_seq(c) + rest;
    if t.len() > 0 && t[0] == '\\' {
        assert(escape_char_seq(c).len() == 2);
        assert(t.skip(2) =~= rest);
        assert(escape_value(t[1]) == Some(c));
    } else {
        assert(t.skip(1) =~= rest);
    }
}

/// Escaping a string for display is undone by the lexer: processing the
/// escapes of `escape_string(s)` gives back `s`, at any position.
pub proof fn lemma_unescape_inverts_escape(s: Seq<char>, position: usize)
    ensures
        unescape(escape_seq(s), position) == Ok::<Seq<char>, crate::lexer::types::LexErrorModel>(s),
    decreases s.len(),
{
    if s.len() == 0 {
        assert(s =~= Seq::<char>::empty());
        assert(escape_seq(s) == Seq::<char>::empty());
    } else {
        let rest = s.drop_first();
        lemma_unescape_inverts_escape(rest, position);
        assert(s =~= seq![s[0]] + rest);
        lemma_escape_concat(seq![s[0]], rest);
        assert(seq![s[0]].drop_last() =~= Seq::<char>::empty());
        assert(seq![s[0]].last() == s[0]);
        assert(escape_seq(Seq::<char>::empty()) == Seq::<char>::empty());
        assert(escape_seq(seq![s[0]]) == escape_seq(Seq::<char>::empty()) + escape_char_seq(s[0]));
        assert(escape_seq(seq![s[0]]) =~= escape_char_seq(s[0]));
        lemma_unescape_char(s[0], escape_seq(rest), position);
        assert(escape_seq(s) == escape_char_seq(s[0]) + escape_seq(rest));
        assert(unescape(escape_seq(rest), position) == Ok::<Seq<char>, crate::lexer::types::LexErrorModel>(rest));
    }
}

/// The name under which a character is displayed is read back by the
/// lexer as the same character.
pub proof fn lemma_character_name_inverts_display(c: char)
    ensures
        character_name(character_display(c)) == Some(c),
{
    reveal_strlit("space");
    reveal_strlit("newline");
    reveal_strlit("return");
    reveal_strlit("tab");
    if c != ' ' && c != '\n' && c != '\r' && c != '\t' {
        let d = seq![c];
        assert(d.len() == 1);
        assert(d != seq!['s', 'p', 'a', 'c', 'e']);
        assert(d != seq!['n', 'e', 'w', 'l', 'i', 'n', 'e']);
        assert(d != seq!['t', 'a', 'b']);
        assert(d != seq!['r', 'e', 't', 'u', 'r', 'n']);
    } else {
        assert("space"@ =~= seq!['s', 'p', 'a', 'c', 'e']);
        assert("newline"@ =~= seq!['n', 'e', 'w', 'l', 'i', 'n', 'e']);
        assert("tab"@ =~= seq!['t', 'a', 'b']);
        assert("return"@ =~= seq!['r', 'e', 't', 'u', 'r', 'n']);
    }
}

// ============================================================================
// Values
// ============================================================================

/// How a value is written: integers in decimal, floating-point literals as
/// they were read, strings quoted and escaped, characters as `#\name`,
/// booleans as `#t` and `#f`, symbols as they are. Numbers are not turned
/// into `f64` here, so a float literal keeps its text (`1.0` stays `1.0`,
/// `1e3` stays `1e3`) and an integer keeps all its digits, where printing
/// through `f64` would give `1`, `1000` and a rounded integer beyond 2^53.
pub open spec fn value_text(v: ValueModel) -> Seq<char> {
    match v {
        ValueModel::Number(NumberModel::Integer(n)) => signed_decimal(n as int),
        ValueModel::Number(NumberModel::Float(t)) => t,
        ValueModel::String(s) => seq!['"'] + escape_seq(s) + seq!['"'],
        ValueModel::Character(c) => seq!['#', '\\'] + character_display(c),
        ValueModel::Boolean(b) => if b {
            seq!['#', 't']
        } else {
            seq!['#', 'f']
        },
        ValueModel::Symbol(s) => s,
    }
}

impl Value {
    /// Appends how this value is written to `out`.
    pub fn write_to(&self, out: &mut String)
        ensures
            final(out)@ == old(out)@ + value_text(self@),
    {
        match self {
            Value::Number(Number::Integer(n)) => push_signed_decimal(out, *n),
            Value::Number(Number::Float(t)) => push_str(out, t.as_str()),
            Value::String(s) => {
                push_char(out, '"');
                let e = escape_string(s.as_str());
                push_str(out, e.as_str());
                push_char(out, '"');
                assert(out@ =~= old(out)@ + value_text(self@));
            },
            Value::Character(c) => {
                push_char(out, '#');
                push_char(out, '\\');
                let e = escape_character(*c);
                push_str(out, e.as_str());
                assert(out@ =~= old(out)@ + value_text(self@));
            },
            Value::Boolean(b) => {
                push_char(out, '#');
                push_char(out, if *b { 't' } else { 'f' });
                assert(out@ =~= old(out)@ + value_text(self@));
            },
            Value::Symbol(s) => push_str(out, s.as_str()),
        }
    }

    /// How this value is written.
    pub fn to_display_string(&self) -> (s: String)
        ensures
            s@ == value_text(self@),
    {
        let mut s = String::new();
        self.write_to(&mut s);
        assert(s@ =~= value_text(self@));
        s
    }
}

// ============================================================================
// Compact form
// ============================================================================

/// The span comment ` #; (start end)` written after an expression.
pub open spec fn span_comment(sp: Span) -> Seq<char> {
    " #; ("@ + decimal(sp.start as nat) + seq![' '] + decimal(sp.end as nat) + seq![')']
}

/// The number of nodes of an expression.
pub open spec fn size(e: SExprModel) -> nat
    decreases e,
{
    match e.content {
        ContentModel::Cons(car, cdr) => 1 + size(*car) + size(*cdr),
        ContentModel::Vector(items) => 1 + items_size(items),
        _ => 1,
    }
}

/// The number of nodes of the expressions in `items`, plus their count.
pub open spec fn items_size(items: Seq<SExprModel>) -> nat
    decreases items,
{
    if items.len() == 0 {
        0
    } else {
        1 + size(items[0]) + items_size(items.subrange(1, items.len() as int))
    }
}

/// An expression on one line: atoms and `()` as they are written, pairs in
/// list notation with ` . ` before a tail that is not a list, vectors as
/// `#(...)`; each followed by its span comment.
pub open spec fn compact(e: SExprModel) -> Seq<char>
    decreases size(e),
{
    match e.content {
        ContentModel::Atom(v) => value_text(v) + span_comment(e.span),
        ContentModel::Nil => "()"@ + span_comment(e.span),
        ContentModel::Cons(car, cdr) => seq!['('] + cons_text(*car, *cdr) + seq![')'] + span_comment(e.span),
        ContentModel::Vector(items) => "#("@ + items_text(items) + seq![')'] + span_comment(e.span),
    }
}

/// The elements of the list that starts with the pair `(car . cdr)`.
pub open spec fn cons_text(car: SExprModel, cdr: SExprModel) -> Seq<char>
    decreases size(car) + size(cdr),
{
    compact(car) + match cdr.content {
        ContentModel::Nil => seq![],
        ContentModel::Cons(a, d) => seq![' '] + cons_text(*a, *d),
        _ => " . "@ + compact(cdr),
    }
}

/// The elements of a vector, separated by single spaces.
pub open spec fn items_text(items: Seq<SExprModel>) -> Seq<char>
    decreases items_size(items),
{
    if items.len() == 0 {
        seq![]
    } else if items.len() == 1 {
        compact(items[0])
    } else {
        compact(items[0]) + seq![' '] + items_text(items.subrange(1, items.len() as int))
    }
}

/// `n` spaces.
pub open spec fn spaces(n: nat) -> Seq<char> {
    Seq::new(n, |i: int| ' ')
}

/// Appends `2 * indent` spaces to `out`.
fn push_indent(out: &mut String, indent: usize)
    ensures
        final(out)@ == old(out)@ + spaces(2 * indent as nat),
{
    let mut k: usize = 0;
    while k < indent
        invariant
            k <= indent,
            out@ == old(out)@ + spaces(2 * k as nat),
        decreases indent - k,
    {
        push_char(out, ' ');
        push_char(out, ' ');
        assert(out@ =~= old(out)@ + spaces(2 * (k + 1) as nat));
        k = k + 1;
    }
}

/// Appends the span comment for `sp` to `out`.
fn write_span_comment(out: &mut String, sp: Span)
    ensures
        final(out)@ == old(out)@ + span_comment(sp),
{
    push_str(out, " #; (");
    push_decimal(out, sp.start as u64);
    push_char(out, ' ');
    push_decimal(out, sp.end as u64);
    push_char(out, ')');
    assert(out@ =~= old(out)@ + span_comment(sp));
}

proof fn lemma_models_of(s: Seq<std::rc::Rc<SExpr>>)
    ensures
        crate::parser::types::models_of(s).len() == s.len(),
        forall|k: int| 0 <= k < s.len() ==> crate::parser::types::models_of(s)[k] == (*s[k]).model(),
    decreases s.len(),
{
    if s.len() > 0 {
        let rest = s.subrange(1, s.len() as int);
        lemma_models_of(rest);
        assert forall|k: int| 0 <= k < s.len() implies crate::parser::types::models_of(s)[k] == (
        *s[k]).model() by {
            if k > 0 {
                assert(rest[k - 1] == s[k]);
            }
        }
    }
}

impl SExpr {
    /// Appends the one-line form of this expression to `out`.
    pub fn write_compact(&self, out: &mut String)
        ensures
            final(out)@ == old(out)@ + compact(self.model()),
        decreases size(self.model()),
    {
        match &self.content {
            SExprContent::Atom(v) => {
                v.write_to(out);
            },
            SExprContent::Nil => {
                push_str(out, "()");
            },
            SExprContent::Cons { car, cdr } => {
                push_char(out, '(');
                Self::write_cons(car, cdr, out);
                push_char(out, ')');
            },
            SExprContent::Vector(items) => {
                push_str(out, "#(");
                let ghost models = crate::parser::types::models_of(items@);
                proof {
                    lemma_models_of(items@);
                    assert(models.subrange(0, models.len() as int) =~= models);
                }
                Self::write_items(items, 0, out);
                push_char(out, ')');
            },
        }
        write_span_comment(out, *self.span);
        assert(out@ =~= old(out)@ + compact(self.model()));
    }

    /// Appends the elements of the list that starts with `(car . cdr)`.
    fn write_cons(car: &SExpr, cdr: &SExpr, out: &mut String)
        ensures
            final(out)@ == old(out)@ + cons_text(car.model(), cdr.model()),
        decreases size(car.model()) + size(cdr.model()),
    {
        car.write_compact(out);
        match &cdr.content {
            SExprContent::Nil => {},
            SExprContent::Cons { car: a, cdr: d } => {
                push_char(out, ' ');
                Self::write_cons(a, d, out);
            },
            _ => {
                push_str(out, " . ");
                cdr.write_compact(out);
            },
        }
        assert(out@ =~= old(out)@ + cons_text(car.model(), cdr.model()));
    }

    /// Appends the vector elements from index `i` on, separated by spaces.
    fn write_items(items: &Vec<std::rc::Rc<SExpr>>, i: usize, out: &mut String)
        requires
            i <= items@.len(),
        ensures
            final(out)@ == old(out)@ + items_text(
                crate::parser::types::models_of(items@).subrange(i as int, items@.len() as int),
            ),
        decreases items_size(
            crate::parser::types::models_of(items@).subrange(i as int, items@.len() as int),
        ),
    {
        let ghost models = crate::parser::types::models_of(items@);
        let ghost sub = models.subrange(i as int, items@.len() as int);
        proof {
            lemma_models_of(items@);
        }
        let n = items.len();
        if i == n {
            assert(sub =~= Seq::<SExprModel>::empty());
            return;
        }
        assert(sub[0] == (*items@[i as int]).model());
        items[i].write_compact(out);
        if i + 1 < n {
            push_char(out, ' ');
            assert(sub.subrange(1, sub.len() as int) =~= models.subrange(i + 1, n as int));
            Self::write_items(items, i + 1, out);
        }
        assert(out@ =~= old(out)@ + items_text(sub));
    }

    /// The one-line form of this expression.
    pub fn fmt_compact(&self) -> (s: String)
        ensures
            s@ == compact(self.model()),
    {
        let mut s = String::new();
        self.write_compact(&mut s);
        assert(s@ =~= compact(self.model()));
        s
    }

    /// How this expression displays: its one-line form.
    pub fn to_display_string(&self) -> (s: String)
        ensures
            s@ == compact(self.model()),
    {
        self.fmt_compact()
    }

    /// The one-line form, followed, unless `inline`, by a line break and
    /// `indent` levels of two-space indentation.
    pub fn fmt_with_indent(&self, indent: usize, inline: bool) -> (s: String)
        ensures
            s@ == compact(self.model()) + if inline {
                Seq::<char>::empty()
            } else {
                seq!['\n'] + spaces(2 * indent as nat)
            },
    {
        let mut s = String::new();
        self.write_compact(&mut s);
        if !inline {
            push_char(&mut s, '\n');
            push_indent(&mut s, indent);
        }
        assert(s@ =~= compact(self.model()) + if inline {
            Seq::<char>::empty()
        } else {
            seq!['\n'] + spaces(2 * indent as nat)
        });
        s
    }

    /// The one-line form followed by a line break.
    pub fn fmt_pretty(&self) -> (s: String)
        ensures
            s@ == compact(self.model()) + seq!['\n'],
    {
        let s = self.fmt_with_indent(0, false);
        assert(spaces(0) =~= Seq::<char>::empty());
        assert(s@ =~= compact(self.model()) + seq!['\n']);
        s
    }
}

// ============================================================================
// Pretty form
// ============================================================================

/// How deep the indentation of an expression's pretty form goes below the
/// expression's own.
pub open spec fn height(e: SExprModel) -> nat
    decreases size(e),
{
    match e.content {
        ContentModel::Cons(car, cdr) => 1 + cons_height(*car, *cdr),
        ContentModel::Vector(items) => 1 + items_height(items),
        _ => 0,
    }
}

/// The deepest indentation of the elements of the list that starts with
/// `(car . cdr)`.
pub open spec fn cons_height(car: SExprModel, cdr: SExprModel) -> nat
    decreases size(car) + size(cdr),
{
    let rest: nat = match cdr.content {
        ContentModel::Nil => 0,
        ContentModel::Cons(a, d) => cons_height(*a, *d),
        _ => height(cdr),
    };
    if height(car) >= rest {
        height(car)
    } else {
        rest
    }
}

/// The deepest indentation of the expressions in `items`.
pub open spec fn items_height(items: Seq<SExprModel>) -> nat
    decreases items_size(items),
{
    if items.len() == 0 {
        0
    } else {
        let rest = items_height(items.subrange(1, items.len() as int));
        if height(items[0]) >= rest {
            height(items[0])
        } else {
            rest
        }
    }
}

/// The span note `#; (start end)` of a pretty line.
pub open spec fn span_info(sp: Span) -> Seq<char> {
    "#; ("@ + decimal(sp.start as nat) + seq![' '] + decimal(sp.end as nat) + seq![')']
}

/// The lines of the pretty form of `e` at indentation level `indent`: pairs
/// of the indented text and the span note (empty for opening lines and
/// dots). Atoms and `()` take one line; a pair or a non-empty vector an
/// opening line, its elements one level deeper, and a closing line.
pub open spec fn pretty_lines(e: SExprModel, indent: nat) -> Seq<(Seq<char>, Seq<char>)>
    decreases size(e),
{
    let ind = spaces(2 * indent);
    match e.content {
        ContentModel::Atom(v) => seq![(ind + value_text(v), span_info(e.span))],
        ContentModel::Nil => seq![(ind + "()"@, span_info(e.span))],
        ContentModel::Cons(car, cdr) => seq![(ind + "("@, Seq::<char>::empty())] + cons_lines(
            *car,
            *cdr,
            indent + 1,
        ) + seq![(ind + ")"@, span_info(e.span))],
        ContentModel::Vector(items) => if items.len() == 0 {
            seq![(ind + "#()"@, span_info(e.span))]
        } else {
            seq![(ind + "#("@, Seq::<char>::empty())] + items_lines(items, indent + 1) + seq![
                (ind + ")"@, span_info(e.span)),
            ]
        },
    }
}

/// The lines of the elements of the list that starts with `(car . cdr)`;
/// a tail that is not a list comes after a line holding a dot.
pub open spec fn cons_lines(car: SExprModel, cdr: SExprModel, indent: nat) -> Seq<(Seq<char>, Seq<char>)>
    decreases size(car) + size(cdr),
{
    pretty_lines(car, indent) + match cdr.content {
        ContentModel::Nil => Seq::<(Seq<char>, Seq<char>)>::empty(),
        ContentModel::Cons(a, d) => cons_lines(*a, *d, indent),
        _ => seq![(spaces(2 * indent) + "."@, Seq::<char>::empty())] + pretty_lines(cdr, indent),
    }
}

/// The lines of the expressions in `items`.
pub open spec fn items_lines(items: Seq<SExprModel>, indent: nat) -> Seq<(Seq<char>, Seq<char>)>
    decreases items_size(items),
{
    if items.len() == 0 {
        seq![]
    } else {
        pretty_lines(items[0], indent) + items_lines(items.subrange(1, items.len() as int), indent)
    }
}

/// The length of `s` in UTF-8 bytes.
pub open spec fn byte_len(s: Seq<char>) -> nat {
    utf8_len(s)
}

/// The widest text of `lines`, in UTF-8 bytes.
pub open spec fn max_width(lines: Seq<(Seq<char>, Seq<char>)>) -> nat
    decreases lines.len(),
{
    if lines.len() == 0 {
        0
    } else {
        let w = byte_len(lines.last().0);
        let rest = max_width(lines.drop_last());
        if w >= rest {
            w
        } else {
            rest
        }
    }
}

/// A line as printed: a line without span note as it is; otherwise the
/// text padded with spaces to `width` characters, a space, and the note.
pub open spec fn render_line(line: (Seq<char>, Seq<char>), width: nat) -> Seq<char> {
    if line.1.len() == 0 {
        line.0
    } else {
        let pad: nat = if width > line.0.len() {
            (width - line.0.len()) as nat
        } else {
            0
        };
        line.0 + spaces(pad) + seq![' '] + line.1
    }
}

/// The printed lines, separated by line breaks.
pub open spec fn join_lines(lines: Seq<(Seq<char>, Seq<char>)>, width: nat) -> Seq<char>
    decreases lines.len(),
{
    if lines.len() == 0 {
        seq![]
    } else if lines.len() == 1 {
        render_line(lines[0], width)
    } else {
        join_lines(lines.drop_last(), width) + seq!['\n'] + render_line(lines.last(), width)
    }
}

/// The pretty form of `e`: its lines, with the span notes aligned after
/// the widest text.
pub open spec fn pretty(e: SExprModel) -> Seq<char> {
    let lines = pretty_lines(e, 0);
    join_lines(lines, max_width(lines))
}

/// The models of pretty lines.
pub open spec fn lines_model(v: Seq<(String, String)>) -> Seq<(Seq<char>, Seq<char>)> {
    v.map_values(|p: (String, String)| (p.0@, p.1@))
}

fn push_line(lines: &mut Vec<(String, String)>, content: String, info: String)
    ensures
        lines_model(final(lines)@) == lines_model(old(lines)@).push((content@, info@)),
{
    lines.push((content, info));
    assert(lines_model(lines@) =~= lines_model(old(lines)@).push((content@, info@)));
}

fn indented(indent: usize, text: &str) -> (s: String)
    ensures
        s@ == spaces(2 * indent as nat) + text@,
{
    let mut s = String::new();
    push_indent(&mut s, indent);
    push_str(&mut s, text);
    s
}

fn span_info_text(sp: Span) -> (s: String)
    ensures
        s@ == span_info(sp),
{
    let mut s = String::new();
    push_str(&mut s, "#; (");
    push_decimal(&mut s, sp.start as u64);
    push_char(&mut s, ' ');
    push_decimal(&mut s, sp.end as u64);
    push_char(&mut s, ')');
    assert(s@ =~= span_info(sp));
    s
}

impl SExpr {
    /// Appends the pretty lines of this expression at level `indent`.
    fn fmt_pretty_to_lines(&self, lines: &mut Vec<(String, String)>, indent: usize)
        requires
            indent + height(self.model()) <= usize::MAX,
        ensures
            lines_model(final(lines)@) == lines_model(old(lines)@) + pretty_lines(
                self.model(),
                indent as nat,
            ),
        decreases size(self.model()),
    {
        let ghost before = lines_model(lines@);
        match &self.content {
            SExprContent::Atom(value) => {
                let mut content = String::new();
                push_indent(&mut content, indent);
                value.write_to(&mut content);
                push_line(lines, content, span_info_text(*self.span));
                assert(lines_model(lines@) =~= before + pretty_lines(self.model(), indent as nat));
            },
            SExprContent::Nil => {
                push_line(lines, indented(indent, "()"), span_info_text(*self.span));
            },
            SExprContent::Cons { car, cdr } => {
                push_line(lines, indented(indent, "("), String::new());
                Self::fmt_cons_pretty_to_lines(lines, car, cdr, indent + 1);
                push_line(lines, indented(indent, ")"), span_info_text(*self.span));
            },
            SExprContent::Vector(items) => {
                let ghost models = crate::parser::types::models_of(items@);
                proof {
                    lemma_models_of(items@);
                    assert(models.subrange(0, models.len() as int) =~= models);
                }
                if items.len() == 0 {
                    push_line(lines, indented(indent, "#()"), span_info_text(*self.span));
                } else {
                    push_line(lines, indented(indent, "#("), String::new());
                    Self::items_to_lines(lines, items, 0, indent + 1);
                    push_line(lines, indented(indent, ")"), span_info_text(*self.span));
                }
            },
        }
        assert(lines_model(lines@) =~= before + pretty_lines(self.model(), indent as nat));
    }

    /// Appends the lines of the elements of the list that starts with
    /// `(car . cdr)`.
    fn fmt_cons_pretty_to_lines(lines: &mut Vec<(String, String)>, car: &SExpr, cdr: &SExpr, indent: usize)
        requires
            indent + cons_height(car.model(), cdr.model()) <= usize::MAX,
        ensures
            lines_model(final(lines)@) == lines_model(old(lines)@) + cons_lines(
                car.model(),
                cdr.model(),
                indent as nat,
            ),
        decreases size(car.model()) + size(cdr.model()),
    {
        let ghost before = lines_model(lines@);
        car.fmt_pretty_to_lines(lines, indent);
        match &cdr.content {
            SExprContent::Nil => {},
            SExprContent::Cons { car: next_car, cdr: next_cdr } => {
                Self::fmt_cons_pretty_to_lines(lines, next_car, next_cdr, indent);
            },
            _ => {
                push_line(lines, indented(indent, "."), String::new());
                cdr.fmt_pretty_to_lines(lines, indent);
            },
        }
        assert(lines_model(lines@) =~= before + cons_lines(car.model(), cdr.model(), indent as nat));
    }

    /// Appends the lines of the vector elements from index `i` on.
    fn items_to_lines(lines: &mut Vec<(String, String)>, items: &Vec<std::rc::Rc<SExpr>>, i: usize, indent: usize)
        requires
            i <= items@.len(),
            indent + items_height(
                crate::parser::types::models_of(items@).subrange(i as int, items@.len() as int),
            ) <= usize::MAX,
        ensures
            lines_model(final(lines)@) == lines_model(old(lines)@) + items_lines(
                crate::parser::types::models_of(items@).subrange(i as int, items@.len() as int),
                indent as nat,
            ),
        decreases items_size(
            crate::parser::types::models_of(items@).subrange(i as int, items@.len() as int),
        ),
    {
        let ghost models = crate::parser::types::models_of(items@);
        let ghost sub = models.subrange(i as int, items@.len() as int);
        let ghost before = lines_model(lines@);
        proof {
            lemma_models_of(items@);
        }
        let n = items.len();
        if i == n {
            assert(sub =~= Seq::<SExprModel>::empty());
            assert(lines_model(lines@) =~= before + items_lines(sub, indent as nat));
            return;
        }
        assert(sub[0] == (*items@[i as int]).model());
        assert(sub.subrange(1, sub.len() as int) =~= models.subrange(i + 1, n as int));
        items[i].fmt_pretty_to_lines(lines, indent);
        Self::items_to_lines(lines, items, i + 1, indent);
        assert(lines_model(lines@) =~= before + items_lines(sub, indent as nat));
    }

    /// The pretty form of this expression (see [`pretty`]).
    pub fn to_pretty_string(&self) -> (s: String)
        requires
            height(self.model()) <= usize::MAX,
        ensures
            s@ == pretty(self.model()),
    {
        let mut lines: Vec<(String, String)> = Vec::new();
        self.fmt_pretty_to_lines(&mut lines, 0);
        let ghost model = lines_model(lines@);
        assert(model =~= pretty_lines(self.model(), 0));
        let n = lines.len();
        let mut width: usize = 0;
        let mut i: usize = 0;
        assert(model.take(0) =~= Seq::<(Seq<char>, Seq<char>)>::empty());
        while i < n
            invariant
                i <= n == lines@.len(),
                model == lines_model(lines@),
                width == max_width(model.take(i as int)),
            decreases n - i,
        {
            let w = str_byte_len(lines[i].0.as_str());
            proof {
                assert(model.take(i + 1).drop_last() =~= model.take(i as int));
                assert(model.take(i + 1).last() == model[i as int]);
                assert(model[i as int].0 == lines@[i as int].0@);
            }
            if w > width {
                width = w;
            }
            i = i + 1;
        }
        assert(model.take(n as int) =~= model);
        let mut out = String::new();
        let mut j: usize = 0;
        while j < n
            invariant
                j <= n == lines@.len(),
                model == lines_model(lines@),
                width == max_width(model),
                out@ == join_lines(model.take(j as int), width as nat),
            decreases n - j,
        {
            let ghost prev = out@;
            if j > 0 {
                push_char(&mut out, '\n');
            }
            let ghost line_start = out@;
            let content = &lines[j].0;
            let info = &lines[j].1;
            assert(model[j as int] == (content@, info@));
            push_str(&mut out, content.as_str());
            if !info.as_str().is_empty() {
                let chars = content.as_str().unicode_len();
                let mut k: usize = chars;
                while k < width
                    invariant
                        chars <= k,
                        chars == content@.len(),
                        k <= width || k == chars,
                        out@ == line_start + content@ + spaces((k - chars) as nat),
                    decreases width - k,
                {
                    push_char(&mut out, ' ');
                    assert(out@ =~= line_start + content@ + spaces((k + 1 - chars) as nat));
                    k = k + 1;
                }
                push_char(&mut out, ' ');
                push_str(&mut out, info.as_str());
            }
            proof {
                assert(out@ =~= line_start + render_line(model[j as int], width as nat));
                assert(model.take(j + 1).drop_last() =~= model.take(j as int));
                assert(model.take(j + 1).last() == model[j as int]);
                if j == 0 {
                    assert(model.take(1) =~= seq![model[0]]);
                }
            }
            j = j + 1;
        }
        out
    }
}

} // verus!
