use std::rc::Rc;

use arbores::lexer::types::Span;
use arbores::parser::display::{escape_character, escape_string};
use arbores::parser::types::{Number, SExpr, SExprContent, Value};

fn integer(n: i64) -> Value {
    Value::Number(Number::Integer(n))
}

#[test]
fn test_atom_display() {
    let span = Span::new(0, 5);
    let number = SExpr::with_span(SExprContent::Atom(integer(42)), span);
    assert_eq!(number.to_display_string(), "42 #; (0 5)");

    let symbol = SExpr::with_span(SExprContent::Atom(Value::Symbol("hello".to_string())), span);
    assert_eq!(symbol.to_display_string(), "hello #; (0 5)");
}

#[test]
fn test_nil_display() {
    let span = Span::new(0, 2);
    let nil = SExpr::with_span(SExprContent::Nil, span);
    assert_eq!(nil.to_display_string(), "() #; (0 2)");
}

#[test]
fn test_simple_list_display() {
    let span1 = Span::new(1, 2);
    let span2 = Span::new(3, 4);
    let span_list = Span::new(0, 5);

    let car = Rc::new(SExpr::with_span(SExprContent::Atom(integer(1)), span1));
    let cdr = Rc::new(SExpr::with_span(SExprContent::Atom(integer(2)), span2));
    let nil = Rc::new(SExpr::with_span(SExprContent::Nil, Span::new(4, 5)));

    let cdr_cons = Rc::new(SExpr::with_span(SExprContent::Cons { car: cdr, cdr: nil }, Span::new(3, 5)));
    let list = SExpr::with_span(SExprContent::Cons { car, cdr: cdr_cons }, span_list);

    assert_eq!(list.to_display_string(), "(1 #; (1 2) 2 #; (3 4)) #; (0 5)");
}

#[test]
fn test_dotted_pair_display() {
    let span1 = Span::new(1, 2);
    let span2 = Span::new(5, 6);
    let span_pair = Span::new(0, 7);

    let car = Rc::new(SExpr::with_span(SExprContent::Atom(integer(1)), span1));
    let cdr = Rc::new(SExpr::with_span(SExprContent::Atom(integer(2)), span2));

    let pair = SExpr::with_span(SExprContent::Cons { car, cdr }, span_pair);

    assert_eq!(pair.to_display_string(), "(1 #; (1 2) . 2 #; (5 6)) #; (0 7)");
}

#[test]
fn test_vector_display() {
    let span1 = Span::new(2, 3);
    let span2 = Span::new(4, 5);
    let span_vector = Span::new(0, 6);

    let elem1 = Rc::new(SExpr::with_span(SExprContent::Atom(integer(1)), span1));
    let elem2 = Rc::new(SExpr::with_span(SExprContent::Atom(integer(2)), span2));

    let vector = SExpr::with_span(SExprContent::Vector(vec![elem1, elem2]), span_vector);

    assert_eq!(vector.to_display_string(), "#(1 #; (2 3) 2 #; (4 5)) #; (0 6)");
}

#[test]
fn test_string_escaping() {
    let span = Span::new(0, 10);
    let string_with_quotes =
        SExpr::with_span(SExprContent::Atom(Value::String("hello \"world\"".to_string())), span);
    assert_eq!(string_with_quotes.to_display_string(), "\"hello \\\"world\\\"\" #; (0 10)");
}

#[test]
fn test_character_display() {
    let span = Span::new(0, 3);

    let space_char = SExpr::with_span(SExprContent::Atom(Value::Character(' ')), span);
    assert_eq!(space_char.to_display_string(), "#\\space #; (0 3)");

    let newline_char = SExpr::with_span(SExprContent::Atom(Value::Character('\n')), span);
    assert_eq!(newline_char.to_display_string(), "#\\newline #; (0 3)");

    let regular_char = SExpr::with_span(SExprContent::Atom(Value::Character('a')), span);
    assert_eq!(regular_char.to_display_string(), "#\\a #; (0 3)");
}

#[test]
fn test_boolean_display() {
    let span = Span::new(0, 2);

    let true_val = SExpr::with_span(SExprContent::Atom(Value::Boolean(true)), span);
    assert_eq!(true_val.to_display_string(), "#t #; (0 2)");

    let false_val = SExpr::with_span(SExprContent::Atom(Value::Boolean(false)), span);
    assert_eq!(false_val.to_display_string(), "#f #; (0 2)");
}

#[test]
fn test_number_formatting() {
    let span = Span::new(0, 5);

    let integer = SExpr::with_span(SExprContent::Atom(integer(42)), span);
    assert_eq!(integer.to_display_string(), "42 #; (0 5)");

    let float = SExpr::with_span(SExprContent::Atom(Value::Number(Number::Float("3.14".to_string()))), span);
    assert_eq!(float.to_display_string(), "3.14 #; (0 5)");
}

#[test]
fn test_pretty_string_simple() {
    let span = Span::new(0, 2);
    let atom = SExpr::with_span(SExprContent::Atom(integer(42)), span);

    assert_eq!(atom.to_pretty_string(), "42 #; (0 2)");
}

fn symbol(name: &str, span: Span) -> Rc<SExpr> {
    Rc::new(SExpr::with_span(SExprContent::Atom(Value::Symbol(name.to_string())), span))
}

#[test]
fn test_pretty_string_list() {
    let span_a = Span::new(1, 2);
    let span_b = Span::new(3, 4);
    let span_c = Span::new(5, 6);
    let span_list = Span::new(0, 7);

    let a = symbol("a", span_a);
    let b = symbol("b", span_b);
    let c = symbol("c", span_c);

    let nil = Rc::new(SExpr::with_span(SExprContent::Nil, span_c));
    let list_c = Rc::new(SExpr::with_span(SExprContent::Cons { car: c, cdr: nil }, span_list));
    let list_bc = Rc::new(SExpr::with_span(SExprContent::Cons { car: b, cdr: list_c }, span_list));
    let list_abc = SExpr::with_span(SExprContent::Cons { car: a, cdr: list_bc }, span_list);

    let pretty = list_abc.to_pretty_string();
    assert!(pretty.contains('\n'));
    assert!(pretty.contains("  a"));
    assert!(pretty.contains("  b"));
    assert!(pretty.contains("  c"));
    assert!(pretty.contains("#; (1 2)"));
    assert!(pretty.contains("#; (3 4)"));
    assert!(pretty.contains("#; (5 6)"));
    assert!(pretty.contains("#; (0 7)"));
    assert_eq!(pretty, "(\n  a #; (1 2)\n  b #; (3 4)\n  c #; (5 6)\n)   #; (0 7)");
}

#[test]
fn test_pretty_string_nested() {
    let span_a = Span::new(1, 2);
    let span_b = Span::new(4, 5);
    let span_c = Span::new(6, 7);
    let span_inner = Span::new(3, 8);
    let span_outer = Span::new(0, 9);

    let a = symbol("a", span_a);
    let b = symbol("b", span_b);
    let c = symbol("c", span_c);

    let nil = Rc::new(SExpr::with_span(SExprContent::Nil, span_c));
    let inner_list = Rc::new(SExpr::with_span(
        SExprContent::Cons {
            car: b,
            cdr: Rc::new(SExpr::with_span(SExprContent::Cons { car: c, cdr: nil.clone() }, span_inner)),
        },
        span_inner,
    ));

    let outer_list = SExpr::with_span(
        SExprContent::Cons {
            car: a,
            cdr: Rc::new(SExpr::with_span(SExprContent::Cons { car: inner_list, cdr: nil }, span_outer)),
        },
        span_outer,
    );

    let pretty = outer_list.to_pretty_string();
    assert!(pretty.contains('\n'));
    assert!(pretty.contains("  a"));
    assert!(pretty.contains("    b"));
    assert!(pretty.contains("    c"));
    assert!(pretty.contains("#; (1 2)"));
    assert!(pretty.contains("#; (4 5)"));
    assert!(pretty.contains("#; (6 7)"));
    assert!(pretty.contains("#; (3 8)"));
    assert!(pretty.contains("#; (0 9)"));
}

#[test]
fn escaping_helpers() {
    assert_eq!(escape_string("a\"b\\c\nd\re\tf"), "a\\\"b\\\\c\\nd\\re\\tf");
    assert_eq!(escape_string(""), "");
    assert_eq!(escape_character(' '), "space");
    assert_eq!(escape_character('\n'), "newline");
    assert_eq!(escape_character('\r'), "return");
    assert_eq!(escape_character('\t'), "tab");
    assert_eq!(escape_character('('), "(");
    assert_eq!(escape_character('λ'), "λ");
}

#[test]
fn indented_and_pretty_forms() {
    let atom = SExpr::with_span(SExprContent::Atom(integer(-7)), Span::new(3, 5));
    assert_eq!(atom.fmt_compact(), "-7 #; (3 5)");
    assert_eq!(atom.fmt_with_indent(2, true), "-7 #; (3 5)");
    assert_eq!(atom.fmt_with_indent(2, false), "-7 #; (3 5)\n    ");
    assert_eq!(atom.fmt_pretty(), "-7 #; (3 5)\n");
    let empty_vec = SExpr::with_span(SExprContent::Vector(vec![]), Span::new(0, 3));
    assert_eq!(empty_vec.to_display_string(), "#() #; (0 3)");
    assert_eq!(empty_vec.to_pretty_string(), "#() #; (0 3)");
}

#[test]
fn pretty_dotted_pair() {
    let pair = SExpr::with_span(
        SExprContent::Cons { car: symbol("a", Span::new(1, 2)), cdr: symbol("bb", Span::new(5, 7)) },
        Span::new(0, 8),
    );
    assert_eq!(pair.to_pretty_string(), "(\n  a  #; (1 2)\n  .\n  bb #; (5 7)\n)    #; (0 8)");
}
