use syntax::input::CharStream;
use syntax::parse::ParseResult;
use syntax::parse::Parser;
use syntax::symbol::SymbolProperties;

#[test]
fn parse_literal() {
    let mut parser = Parser::new();
    let symbol = parser.sequence_chars("test", SymbolProperties::new("", false, false));
    parser.root_node(&symbol);

    let mut stream = CharStream::from("test");

    assert!(matches!(parser.parse(&mut stream), ParseResult::Parsed(_)));
    assert_eq!((1, 5), stream.get_loc());
}

#[test]
fn no_eof_after_parse() {
    let mut parser = Parser::new();
    let symbol = parser.terminal('a', SymbolProperties::new("", false, false));
    parser.root_node(&symbol);

    let mut stream = CharStream::from("ab");

    assert!(matches!(parser.parse(&mut stream), ParseResult::Failed(_)));
}

#[test]
fn parse_literal_rewind() {
    let mut parser = Parser::new();
    let symbol = parser.sequence_chars("test", SymbolProperties::new("", false, false));
    parser.root_node(&symbol);

    let mut stream = CharStream::from("tesa");

    assert!(matches!(parser.parse(&mut stream), ParseResult::Failed(_)));
    assert_eq!((1, 1), stream.get_loc());
}

#[test]
fn one_of_chars() {
    let mut parser = Parser::new();
    let symbol = parser.one_of_chars("abc", SymbolProperties::new("", true, false));
    parser.root_node(&symbol);

    let mut stream = CharStream::from("a");

    assert!(matches!(parser.parse(&mut stream), ParseResult::Parsed(_)));
}

#[test]
fn one_of() {
    let mut parser = Parser::new();
    // { 'a' }+ | { 'b' }+
    let a = parser.terminal('a', None);
    let b = parser.terminal('b', None);

    let a_multi = parser.one_or_more(&a, None);
    let b_multi = parser.one_or_more(&b, None);

    let symbol = parser.one_of(vec![&a_multi, &b_multi], SymbolProperties::new("", false, false));
    parser.root_node(&symbol);

    let mut stream1 = CharStream::from("aaa");
    let mut stream2 = CharStream::from("bbb");

    assert!(matches!(parser.parse(&mut stream1), ParseResult::Parsed(_)));
    assert!(matches!(parser.parse(&mut stream2), ParseResult::Parsed(_)));
}

#[test]
fn optional() {
    let mut parser = Parser::new();
    let minus = parser.terminal('-', None);
    let symbol = parser.optional(&minus, SymbolProperties::new("", false, false));
    parser.root_node(&symbol);

    let _stream1 = CharStream::from("-");
    let _stream2 = CharStream::from("");
    let mut stream3 = CharStream::from("a");

    assert!(matches!(parser.parse(&mut stream3), ParseResult::Failed(_)));
}

#[test]
fn one_or_more() {
    let mut parser = Parser::new();
    let abc = parser.one_of_chars("abc", None);
    let symbol = parser.one_or_more(&abc, SymbolProperties::new("", false, false));
    parser.root_node(&symbol);

    let mut stream = CharStream::from("abaabaca");

    assert!(matches!(parser.parse(&mut stream), ParseResult::Parsed(_)));
}
