use syntax::arith::arith_parser;
use syntax::builder::BuildError;
use syntax::builder::ParserBuilder;
use syntax::input::CharStream;
use syntax::input::Position;
use syntax::input::Range;
use syntax::json::json;
use syntax::json_new::json_parser;
use syntax::node::Node;
use syntax::node::NodeData;
use syntax::parse::ParseResult;
use syntax::parse::Parser;

fn children(node: &Node) -> &Vec<Node> {
    match &node.data {
        NodeData::Children(c) => c,
        NodeData::Raw(_) => panic!("expected children"),
    }
}

#[test]
fn compiled_terminals() {
    let parser = Parser::from_bnf("ROOT(root) = 'a' 'b' 'c';").unwrap();

    let mut stream = CharStream::from("abc");
    match parser.parse(&mut stream) {
        ParseResult::Parsed(node) => {
            assert_eq!(node.node_type, "ROOT");
            // The anonymous terminals leave no nodes of their own.
            assert!(children(&node).is_empty());
            assert_eq!(node.loc.0, Position(1, 1, 0));
            assert_eq!(node.loc.1, Position(1, 4, 3));
        }
        ParseResult::Failed(p) => panic!("parse failed at {:?}", p),
    }

    let mut wrong = CharStream::from("abx");
    match parser.parse(&mut wrong) {
        ParseResult::Failed(p) => assert_eq!(p.1, 3),
        ParseResult::Parsed(_) => panic!("mismatching input must fail"),
    }
}

#[test]
fn compiled_repetition_of_alternation() {
    let parser = Parser::from_bnf(
        "ROOT(root) = { '0' | '1' | '2' | '3' | '4' | '5' | '6' | '7' | '8' | '9' };",
    )
    .unwrap();

    let mut digits = CharStream::from("1234");
    assert!(matches!(parser.parse(&mut digits), ParseResult::Parsed(_)));
    assert_eq!((1, 5), digits.get_loc());

    // Zero repetitions are valid: the empty input parses, consuming nothing.
    let mut empty = CharStream::from("");
    assert!(matches!(parser.parse(&mut empty), ParseResult::Parsed(_)));
    assert_eq!((1, 1), empty.get_loc());
}

#[test]
fn compiled_nested_arithmetic() {
    let parser = arith_parser().unwrap();

    let mut stream = CharStream::from("3+4");
    match parser.parse(&mut stream) {
        ParseResult::Parsed(root) => {
            assert_eq!(root.node_type, "ROOT");
            let top = children(&root);
            assert_eq!(top.len(), 1);
            let plus = &top[0];
            assert_eq!(plus.node_type, "PLUS");
            let operands = children(plus);
            assert_eq!(operands.len(), 2);
            match &operands[0].data {
                NodeData::Raw(text) => assert_eq!(text, "3"),
                NodeData::Children(_) => panic!("number nodes are raw"),
            }
            match &operands[1].data {
                NodeData::Raw(text) => assert_eq!(text, "4"),
                NodeData::Children(_) => panic!("number nodes are raw"),
            }
        }
        ParseResult::Failed(p) => panic!("parse failed at {:?}", p),
    }
}

#[test]
fn compile_requires_a_root_statement() {
    let result = Parser::from_bnf("A = 'a';");
    assert!(matches!(result, Err(BuildError::MissingRoot)));
}

#[test]
fn compile_rejects_undeclared_identifiers() {
    let result = Parser::from_bnf("ROOT(root) = MISSING;");
    assert!(matches!(result, Err(BuildError::UndeclaredIdentifier(_))));
}

#[test]
fn compile_rejects_an_ignored_root() {
    let result = Parser::from_bnf("ROOT(root,ignore) = 'a' 'b';");
    assert!(matches!(result, Err(BuildError::RootIgnored)));
}

#[test]
fn compile_rejects_unreadable_grammar_text() {
    let result = Parser::from_bnf("not a grammar at all");
    assert!(matches!(result, Err(BuildError::Unparsable(_))));
}

#[test]
fn compile_rejects_a_malformed_tree() {
    let builder = ParserBuilder::new();
    let raw_root = Node::new(
        "ROOT",
        Range::new(Position(1, 1, 0), Position(1, 1, 0)),
        NodeData::Raw(String::new()),
    );
    assert!(matches!(builder.build(&raw_root), Err(BuildError::MalformedTree)));
}

#[test]
fn compiled_json_values() {
    let parser = json_parser().unwrap();

    for good in [
        "[[[1]]]",
        "null",
        "-12.5e+3",
        "\"text with \\\"escapes\\\"\"",
        "{ \"a\": [1, 2, true], \"b\": { } }",
        "  [ ]  ",
        "",
    ] {
        let mut stream = CharStream::from(good);
        assert!(
            matches!(parser.parse(&mut stream), ParseResult::Parsed(_)),
            "should parse: {}",
            good
        );
    }

    for bad in ["[", "{\"a\" 1}", "tru", "01"] {
        let mut stream = CharStream::from(bad);
        assert!(
            matches!(parser.parse(&mut stream), ParseResult::Failed(_)),
            "should fail: {}",
            bad
        );
    }
}

#[test]
fn hand_built_json_values() {
    let parser = json();

    for good in ["[[[1]]]", "true", "{\"k\": \"v\"}", "[1,2.5,\"x\", null]"] {
        let mut stream = CharStream::from(good);
        assert!(
            matches!(parser.parse(&mut stream), ParseResult::Parsed(_)),
            "should parse: {}",
            good
        );
    }

    for bad in ["[1,]", "nul", "\"unterminated"] {
        let mut stream = CharStream::from(bad);
        assert!(
            matches!(parser.parse(&mut stream), ParseResult::Failed(_)),
            "should fail: {}",
            bad
        );
    }
}

#[test]
fn bootstrap_grammar_parses_itself_being_used() {
    // The bootstrap grammar accepts several statements with flags, forward
    // references, brackets and grouping in one file.
    let text = "A(root) = B { ',' B };\nB(raw) = [ '-' ] ( '0' | '1' );";
    let parser = Parser::from_bnf(text).unwrap();
    let mut stream = CharStream::from("1,-0,1");
    assert!(matches!(parser.parse(&mut stream), ParseResult::Parsed(_)));
}

#[test]
fn rule_representation() {
    let mut parser = Parser::new();
    let x = parser.terminal('x', None);
    assert_eq!(parser.get_symbol(&x).repr(&parser, 8), "'x'");

    let a = parser.terminal('a', syntax::symbol::SymbolProperties::new("A", true, false));
    let b = parser.terminal('b', syntax::symbol::SymbolProperties::new("B", true, false));
    let s = parser.sequence(vec![&a, &b], None);
    assert_eq!(parser.get_symbol(&s).repr(&parser, 8), "( A B )");
    let o = parser.one_of(vec![&a, &b], None);
    assert_eq!(parser.get_symbol(&o).repr(&parser, 8), "( A | B )");
    let opt = parser.optional(&a, None);
    assert_eq!(parser.get_symbol(&opt).repr(&parser, 8), "[ A ]");
    let star = parser.zero_or_more(&x, None);
    assert_eq!(parser.get_symbol(&star).repr(&parser, 8), "{ 'x' }");
    let plus = parser.one_or_more(&x, None);
    assert_eq!(parser.get_symbol(&plus).repr(&parser, 8), "{ 'x' }+");
}

#[test]
fn rule_representation_escapes_terminals() {
    let mut parser = Parser::new();
    let newline = parser.terminal('\n', None);
    assert_eq!(parser.get_symbol(&newline).repr(&parser, 8), "'\\n'");
    let backslash = parser.terminal('\\', None);
    assert_eq!(parser.get_symbol(&backslash).repr(&parser, 8), "'\\\\'");
    let quote = parser.terminal('\'', None);
    assert_eq!(parser.get_symbol(&quote).repr(&parser, 8), "'\\''");
    let bell = parser.terminal('\u{7}', None);
    assert_eq!(parser.get_symbol(&bell).repr(&parser, 8), "'\\u{7}'");
    let esc = parser.terminal('\u{1b}', None);
    assert_eq!(parser.get_symbol(&esc).repr(&parser, 8), "'\\u{1b}'");
    let nel = parser.terminal('\u{85}', None);
    assert_eq!(parser.get_symbol(&nel).repr(&parser, 8), "'\\u{85}'");
}
