use syntax::input::CharStream;
use syntax::input::Position;
use syntax::node::Node;
use syntax::node::NodeData;
use syntax::parse::AdvanceResult;
use syntax::parse::ParseResult;
use syntax::parse::Parser;
use syntax::parse::STEP_LIMIT;
use syntax::symbol::SymbolProperties;

fn child_names(node: &Node) -> Vec<String> {
    match &node.data {
        NodeData::Children(children) => children.iter().map(|c| c.node_type.clone()).collect(),
        NodeData::Raw(_) => panic!("expected children"),
    }
}

#[test]
fn backtracking_restores_state() {
    let mut parser = Parser::new();
    let symbol = parser.sequence_chars("ab", SymbolProperties::new("R", false, false));
    parser.root_node(&symbol);

    let mut stream = CharStream::from("ax");
    let before = stream.get_pos();
    let result = parser.try_advance(&symbol, &mut stream, STEP_LIMIT);
    assert!(matches!(result, AdvanceResult::NoMatch(_)));
    assert_eq!(before, stream.get_pos());
    assert_eq!((1, 1), stream.get_loc());
}

#[test]
fn sequence_short_circuit() {
    let mut parser = Parser::new();
    let a = parser.terminal('a', None);
    let b = parser.terminal('b', None);
    let seq = parser.sequence(vec![&a, &b], SymbolProperties::new("R", false, false));
    parser.root_node(&seq);

    // 'a' matches and consumes, 'b' then fails: the stream must be back at
    // the pre-'a' position, not after the consumed 'a'.
    let mut stream = CharStream::from("ax");
    let result = parser.try_advance(&seq, &mut stream, STEP_LIMIT);
    assert!(matches!(result, AdvanceResult::NoMatch(_)));
    assert_eq!(Position(1, 1, 0), stream.get_pos());
}

#[test]
fn ordered_choice_determinism() {
    let mut parser = Parser::new();
    let first = parser.terminal('a', SymbolProperties::new("FIRST", true, false));
    let second = parser.terminal('a', SymbolProperties::new("SECOND", true, false));
    let choice = parser.one_of(vec![&first, &second], SymbolProperties::new("R", false, false));
    parser.root_node(&choice);

    let mut stream = CharStream::from("a");
    match parser.parse(&mut stream) {
        ParseResult::Parsed(node) => {
            assert_eq!(child_names(&node), vec!["FIRST".to_string()]);
        }
        ParseResult::Failed(p) => panic!("parse failed at {:?}", p),
    }
}

#[test]
fn optional_never_fails() {
    let mut parser = Parser::new();
    let a = parser.terminal('a', None);
    let opt = parser.optional(&a, None);

    let mut stream = CharStream::from("zzz");
    match parser.try_advance(&opt, &mut stream, STEP_LIMIT) {
        AdvanceResult::Forward(nodes) => assert!(nodes.is_empty()),
        _ => panic!("an optional rule must succeed on any input"),
    }
    assert_eq!((1, 1), stream.get_loc());
}

#[test]
fn one_or_more_floor() {
    let mut parser = Parser::new();
    let a = parser.terminal('a', None);
    let plus = parser.one_or_more(&a, SymbolProperties::new("R", false, false));
    parser.root_node(&plus);

    let mut empty = CharStream::from("");
    assert!(matches!(parser.parse(&mut empty), ParseResult::Failed(_)));

    let mut wrong = CharStream::from("b");
    assert!(matches!(parser.parse(&mut wrong), ParseResult::Failed(_)));

    let mut one = CharStream::from("a");
    assert!(matches!(parser.parse(&mut one), ParseResult::Parsed(_)));

    let mut many = CharStream::from("aaa");
    assert!(matches!(parser.parse(&mut many), ParseResult::Parsed(_)));
}

#[test]
fn ignore_splicing() {
    let mut parser = Parser::new();
    let a = parser.terminal('a', SymbolProperties::new("A", true, false));
    let c = parser.terminal('c', SymbolProperties::new("C", true, false));
    let d = parser.terminal('d', SymbolProperties::new("D", true, false));
    let b = parser.sequence(vec![&c, &d], SymbolProperties::new("B", false, true));
    let r = parser.sequence(vec![&a, &b], SymbolProperties::new("R", false, false));
    parser.root_node(&r);

    // B is ignore-flagged: no B node exists; C and D stand directly among
    // R's children, after A.
    let mut stream = CharStream::from("acd");
    match parser.parse(&mut stream) {
        ParseResult::Parsed(node) => {
            assert_eq!(node.node_type, "R");
            assert_eq!(
                child_names(&node),
                vec!["A".to_string(), "C".to_string(), "D".to_string()]
            );
        }
        ParseResult::Failed(p) => panic!("parse failed at {:?}", p),
    }
}

#[test]
fn raw_capture() {
    let mut parser = Parser::new();
    let a = parser.terminal('a', SymbolProperties::new("A", true, false));
    let b = parser.terminal('b', SymbolProperties::new("B", true, false));
    let r = parser.sequence(vec![&a, &b], SymbolProperties::new("R", true, false));
    parser.root_node(&r);

    // R is raw-flagged: its payload is the matched text, and the A and B
    // nodes its members produced are discarded.
    let mut stream = CharStream::from("ab");
    match parser.parse(&mut stream) {
        ParseResult::Parsed(node) => match &node.data {
            NodeData::Raw(text) => assert_eq!(text, "ab"),
            NodeData::Children(_) => panic!("a raw rule must keep the matched text"),
        },
        ParseResult::Failed(p) => panic!("parse failed at {:?}", p),
    }
}

#[test]
fn full_consumption_required() {
    let mut parser = Parser::new();
    let a = parser.terminal('a', SymbolProperties::new("R", false, false));
    parser.root_node(&a);

    let mut stream = CharStream::from("ab");
    match parser.parse(&mut stream) {
        ParseResult::Failed(p) => {
            assert_eq!(p, Position(1, 2, 1));
        }
        ParseResult::Parsed(_) => panic!("leftover input must fail the parse"),
    }
}

#[test]
fn default_names_follow_shape() {
    let mut parser = Parser::new();
    let t = parser.terminal('x', None);
    let o = parser.one_of(vec![&t], None);
    let s = parser.sequence(vec![&t], None);
    assert_eq!(parser.get_symbol(&t).name(), "Terminal");
    assert_eq!(parser.get_symbol(&o).name(), "OneOf");
    assert_eq!(parser.get_symbol(&s).name(), "Sequence");
    let named = parser.terminal('y', SymbolProperties::new("Y", false, false));
    assert_eq!(parser.get_symbol(&named).name(), "Y");
}
