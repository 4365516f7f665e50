use syntax::input::CharStream;
use syntax::input::Position;

#[test]
fn it_works() {
    let mut stream = CharStream::from("Hello World!");

    assert_eq!('H', stream.next().unwrap());
    assert_eq!('e', stream.next().unwrap());
    assert_eq!('l', stream.next().unwrap());
    assert_eq!('l', stream.next().unwrap());
    assert_eq!('o', stream.next().unwrap());
    assert_eq!(' ', stream.next().unwrap());
    assert_eq!('W', stream.next().unwrap());
    assert_eq!('o', stream.next().unwrap());
    assert_eq!('r', stream.next().unwrap());
    assert_eq!('l', stream.next().unwrap());
    assert_eq!('d', stream.next().unwrap());
    assert_eq!('!', stream.next().unwrap());
    assert_eq!(None, stream.next())
}

#[test]
fn correct_line_col() {
    let mut stream = CharStream::from("AB\nCD");

    // Line
    // | 0 1 2 <- Column
    // 1   A B
    // 2 n C D

    assert_eq!((1, 1), stream.get_loc());
    stream.next(); // A
    assert_eq!((1, 2), stream.get_loc());
    stream.next(); // B
    assert_eq!((1, 3), stream.get_loc());
    stream.next(); // \n
    assert_eq!((2, 1), stream.get_loc());
    stream.next(); // C
    assert_eq!((2, 2), stream.get_loc());
    stream.next(); // D
    assert_eq!((2, 3), stream.get_loc());
    stream.next(); // None
    assert_eq!((2, 3), stream.get_loc());
}

#[test]
fn save_and_restore() {
    let mut stream = CharStream::from("AB\nCD");
    let saved = stream.get_pos();
    stream.next();
    stream.next();
    stream.next();
    assert_eq!((2, 1), stream.get_loc());
    stream.set_pos(saved);
    assert_eq!((1, 1), stream.get_loc());
    assert_eq!(Some(&'A'), stream.peek());
}

#[test]
fn slice_since_saved_position() {
    let mut stream = CharStream::from("abcde");
    stream.next();
    let saved = stream.get_pos();
    stream.next();
    stream.next();
    let (chars, range) = stream.since_pos(saved);
    assert_eq!(chars, &['b', 'c']);
    assert_eq!(range.0, Position(1, 2, 1));
    assert_eq!(range.1, Position(1, 4, 3));
}

#[test]
fn peek_does_not_consume() {
    let mut stream = CharStream::from("x");
    assert_eq!(Some(&'x'), stream.peek());
    assert_eq!(Some(&'x'), stream.peek());
    assert_eq!(Some('x'), stream.next());
    assert_eq!(None, stream.peek());
}

#[test]
fn report_unknown_describes_next_char() {
    let mut stream = CharStream::from("a\nb");
    stream.next();
    stream.next();
    let described = stream.report_unknown();
    assert_eq!(Some(('b', 2, 2)), described);
    let mut done = CharStream::from("");
    assert_eq!(None, done.report_unknown());
}
