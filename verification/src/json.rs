//! A hand-built JSON grammar, written directly with the primitive
//! combinators.  It exercises every rule shape the engine offers; the
//! compiled variant of the same language lives in [`crate::json_new`].

use crate::parse::Parser;
use crate::symbol::SpecSymbol;
use crate::symbol::SymbolIdent;
use crate::symbol::SymbolProperties;
use vstd::prelude::*;

verus! {

/// Some rule of the arena carries the given display name and flags.
pub open spec fn has_rule(g: Seq<SpecSymbol>, n: Seq<char>, raw: bool, ignore: bool) -> bool {
    exists|i: int|
        0 <= i < g.len() && (#[trigger] g[i]).name == Some(n) && g[i].raw == raw && g[i].ignore
            == ignore
}

/// The keyword and whitespace rules of the JSON grammar.
struct LiteralIds {
    tru: SymbolIdent,
    fls: SymbolIdent,
    nul: SymbolIdent,
    whitespace: SymbolIdent,
}

/// The scalar rules of the JSON grammar: the keyword literals, whitespace,
/// numbers and strings.
struct ScalarIds {
    tru: SymbolIdent,
    fls: SymbolIdent,
    nul: SymbolIdent,
    whitespace: SymbolIdent,
    number: SymbolIdent,
    string: SymbolIdent,
}

/// Creates the keyword literals and the ignored whitespace rule.
#[allow(non_snake_case)]
#[verifier::rlimit(100)]
fn json_literals(parser: &mut Parser) -> (r: LiteralIds)
    requires
        old(parser).wf(),
    ensures
        final(parser).wf(),
        final(parser)@.root == old(parser)@.root,
        old(parser)@.symbols.len() <= final(parser)@.symbols.len(),
        forall|i: int|
            0 <= i < old(parser)@.symbols.len() ==> final(parser)@.symbols[i] == old(
                parser,
            )@.symbols[i],
        r.tru.0 < final(parser)@.symbols.len(),
        r.fls.0 < final(parser)@.symbols.len(),
        r.nul.0 < final(parser)@.symbols.len(),
        r.whitespace.0 < final(parser)@.symbols.len(),
        final(parser)@.symbols[r.tru.0 as int].name == Some("TRUE"@),
        final(parser)@.symbols[r.tru.0 as int].raw,
        !final(parser)@.symbols[r.tru.0 as int].ignore,
        final(parser)@.symbols[r.fls.0 as int].name == Some("FALSE"@),
        final(parser)@.symbols[r.fls.0 as int].raw,
        !final(parser)@.symbols[r.fls.0 as int].ignore,
        final(parser)@.symbols[r.nul.0 as int].name == Some("NULL"@),
        final(parser)@.symbols[r.nul.0 as int].raw,
        !final(parser)@.symbols[r.nul.0 as int].ignore,
        final(parser)@.symbols[r.whitespace.0 as int].name == Some("WHITESPACE"@),
        final(parser)@.symbols[r.whitespace.0 as int].raw,
        final(parser)@.symbols[r.whitespace.0 as int].ignore,
{
    let TRUE = parser.sequence_chars("true", SymbolProperties::new("TRUE", true, false));
    let FALSE = parser.sequence_chars("false", SymbolProperties::new("FALSE", true, false));
    let NULL = parser.sequence_chars("null", SymbolProperties::new("NULL", true, false));
    let WHITESPACE_CHAR = parser.one_of_chars(" \n\r\t", None);
    let WHITESPACE = parser.zero_or_more(
        &WHITESPACE_CHAR,
        SymbolProperties::new("WHITESPACE", true, true),
    );
    LiteralIds { tru: TRUE, fls: FALSE, nul: NULL, whitespace: WHITESPACE }
}

/// Creates the string rule.
#[allow(non_snake_case)]
#[verifier::rlimit(100)]
fn json_string(parser: &mut Parser) -> (r: SymbolIdent)
    requires
        old(parser).wf(),
    ensures
        final(parser).wf(),
        final(parser)@.root == old(parser)@.root,
        old(parser)@.symbols.len() <= final(parser)@.symbols.len(),
        forall|i: int|
            0 <= i < old(parser)@.symbols.len() ==> final(parser)@.symbols[i] == old(
                parser,
            )@.symbols[i],
        r.0 < final(parser)@.symbols.len(),
        final(parser)@.symbols[r.0 as int].name == Some("STRING"@),
        final(parser)@.symbols[r.0 as int].raw,
        !final(parser)@.symbols[r.0 as int].ignore,
{
    let STRING_DELIM = parser.terminal('"', None);
    let CODEPOINT = parser.any_except(&['"', '\\'], None);
    let BACKSLASH = parser.terminal('\\', None);
    let ESCAPE_CHAR = parser.one_of_chars("\"\\/bfnrt", None);
    let ESCAPED = parser.sequence(vec![&BACKSLASH, &ESCAPE_CHAR], None);
    let STRING_CONTENT = parser.one_of(vec![&CODEPOINT, &ESCAPED], None);
    let STRING_BODY = parser.zero_or_more(&STRING_CONTENT, None);
    let STRING = parser.sequence(
        vec![&STRING_DELIM, &STRING_BODY, &STRING_DELIM],
        SymbolProperties::new("STRING", true, false),
    );
    STRING
}

/// Creates the scalar rules.
#[allow(non_snake_case)]
#[verifier::rlimit(100)]
fn json_scalars(parser: &mut Parser) -> (r: ScalarIds)
    requires
        old(parser).wf(),
    ensures
        final(parser).wf(),
        final(parser)@.root == old(parser)@.root,
        old(parser)@.symbols.len() <= final(parser)@.symbols.len(),
        forall|i: int|
            0 <= i < old(parser)@.symbols.len() ==> final(parser)@.symbols[i] == old(
                parser,
            )@.symbols[i],
        r.tru.0 < final(parser)@.symbols.len(),
        r.fls.0 < final(parser)@.symbols.len(),
        r.nul.0 < final(parser)@.symbols.len(),
        r.whitespace.0 < final(parser)@.symbols.len(),
        r.number.0 < final(parser)@.symbols.len(),
        r.string.0 < final(parser)@.symbols.len(),
        final(parser)@.symbols[r.tru.0 as int].name == Some("TRUE"@),
        final(parser)@.symbols[r.tru.0 as int].raw,
        !final(parser)@.symbols[r.tru.0 as int].ignore,
        final(parser)@.symbols[r.fls.0 as int].name == Some("FALSE"@),
        final(parser)@.symbols[r.fls.0 as int].raw,
        !final(parser)@.symbols[r.fls.0 as int].ignore,
        final(parser)@.symbols[r.nul.0 as int].name == Some("NULL"@),
        final(parser)@.symbols[r.nul.0 as int].raw,
        !final(parser)@.symbols[r.nul.0 as int].ignore,
        final(parser)@.symbols[r.whitespace.0 as int].name == Some("WHITESPACE"@),
        final(parser)@.symbols[r.whitespace.0 as int].raw,
        final(parser)@.symbols[r.whitespace.0 as int].ignore,
        final(parser)@.symbols[r.number.0 as int].name == Some("NUMBER"@),
        final(parser)@.symbols[r.number.0 as int].raw,
        !final(parser)@.symbols[r.number.0 as int].ignore,
        final(parser)@.symbols[r.string.0 as int].name == Some("STRING"@),
        final(parser)@.symbols[r.string.0 as int].raw,
        !final(parser)@.symbols[r.string.0 as int].ignore,
{
    let lits = json_literals(parser);

    // Number
    let DIGIT_NONZERO = parser.one_of_chars("123456789", None);
    let DIGIT = parser.one_of_chars("0123456789", None);
    let TAIL = parser.zero_or_more(&DIGIT, None);
    let NUMBER_NONZERO = parser.sequence(
        vec![&DIGIT_NONZERO, &TAIL],
        SymbolProperties::new("NUMBER_NONZERO", false, true),
    );
    let DOT = parser.terminal('.', None);
    let TAIL_F = parser.one_or_more(&DIGIT, None);
    let NUMBER_F = parser.sequence(
        vec![&DOT, &TAIL_F],
        SymbolProperties::new("NUMBER_F", false, true),
    );
    let E = parser.one_of_chars("Ee", None);
    let SIGN = parser.one_of_chars("-+", None);
    let SIGN_OPT = parser.optional(&SIGN, None);
    let NUMBER_E = parser.sequence(
        vec![&E, &SIGN_OPT, &TAIL_F],
        SymbolProperties::new("NUMBER_E", false, true),
    );
    let MINUS = parser.terminal('-', None);
    let MINUS_OPT = parser.optional(&MINUS, None);
    let F_OPT = parser.optional(&NUMBER_F, None);
    let E_OPT = parser.optional(&NUMBER_E, None);
    let ZERO = parser.terminal('0', None);
    let N = parser.one_of(vec![&ZERO, &NUMBER_NONZERO], None);
    let NUMBER = parser.sequence(
        vec![&MINUS_OPT, &N, &F_OPT, &E_OPT],
        SymbolProperties::new("NUMBER", true, false),
    );

    let STRING = json_string(parser);
    ScalarIds {
        tru: lits.tru,
        fls: lits.fls,
        nul: lits.nul,
        whitespace: lits.whitespace,
        number: NUMBER,
        string: STRING,
    }
}

/// A grammar for JSON values: well-formed, with a designated root rule
/// that builds a node.  The scalar rules — numbers, strings and the three
/// keyword literals — are raw-flagged so their nodes carry the matched
/// text; whitespace is ignore-flagged and never yields nodes; arrays,
/// objects and properties are named rules that build nodes of their own.
#[allow(non_snake_case)]
#[verifier::rlimit(100)]
pub fn json() -> (r: Parser)
    ensures
        r.wf(),
        r@.root_ok(),
        !r@.symbols[r@.root->0].ignore,
        !r@.symbols[r@.root->0].raw,
        r@.symbols[r@.root->0].name == Some("ROOT"@),
        r@.symbols[r@.root->0].shape is Sequence,
        has_rule(r@.symbols, "NUMBER"@, true, false),
        has_rule(r@.symbols, "STRING"@, true, false),
        has_rule(r@.symbols, "TRUE"@, true, false),
        has_rule(r@.symbols, "FALSE"@, true, false),
        has_rule(r@.symbols, "NULL"@, true, false),
        has_rule(r@.symbols, "WHITESPACE"@, true, true),
        has_rule(r@.symbols, "VALUE"@, false, true),
        has_rule(r@.symbols, "ARRAY"@, false, false),
        has_rule(r@.symbols, "OBJECT"@, false, false),
        has_rule(r@.symbols, "PROPERTY"@, false, false),
        ({
            let ms = r@.symbols[r@.root->0].shape->Sequence_0;
            &&& ms.len() == 1
            &&& 0 <= ms[0] < r@.symbols.len()
            &&& r@.symbols[ms[0]].name == Some("VALUE"@)
            &&& r@.symbols[ms[0]].ignore
            &&& !r@.symbols[ms[0]].raw
        }),
{
    let mut parser = Parser::new();
    let s = json_scalars(&mut parser);
    let WHITESPACE = s.whitespace;

    // Values; arrays and objects join the alternation below, once they exist.
    let VALUE_TYPE = parser.one_of(vec![&s.number, &s.tru, &s.fls, &s.nul, &s.string], None);
    let VALUE = parser.sequence(
        vec![&WHITESPACE, &VALUE_TYPE, &WHITESPACE],
        SymbolProperties::new("VALUE", false, true),
    );
    let ARRAY_BEGIN = parser.terminal('[', None);
    let ARRAY_END = parser.terminal(']', None);
    let ARRAY_EMPTY = parser.sequence(vec![&ARRAY_BEGIN, &WHITESPACE, &ARRAY_END], None);
    let ARRAY_DELIM = parser.terminal(',', None);
    let ARRAY_ITEM = parser.sequence(vec![&ARRAY_DELIM, &VALUE], None);
    let ARRAY_ITEM_OPT = parser.zero_or_more(&ARRAY_ITEM, None);
    let ARRAY_NONEMPTY = parser.sequence(
        vec![&ARRAY_BEGIN, &VALUE, &ARRAY_ITEM_OPT, &ARRAY_END],
        None,
    );
    let ARRAY = parser.one_of(
        vec![&ARRAY_EMPTY, &ARRAY_NONEMPTY],
        SymbolProperties::new("ARRAY", false, false),
    );

    let PROP_DELIM = parser.terminal(':', None);
    let PROP = parser.sequence(
        vec![&WHITESPACE, &s.string, &WHITESPACE, &PROP_DELIM, &VALUE],
        SymbolProperties::new("PROPERTY", false, false),
    );

    let OBJ_BEGIN = parser.terminal('{', None);
    let OBJ_END = parser.terminal('}', None);
    let OBJ_ITEM = parser.sequence(vec![&ARRAY_DELIM, &PROP], None);
    let OBJ_ITEM_OPT = parser.zero_or_more(&OBJ_ITEM, None);
    let OBJ_EMPTY = parser.sequence(vec![&OBJ_BEGIN, &WHITESPACE, &OBJ_END], None);
    let OBJ_NONEMPTY = parser.sequence(vec![&OBJ_BEGIN, &PROP, &OBJ_ITEM_OPT, &OBJ_END], None);
    let OBJECT = parser.one_of(
        vec![&OBJ_EMPTY, &OBJ_NONEMPTY],
        SymbolProperties::new("OBJECT", false, false),
    );

    parser.add_ident(&VALUE_TYPE, &ARRAY);
    parser.add_ident(&VALUE_TYPE, &OBJECT);

    let ROOT = parser.sequence(vec![&VALUE], SymbolProperties::new("ROOT", false, false));
    parser.root_node(&ROOT);
    proof {
        assert(seq![&VALUE].map_values(|m: &SymbolIdent| m.0 as int) =~= seq![VALUE.0 as int]);
        assert(has_rule(parser@.symbols, "NUMBER"@, true, false)) by {
            assert(parser@.symbols[s.number.0 as int].name == Some("NUMBER"@));
        }
        assert(has_rule(parser@.symbols, "STRING"@, true, false)) by {
            assert(parser@.symbols[s.string.0 as int].name == Some("STRING"@));
        }
        assert(has_rule(parser@.symbols, "TRUE"@, true, false)) by {
            assert(parser@.symbols[s.tru.0 as int].name == Some("TRUE"@));
        }
        assert(has_rule(parser@.symbols, "FALSE"@, true, false)) by {
            assert(parser@.symbols[s.fls.0 as int].name == Some("FALSE"@));
        }
        assert(has_rule(parser@.symbols, "NULL"@, true, false)) by {
            assert(parser@.symbols[s.nul.0 as int].name == Some("NULL"@));
        }
        assert(has_rule(parser@.symbols, "WHITESPACE"@, true, true)) by {
            assert(parser@.symbols[s.whitespace.0 as int].name == Some("WHITESPACE"@));
        }
        assert(has_rule(parser@.symbols, "VALUE"@, false, true)) by {
            assert(parser@.symbols[VALUE.0 as int].name == Some("VALUE"@));
        }
        assert(has_rule(parser@.symbols, "ARRAY"@, false, false)) by {
            assert(parser@.symbols[ARRAY.0 as int].name == Some("ARRAY"@));
        }
        assert(has_rule(parser@.symbols, "OBJECT"@, false, false)) by {
            assert(parser@.symbols[OBJECT.0 as int].name == Some("OBJECT"@));
        }
        assert(has_rule(parser@.symbols, "PROPERTY"@, false, false)) by {
            assert(parser@.symbols[PROP.0 as int].name == Some("PROPERTY"@));
        }
    }
    parser
}

} // verus!
