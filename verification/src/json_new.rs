//! A JSON grammar compiled from its textual description — the same
//! language as the hand-built grammar of [`crate::json`], this time going
//! through the bootstrap meta-grammar and the compiler.

use crate::bnf::spec_from_bnf;
use crate::bnf::SpecCompiled;
use crate::builder::BuildError;
use crate::parse::Parser;
use vstd::prelude::*;

verus! {

/// The JSON grammar, compiled from its textual description: exactly what
/// [`spec_from_bnf`] assigns to that description.
pub fn json_parser() -> (r: Result<Parser, BuildError>)
    ensures
        r matches Ok(p) ==> p.wf() && p@.root_ok() && !p@.symbols[p@.root->0].ignore,
        match spec_from_bnf(
            "\nROOT(root) = [ VALUE ];\nVALUE(ignore) = $WHITESPACE (STRING | NUMBER | OBJECT | ARRAY | TRUE | FALSE | NULL) $WHITESPACE;\n\nTRUE(raw) = 't' 'r' 'u' 'e';\nFALSE(raw) = 'f' 'a' 'l' 's' 'e';\nNULL(raw) = 'n' 'u' 'l' 'l';\n\nNUMBER(raw) = [ '-' ] ( '0' | NUMBER_NONZERO ) [ NUMBER_F ] [ NUMBER_E ];\nNUMBER_NONZERO(ignore) = DIGIT_NONZERO { DIGIT };\nNUMBER_F(ignore) = '.' { DIGIT };\nNUMBER_E(ignore) = ( 'E' | 'e' ) [ '-' | '+' ] { DIGIT };\nDIGIT(ignore) = '0' | '1' | '2' | '3' | '4' | '5' | '6' | '7' | '8' | '9';\nDIGIT_NONZERO(ignore) = '1' | '2' | '3' | '4' | '5' | '6' | '7' | '8' | '9';\n\nSTRING(raw) = '\"' { * | ESCAPED } '\"';\nESCAPED(ignore) = '\\' ('\"' | '\\' | '/' | 'b' | 'f' | 'n' | 'r' | 't' | ('u' HEX_DIGIT HEX_DIGIT HEX_DIGIT HEX_DIGIT));\nHEX_DIGIT(ignore) = '0' | '1' | '2' | '3' | '4' | '5' | '6' | '7' | '8' | '9' | 'A' | 'B' | 'C' | 'D' | 'E' | 'F';\n\nARRAY = ( '[' $WHITESPACE ']' ) | ( '[' VALUE { ',' VALUE } ']' );\n\nOBJECT = ( '{' $WHITESPACE '}' ) | ( '{' PROPERTY { ',' PROPERTY } '}' );\nPROPERTY = $WHITESPACE STRING $WHITESPACE ':' VALUE;\n\n"@,
        ) {
            SpecCompiled::Grammar(sp) => r matches Ok(p) && p@ == sp,
            SpecCompiled::Defect(e) => r matches Err(err) && err@ == e,
        },
{
    proof {
        reveal_strlit(
            "\nROOT(root) = [ VALUE ];\nVALUE(ignore) = $WHITESPACE (STRING | NUMBER | OBJECT | ARRAY | TRUE | FALSE | NULL) $WHITESPACE;\n\nTRUE(raw) = 't' 'r' 'u' 'e';\nFALSE(raw) = 'f' 'a' 'l' 's' 'e';\nNULL(raw) = 'n' 'u' 'l' 'l';\n\nNUMBER(raw) = [ '-' ] ( '0' | NUMBER_NONZERO ) [ NUMBER_F ] [ NUMBER_E ];\nNUMBER_NONZERO(ignore) = DIGIT_NONZERO { DIGIT };\nNUMBER_F(ignore) = '.' { DIGIT };\nNUMBER_E(ignore) = ( 'E' | 'e' ) [ '-' | '+' ] { DIGIT };\nDIGIT(ignore) = '0' | '1' | '2' | '3' | '4' | '5' | '6' | '7' | '8' | '9';\nDIGIT_NONZERO(ignore) = '1' | '2' | '3' | '4' | '5' | '6' | '7' | '8' | '9';\n\nSTRING(raw) = '\"' { * | ESCAPED } '\"';\nESCAPED(ignore) = '\\' ('\"' | '\\' | '/' | 'b' | 'f' | 'n' | 'r' | 't' | ('u' HEX_DIGIT HEX_DIGIT HEX_DIGIT HEX_DIGIT));\nHEX_DIGIT(ignore) = '0' | '1' | '2' | '3' | '4' | '5' | '6' | '7' | '8' | '9' | 'A' | 'B' | 'C' | 'D' | 'E' | 'F';\n\nARRAY = ( '[' $WHITESPACE ']' ) | ( '[' VALUE { ',' VALUE } ']' );\n\nOBJECT = ( '{' $WHITESPACE '}' ) | ( '{' PROPERTY { ',' PROPERTY } '}' );\nPROPERTY = $WHITESPACE STRING $WHITESPACE ':' VALUE;\n\n",
        );
    }
    Parser::from_bnf(
        "\nROOT(root) = [ VALUE ];\nVALUE(ignore) = $WHITESPACE (STRING | NUMBER | OBJECT | ARRAY | TRUE | FALSE | NULL) $WHITESPACE;\n\nTRUE(raw) = 't' 'r' 'u' 'e';\nFALSE(raw) = 'f' 'a' 'l' 's' 'e';\nNULL(raw) = 'n' 'u' 'l' 'l';\n\nNUMBER(raw) = [ '-' ] ( '0' | NUMBER_NONZERO ) [ NUMBER_F ] [ NUMBER_E ];\nNUMBER_NONZERO(ignore) = DIGIT_NONZERO { DIGIT };\nNUMBER_F(ignore) = '.' { DIGIT };\nNUMBER_E(ignore) = ( 'E' | 'e' ) [ '-' | '+' ] { DIGIT };\nDIGIT(ignore) = '0' | '1' | '2' | '3' | '4' | '5' | '6' | '7' | '8' | '9';\nDIGIT_NONZERO(ignore) = '1' | '2' | '3' | '4' | '5' | '6' | '7' | '8' | '9';\n\nSTRING(raw) = '\"' { * | ESCAPED } '\"';\nESCAPED(ignore) = '\\' ('\"' | '\\' | '/' | 'b' | 'f' | 'n' | 'r' | 't' | ('u' HEX_DIGIT HEX_DIGIT HEX_DIGIT HEX_DIGIT));\nHEX_DIGIT(ignore) = '0' | '1' | '2' | '3' | '4' | '5' | '6' | '7' | '8' | '9' | 'A' | 'B' | 'C' | 'D' | 'E' | 'F';\n\nARRAY = ( '[' $WHITESPACE ']' ) | ( '[' VALUE { ',' VALUE } ']' );\n\nOBJECT = ( '{' $WHITESPACE '}' ) | ( '{' PROPERTY { ',' PROPERTY } '}' );\nPROPERTY = $WHITESPACE STRING $WHITESPACE ':' VALUE;\n\n",
    )
}

} // verus!
