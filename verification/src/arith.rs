//! A small arithmetic grammar, compiled from its textual description: an
//! optional expression, where an expression is an addition of two numbers
//! or a single digit number.

use crate::bnf::spec_from_bnf;
use crate::bnf::SpecCompiled;
use crate::builder::BuildError;
use crate::parse::Parser;
use vstd::prelude::*;

verus! {

/// The arithmetic grammar, compiled from its textual description: exactly
/// what [`spec_from_bnf`] assigns to that description.
pub fn arith_parser() -> (r: Result<Parser, BuildError>)
    ensures
        r matches Ok(p) ==> p.wf() && p@.root_ok() && !p@.symbols[p@.root->0].ignore,
        match spec_from_bnf(
            "\n\nROOT(root) = [ EXPR ];\n\nEXPR(ignore) = PLUS | NUMBER;\n\nPLUS = EXPR_PLUS '+' EXPR_PLUS;\n\nEXPR_PLUS = NUMBER;\nNUMBER(raw) = '0' | '1' | '2' | '3' | '4' | '5' | '6' | '7' | '8' | '9';\n"@,
        ) {
            SpecCompiled::Grammar(sp) => r matches Ok(p) && p@ == sp,
            SpecCompiled::Defect(e) => r matches Err(err) && err@ == e,
        },
{
    proof {
        reveal_strlit(
            "\n\nROOT(root) = [ EXPR ];\n\nEXPR(ignore) = PLUS | NUMBER;\n\nPLUS = EXPR_PLUS '+' EXPR_PLUS;\n\nEXPR_PLUS = NUMBER;\nNUMBER(raw) = '0' | '1' | '2' | '3' | '4' | '5' | '6' | '7' | '8' | '9';\n",
        );
    }
    Parser::from_bnf(
        "\n\nROOT(root) = [ EXPR ];\n\nEXPR(ignore) = PLUS | NUMBER;\n\nPLUS = EXPR_PLUS '+' EXPR_PLUS;\n\nEXPR_PLUS = NUMBER;\nNUMBER(raw) = '0' | '1' | '2' | '3' | '4' | '5' | '6' | '7' | '8' | '9';\n",
    )
}

} // verus!
