//! The bootstrap meta-grammar: the grammar of the textual grammar notation,
//! built directly from the primitive combinators (not through the compiler,
//! which would be circular).
//!
//! The notation it describes: statements `NAME(flag, …) = expression ;`
//! with flags `raw`, `ignore` and `root`; space-separated sequencing;
//! ` | `-separated ordered alternation; `[ … ]` optional; `{ … }`
//! zero-or-more; `( … )` grouping; quoted single-character terminals `'x'`;
//! `*` for any character outside a fixed exclusion set; and `$WHITESPACE`
//! for built-in whitespace.
//!
//! The five expression alternations refer to the compound constructs and
//! the compound constructs refer back to the expression alternations, so
//! the alternations are created empty first and their members are appended
//! once every construct exists.  The arena is built in three stages so that
//! each stage's correctness argument stays small.

use crate::builder::anon_sym;
use crate::builder::spec_build;
use crate::builder::SpecBuildError;
use crate::builder::SpecBuildOutcome;
use crate::builder::named_sym;
use crate::parse::Parser;
use crate::input::pos_at;
use crate::parse::chars_rules;
use crate::parse::STEP_LIMIT;
use crate::parse::SpecParser;
use crate::symbol::SpecShape;
use crate::symbol::SpecSymbol;
use crate::symbol::SymbolIdent;
use crate::semantics::spec_advance;
use crate::semantics::SpecAdvance;
use crate::symbol::SymbolProperties;
use vstd::prelude::*;

verus! {

/// The five expression alternations, one per syntactic context: a context
/// differs from the others only in which compound constructs may stand in
/// it without grouping parentheses.
struct ExprIds {
    expression: SymbolIdent,
    expr_seq: SymbolIdent,
    expr_one_of: SymbolIdent,
    expr_opt: SymbolIdent,
    expr_many: SymbolIdent,
}

/// The single-token rules of the notation.
struct TokenIds {
    sep: SymbolIdent,
    comma: SymbolIdent,
    equals: SymbolIdent,
    statement_term: SymbolIdent,
    one_of_sep: SymbolIdent,
    par_begin: SymbolIdent,
    par_end: SymbolIdent,
    opt_begin: SymbolIdent,
    opt_end: SymbolIdent,
    many_begin: SymbolIdent,
    many_end: SymbolIdent,
    lc_char: SymbolIdent,
    whitespace: SymbolIdent,
    identifier: SymbolIdent,
    terminal_rule: SymbolIdent,
    any: SymbolIdent,
    ident_whitespace: SymbolIdent,
}

/// The compound constructs and the grammar's root.
struct ConstructIds {
    seq: SymbolIdent,
    one_of: SymbolIdent,
    opt: SymbolIdent,
    many: SymbolIdent,
    seq_par: SymbolIdent,
    one_of_par: SymbolIdent,
    statement: SymbolIdent,
    stmt_info_opt: SymbolIdent,
    root: SymbolIdent,
}

/// The arena indices of the five expression alternations.
pub ghost struct ExprIdx {
    pub expression: int,
    pub expr_seq: int,
    pub expr_one_of: int,
    pub expr_opt: int,
    pub expr_many: int,
}

/// The arena indices of the single-token rules.
pub ghost struct TokenIdx {
    pub sep: int,
    pub comma: int,
    pub equals: int,
    pub statement_term: int,
    pub one_of_sep: int,
    pub par_begin: int,
    pub par_end: int,
    pub opt_begin: int,
    pub opt_end: int,
    pub many_begin: int,
    pub many_end: int,
    pub lc_char: int,
    pub whitespace: int,
    pub identifier: int,
    pub terminal_rule: int,
    pub any: int,
    pub ident_whitespace: int,
}

/// The arena indices of the compound constructs and the root.
pub ghost struct ConstructIdx {
    pub seq: int,
    pub one_of: int,
    pub opt: int,
    pub many: int,
    pub seq_par: int,
    pub one_of_par: int,
    pub statement: int,
    pub stmt_info_opt: int,
    pub root: int,
}

/// The arena after the five expression alternations, still empty, and
/// their indices.
pub open spec fn spec_exprs(g0: Seq<SpecSymbol>) -> (Seq<SpecSymbol>, ExprIdx) {
    (
        g0.push(named_sym(SpecShape::OneOf(Seq::empty()), "EXPR"@, false, true)).push(
            named_sym(SpecShape::OneOf(Seq::empty()), "EXPR_SEQ"@, false, true),
        ).push(named_sym(SpecShape::OneOf(Seq::empty()), "EXPR_ONE_OF"@, false, true)).push(
            named_sym(SpecShape::OneOf(Seq::empty()), "EXPR_OPT"@, false, true),
        ).push(named_sym(SpecShape::OneOf(Seq::empty()), "EXPR_MANY"@, false, true)),
        ExprIdx {
            expression: g0.len() as int,
            expr_seq: g0.len() as int + 1,
            expr_one_of: g0.len() as int + 2,
            expr_opt: g0.len() as int + 3,
            expr_many: g0.len() as int + 4,
        },
    )
}

/// The arena after the single-token rules, and their indices.
pub open spec fn spec_tokens(g0: Seq<SpecSymbol>) -> (Seq<SpecSymbol>, TokenIdx) {
    let terminal_delim = g0.len() as int;
    let g = g0.push(anon_sym(SpecShape::Terminal('\'')));
    let statement_term = g.len() as int;
    let g = g.push(anon_sym(SpecShape::Terminal(';')));
    let equals = g.len() as int;
    let g = g.push(anon_sym(SpecShape::Terminal('=')));
    let ident_char = g.len() as int + "ABCDEFGHIJKLMNOPQRSTUVWXYZ_"@.len() as int;
    let g = chars_rules(g, "ABCDEFGHIJKLMNOPQRSTUVWXYZ_"@, None, false, true, true);
    let lc_char = g.len() as int + "abcdefghijklmnopqrstuvwxyz"@.len() as int;
    let g = chars_rules(g, "abcdefghijklmnopqrstuvwxyz"@, None, false, true, true);
    let sep = g.len() as int;
    let g = g.push(anon_sym(SpecShape::Terminal(' ')));
    let pipe = g.len() as int;
    let g = g.push(anon_sym(SpecShape::Terminal('|')));
    let comma = g.len() as int;
    let g = g.push(anon_sym(SpecShape::Terminal(',')));
    let char_rule = g.len() as int;
    let g = g.push(anon_sym(SpecShape::AnyExcept(Seq::empty())));
    let opt_begin = g.len() as int;
    let g = g.push(anon_sym(SpecShape::Terminal('[')));
    let opt_end = g.len() as int;
    let g = g.push(anon_sym(SpecShape::Terminal(']')));
    let many_begin = g.len() as int;
    let g = g.push(anon_sym(SpecShape::Terminal('{')));
    let many_end = g.len() as int;
    let g = g.push(anon_sym(SpecShape::Terminal('}')));
    let par_begin = g.len() as int;
    let g = g.push(anon_sym(SpecShape::Terminal('(')));
    let par_end = g.len() as int;
    let g = g.push(anon_sym(SpecShape::Terminal(')')));
    let one_of_sep = g.len() as int;
    let g = g.push(anon_sym(SpecShape::Sequence(seq![sep, pipe, sep])));
    let whitespace_char = g.len() as int + " \n\r\t"@.len() as int;
    let g = chars_rules(g, " \n\r\t"@, Some("WHITESPACE_CHAR"@), false, true, true);
    let ident_whitespace = g.len() as int + "$WHITESPACE"@.len() as int;
    let g = chars_rules(g, "$WHITESPACE"@, Some("WHITESPACE_ID"@), true, false, false);
    let any = g.len() as int;
    let g = g.push(named_sym(SpecShape::Terminal('*'), "ANY"@, true, false));
    let whitespace = g.len() as int;
    let g = g.push(named_sym(SpecShape::ZeroOrMore(whitespace_char), "WHITESPACE"@, false, true));
    let identifier = g.len() as int;
    let g = g.push(named_sym(SpecShape::OneOrMore(ident_char), "IDENTIFIER"@, true, false));
    let terminal_rule = g.len() as int;
    let g = g.push(
        named_sym(
            SpecShape::Sequence(seq![terminal_delim, char_rule, terminal_delim]),
            "TERMINAL"@,
            true,
            false,
        ),
    );
    (
        g,
        TokenIdx {
            sep,
            comma,
            equals,
            statement_term,
            one_of_sep,
            par_begin,
            par_end,
            opt_begin,
            opt_end,
            many_begin,
            many_end,
            lc_char,
            whitespace,
            identifier,
            terminal_rule,
            any,
            ident_whitespace,
        },
    )
}

/// The arena after the compound constructs and the root, and their indices.
pub open spec fn spec_constructs(g0: Seq<SpecSymbol>, e: ExprIdx, k: TokenIdx) -> (
    Seq<SpecSymbol>,
    ConstructIdx,
) {
    let seq_item = g0.len() as int;
    let g = g0.push(
        named_sym(SpecShape::Sequence(seq![k.sep, e.expr_seq]), "SEQ_ITEM"@, false, true),
    );
    let seq_item_opt = g.len() as int;
    let g = g.push(named_sym(SpecShape::ZeroOrMore(seq_item), "SEQ_ITEM_OPT"@, false, true));
    let seq = g.len() as int;
    let g = g.push(
        named_sym(
            SpecShape::Sequence(seq![e.expr_seq, k.sep, e.expr_seq, seq_item_opt]),
            "SEQUENCE"@,
            false,
            false,
        ),
    );
    let seq_par = g.len() as int;
    let g = g.push(
        named_sym(
            SpecShape::Sequence(seq![k.par_begin, k.whitespace, seq, k.whitespace, k.par_end]),
            "SEQ_PAR"@,
            false,
            true,
        ),
    );
    let one_of_item = g.len() as int;
    let g = g.push(
        named_sym(
            SpecShape::Sequence(seq![k.one_of_sep, e.expr_one_of]),
            "ONE_OF_ITEM"@,
            false,
            true,
        ),
    );
    let one_of_item_opt = g.len() as int;
    let g = g.push(
        named_sym(SpecShape::ZeroOrMore(one_of_item), "ONE_OF_ITEM_OPT"@, false, true),
    );
    let one_of = g.len() as int;
    let g = g.push(
        named_sym(
            SpecShape::Sequence(seq![e.expr_one_of, k.one_of_sep, e.expr_one_of, one_of_item_opt]),
            "ONE_OF"@,
            false,
            false,
        ),
    );
    let one_of_par = g.len() as int;
    let g = g.push(
        named_sym(
            SpecShape::Sequence(seq![k.par_begin, k.whitespace, one_of, k.whitespace, k.par_end]),
            "ONE_OF_PAR"@,
            false,
            true,
        ),
    );
    let opt = g.len() as int;
    let g = g.push(
        named_sym(
            SpecShape::Sequence(seq![k.opt_begin, k.whitespace, e.expr_opt, k.whitespace, k.opt_end]),
            "OPTIONAL"@,
            false,
            false,
        ),
    );
    let many = g.len() as int;
    let g = g.push(
        named_sym(
            SpecShape::Sequence(
                seq![k.many_begin, k.whitespace, e.expr_many, k.whitespace, k.many_end],
            ),
            "MANY"@,
            false,
            false,
        ),
    );
    let stmt_info_flag = g.len() as int;
    let g = g.push(named_sym(SpecShape::OneOrMore(k.lc_char), "FLAG"@, true, false));
    let stmt_info_flag_item = g.len() as int;
    let g = g.push(anon_sym(SpecShape::Sequence(seq![k.comma, stmt_info_flag])));
    let stmt_info_flag_item_opt = g.len() as int;
    let g = g.push(anon_sym(SpecShape::ZeroOrMore(stmt_info_flag_item)));
    let stmt_info = g.len() as int;
    let g = g.push(
        named_sym(
            SpecShape::Sequence(
                seq![k.par_begin, stmt_info_flag, stmt_info_flag_item_opt, k.par_end],
            ),
            "STMT_INFO"@,
            false,
            false,
        ),
    );
    let stmt_info_opt = g.len() as int;
    let g = g.push(anon_sym(SpecShape::Optional(stmt_info)));
    let statement = g.len() as int;
    let g = g.push(
        named_sym(
            SpecShape::Sequence(
                seq![
                    k.whitespace,
                    k.identifier,
                    stmt_info_opt,
                    k.whitespace,
                    k.equals,
                    k.whitespace,
                    e.expression,
                    k.whitespace,
                    k.statement_term,
                    k.whitespace,
                ],
            ),
            "STATEMENT"@,
            false,
            false,
        ),
    );
    let root = g.len() as int;
    let g = g.push(named_sym(SpecShape::OneOrMore(statement), "ROOT"@, false, false));
    (
        g,
        ConstructIdx {
            seq,
            one_of,
            opt,
            many,
            seq_par,
            one_of_par,
            statement,
            stmt_info_opt,
            root,
        },
    )
}

/// The bootstrap grammar, rule for rule: the expression alternations, the
/// tokens and the compound constructs, with each alternation's members
/// filled in — the compound constructs first, the single-token expressions
/// after them — and the root designated.
pub open spec fn bootstrap_grammar() -> SpecParser {
    let e = spec_exprs(Seq::empty()).1;
    let g1 = spec_exprs(Seq::empty()).0;
    let k = spec_tokens(g1).1;
    let g2 = spec_tokens(g1).0;
    let c = spec_constructs(g2, e, k).1;
    let g3 = spec_constructs(g2, e, k).0;
    let g4 = g3.update(
        e.expression,
        named_sym(
            SpecShape::OneOf(
                seq![
                    c.seq,
                    c.one_of,
                    c.opt,
                    c.many,
                    k.terminal_rule,
                    k.identifier,
                    k.any,
                    k.ident_whitespace,
                ],
            ),
            "EXPR"@,
            false,
            true,
        ),
    ).update(
        e.expr_seq,
        named_sym(
            SpecShape::OneOf(
                seq![
                    c.one_of_par,
                    c.opt,
                    c.many,
                    k.terminal_rule,
                    k.identifier,
                    k.any,
                    k.ident_whitespace,
                ],
            ),
            "EXPR_SEQ"@,
            false,
            true,
        ),
    ).update(
        e.expr_one_of,
        named_sym(
            SpecShape::OneOf(
                seq![
                    c.seq_par,
                    c.opt,
                    c.many,
                    k.terminal_rule,
                    k.identifier,
                    k.any,
                    k.ident_whitespace,
                ],
            ),
            "EXPR_ONE_OF"@,
            false,
            true,
        ),
    ).update(
        e.expr_opt,
        named_sym(
            SpecShape::OneOf(
                seq![
                    c.seq,
                    c.one_of,
                    c.many,
                    k.terminal_rule,
                    k.identifier,
                    k.any,
                    k.ident_whitespace,
                ],
            ),
            "EXPR_OPT"@,
            false,
            true,
        ),
    ).update(
        e.expr_many,
        named_sym(
            SpecShape::OneOf(
                seq![c.seq, c.one_of, c.opt, k.terminal_rule, k.identifier, k.ident_whitespace],
            ),
            "EXPR_MANY"@,
            false,
            true,
        ),
    );
    SpecParser { symbols: g4, root: Some(c.root) }
}

/// The arena describes the grammar notation: a designated `ROOT` rule of
/// one or more statements; a statement of identifier, optional flag list,
/// `=`, expression and `;` with ignored whitespace between the tokens; an
/// expression alternation offering the compound constructs, the quoted
/// terminal, a name reference, the `*` wildcard and `$WHITESPACE`.
pub open spec fn notation_rules(
    g: SpecParser,
    root: int,
    statement: int,
    expression: int,
    identifier: int,
    terminal: int,
    any: int,
    ws: int,
) -> bool {
    {
            &&& g.root == Some(root)
            &&& 0 <= root < g.symbols.len()
            &&& 0 <= statement < g.symbols.len()
            &&& 0 <= expression < g.symbols.len()
            &&& 0 <= identifier < g.symbols.len()
            &&& 0 <= terminal < g.symbols.len()
            &&& 0 <= any < g.symbols.len()
            &&& 0 <= ws < g.symbols.len()
            &&& g.symbols[root] == named_sym(SpecShape::OneOrMore(statement), "ROOT"@, false, false)
            &&& g.symbols[statement].name == Some("STATEMENT"@)
            &&& !g.symbols[statement].raw
            &&& !g.symbols[statement].ignore
            &&& (g.symbols[statement].shape matches SpecShape::Sequence(ms) && ms.len() == 10
                && ms[0] == ws && ms[1] == identifier && ms[6] == expression)
            &&& g.symbols[ws].name == Some("WHITESPACE"@)
            &&& g.symbols[ws].ignore
            &&& g.symbols[ws].shape is ZeroOrMore
            &&& g.symbols[identifier].name == Some("IDENTIFIER"@)
            &&& g.symbols[identifier].raw
            &&& g.symbols[identifier].shape is OneOrMore
            &&& g.symbols[expression].name == Some("EXPR"@)
            &&& g.symbols[expression].ignore
            &&& (g.symbols[expression].shape matches SpecShape::OneOf(es) && es.len() == 8
                && es[4] == terminal && es[5] == identifier && es[6] == any)
            &&& g.symbols[terminal].name == Some("TERMINAL"@)
            &&& g.symbols[terminal].raw
            &&& (g.symbols[terminal].shape matches SpecShape::Sequence(ts) && ts.len() == 3)
            &&& g.symbols[any] == named_sym(SpecShape::Terminal('*'), "ANY"@, true, false)
    }
}

/// The outcome of compiling one grammar text.
pub ghost enum SpecCompiled {
    Grammar(SpecParser),
    Defect(SpecBuildError),
}

/// What a grammar text compiles to: the bootstrap grammar's step-indexed
/// parse of the text — a failure or leftover input is a text defect at the
/// reported position — and, when the whole text parses to a tree, the
/// exact outcome the compiler assigns to that tree.
pub open spec fn spec_from_bnf(t: Seq<char>) -> SpecCompiled {
    let g = bootstrap_grammar();
    match spec_advance(g.symbols, g.root->0, t, 0, STEP_LIMIT as nat) {
        SpecAdvance::Node(n, q) => if q == t.len() {
            match spec_build(n) {
                SpecBuildOutcome::Built(sp) => SpecCompiled::Grammar(sp),
                SpecBuildOutcome::Failed(e) => SpecCompiled::Defect(e),
            }
        } else {
            SpecCompiled::Defect(SpecBuildError::Unparsable(pos_at(t, q)))
        },
        // The root rule is not ignore-flagged, so it never splices.
        SpecAdvance::Splice(ns, q) => SpecCompiled::Defect(SpecBuildError::MalformedTree),
        SpecAdvance::Miss(f) => SpecCompiled::Defect(SpecBuildError::Unparsable(pos_at(t, f))),
        SpecAdvance::Spent => SpecCompiled::Defect(SpecBuildError::Unparsable(pos_at(t, 0))),
    }
}

/// Some assignment of arena indices realizes the notation's rule structure.
pub open spec fn describes_notation(g: SpecParser) -> bool {
    exists|root: int, statement: int, expression: int, identifier: int, terminal: int, any: int, ws: int|
        #[trigger] notation_rules(g, root, statement, expression, identifier, terminal, any, ws)
}

impl View for ExprIds {
    type V = ExprIdx;

    closed spec fn view(&self) -> ExprIdx {
        ExprIdx {
            expression: self.expression.0 as int,
            expr_seq: self.expr_seq.0 as int,
            expr_one_of: self.expr_one_of.0 as int,
            expr_opt: self.expr_opt.0 as int,
            expr_many: self.expr_many.0 as int,
        }
    }
}

impl View for TokenIds {
    type V = TokenIdx;

    closed spec fn view(&self) -> TokenIdx {
        TokenIdx {
            sep: self.sep.0 as int,
            comma: self.comma.0 as int,
            equals: self.equals.0 as int,
            statement_term: self.statement_term.0 as int,
            one_of_sep: self.one_of_sep.0 as int,
            par_begin: self.par_begin.0 as int,
            par_end: self.par_end.0 as int,
            opt_begin: self.opt_begin.0 as int,
            opt_end: self.opt_end.0 as int,
            many_begin: self.many_begin.0 as int,
            many_end: self.many_end.0 as int,
            lc_char: self.lc_char.0 as int,
            whitespace: self.whitespace.0 as int,
            identifier: self.identifier.0 as int,
            terminal_rule: self.terminal_rule.0 as int,
            any: self.any.0 as int,
            ident_whitespace: self.ident_whitespace.0 as int,
        }
    }
}

impl View for ConstructIds {
    type V = ConstructIdx;

    closed spec fn view(&self) -> ConstructIdx {
        ConstructIdx {
            seq: self.seq.0 as int,
            one_of: self.one_of.0 as int,
            opt: self.opt.0 as int,
            many: self.many.0 as int,
            seq_par: self.seq_par.0 as int,
            one_of_par: self.one_of_par.0 as int,
            statement: self.statement.0 as int,
            stmt_info_opt: self.stmt_info_opt.0 as int,
            root: self.root.0 as int,
        }
    }
}

/// Creates the five expression alternations, empty for now.
fn build_exprs(p: &mut Parser) -> (r: ExprIds)
    requires
        old(p).wf(),
    ensures
        final(p).wf(),
        final(p)@.root == old(p)@.root,
        final(p)@.symbols.len() == old(p)@.symbols.len() + 5,
        forall|i: int|
            0 <= i < old(p)@.symbols.len() ==> final(p)@.symbols[i] == old(p)@.symbols[i],
        r.expression.0 == old(p)@.symbols.len(),
        r.expr_seq.0 == old(p)@.symbols.len() + 1,
        r.expr_one_of.0 == old(p)@.symbols.len() + 2,
        r.expr_opt.0 == old(p)@.symbols.len() + 3,
        r.expr_many.0 == old(p)@.symbols.len() + 4,
        forall|i: int|
            old(p)@.symbols.len() <= i < final(p)@.symbols.len() ==> (
            #[trigger] final(p)@.symbols[i]).shape == SpecShape::OneOf(Seq::<int>::empty()),
        final(p)@.symbols[r.expression.0 as int].name == Some("EXPR"@),
        final(p)@.symbols[r.expression.0 as int].ignore,
        !final(p)@.symbols[r.expression.0 as int].raw,
        final(p)@.symbols == spec_exprs(old(p)@.symbols).0,
        r@ == spec_exprs(old(p)@.symbols).1,
{
    let expression = p.one_of(vec![], SymbolProperties::new("EXPR", false, true));
    let expr_seq = p.one_of(vec![], SymbolProperties::new("EXPR_SEQ", false, true));
    let expr_one_of = p.one_of(vec![], SymbolProperties::new("EXPR_ONE_OF", false, true));
    let expr_opt = p.one_of(vec![], SymbolProperties::new("EXPR_OPT", false, true));
    let expr_many = p.one_of(vec![], SymbolProperties::new("EXPR_MANY", false, true));
    proof {
        assert(Seq::<&SymbolIdent>::empty().map_values(|m: &SymbolIdent| m.0 as int)
            =~= Seq::<int>::empty());
        assert(p@.symbols == spec_exprs(old(p)@.symbols).0);
    }
    ExprIds { expression, expr_seq, expr_one_of, expr_opt, expr_many }
}

/// Creates the single-token rules.
#[allow(non_snake_case)]
#[verifier::rlimit(100)]
fn build_tokens(p: &mut Parser) -> (r: TokenIds)
    requires
        old(p).wf(),
    ensures
        final(p).wf(),
        final(p)@.root == old(p)@.root,
        old(p)@.symbols.len() <= final(p)@.symbols.len(),
        forall|i: int|
            0 <= i < old(p)@.symbols.len() ==> final(p)@.symbols[i] == old(p)@.symbols[i],
        r.sep.0 < final(p)@.symbols.len(),
        r.comma.0 < final(p)@.symbols.len(),
        r.equals.0 < final(p)@.symbols.len(),
        r.statement_term.0 < final(p)@.symbols.len(),
        r.one_of_sep.0 < final(p)@.symbols.len(),
        r.par_begin.0 < final(p)@.symbols.len(),
        r.par_end.0 < final(p)@.symbols.len(),
        r.opt_begin.0 < final(p)@.symbols.len(),
        r.opt_end.0 < final(p)@.symbols.len(),
        r.many_begin.0 < final(p)@.symbols.len(),
        r.many_end.0 < final(p)@.symbols.len(),
        r.lc_char.0 < final(p)@.symbols.len(),
        r.whitespace.0 < final(p)@.symbols.len(),
        r.identifier.0 < final(p)@.symbols.len(),
        r.terminal_rule.0 < final(p)@.symbols.len(),
        r.any.0 < final(p)@.symbols.len(),
        r.ident_whitespace.0 < final(p)@.symbols.len(),
        final(p)@.symbols[r.identifier.0 as int].name == Some("IDENTIFIER"@),
        final(p)@.symbols[r.identifier.0 as int].raw,
        !final(p)@.symbols[r.identifier.0 as int].ignore,
        final(p)@.symbols[r.identifier.0 as int].shape is OneOrMore,
        final(p)@.symbols[r.terminal_rule.0 as int].name == Some("TERMINAL"@),
        final(p)@.symbols[r.terminal_rule.0 as int].raw,
        !final(p)@.symbols[r.terminal_rule.0 as int].ignore,
        final(p)@.symbols[r.terminal_rule.0 as int].shape matches SpecShape::Sequence(ms)
            && ms.len() == 3,
        final(p)@.symbols[r.any.0 as int] == named_sym(
            SpecShape::Terminal('*'),
            "ANY"@,
            true,
            false,
        ),
        final(p)@.symbols[r.whitespace.0 as int].name == Some("WHITESPACE"@),
        final(p)@.symbols[r.whitespace.0 as int].ignore,
        final(p)@.symbols[r.whitespace.0 as int].shape is ZeroOrMore,
        final(p)@.symbols[r.ident_whitespace.0 as int].name == Some("WHITESPACE_ID"@),
        final(p)@.symbols[r.ident_whitespace.0 as int].raw,
        final(p)@.symbols == spec_tokens(old(p)@.symbols).0,
        r@ == spec_tokens(old(p)@.symbols).1,
{
    let TERMINAL_DELIM = p.terminal('\'', None);
    let STATEMENT_TERM = p.terminal(';', None);
    let EQUALS = p.terminal('=', None);
    let IDENT_CHAR = p.one_of_chars("ABCDEFGHIJKLMNOPQRSTUVWXYZ_", None);
    let LC_CHAR = p.one_of_chars("abcdefghijklmnopqrstuvwxyz", None);
    let SEP = p.terminal(' ', None);
    let PIPE = p.terminal('|', None);
    let COMMA = p.terminal(',', None);
    let no_chars: [char; 0] = [];
    let CHAR = p.any_except(&no_chars, None);
    proof {
        assert(no_chars@ =~= Seq::<char>::empty());
    }
    let OPT_BEGIN = p.terminal('[', None);
    let OPT_END = p.terminal(']', None);
    let MANY_BEGIN = p.terminal('{', None);
    let MANY_END = p.terminal('}', None);
    let PAR_BEGIN = p.terminal('(', None);
    let PAR_END = p.terminal(')', None);
    let ONE_OF_SEP = p.sequence(vec![&SEP, &PIPE, &SEP], None);
    proof {
        assert(seq![&SEP, &PIPE, &SEP].map_values(|m: &SymbolIdent| m.0 as int) =~= seq![
            SEP.0 as int,
            PIPE.0 as int,
            SEP.0 as int,
        ]);
    }
    let WHITESPACE_CHAR = p.one_of_chars(
        " \n\r\t",
        SymbolProperties::new("WHITESPACE_CHAR", false, true),
    );
    let IDENT_WHITESPACE = p.sequence_chars(
        "$WHITESPACE",
        SymbolProperties::new("WHITESPACE_ID", true, false),
    );
    let ANY = p.terminal('*', SymbolProperties::new("ANY", true, false));
    let WHITESPACE = p.zero_or_more(
        &WHITESPACE_CHAR,
        SymbolProperties::new("WHITESPACE", false, true),
    );
    let IDENTIFIER = p.one_or_more(&IDENT_CHAR, SymbolProperties::new("IDENTIFIER", true, false));
    let TERMINAL = p.sequence(
        vec![&TERMINAL_DELIM, &CHAR, &TERMINAL_DELIM],
        SymbolProperties::new("TERMINAL", true, false),
    );
    proof {
        assert(seq![&TERMINAL_DELIM, &CHAR, &TERMINAL_DELIM].map_values(
            |m: &SymbolIdent| m.0 as int,
        ) =~= seq![TERMINAL_DELIM.0 as int, CHAR.0 as int, TERMINAL_DELIM.0 as int]);
        assert(p@.symbols == spec_tokens(old(p)@.symbols).0);
    }
    TokenIds {
        sep: SEP,
        comma: COMMA,
        equals: EQUALS,
        statement_term: STATEMENT_TERM,
        one_of_sep: ONE_OF_SEP,
        par_begin: PAR_BEGIN,
        par_end: PAR_END,
        opt_begin: OPT_BEGIN,
        opt_end: OPT_END,
        many_begin: MANY_BEGIN,
        many_end: MANY_END,
        lc_char: LC_CHAR,
        whitespace: WHITESPACE,
        identifier: IDENTIFIER,
        terminal_rule: TERMINAL,
        any: ANY,
        ident_whitespace: IDENT_WHITESPACE,
    }
}

/// Creates the compound constructs — sequences, alternations, the optional
/// and repetition brackets, the statement — and the grammar's root rule.
#[allow(non_snake_case)]
#[verifier::rlimit(100)]
fn build_constructs(p: &mut Parser, e: &ExprIds, k: &TokenIds) -> (r: ConstructIds)
    requires
        old(p).wf(),
        e.expression.0 < old(p)@.symbols.len(),
        e.expr_seq.0 < old(p)@.symbols.len(),
        e.expr_one_of.0 < old(p)@.symbols.len(),
        e.expr_opt.0 < old(p)@.symbols.len(),
        e.expr_many.0 < old(p)@.symbols.len(),
        k.sep.0 < old(p)@.symbols.len(),
        k.comma.0 < old(p)@.symbols.len(),
        k.equals.0 < old(p)@.symbols.len(),
        k.statement_term.0 < old(p)@.symbols.len(),
        k.one_of_sep.0 < old(p)@.symbols.len(),
        k.par_begin.0 < old(p)@.symbols.len(),
        k.par_end.0 < old(p)@.symbols.len(),
        k.opt_begin.0 < old(p)@.symbols.len(),
        k.opt_end.0 < old(p)@.symbols.len(),
        k.many_begin.0 < old(p)@.symbols.len(),
        k.many_end.0 < old(p)@.symbols.len(),
        k.lc_char.0 < old(p)@.symbols.len(),
        k.whitespace.0 < old(p)@.symbols.len(),
        k.identifier.0 < old(p)@.symbols.len(),
        k.terminal_rule.0 < old(p)@.symbols.len(),
        k.any.0 < old(p)@.symbols.len(),
        k.ident_whitespace.0 < old(p)@.symbols.len(),
    ensures
        final(p).wf(),
        final(p)@.root == old(p)@.root,
        old(p)@.symbols.len() <= final(p)@.symbols.len(),
        forall|i: int|
            0 <= i < old(p)@.symbols.len() ==> final(p)@.symbols[i] == old(p)@.symbols[i],
        r.seq.0 < final(p)@.symbols.len(),
        r.one_of.0 < final(p)@.symbols.len(),
        r.opt.0 < final(p)@.symbols.len(),
        r.many.0 < final(p)@.symbols.len(),
        r.seq_par.0 < final(p)@.symbols.len(),
        r.one_of_par.0 < final(p)@.symbols.len(),
        old(p)@.symbols.len() <= r.statement.0 < final(p)@.symbols.len(),
        r.stmt_info_opt.0 < final(p)@.symbols.len(),
        old(p)@.symbols.len() <= r.root.0 < final(p)@.symbols.len(),
        !final(p)@.symbols[r.root.0 as int].ignore,
        !final(p)@.symbols[r.root.0 as int].raw,
        final(p)@.symbols[r.root.0 as int].name == Some("ROOT"@),
        final(p)@.symbols[r.root.0 as int].shape is OneOrMore,
        final(p)@.symbols[r.root.0 as int] == named_sym(
            SpecShape::OneOrMore(r.statement.0 as int),
            "ROOT"@,
            false,
            false,
        ),
        final(p)@.symbols[r.statement.0 as int] == named_sym(
            SpecShape::Sequence(
                seq![
                    k.whitespace.0 as int,
                    k.identifier.0 as int,
                    r.stmt_info_opt.0 as int,
                    k.whitespace.0 as int,
                    k.equals.0 as int,
                    k.whitespace.0 as int,
                    e.expression.0 as int,
                    k.whitespace.0 as int,
                    k.statement_term.0 as int,
                    k.whitespace.0 as int,
                ],
            ),
            "STATEMENT"@,
            false,
            false,
        ),
        final(p)@.symbols == spec_constructs(old(p)@.symbols, e@, k@).0,
        r@ == spec_constructs(old(p)@.symbols, e@, k@).1,
{
    let SEQ_ITEM = p.sequence(
        vec![&k.sep, &e.expr_seq],
        SymbolProperties::new("SEQ_ITEM", false, true),
    );
    proof {
        assert(seq![&k.sep, &e.expr_seq].map_values(|m: &SymbolIdent| m.0 as int) =~= seq![k.sep.0 as int, e.expr_seq.0 as int]);
    }
    let SEQ_ITEM_OPT = p.zero_or_more(&SEQ_ITEM, SymbolProperties::new("SEQ_ITEM_OPT", false, true));
    let SEQ = p.sequence(
        vec![&e.expr_seq, &k.sep, &e.expr_seq, &SEQ_ITEM_OPT],
        SymbolProperties::new("SEQUENCE", false, false),
    );
    proof {
        assert(seq![&e.expr_seq, &k.sep, &e.expr_seq, &SEQ_ITEM_OPT].map_values(|m: &SymbolIdent| m.0 as int) =~= seq![e.expr_seq.0 as int, k.sep.0 as int, e.expr_seq.0 as int, SEQ_ITEM_OPT.0 as int]);
    }
    let SEQ_PAR = p.sequence(
        vec![&k.par_begin, &k.whitespace, &SEQ, &k.whitespace, &k.par_end],
        SymbolProperties::new("SEQ_PAR", false, true),
    );
    proof {
        assert(seq![&k.par_begin, &k.whitespace, &SEQ, &k.whitespace, &k.par_end].map_values(|m: &SymbolIdent| m.0 as int) =~= seq![k.par_begin.0 as int, k.whitespace.0 as int, SEQ.0 as int, k.whitespace.0 as int, k.par_end.0 as int]);
    }
    let ONE_OF_ITEM = p.sequence(
        vec![&k.one_of_sep, &e.expr_one_of],
        SymbolProperties::new("ONE_OF_ITEM", false, true),
    );
    proof {
        assert(seq![&k.one_of_sep, &e.expr_one_of].map_values(|m: &SymbolIdent| m.0 as int) =~= seq![k.one_of_sep.0 as int, e.expr_one_of.0 as int]);
    }
    let ONE_OF_ITEM_OPT = p.zero_or_more(
        &ONE_OF_ITEM,
        SymbolProperties::new("ONE_OF_ITEM_OPT", false, true),
    );
    let ONE_OF = p.sequence(
        vec![&e.expr_one_of, &k.one_of_sep, &e.expr_one_of, &ONE_OF_ITEM_OPT],
        SymbolProperties::new("ONE_OF", false, false),
    );
    proof {
        assert(seq![&e.expr_one_of, &k.one_of_sep, &e.expr_one_of, &ONE_OF_ITEM_OPT].map_values(|m: &SymbolIdent| m.0 as int) =~= seq![e.expr_one_of.0 as int, k.one_of_sep.0 as int, e.expr_one_of.0 as int, ONE_OF_ITEM_OPT.0 as int]);
    }
    let ONE_OF_PAR = p.sequence(
        vec![&k.par_begin, &k.whitespace, &ONE_OF, &k.whitespace, &k.par_end],
        SymbolProperties::new("ONE_OF_PAR", false, true),
    );
    proof {
        assert(seq![&k.par_begin, &k.whitespace, &ONE_OF, &k.whitespace, &k.par_end].map_values(|m: &SymbolIdent| m.0 as int) =~= seq![k.par_begin.0 as int, k.whitespace.0 as int, ONE_OF.0 as int, k.whitespace.0 as int, k.par_end.0 as int]);
    }
    let OPT = p.sequence(
        vec![&k.opt_begin, &k.whitespace, &e.expr_opt, &k.whitespace, &k.opt_end],
        SymbolProperties::new("OPTIONAL", false, false),
    );
    proof {
        assert(seq![&k.opt_begin, &k.whitespace, &e.expr_opt, &k.whitespace, &k.opt_end].map_values(|m: &SymbolIdent| m.0 as int) =~= seq![k.opt_begin.0 as int, k.whitespace.0 as int, e.expr_opt.0 as int, k.whitespace.0 as int, k.opt_end.0 as int]);
    }
    let MANY = p.sequence(
        vec![&k.many_begin, &k.whitespace, &e.expr_many, &k.whitespace, &k.many_end],
        SymbolProperties::new("MANY", false, false),
    );
    proof {
        assert(seq![&k.many_begin, &k.whitespace, &e.expr_many, &k.whitespace, &k.many_end].map_values(|m: &SymbolIdent| m.0 as int) =~= seq![k.many_begin.0 as int, k.whitespace.0 as int, e.expr_many.0 as int, k.whitespace.0 as int, k.many_end.0 as int]);
    }
    let STMT_INFO_FLAG = p.one_or_more(&k.lc_char, SymbolProperties::new("FLAG", true, false));
    let STMT_INFO_FLAG_ITEM = p.sequence(vec![&k.comma, &STMT_INFO_FLAG], None);
    proof {
        assert(seq![&k.comma, &STMT_INFO_FLAG].map_values(|m: &SymbolIdent| m.0 as int) =~= seq![k.comma.0 as int, STMT_INFO_FLAG.0 as int]);
    }
    let STMT_INFO_FLAG_ITEM_OPT = p.zero_or_more(&STMT_INFO_FLAG_ITEM, None);
    let STMT_INFO = p.sequence(
        vec![&k.par_begin, &STMT_INFO_FLAG, &STMT_INFO_FLAG_ITEM_OPT, &k.par_end],
        SymbolProperties::new("STMT_INFO", false, false),
    );
    proof {
        assert(seq![&k.par_begin, &STMT_INFO_FLAG, &STMT_INFO_FLAG_ITEM_OPT, &k.par_end].map_values(|m: &SymbolIdent| m.0 as int) =~= seq![k.par_begin.0 as int, STMT_INFO_FLAG.0 as int, STMT_INFO_FLAG_ITEM_OPT.0 as int, k.par_end.0 as int]);
    }
    let STMT_INFO_OPT = p.optional(&STMT_INFO, None);
    let STATEMENT = p.sequence(
        vec![
            &k.whitespace,
            &k.identifier,
            &STMT_INFO_OPT,
            &k.whitespace,
            &k.equals,
            &k.whitespace,
            &e.expression,
            &k.whitespace,
            &k.statement_term,
            &k.whitespace,
        ],
        SymbolProperties::new("STATEMENT", false, false),
    );
    let ROOT = p.one_or_more(&STATEMENT, SymbolProperties::new("ROOT", false, false));
    proof {
        assert(p@.symbols[STATEMENT.0 as int].shape == SpecShape::Sequence(
            seq![
                k.whitespace.0 as int,
                k.identifier.0 as int,
                STMT_INFO_OPT.0 as int,
                k.whitespace.0 as int,
                k.equals.0 as int,
                k.whitespace.0 as int,
                e.expression.0 as int,
                k.whitespace.0 as int,
                k.statement_term.0 as int,
                k.whitespace.0 as int,
            ],
        )) by {
            assert(seq![
                &k.whitespace,
                &k.identifier,
                &STMT_INFO_OPT,
                &k.whitespace,
                &k.equals,
                &k.whitespace,
                &e.expression,
                &k.whitespace,
                &k.statement_term,
                &k.whitespace,
            ].map_values(|m: &SymbolIdent| m.0 as int) =~= seq![
                k.whitespace.0 as int,
                k.identifier.0 as int,
                STMT_INFO_OPT.0 as int,
                k.whitespace.0 as int,
                k.equals.0 as int,
                k.whitespace.0 as int,
                e.expression.0 as int,
                k.whitespace.0 as int,
                k.statement_term.0 as int,
                k.whitespace.0 as int,
            ]);
        }
    }
    proof {
        assert(p@.symbols == spec_constructs(old(p)@.symbols, e@, k@).0);
    }
    ConstructIds {
        seq: SEQ,
        one_of: ONE_OF,
        opt: OPT,
        many: MANY,
        seq_par: SEQ_PAR,
        one_of_par: ONE_OF_PAR,
        statement: STATEMENT,
        stmt_info_opt: STMT_INFO_OPT,
        root: ROOT,
    }
}

/// The grammar of the textual grammar notation, ready to parse grammar
/// files: well-formed, with a designated root rule that builds a node.
#[verifier::rlimit(100)]
pub fn bnf_parser() -> (r: Parser)
    ensures
        r.wf(),
        r@.root_ok(),
        !r@.symbols[r@.root->0].ignore,
        !r@.symbols[r@.root->0].raw,
        r@.symbols[r@.root->0].name == Some("ROOT"@),
        r@.symbols[r@.root->0].shape is OneOrMore,
        describes_notation(r@),
        r@ == bootstrap_grammar(),
{
    let mut parser = Parser::new();
    proof {
        assert(parser@.symbols =~= Seq::<SpecSymbol>::empty());
    }
    let e = build_exprs(&mut parser);
    let k = build_tokens(&mut parser);
    let c = build_constructs(&mut parser, &e, &k);

    // The members of the expression alternations, in matching order: the
    // compound constructs first, the single-token expressions after them.
    parser.add_ident(&e.expression, &c.seq);
    parser.add_ident(&e.expression, &c.one_of);
    parser.add_ident(&e.expression, &c.opt);
    parser.add_ident(&e.expression, &c.many);
    parser.add_ident(&e.expression, &k.terminal_rule);
    parser.add_ident(&e.expression, &k.identifier);
    parser.add_ident(&e.expression, &k.any);
    parser.add_ident(&e.expression, &k.ident_whitespace);

    parser.add_ident(&e.expr_seq, &c.one_of_par);
    parser.add_ident(&e.expr_seq, &c.opt);
    parser.add_ident(&e.expr_seq, &c.many);
    parser.add_ident(&e.expr_seq, &k.terminal_rule);
    parser.add_ident(&e.expr_seq, &k.identifier);
    parser.add_ident(&e.expr_seq, &k.any);
    parser.add_ident(&e.expr_seq, &k.ident_whitespace);

    parser.add_ident(&e.expr_one_of, &c.seq_par);
    parser.add_ident(&e.expr_one_of, &c.opt);
    parser.add_ident(&e.expr_one_of, &c.many);
    parser.add_ident(&e.expr_one_of, &k.terminal_rule);
    parser.add_ident(&e.expr_one_of, &k.identifier);
    parser.add_ident(&e.expr_one_of, &k.any);
    parser.add_ident(&e.expr_one_of, &k.ident_whitespace);

    parser.add_ident(&e.expr_opt, &c.seq);
    parser.add_ident(&e.expr_opt, &c.one_of);
    parser.add_ident(&e.expr_opt, &c.many);
    parser.add_ident(&e.expr_opt, &k.terminal_rule);
    parser.add_ident(&e.expr_opt, &k.identifier);
    parser.add_ident(&e.expr_opt, &k.any);
    parser.add_ident(&e.expr_opt, &k.ident_whitespace);

    parser.add_ident(&e.expr_many, &c.seq);
    parser.add_ident(&e.expr_many, &c.one_of);
    parser.add_ident(&e.expr_many, &c.opt);
    parser.add_ident(&e.expr_many, &k.terminal_rule);
    parser.add_ident(&e.expr_many, &k.identifier);
    parser.add_ident(&e.expr_many, &k.ident_whitespace);

    parser.root_node(&c.root);
    proof {
        assert(parser@.symbols[e.expression.0 as int] == named_sym(
            SpecShape::OneOf(seq![
                c.seq.0 as int,
                c.one_of.0 as int,
                c.opt.0 as int,
                c.many.0 as int,
                k.terminal_rule.0 as int,
                k.identifier.0 as int,
                k.any.0 as int,
                k.ident_whitespace.0 as int,
            ]),
            "EXPR"@,
            false,
            true,
        )) by {
            assert(Seq::<int>::empty().push(c.seq.0 as int).push(c.one_of.0 as int).push(c.opt.0 as int).push(c.many.0 as int).push(k.terminal_rule.0 as int).push(k.identifier.0 as int).push(k.any.0 as int).push(k.ident_whitespace.0 as int) =~= seq![
                c.seq.0 as int,
                c.one_of.0 as int,
                c.opt.0 as int,
                c.many.0 as int,
                k.terminal_rule.0 as int,
                k.identifier.0 as int,
                k.any.0 as int,
                k.ident_whitespace.0 as int,
            ]);
        }
        assert(parser@.symbols[e.expr_seq.0 as int] == named_sym(
            SpecShape::OneOf(seq![
                c.one_of_par.0 as int,
                c.opt.0 as int,
                c.many.0 as int,
                k.terminal_rule.0 as int,
                k.identifier.0 as int,
                k.any.0 as int,
                k.ident_whitespace.0 as int,
            ]),
            "EXPR_SEQ"@,
            false,
            true,
        )) by {
            assert(Seq::<int>::empty().push(c.one_of_par.0 as int).push(c.opt.0 as int).push(c.many.0 as int).push(k.terminal_rule.0 as int).push(k.identifier.0 as int).push(k.any.0 as int).push(k.ident_whitespace.0 as int) =~= seq![
                c.one_of_par.0 as int,
                c.opt.0 as int,
                c.many.0 as int,
                k.terminal_rule.0 as int,
                k.identifier.0 as int,
                k.any.0 as int,
                k.ident_whitespace.0 as int,
            ]);
        }
        assert(parser@.symbols[e.expr_one_of.0 as int] == named_sym(
            SpecShape::OneOf(seq![
                c.seq_par.0 as int,
                c.opt.0 as int,
                c.many.0 as int,
                k.terminal_rule.0 as int,
                k.identifier.0 as int,
                k.any.0 as int,
                k.ident_whitespace.0 as int,
            ]),
            "EXPR_ONE_OF"@,
            false,
            true,
        )) by {
            assert(Seq::<int>::empty().push(c.seq_par.0 as int).push(c.opt.0 as int).push(c.many.0 as int).push(k.terminal_rule.0 as int).push(k.identifier.0 as int).push(k.any.0 as int).push(k.ident_whitespace.0 as int) =~= seq![
                c.seq_par.0 as int,
                c.opt.0 as int,
                c.many.0 as int,
                k.terminal_rule.0 as int,
                k.identifier.0 as int,
                k.any.0 as int,
                k.ident_whitespace.0 as int,
            ]);
        }
        assert(parser@.symbols[e.expr_opt.0 as int] == named_sym(
            SpecShape::OneOf(seq![
                c.seq.0 as int,
                c.one_of.0 as int,
                c.many.0 as int,
                k.terminal_rule.0 as int,
                k.identifier.0 as int,
                k.any.0 as int,
                k.ident_whitespace.0 as int,
            ]),
            "EXPR_OPT"@,
            false,
            true,
        )) by {
            assert(Seq::<int>::empty().push(c.seq.0 as int).push(c.one_of.0 as int).push(c.many.0 as int).push(k.terminal_rule.0 as int).push(k.identifier.0 as int).push(k.any.0 as int).push(k.ident_whitespace.0 as int) =~= seq![
                c.seq.0 as int,
                c.one_of.0 as int,
                c.many.0 as int,
                k.terminal_rule.0 as int,
                k.identifier.0 as int,
                k.any.0 as int,
                k.ident_whitespace.0 as int,
            ]);
        }
        assert(parser@.symbols[e.expr_many.0 as int] == named_sym(
            SpecShape::OneOf(seq![
                c.seq.0 as int,
                c.one_of.0 as int,
                c.opt.0 as int,
                k.terminal_rule.0 as int,
                k.identifier.0 as int,
                k.ident_whitespace.0 as int,
            ]),
            "EXPR_MANY"@,
            false,
            true,
        )) by {
            assert(Seq::<int>::empty().push(c.seq.0 as int).push(c.one_of.0 as int).push(c.opt.0 as int).push(k.terminal_rule.0 as int).push(k.identifier.0 as int).push(k.ident_whitespace.0 as int) =~= seq![
                c.seq.0 as int,
                c.one_of.0 as int,
                c.opt.0 as int,
                k.terminal_rule.0 as int,
                k.identifier.0 as int,
                k.ident_whitespace.0 as int,
            ]);
        }
        assert(notation_rules(
            parser@,
            c.root.0 as int,
            c.statement.0 as int,
            e.expression.0 as int,
            k.identifier.0 as int,
            k.terminal_rule.0 as int,
            k.any.0 as int,
            k.whitespace.0 as int,
        ));
        assert(describes_notation(parser@));
        let bg = bootstrap_grammar();
        let g3 = spec_constructs(spec_tokens(spec_exprs(Seq::empty()).0).0, e@, k@).0;
        assert(parser@.symbols.len() == bg.symbols.len());
        assert forall|j: int| 0 <= j < parser@.symbols.len() implies parser@.symbols[j]
            == bg.symbols[j] by {
            if j != e.expression.0 as int && j != e.expr_seq.0 as int && j != e.expr_one_of.0 as int
                && j != e.expr_opt.0 as int && j != e.expr_many.0 as int {
                assert(parser@.symbols[j] == g3[j]);
                assert(bg.symbols[j] == g3[j]);
            }
        }
        assert(parser@.symbols =~= bg.symbols);
        assert(parser@ == bg);
    }
    parser
}

} // verus!
