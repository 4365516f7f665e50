//! The grammar arena and the recursive-descent interpreter.
//!
//! A [`Parser`] owns every rule of one grammar, addressed by stable
//! [`SymbolIdent`] indices, with one designated root rule.  Rules are built
//! with the combinator methods ([`Parser::terminal`], [`Parser::sequence`],
//! …) or compiled from grammar text ([`Parser::from_bnf`]), and applied to an
//! input with [`Parser::parse`], whose behaviour is exactly the step-indexed
//! interpreter of [`crate::semantics`].

use crate::input::pos_at;
use crate::input::CharStream;
use crate::input::Position;
use crate::node::nodes_deep;
use crate::node::chars_to_string;
use crate::node::SpecNode;
use crate::node::Node;
use crate::node::NodeData;
use crate::semantics::lemma_advance_bounds;
use crate::semantics::lemma_star_no_miss;
use crate::semantics::mk_node;
use crate::semantics::spec_opt;
use crate::semantics::spec_plus;
use crate::semantics::spec_advance;
use crate::semantics::spec_advance_choice;
use crate::semantics::spec_advance_seq;
use crate::semantics::spec_star;
use crate::semantics::SpecAdvance;
use crate::semantics::SpecStep;
use crate::symbol::SpecProps;
use crate::symbol::SpecShape;
use crate::symbol::SpecSymbol;
use crate::symbol::Symbol;
use crate::symbol::SymbolIdent;
use crate::symbol::SymbolProperties;
use crate::symbol::SymbolType;
use vstd::prelude::*;
use vstd::string::StrSliceExecFns;

verus! {

/// An arena of grammar rules with one designated root rule.
#[derive(Debug)]
pub struct Parser {
    symbol_registry: Vec<Symbol>,
    root_node: Option<SymbolIdent>,
}

/// The mathematical value of a grammar: the rules in arena order and the
/// root index, if one was designated.
pub ghost struct SpecParser {
    pub symbols: Seq<SpecSymbol>,
    pub root: Option<int>,
}

impl SpecParser {
    /// Every rule refers only to rules of the arena.
    pub open spec fn wf(&self) -> bool {
        forall|i: int|
            0 <= i < self.symbols.len() ==> (#[trigger] self.symbols[i]).shape.wf(
                self.symbols.len() as int,
            )
    }

    /// A root rule is designated and lies in the arena.
    pub open spec fn root_ok(&self) -> bool {
        self.root matches Some(r) && 0 <= r < self.symbols.len()
    }
}

impl View for Parser {
    type V = SpecParser;

    closed spec fn view(&self) -> SpecParser {
        SpecParser {
            symbols: self.symbol_registry@.map_values(|s: Symbol| s@),
            root: match self.root_node {
                Some(r) => Some(r.0 as int),
                None => None,
            },
        }
    }
}

/// The presentation flags a builder call uses: the ones given, or the
/// anonymous default (unnamed, not raw, ignored).
pub open spec fn props_or_default(props: Option<SymbolProperties>) -> SpecProps {
    match props {
        Some(p) => p@,
        None => SpecProps { name: None, raw: false, ignore: true },
    }
}

/// The arena grown by a chars builder: one fresh anonymous terminal per
/// character, then the collection of exactly those terminals, under the
/// given name and flags.
pub open spec fn chars_members(g0: Seq<SpecSymbol>, s: Seq<char>) -> Seq<int> {
    Seq::new(s.len(), |i: int| g0.len() + i)
}

pub open spec fn anon_terminal(c: char) -> SpecSymbol {
    SpecSymbol { shape: SpecShape::Terminal(c), name: None, raw: false, ignore: true }
}

pub open spec fn chars_terminals(g0: Seq<SpecSymbol>, s: Seq<char>) -> Seq<SpecSymbol> {
    Seq::new(s.len(), |i: int| anon_terminal(s[i]))
}

pub open spec fn chars_rules(
    g0: Seq<SpecSymbol>,
    s: Seq<char>,
    name: Option<Seq<char>>,
    raw: bool,
    ignore: bool,
    alternation: bool,
) -> Seq<SpecSymbol> {
    g0 + chars_terminals(g0, s) + seq![
        SpecSymbol {
            shape: if alternation {
                SpecShape::OneOf(chars_members(g0, s))
            } else {
                SpecShape::Sequence(chars_members(g0, s))
            },
            name,
            raw,
            ignore,
        },
    ]
}

/// The rule a builder call appends: the given shape under the given flags.
pub open spec fn spec_symbol(shape: SpecShape, props: Option<SymbolProperties>) -> SpecSymbol {
    SpecSymbol {
        shape,
        name: props_or_default(props).name,
        raw: props_or_default(props).raw,
        ignore: props_or_default(props).ignore,
    }
}

impl Default for Parser {
    fn default() -> (r: Self)
        ensures
            r@.symbols.len() == 0,
            r@.root is None,
    {
        Self::new()
    }
}

impl Parser {
    pub open spec fn wf(&self) -> bool {
        self@.wf()
    }

    /// An empty arena with no root.
    pub fn new() -> (r: Self)
        ensures
            r@.symbols.len() == 0,
            r@.root is None,
            r.wf(),
    {
        let r = Parser { symbol_registry: Vec::new(), root_node: None };
        proof {
            assert(r@.symbols =~= Seq::<SpecSymbol>::empty());
        }
        r
    }

    /// The rule at a given index.
    pub fn get_symbol(&self, idx: &SymbolIdent) -> (r: &Symbol)
        requires
            idx.0 < self@.symbols.len(),
        ensures
            r@ == self@.symbols[idx.0 as int],
    {
        &self.symbol_registry[idx.0]
    }

    /// Exclusive access to the rule at a given index; the arena afterwards
    /// holds whatever the caller leaves behind the reference.
    pub fn get_symbol_mut(&mut self, idx: &SymbolIdent) -> (r: &mut Symbol)
        requires
            idx.0 < old(self)@.symbols.len(),
        ensures
            r@ == old(self)@.symbols[idx.0 as int],
            final(self)@.symbols =~= old(self)@.symbols.update(idx.0 as int, final(r)@),
            final(self)@.root == old(self)@.root,
    {
        &mut self.symbol_registry[idx.0]
    }

    /// Appends a rule to the arena and hands back its stable index.
    pub fn insert_symbol(&mut self, symbol: Symbol) -> (r: SymbolIdent)
        ensures
            final(self)@.symbols == old(self)@.symbols.push(symbol@),
            final(self)@.root == old(self)@.root,
            r.0 == old(self)@.symbols.len(),
            old(self).wf() && symbol@.shape.wf(old(self)@.symbols.len() as int + 1) ==> final(self).wf(),
    {
        let ghost pre = self@.symbols;
        let idx = self.symbol_registry.len();
        self.symbol_registry.push(symbol);
        proof {
            assert(self@.symbols =~= old(self)@.symbols.push(symbol@));
            if old(self).wf() && symbol@.shape.wf(pre.len() as int + 1) {
                assert forall|i: int| 0 <= i < self@.symbols.len() implies (
                #[trigger] self@.symbols[i]).shape.wf(self@.symbols.len() as int) by {
                    if i < pre.len() {
                        assert(pre[i].shape.wf(pre.len() as int));
                        lemma_shape_wf_widen(
                            pre[i].shape,
                            pre.len() as int,
                            self@.symbols.len() as int,
                        );
                    }
                }
            }
        }
        SymbolIdent(idx)
    }

    /// Designates the root rule.
    pub fn root_node(&mut self, root: &SymbolIdent)
        ensures
            final(self)@.symbols == old(self)@.symbols,
            final(self)@.root == Some(root.0 as int),
            old(self).wf() ==> final(self).wf(),
    {
        self.root_node = Some(*root);
    }
}

impl Parser {
    /// A rule matching exactly the character `c`.
    pub fn terminal(&mut self, c: char, props: Option<SymbolProperties>) -> (r: SymbolIdent)
        ensures
            final(self)@.symbols == old(self)@.symbols.push(
                spec_symbol(SpecShape::Terminal(c), props),
            ),
            final(self)@.root == old(self)@.root,
            r.0 == old(self)@.symbols.len(),
            old(self).wf() ==> final(self).wf(),
    {
        let properties = if let Some(p) = props {
            p
        } else {
            Default::default()
        };
        self.insert_symbol(Symbol { symbol_type: SymbolType::Terminal(c), properties })
    }

    /// A rule matching any one character not in `chars`.
    pub fn any_except(&mut self, chars: &[char], props: Option<SymbolProperties>) -> (r:
        SymbolIdent)
        ensures
            final(self)@.symbols == old(self)@.symbols.push(
                spec_symbol(SpecShape::AnyExcept(chars@), props),
            ),
            final(self)@.root == old(self)@.root,
            r.0 == old(self)@.symbols.len(),
            old(self).wf() ==> final(self).wf(),
    {
        let properties = if let Some(p) = props {
            p
        } else {
            Default::default()
        };
        let excluded = vstd::slice::slice_to_vec(chars);
        self.insert_symbol(Symbol { symbol_type: SymbolType::AnyExcept(excluded), properties })
    }

    /// An ordered alternation of the given rules.
    pub fn one_of(&mut self, symbols: Vec<&SymbolIdent>, props: Option<SymbolProperties>) -> (r:
        SymbolIdent)
        ensures
            final(self)@.symbols == old(self)@.symbols.push(
                spec_symbol(
                    SpecShape::OneOf(symbols@.map_values(|m: &SymbolIdent| m.0 as int)),
                    props,
                ),
            ),
            final(self)@.root == old(self)@.root,
            r.0 == old(self)@.symbols.len(),
            old(self).wf() && (forall|i: int|
                0 <= i < symbols@.len() ==> (#[trigger] symbols@[i]).0 < old(
                    self,
                )@.symbols.len()) ==> final(self).wf(),
    {
        let properties = if let Some(p) = props {
            p
        } else {
            Default::default()
        };
        let members = copy_idents(&symbols);
        self.insert_symbol(Symbol { symbol_type: SymbolType::OneOf(members), properties })
    }

    /// An ordered sequence of the given rules.
    pub fn sequence(&mut self, symbols: Vec<&SymbolIdent>, props: Option<SymbolProperties>) -> (r:
        SymbolIdent)
        ensures
            final(self)@.symbols == old(self)@.symbols.push(
                spec_symbol(
                    SpecShape::Sequence(symbols@.map_values(|m: &SymbolIdent| m.0 as int)),
                    props,
                ),
            ),
            final(self)@.root == old(self)@.root,
            r.0 == old(self)@.symbols.len(),
            old(self).wf() && (forall|i: int|
                0 <= i < symbols@.len() ==> (#[trigger] symbols@[i]).0 < old(
                    self,
                )@.symbols.len()) ==> final(self).wf(),
    {
        let properties = if let Some(p) = props {
            p
        } else {
            Default::default()
        };
        let members = copy_idents(&symbols);
        self.insert_symbol(Symbol { symbol_type: SymbolType::Sequence(members), properties })
    }

    /// Appends a member to a sequence or alternation rule of the arena.
    pub fn add_ident(&mut self, ident: &SymbolIdent, to_be_added: &SymbolIdent)
        requires
            ident.0 < old(self)@.symbols.len(),
            old(self)@.symbols[ident.0 as int].shape is Sequence || old(
                self,
            )@.symbols[ident.0 as int].shape is OneOf,
        ensures
            final(self)@.root == old(self)@.root,
            final(self)@.symbols.len() == old(self)@.symbols.len(),
            forall|i: int|
                0 <= i < old(self)@.symbols.len() && i != ident.0 ==> final(self)@.symbols[i]
                    == old(self)@.symbols[i],
            ({
                let pre = old(self)@.symbols[ident.0 as int];
                let post = final(self)@.symbols[ident.0 as int];
                &&& post.name == pre.name
                &&& post.raw == pre.raw
                &&& post.ignore == pre.ignore
                &&& (pre.shape matches SpecShape::Sequence(ms) ==> post.shape
                    == SpecShape::Sequence(ms.push(to_be_added.0 as int)))
                &&& (pre.shape matches SpecShape::OneOf(ms) ==> post.shape == SpecShape::OneOf(
                    ms.push(to_be_added.0 as int),
                ))
            }),
            old(self).wf() && to_be_added.0 < old(self)@.symbols.len() ==> final(self).wf(),
    {
        let symbol = self.get_symbol_mut(ident);
        symbol.add_ident(to_be_added);
    }

    /// The member, or nothing.
    pub fn optional(&mut self, symbol: &SymbolIdent, props: Option<SymbolProperties>) -> (r:
        SymbolIdent)
        ensures
            final(self)@.symbols == old(self)@.symbols.push(
                spec_symbol(SpecShape::Optional(symbol.0 as int), props),
            ),
            final(self)@.root == old(self)@.root,
            r.0 == old(self)@.symbols.len(),
            old(self).wf() && symbol.0 < old(self)@.symbols.len() ==> final(self).wf(),
    {
        let properties = if let Some(p) = props {
            p
        } else {
            Default::default()
        };
        self.insert_symbol(Symbol { symbol_type: SymbolType::Optional(*symbol), properties })
    }

    /// The member as often as it matches, at least once.
    pub fn one_or_more(&mut self, symbol: &SymbolIdent, props: Option<SymbolProperties>) -> (r:
        SymbolIdent)
        ensures
            final(self)@.symbols == old(self)@.symbols.push(
                spec_symbol(SpecShape::OneOrMore(symbol.0 as int), props),
            ),
            final(self)@.root == old(self)@.root,
            r.0 == old(self)@.symbols.len(),
            old(self).wf() && symbol.0 < old(self)@.symbols.len() ==> final(self).wf(),
    {
        let properties = if let Some(p) = props {
            p
        } else {
            Default::default()
        };
        self.insert_symbol(Symbol { symbol_type: SymbolType::OneOrMore(*symbol), properties })
    }

    /// The member as often as it matches, possibly not at all.
    pub fn zero_or_more(&mut self, symbol: &SymbolIdent, props: Option<SymbolProperties>) -> (r:
        SymbolIdent)
        ensures
            final(self)@.symbols == old(self)@.symbols.push(
                spec_symbol(SpecShape::ZeroOrMore(symbol.0 as int), props),
            ),
            final(self)@.root == old(self)@.root,
            r.0 == old(self)@.symbols.len(),
            old(self).wf() && symbol.0 < old(self)@.symbols.len() ==> final(self).wf(),
    {
        let properties = if let Some(p) = props {
            p
        } else {
            Default::default()
        };
        self.insert_symbol(Symbol { symbol_type: SymbolType::ZeroOrMore(*symbol), properties })
    }

    /// One fresh unnamed terminal per character of `string`, wrapped in a
    /// sequence rule carrying the given flags.
    pub fn sequence_chars(&mut self, string: &str, props: Option<SymbolProperties>) -> (r:
        SymbolIdent)
        ensures
            final(self)@.root == old(self)@.root,
            final(self)@.symbols.len() == old(self)@.symbols.len() + string@.len() + 1,
            forall|i: int|
                0 <= i < old(self)@.symbols.len() ==> final(self)@.symbols[i] == old(
                    self,
                )@.symbols[i],
            forall|i: int|
                0 <= i < string@.len() ==> final(self)@.symbols[old(self)@.symbols.len() + i]
                    == spec_symbol(SpecShape::Terminal(string@[i]), None),
            final(self)@.symbols.last() == spec_symbol(
                SpecShape::Sequence(
                    Seq::new(string@.len(), |i: int| old(self)@.symbols.len() + i),
                ),
                props,
            ),
            r.0 == old(self)@.symbols.len() + string@.len(),
            old(self).wf() ==> final(self).wf(),
            final(self)@.symbols == chars_rules(
                old(self)@.symbols,
                string@,
                props_or_default(props).name,
                props_or_default(props).raw,
                props_or_default(props).ignore,
                false,
            ),
    {
        let properties = if let Some(p) = props {
            p
        } else {
            Default::default()
        };
        let members = self.terminals_of(string);
        proof {
            let ms = members@.map_values(|m: SymbolIdent| m.0 as int);
            assert forall|j: int| 0 <= j < ms.len() implies 0 <= #[trigger] ms[j] < self@.symbols.len() as int + 1 by {
                assert(ms[j] == old(self)@.symbols.len() + j);
            }
        }
        let r = self.insert_symbol(Symbol { symbol_type: SymbolType::Sequence(members), properties });
        proof {
            let g0 = old(self)@.symbols;
            let target = chars_rules(
                g0,
                string@,
                props_or_default(props).name,
                props_or_default(props).raw,
                props_or_default(props).ignore,
                false,
            );
            assert(chars_members(g0, string@) =~= Seq::new(
                string@.len(),
                |i: int| old(self)@.symbols.len() + i,
            ));
            assert forall|j: int| 0 <= j < target.len() implies self@.symbols[j] == target[j] by {
                if j < g0.len() {
                    assert(target[j] == g0[j]);
                } else if j < g0.len() + string@.len() {
                    assert(target[j] == chars_terminals(g0, string@)[j - g0.len()]);
                    assert(chars_terminals(g0, string@)[j - g0.len()] == anon_terminal(
                        string@[j - g0.len()],
                    ));
                    assert(self@.symbols[j] == spec_symbol(
                        SpecShape::Terminal(string@[j - g0.len()]),
                        None,
                    ));
                } else {
                    assert(self@.symbols[j] == self@.symbols.last());
                    assert(target[j] == target.last());
                    assert(self@.symbols.last() == spec_symbol(
                        SpecShape::Sequence(
                            Seq::new(string@.len(), |i: int| old(self)@.symbols.len() + i),
                        ),
                        props,
                    ));
                }
            }
            assert(self@.symbols.len() == target.len());
            assert(self@.symbols =~= target);
        }
        r
    }

    /// One fresh unnamed terminal per character of `string`, wrapped in an
    /// alternation rule carrying the given flags.
    pub fn one_of_chars(&mut self, string: &str, props: Option<SymbolProperties>) -> (r:
        SymbolIdent)
        ensures
            final(self)@.root == old(self)@.root,
            final(self)@.symbols.len() == old(self)@.symbols.len() + string@.len() + 1,
            forall|i: int|
                0 <= i < old(self)@.symbols.len() ==> final(self)@.symbols[i] == old(
                    self,
                )@.symbols[i],
            forall|i: int|
                0 <= i < string@.len() ==> final(self)@.symbols[old(self)@.symbols.len() + i]
                    == spec_symbol(SpecShape::Terminal(string@[i]), None),
            final(self)@.symbols.last() == spec_symbol(
                SpecShape::OneOf(Seq::new(string@.len(), |i: int| old(self)@.symbols.len() + i)),
                props,
            ),
            r.0 == old(self)@.symbols.len() + string@.len(),
            old(self).wf() ==> final(self).wf(),
            final(self)@.symbols == chars_rules(
                old(self)@.symbols,
                string@,
                props_or_default(props).name,
                props_or_default(props).raw,
                props_or_default(props).ignore,
                true,
            ),
    {
        let properties = if let Some(p) = props {
            p
        } else {
            Default::default()
        };
        let members = self.terminals_of(string);
        proof {
            let ms = members@.map_values(|m: SymbolIdent| m.0 as int);
            assert forall|j: int| 0 <= j < ms.len() implies 0 <= #[trigger] ms[j] < self@.symbols.len() as int + 1 by {
                assert(ms[j] == old(self)@.symbols.len() + j);
            }
        }
        let r = self.insert_symbol(Symbol { symbol_type: SymbolType::OneOf(members), properties });
        proof {
            let g0 = old(self)@.symbols;
            let target = chars_rules(
                g0,
                string@,
                props_or_default(props).name,
                props_or_default(props).raw,
                props_or_default(props).ignore,
                true,
            );
            assert(chars_members(g0, string@) =~= Seq::new(
                string@.len(),
                |i: int| old(self)@.symbols.len() + i,
            ));
            assert forall|j: int| 0 <= j < target.len() implies self@.symbols[j] == target[j] by {
                if j < g0.len() {
                    assert(target[j] == g0[j]);
                } else if j < g0.len() + string@.len() {
                    assert(target[j] == chars_terminals(g0, string@)[j - g0.len()]);
                    assert(chars_terminals(g0, string@)[j - g0.len()] == anon_terminal(
                        string@[j - g0.len()],
                    ));
                    assert(self@.symbols[j] == spec_symbol(
                        SpecShape::Terminal(string@[j - g0.len()]),
                        None,
                    ));
                } else {
                    assert(self@.symbols[j] == self@.symbols.last());
                    assert(target[j] == target.last());
                    assert(self@.symbols.last() == spec_symbol(
                        SpecShape::OneOf(
                            Seq::new(string@.len(), |i: int| old(self)@.symbols.len() + i),
                        ),
                        props,
                    ));
                }
            }
            assert(self@.symbols.len() == target.len());
            assert(self@.symbols =~= target);
        }
        r
    }

    /// One fresh unnamed terminal per character of `string`, in order.
    fn terminals_of(&mut self, string: &str) -> (members: Vec<SymbolIdent>)
        ensures
            final(self)@.root == old(self)@.root,
            final(self)@.symbols.len() == old(self)@.symbols.len() + string@.len(),
            forall|i: int|
                0 <= i < old(self)@.symbols.len() ==> final(self)@.symbols[i] == old(
                    self,
                )@.symbols[i],
            forall|i: int|
                0 <= i < string@.len() ==> final(self)@.symbols[old(self)@.symbols.len() + i]
                    == spec_symbol(SpecShape::Terminal(string@[i]), None),
            members@.map_values(|m: SymbolIdent| m.0 as int) == Seq::new(
                string@.len(),
                |i: int| old(self)@.symbols.len() + i,
            ),
            old(self).wf() ==> final(self).wf(),
    {
        let ghost base = self@.symbols.len() as int;
        let n = string.unicode_len();
        let mut members: Vec<SymbolIdent> = Vec::new();
        let mut i: usize = 0;
        while i < n
            invariant
                n == string@.len(),
                i <= n,
                self@.root == old(self)@.root,
                old(self).wf() ==> self.wf(),
                self@.symbols.len() == base + i,
                base == old(self)@.symbols.len(),
                forall|j: int| 0 <= j < base ==> self@.symbols[j] == old(self)@.symbols[j],
                forall|j: int|
                    0 <= j < i ==> self@.symbols[base + j] == spec_symbol(
                        SpecShape::Terminal(string@[j]),
                        None,
                    ),
                members@.map_values(|m: SymbolIdent| m.0 as int) =~= Seq::new(
                    i as nat,
                    |j: int| base + j,
                ),
            decreases n - i,
        {
            let c = string.get_char(i);
            let ghost pre = members@;
            let id = self.terminal(c, None);
            members.push(id);
            proof {
                assert(members@.map_values(|m: SymbolIdent| m.0 as int) =~= pre.map_values(
                    |m: SymbolIdent| m.0 as int,
                ).push(id.0 as int));
                assert(members@.map_values(|m: SymbolIdent| m.0 as int) =~= Seq::new(
                    (i + 1) as nat,
                    |j: int| base + j,
                ));
            }
            i += 1;
        }
        members
    }
}

/// The idents behind a list of borrowed idents, in order.
fn copy_idents(symbols: &Vec<&SymbolIdent>) -> (r: Vec<SymbolIdent>)
    ensures
        r@.map_values(|m: SymbolIdent| m.0 as int) == symbols@.map_values(
            |m: &SymbolIdent| m.0 as int,
        ),
{
    let mut r: Vec<SymbolIdent> = Vec::new();
    let mut i: usize = 0;
    while i < symbols.len()
        invariant
            i <= symbols@.len(),
            r@.map_values(|m: SymbolIdent| m.0 as int) =~= symbols@.subrange(
                0,
                i as int,
            ).map_values(|m: &SymbolIdent| m.0 as int),
        decreases symbols@.len() - i,
    {
        let ghost pre = r@;
        let id: &SymbolIdent = symbols[i];
        r.push(*id);
        proof {
            assert(r@.map_values(|m: SymbolIdent| m.0 as int) =~= pre.map_values(
                |m: SymbolIdent| m.0 as int,
            ).push(id.0 as int));
            assert(symbols@.subrange(0, i + 1).map_values(|m: &SymbolIdent| m.0 as int)
                =~= symbols@.subrange(0, i as int).map_values(|m: &SymbolIdent| m.0 as int).push(
                symbols@[i as int].0 as int,
            ));
        }
        i += 1;
    }
    proof {
        assert(symbols@.subrange(0, symbols@.len() as int) =~= symbols@);
    }
    r
}

/// The step budget the parse entry point grants: one step pays for one
/// attempt at one rule, so running out is possible only for a grammar that
/// keeps matching without consuming input.
pub const STEP_LIMIT: u64 = u64::MAX;

/// The outcome a rule attempt hands to the rule that invoked it.
pub enum AdvanceResult {
    /// The rule matched and built this node.
    NewNode(Node),
    /// The rule matched but is ignore-flagged: these collected children are
    /// spliced into the invoking rule's own child list.
    Forward(Vec<Node>),
    /// The rule did not match; the stream was wound back to where the
    /// attempt began.  The carried position is where the last attempted
    /// character match failed.
    NoMatch(Position),
    /// The step budget ran out; the stream was wound back to where the
    /// attempt began.
    Exhausted,
}

/// The outcome of the shape-specific matching step, before presentation
/// flags are applied: the collected child nodes, a mismatch, or an
/// exhausted step budget.
pub enum DataResult {
    Data(Vec<Node>),
    NoMatch(Position),
    Exhausted,
}

/// The overall outcome of a parse: the tree, or the position of the failure.
#[derive(Debug)]
pub enum ParseResult {
    Parsed(Node),
    Failed(Position),
}

impl Parser {
    /// Attempts to match one rule at the cursor.  The outcome — the node
    /// built, the children spliced through an ignore-flagged rule, a
    /// mismatch, or an exhausted budget — is exactly the one the
    /// step-indexed interpreter [`spec_advance`] assigns.  On anything but
    /// a match the stream is restored exactly to where the call found it:
    /// backtracking is invisible to the rules around it.
    pub fn try_advance(&self, symbol: &SymbolIdent, stream: &mut CharStream, steps: u64) -> (r:
        AdvanceResult)
        requires
            self.wf(),
            symbol.0 < self@.symbols.len(),
            old(stream).wf(),
        ensures
            final(stream).wf(),
            final(stream).text() == old(stream).text(),
            ({
                let outcome = spec_advance(
                    self@.symbols,
                    symbol.0 as int,
                    old(stream).text(),
                    old(stream).cursor(),
                    steps as nat,
                );
                match outcome {
                    SpecAdvance::Node(n, q) => r matches AdvanceResult::NewNode(node)
                        && node.deep() == n && final(stream).cursor() == q,
                    SpecAdvance::Splice(ns, q) => r matches AdvanceResult::Forward(nodes)
                        && nodes_deep(nodes@) == ns && final(stream).cursor() == q,
                    SpecAdvance::Miss(f) => r == AdvanceResult::NoMatch(
                        pos_at(old(stream).text(), f),
                    ) && final(stream).cursor() == old(stream).cursor(),
                    SpecAdvance::Spent => r is Exhausted && final(stream).cursor() == old(
                        stream,
                    ).cursor(),
                }
            }),
        decreases steps, 1int, 0int,
    {
        let ghost g = self@.symbols;
        let ghost t = old(stream).text();
        let ghost pos0 = old(stream).cursor();
        let ghost s = symbol.0 as int;
        proof {
            stream.lemma_wf();
        }
        let start_pos = stream.get_pos();
        if steps == 0 {
            return AdvanceResult::Exhausted;
        }
        let sym = self.get_symbol(symbol);
        let data_result: DataResult = match &sym.symbol_type {
            SymbolType::Sequence(members) => {
                proof {
                    assert(g[s].shape == SpecShape::Sequence(
                        members@.map_values(|m: SymbolIdent| m.0 as int),
                    ));
                    assert forall|i: int| 0 <= i < members@.len() implies (#[trigger] members@[i]).0
                        < g.len() by {
                        assert(g[s].shape.wf(g.len() as int));
                        assert(members@.map_values(|m: SymbolIdent| m.0 as int)[i]
                            == members@[i].0 as int);
                    }
                }
                self.try_advance_sequence(members, stream, steps)
            },
            SymbolType::OneOf(members) => {
                proof {
                    assert(g[s].shape == SpecShape::OneOf(
                        members@.map_values(|m: SymbolIdent| m.0 as int),
                    ));
                    assert forall|i: int| 0 <= i < members@.len() implies (#[trigger] members@[i]).0
                        < g.len() by {
                        assert(g[s].shape.wf(g.len() as int));
                        assert(members@.map_values(|m: SymbolIdent| m.0 as int)[i]
                            == members@[i].0 as int);
                    }
                }
                self.try_advance_one_of(members, stream, steps)
            },
            SymbolType::Optional(member) => self.try_advance_optional(member, stream, steps),
            SymbolType::OneOrMore(member) => self.try_advance_one_or_more(member, stream, steps),
            SymbolType::ZeroOrMore(member) => self.try_advance_zero_or_more(member, stream, steps),
            SymbolType::Terminal(c) => Self::try_advance_terminal(c, stream),
            SymbolType::AnyExcept(chars) => Self::try_advance_any_except(chars, stream),
        };
        proof {
            lemma_advance_bounds(g, s, t, pos0, steps as nat);
        }
        match data_result {
            DataResult::Data(nodes) => {
                if sym.properties.ignore {
                    AdvanceResult::Forward(nodes)
                } else {
                    let ghost q = stream.cursor();
                    let (sl, range) = stream.since_pos(start_pos);
                    let ghost raw_text = sl@;
                    let data = if sym.properties.raw {
                        NodeData::Raw(chars_to_string(sl))
                    } else {
                        NodeData::Children(nodes)
                    };
                    let name = sym.name();
                    let node = Node::new(name.as_str(), range, data);
                    proof {
                        assert(node.deep() == mk_node(g[s], t, pos0, q, nodes_deep(nodes@)));
                    }
                    AdvanceResult::NewNode(node)
                }
            },
            DataResult::NoMatch(f) => {
                stream.set_pos(start_pos);
                AdvanceResult::NoMatch(f)
            },
            DataResult::Exhausted => {
                stream.set_pos(start_pos);
                AdvanceResult::Exhausted
            },
        }
    }

    /// Matches the members of a sequence rule one after the other, each
    /// against the cursor the one before it reached, gathering their
    /// contributions in order.
    fn try_advance_sequence(
        &self,
        members: &Vec<SymbolIdent>,
        stream: &mut CharStream,
        steps: u64,
    ) -> (r: DataResult)
        requires
            self.wf(),
            old(stream).wf(),
            1 <= steps,
            forall|i: int|
                0 <= i < members@.len() ==> (#[trigger] members@[i]).0 < self@.symbols.len(),
        ensures
            final(stream).wf(),
            final(stream).text() == old(stream).text(),
            ({
                let outcome = spec_advance_seq(
                    self@.symbols,
                    members@.map_values(|m: SymbolIdent| m.0 as int),
                    0,
                    old(stream).text(),
                    old(stream).cursor(),
                    steps as nat,
                );
                match outcome {
                    SpecStep::Got(ns, q) => r matches DataResult::Data(nodes) && nodes_deep(nodes@)
                        == ns && final(stream).cursor() == q,
                    SpecStep::Miss(f) => r == DataResult::NoMatch(
                        pos_at(old(stream).text(), f),
                    ),
                    SpecStep::Spent => r is Exhausted,
                }
            }),
        decreases steps, 0int, 0int,
    {
        let ghost g = self@.symbols;
        let ghost ms = members@.map_values(|m: SymbolIdent| m.0 as int);
        let ghost t = old(stream).text();
        let ghost pos0 = old(stream).cursor();
        proof {
            stream.lemma_wf();
        }
        let mut data: Vec<Node> = Vec::new();
        let mut i: usize = 0;
        proof {
            assert(nodes_deep(data@) =~= Seq::<SpecNode>::empty());
        }
        while i < members.len()
            invariant
                self.wf(),
                stream.wf(),
                stream.text() == t,
                t == old(stream).text(),
                pos0 == old(stream).cursor(),
                g == self@.symbols,
                ms == members@.map_values(|m: SymbolIdent| m.0 as int),
                1 <= steps,
                i <= members@.len(),
                forall|j: int| 0 <= j < members@.len() ==> (#[trigger] members@[j]).0 < g.len(),
                ({
                    let overall = spec_advance_seq(g, ms, 0, t, pos0, steps as nat);
                    let rest = spec_advance_seq(g, ms, i as int, t, stream.cursor(), steps as nat);
                    match rest {
                        SpecStep::Got(ns, q) => overall == SpecStep::Got(
                            nodes_deep(data@) + ns,
                            q,
                        ),
                        SpecStep::Miss(f) => overall == SpecStep::Miss(f),
                        SpecStep::Spent => overall is Spent,
                    }
                }),
            decreases members@.len() - i,
        {
            let m = members[i];
            let ghost cur = stream.cursor();
            let ghost pre = data@;
            proof {
                assert(ms[i as int] == members@[i as int].0 as int);
            }
            let res = self.try_advance(&m, stream, steps - 1);
            match res {
                AdvanceResult::NewNode(node) => {
                    let ghost n = node.deep();
                    data.push(node);
                    proof {
                        crate::node::lemma_nodes_deep_push(pre, node);
                        let q = stream.cursor();
                        match spec_advance_seq(g, ms, i + 1, t, q, steps as nat) {
                            SpecStep::Got(ns2, q2) => {
                                assert(nodes_deep(pre) + (seq![n] + ns2) =~= nodes_deep(data@)
                                    + ns2);
                            },
                            _ => {},
                        }
                    }
                },
                AdvanceResult::Forward(mut nodes) => {
                    let ghost nn = nodes@;
                    data.append(&mut nodes);
                    proof {
                        crate::node::lemma_nodes_deep_concat(pre, nn);
                        assert(data@ == pre + nn);
                        let q = stream.cursor();
                        match spec_advance_seq(g, ms, i + 1, t, q, steps as nat) {
                            SpecStep::Got(ns2, q2) => {
                                assert(nodes_deep(pre) + (nodes_deep(nn) + ns2) =~= nodes_deep(
                                    data@,
                                ) + ns2);
                            },
                            _ => {},
                        }
                    }
                },
                AdvanceResult::NoMatch(f) => {
                    return DataResult::NoMatch(f);
                },
                AdvanceResult::Exhausted => {
                    return DataResult::Exhausted;
                },
            }
            i += 1;
        }
        proof {
            assert(nodes_deep(data@) + Seq::<SpecNode>::empty() =~= nodes_deep(data@));
        }
        DataResult::Data(data)
    }

    /// Tries the members of an alternation rule in declaration order, all
    /// at the same cursor; the first member that matches decides.
    fn try_advance_one_of(
        &self,
        members: &Vec<SymbolIdent>,
        stream: &mut CharStream,
        steps: u64,
    ) -> (r: DataResult)
        requires
            self.wf(),
            old(stream).wf(),
            1 <= steps,
            forall|i: int|
                0 <= i < members@.len() ==> (#[trigger] members@[i]).0 < self@.symbols.len(),
        ensures
            final(stream).wf(),
            final(stream).text() == old(stream).text(),
            ({
                let outcome = spec_advance_choice(
                    self@.symbols,
                    members@.map_values(|m: SymbolIdent| m.0 as int),
                    0,
                    old(stream).text(),
                    old(stream).cursor(),
                    steps as nat,
                    old(stream).cursor(),
                );
                match outcome {
                    SpecStep::Got(ns, q) => r matches DataResult::Data(nodes) && nodes_deep(nodes@)
                        == ns && final(stream).cursor() == q,
                    SpecStep::Miss(f) => r == DataResult::NoMatch(pos_at(old(stream).text(), f))
                        && final(stream).cursor() == old(stream).cursor(),
                    SpecStep::Spent => r is Exhausted,
                }
            }),
        decreases steps, 0int, 0int,
    {
        let ghost g = self@.symbols;
        let ghost ms = members@.map_values(|m: SymbolIdent| m.0 as int);
        let ghost t = old(stream).text();
        let ghost pos0 = old(stream).cursor();
        proof {
            stream.lemma_wf();
        }
        let mut last_fail = stream.get_pos();
        let ghost mut fp = pos0;
        let mut i: usize = 0;
        while i < members.len()
            invariant
                self.wf(),
                stream.wf(),
                stream.text() == t,
                stream.cursor() == pos0,
                t == old(stream).text(),
                pos0 == old(stream).cursor(),
                g == self@.symbols,
                ms == members@.map_values(|m: SymbolIdent| m.0 as int),
                1 <= steps,
                i <= members@.len(),
                forall|j: int| 0 <= j < members@.len() ==> (#[trigger] members@[j]).0 < g.len(),
                last_fail == pos_at(t, fp),
                spec_advance_choice(g, ms, 0, t, pos0, steps as nat, pos0) == spec_advance_choice(
                    g,
                    ms,
                    i as int,
                    t,
                    pos0,
                    steps as nat,
                    fp,
                ),
            decreases members@.len() - i,
        {
            let m = members[i];
            proof {
                assert(ms[i as int] == members@[i as int].0 as int);
            }
            let res = self.try_advance(&m, stream, steps - 1);
            match res {
                AdvanceResult::NewNode(node) => {
                    let ghost n = node.deep();
                    let mut nodes: Vec<Node> = Vec::new();
                    nodes.push(node);
                    proof {
                        assert(nodes_deep(nodes@) =~= seq![n]);
                    }
                    return DataResult::Data(nodes);
                },
                AdvanceResult::Forward(nodes) => {
                    return DataResult::Data(nodes);
                },
                AdvanceResult::NoMatch(f) => {
                    last_fail = f;
                    proof {
                        fp = spec_advance(g, ms[i as int], t, pos0, (steps - 1) as nat)->Miss_0;
                    }
                },
                AdvanceResult::Exhausted => {
                    return DataResult::Exhausted;
                },
            }
            i += 1;
        }
        DataResult::NoMatch(last_fail)
    }

    /// Tries the member of an optional rule once: its contribution on a
    /// match, nothing — and no failure — otherwise.
    fn try_advance_optional(
        &self,
        member: &SymbolIdent,
        stream: &mut CharStream,
        steps: u64,
    ) -> (r: DataResult)
        requires
            self.wf(),
            old(stream).wf(),
            1 <= steps,
            member.0 < self@.symbols.len(),
        ensures
            final(stream).wf(),
            final(stream).text() == old(stream).text(),
            ({
                let outcome = spec_opt(
                    self@.symbols,
                    member.0 as int,
                    old(stream).text(),
                    old(stream).cursor(),
                    steps as nat,
                );
                match outcome {
                    SpecStep::Got(ns, q) => r matches DataResult::Data(nodes) && nodes_deep(nodes@)
                        == ns && final(stream).cursor() == q,
                    SpecStep::Miss(f) => r == DataResult::NoMatch(
                        pos_at(old(stream).text(), f),
                    ),
                    SpecStep::Spent => r is Exhausted,
                }
            }),
        decreases steps, 0int, 1int,
    {
        match self.try_advance(member, stream, steps - 1) {
            AdvanceResult::NewNode(node) => {
                let ghost n = node.deep();
                let mut nodes: Vec<Node> = Vec::new();
                nodes.push(node);
                proof {
                    assert(nodes_deep(nodes@) =~= seq![n]);
                }
                DataResult::Data(nodes)
            },
            AdvanceResult::Forward(nodes) => DataResult::Data(nodes),
            AdvanceResult::NoMatch(_) => {
                let nodes: Vec<Node> = Vec::new();
                proof {
                    assert(nodes_deep(nodes@) =~= Seq::<SpecNode>::empty());
                }
                DataResult::Data(nodes)
            },
            AdvanceResult::Exhausted => DataResult::Exhausted,
        }
    }

    /// Matches the member of a repetition as often as it matches, gathering
    /// every contribution in order; the repetition itself never fails.
    fn try_advance_zero_or_more(
        &self,
        member: &SymbolIdent,
        stream: &mut CharStream,
        steps: u64,
    ) -> (r: DataResult)
        requires
            self.wf(),
            old(stream).wf(),
            1 <= steps,
            member.0 < self@.symbols.len(),
        ensures
            final(stream).wf(),
            final(stream).text() == old(stream).text(),
            ({
                let outcome = spec_star(
                    self@.symbols,
                    member.0 as int,
                    old(stream).text(),
                    old(stream).cursor(),
                    steps as nat,
                );
                match outcome {
                    SpecStep::Got(ns, q) => r matches DataResult::Data(nodes) && nodes_deep(nodes@)
                        == ns && final(stream).cursor() == q,
                    SpecStep::Miss(f) => r == DataResult::NoMatch(
                        pos_at(old(stream).text(), f),
                    ),
                    SpecStep::Spent => r is Exhausted,
                }
            }),
        decreases steps, 0int, 0int,
    {
        let ghost g = self@.symbols;
        let ghost mid = member.0 as int;
        let ghost t = old(stream).text();
        let ghost pos0 = old(stream).cursor();
        proof {
            stream.lemma_wf();
        }
        let mut data: Vec<Node> = Vec::new();
        let mut budget: u64 = steps;
        proof {
            assert(nodes_deep(data@) =~= Seq::<SpecNode>::empty());
        }
        while 0 < budget
            invariant
                self.wf(),
                stream.wf(),
                stream.text() == t,
                t == old(stream).text(),
                pos0 == old(stream).cursor(),
                g == self@.symbols,
                mid == member.0 as int,
                member.0 < g.len(),
                budget <= steps,
                ({
                    let overall = spec_star(g, mid, t, pos0, steps as nat);
                    let rest = spec_star(g, mid, t, stream.cursor(), budget as nat);
                    match rest {
                        SpecStep::Got(ns, q) => overall == SpecStep::Got(
                            nodes_deep(data@) + ns,
                            q,
                        ),
                        SpecStep::Miss(f) => overall == SpecStep::Miss(f),
                        SpecStep::Spent => overall is Spent,
                    }
                }),
            decreases budget,
        {
            let ghost cur = stream.cursor();
            let ghost pre = data@;
            let res = self.try_advance(member, stream, budget - 1);
            match res {
                AdvanceResult::NewNode(node) => {
                    let ghost n = node.deep();
                    data.push(node);
                    proof {
                        crate::node::lemma_nodes_deep_push(pre, node);
                        let q = stream.cursor();
                        match spec_star(g, mid, t, q, (budget - 1) as nat) {
                            SpecStep::Got(ns2, q2) => {
                                assert(nodes_deep(pre) + (seq![n] + ns2) =~= nodes_deep(data@)
                                    + ns2);
                            },
                            _ => {},
                        }
                    }
                },
                AdvanceResult::Forward(mut nodes) => {
                    let ghost nn = nodes@;
                    data.append(&mut nodes);
                    proof {
                        crate::node::lemma_nodes_deep_concat(pre, nn);
                        assert(data@ == pre + nn);
                        let q = stream.cursor();
                        match spec_star(g, mid, t, q, (budget - 1) as nat) {
                            SpecStep::Got(ns2, q2) => {
                                assert(nodes_deep(pre) + (nodes_deep(nn) + ns2) =~= nodes_deep(
                                    data@,
                                ) + ns2);
                            },
                            _ => {},
                        }
                    }
                },
                AdvanceResult::NoMatch(_) => {
                    proof {
                        assert(nodes_deep(data@) + Seq::<SpecNode>::empty() =~= nodes_deep(data@));
                    }
                    return DataResult::Data(data);
                },
                AdvanceResult::Exhausted => {
                    return DataResult::Exhausted;
                },
            }
            budget = budget - 1;
        }
        DataResult::Exhausted
    }

    /// Like the zero-or-more repetition, but the member must match at least
    /// once: a first mismatch is a mismatch of the whole rule.
    fn try_advance_one_or_more(
        &self,
        member: &SymbolIdent,
        stream: &mut CharStream,
        steps: u64,
    ) -> (r: DataResult)
        requires
            self.wf(),
            old(stream).wf(),
            1 <= steps,
            member.0 < self@.symbols.len(),
        ensures
            final(stream).wf(),
            final(stream).text() == old(stream).text(),
            ({
                let outcome = spec_plus(
                    self@.symbols,
                    member.0 as int,
                    old(stream).text(),
                    old(stream).cursor(),
                    steps as nat,
                );
                match outcome {
                    SpecStep::Got(ns, q) => r matches DataResult::Data(nodes) && nodes_deep(nodes@)
                        == ns && final(stream).cursor() == q,
                    SpecStep::Miss(f) => r == DataResult::NoMatch(
                        pos_at(old(stream).text(), f),
                    ),
                    SpecStep::Spent => r is Exhausted,
                }
            }),
        decreases steps, 0int, 1int,
    {
        let ghost g = self@.symbols;
        let ghost mid = member.0 as int;
        let ghost t = old(stream).text();
        let ghost pos0 = old(stream).cursor();
        match self.try_advance(member, stream, steps - 1) {
            AdvanceResult::NewNode(node) => {
                let ghost n = node.deep();
                let ghost q = stream.cursor();
                let mut data: Vec<Node> = Vec::new();
                data.push(node);
                match self.try_advance_zero_or_more(member, stream, steps - 1) {
                    DataResult::Data(mut nodes) => {
                        let ghost nn = nodes@;
                        data.append(&mut nodes);
                        proof {
                            assert(data@ == seq![data@[0]] + nn);
                            assert(nodes_deep(seq![data@[0]]) =~= seq![n]);
                            crate::node::lemma_nodes_deep_concat(seq![data@[0]], nn);
                            match spec_star(g, mid, t, q, (steps - 1) as nat) {
                                SpecStep::Got(ns2, q2) => {
                                    assert(seq![n] + ns2 =~= nodes_deep(data@));
                                },
                                _ => {},
                            }
                        }
                        DataResult::Data(data)
                    },
                    DataResult::NoMatch(f) => {
                        proof {
                            lemma_star_no_miss(g, mid, t, q, (steps - 1) as nat);
                            assert(false);
                        }
                        DataResult::NoMatch(f)
                    },
                    DataResult::Exhausted => DataResult::Exhausted,
                }
            },
            AdvanceResult::Forward(first) => {
                let ghost nn0 = first@;
                let ghost q = stream.cursor();
                let mut data: Vec<Node> = first;
                match self.try_advance_zero_or_more(member, stream, steps - 1) {
                    DataResult::Data(mut nodes) => {
                        let ghost nn = nodes@;
                        data.append(&mut nodes);
                        proof {
                            crate::node::lemma_nodes_deep_concat(nn0, nn);
                            assert(data@ == nn0 + nn);
                        }
                        DataResult::Data(data)
                    },
                    DataResult::NoMatch(f) => {
                        proof {
                            lemma_star_no_miss(g, mid, t, q, (steps - 1) as nat);
                            assert(false);
                        }
                        DataResult::NoMatch(f)
                    },
                    DataResult::Exhausted => DataResult::Exhausted,
                }
            },
            AdvanceResult::NoMatch(f) => DataResult::NoMatch(f),
            AdvanceResult::Exhausted => DataResult::Exhausted,
        }
    }

    /// Matches exactly the character `c` and nothing else.
    fn try_advance_terminal(c: &char, stream: &mut CharStream) -> (r: DataResult)
        requires
            old(stream).wf(),
        ensures
            final(stream).wf(),
            final(stream).text() == old(stream).text(),
            ({
                let t = old(stream).text();
                let pos = old(stream).cursor();
                if pos < t.len() && t[pos] == *c {
                    r matches DataResult::Data(nodes) && nodes_deep(nodes@)
                        == Seq::<SpecNode>::empty() && final(stream).cursor() == pos + 1
                } else {
                    r == DataResult::NoMatch(pos_at(t, pos)) && final(stream).cursor() == pos
                }
            }),
    {
        proof {
            stream.lemma_wf();
        }
        let matched = match stream.peek() {
            Some(next_char) => *c == *next_char,
            None => false,
        };
        if matched {
            stream.next();
            let nodes: Vec<Node> = Vec::new();
            proof {
                assert(nodes_deep(nodes@) =~= Seq::<SpecNode>::empty());
            }
            DataResult::Data(nodes)
        } else {
            DataResult::NoMatch(stream.get_pos())
        }
    }

    /// Matches any one character that exists and is not excluded.
    fn try_advance_any_except(chars: &Vec<char>, stream: &mut CharStream) -> (r: DataResult)
        requires
            old(stream).wf(),
        ensures
            final(stream).wf(),
            final(stream).text() == old(stream).text(),
            ({
                let t = old(stream).text();
                let pos = old(stream).cursor();
                if pos < t.len() && !chars@.contains(t[pos]) {
                    r matches DataResult::Data(nodes) && nodes_deep(nodes@)
                        == Seq::<SpecNode>::empty() && final(stream).cursor() == pos + 1
                } else {
                    r == DataResult::NoMatch(pos_at(t, pos)) && final(stream).cursor() == pos
                }
            }),
    {
        proof {
            stream.lemma_wf();
        }
        let matched = match stream.peek() {
            Some(next_char) => !contains_char(chars, *next_char),
            None => false,
        };
        if matched {
            stream.next();
            let nodes: Vec<Node> = Vec::new();
            proof {
                assert(nodes_deep(nodes@) =~= Seq::<SpecNode>::empty());
            }
            DataResult::Data(nodes)
        } else {
            DataResult::NoMatch(stream.get_pos())
        }
    }

    /// Applies the designated root rule to the whole stream.  Success needs
    /// the root to match and the input to be fully consumed; anything else
    /// is a failure carrying the position the engine was left at — the
    /// unwound start for a root mismatch, the first unconsumed character
    /// for a partial match.
    pub fn parse(&self, stream: &mut CharStream) -> (r: ParseResult)
        requires
            self.wf(),
            self@.root_ok(),
            !self@.symbols[self@.root->0].ignore,
            old(stream).wf(),
        ensures
            final(stream).wf(),
            final(stream).text() == old(stream).text(),
            ({
                let t = old(stream).text();
                let pos0 = old(stream).cursor();
                let outcome = spec_advance(
                    self@.symbols,
                    self@.root->0,
                    t,
                    pos0,
                    STEP_LIMIT as nat,
                );
                match outcome {
                    SpecAdvance::Node(n, q) => if q == t.len() {
                        &&& r matches ParseResult::Parsed(node)
                        &&& node.deep() == n
                        &&& final(stream).cursor() == q
                    } else {
                        &&& r == ParseResult::Failed(pos_at(t, q))
                        &&& final(stream).cursor() == q
                    },
                    SpecAdvance::Splice(_, _) => false,
                    SpecAdvance::Miss(f) => {
                        &&& r == ParseResult::Failed(pos_at(t, f))
                        &&& final(stream).cursor() == pos0
                    },
                    SpecAdvance::Spent => {
                        &&& r == ParseResult::Failed(pos_at(t, pos0))
                        &&& final(stream).cursor() == pos0
                    },
                }
            }),
    {
        let ghost t = old(stream).text();
        let ghost pos0 = old(stream).cursor();
        proof {
            stream.lemma_wf();
            lemma_advance_bounds(self@.symbols, self@.root->0, t, pos0, STEP_LIMIT as nat);
        }
        if let Some(root) = self.root_node {
            match self.try_advance(&root, stream, STEP_LIMIT) {
                AdvanceResult::NewNode(n) => {
                    match stream.peek() {
                        Some(_) => ParseResult::Failed(stream.get_pos()),
                        None => ParseResult::Parsed(n),
                    }
                },
                AdvanceResult::Forward(_) => {
                    proof {
                        assert(false);
                    }
                    ParseResult::Failed(stream.get_pos())
                },
                AdvanceResult::NoMatch(f) => ParseResult::Failed(f),
                AdvanceResult::Exhausted => ParseResult::Failed(stream.get_pos()),
            }
        } else {
            proof {
                assert(false);
            }
            ParseResult::Failed(stream.get_pos())
        }
    }
}

/// A shape well-formed for a small arena is well-formed for a larger one.
pub proof fn lemma_shape_wf_widen(shape: SpecShape, small: int, large: int)
    requires
        shape.wf(small),
        small <= large,
    ensures
        shape.wf(large),
{
}


impl Parser {
    /// Compiles a textual grammar description into a runnable grammar: the
    /// text is parsed with the bootstrap meta-grammar and the resulting
    /// tree is handed to the compiler, whose exact outcome is fixed by
    /// [`crate::builder::spec_build`].  Success yields a well-formed
    /// grammar whose designated root rule builds a node, ready for
    /// [`Parser::parse`].
    pub fn from_bnf(bnf: &str) -> (r: Result<Parser, crate::builder::BuildError>)
        ensures
            r matches Ok(p) ==> p.wf() && p@.root_ok() && !p@.symbols[p@.root->0].ignore,
            bnf@.len() < usize::MAX ==> match crate::bnf::spec_from_bnf(bnf@) {
                crate::bnf::SpecCompiled::Grammar(sp) => r matches Ok(p) && p@ == sp,
                crate::bnf::SpecCompiled::Defect(e) => r matches Err(err) && err@ == e,
            },
    {
        let n = bnf.unicode_len();
        if n == usize::MAX {
            return Err(crate::builder::BuildError::MalformedTree);
        }
        let mut stream = CharStream::from(bnf);
        let bnf_grammar = crate::bnf::bnf_parser();
        let root_node = match bnf_grammar.parse(&mut stream) {
            ParseResult::Parsed(node) => node,
            ParseResult::Failed(pos) => {
                return Err(crate::builder::BuildError::Unparsable(pos));
            },
        };
        let parser_builder = crate::builder::ParserBuilder::new();
        parser_builder.build(&root_node)
    }
}

/// Whether a character occurs in the excluded set.
fn contains_char(chars: &Vec<char>, c: char) -> (r: bool)
    ensures
        r == chars@.contains(c),
{
    let mut i: usize = 0;
    while i < chars.len()
        invariant
            i <= chars@.len(),
            forall|j: int| 0 <= j < i ==> chars@[j] != c,
        decreases chars@.len() - i,
    {
        if chars[i] == c {
            return true;
        }
        i += 1;
    }
    false
}

} // verus!
