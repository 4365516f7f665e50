//! The grammar rule representation.
//!
//! A rule ([`Symbol`]) is one of seven shapes ([`SymbolType`]) together with
//! its presentation flags ([`SymbolProperties`]).  Rules refer to each other
//! only through stable arena indices ([`SymbolIdent`]), which is what allows
//! mutually recursive grammars without ownership cycles.

use vstd::prelude::*;
use vstd::string::StringExecFns;

verus! {

/// A stable index into the arena of a `Parser`.
#[derive(Clone, Copy, Debug)]
pub struct SymbolIdent(pub usize);

/// The seven rule shapes.
#[derive(Clone, Debug)]
pub enum SymbolType {
    /// Each member in order; all must match.
    Sequence(Vec<SymbolIdent>),
    /// The members in order; the first that matches decides.
    OneOf(Vec<SymbolIdent>),
    /// The member, or nothing; never fails.
    Optional(SymbolIdent),
    /// The member as often as it matches, at least once.
    OneOrMore(SymbolIdent),
    /// The member as often as it matches, possibly not at all.
    ZeroOrMore(SymbolIdent),
    /// Exactly the given character.
    Terminal(char),
    /// Any one character not in the given set.
    AnyExcept(Vec<char>),
}

/// The mathematical shape of a rule: arena indices as plain integers.
pub ghost enum SpecShape {
    Sequence(Seq<int>),
    OneOf(Seq<int>),
    Optional(int),
    OneOrMore(int),
    ZeroOrMore(int),
    Terminal(char),
    AnyExcept(Seq<char>),
}

impl View for SymbolType {
    type V = SpecShape;

    open spec fn view(&self) -> SpecShape {
        match self {
            SymbolType::Sequence(v) => SpecShape::Sequence(
                v@.map_values(|m: SymbolIdent| m.0 as int),
            ),
            SymbolType::OneOf(v) => SpecShape::OneOf(v@.map_values(|m: SymbolIdent| m.0 as int)),
            SymbolType::Optional(m) => SpecShape::Optional(m.0 as int),
            SymbolType::OneOrMore(m) => SpecShape::OneOrMore(m.0 as int),
            SymbolType::ZeroOrMore(m) => SpecShape::ZeroOrMore(m.0 as int),
            SymbolType::Terminal(c) => SpecShape::Terminal(*c),
            SymbolType::AnyExcept(v) => SpecShape::AnyExcept(v@),
        }
    }
}

impl SpecShape {
    /// Every arena index the shape mentions lies below `bound`.
    pub open spec fn wf(&self, bound: int) -> bool {
        match *self {
            SpecShape::Sequence(ms) => forall|i: int|
                0 <= i < ms.len() ==> 0 <= #[trigger] ms[i] < bound,
            SpecShape::OneOf(ms) => forall|i: int|
                0 <= i < ms.len() ==> 0 <= #[trigger] ms[i] < bound,
            SpecShape::Optional(m) => 0 <= m < bound,
            SpecShape::OneOrMore(m) => 0 <= m < bound,
            SpecShape::ZeroOrMore(m) => 0 <= m < bound,
            SpecShape::Terminal(_) => true,
            SpecShape::AnyExcept(_) => true,
        }
    }
}

/// Presentation flags of a rule: an optional display name for the produced
/// node, whether the node keeps the raw matched text instead of children,
/// and whether the rule is left out of the tree altogether.
#[derive(Clone, Debug)]
pub struct SymbolProperties {
    pub node_name: Option<String>,
    pub ignore: bool,
    pub raw: bool,
}

/// The mathematical value of a rule's presentation flags.
pub ghost struct SpecProps {
    pub name: Option<Seq<char>>,
    pub raw: bool,
    pub ignore: bool,
}

impl View for SymbolProperties {
    type V = SpecProps;

    open spec fn view(&self) -> SpecProps {
        SpecProps {
            name: match self.node_name {
                Some(n) => Some(n@),
                None => None,
            },
            raw: self.raw,
            ignore: self.ignore,
        }
    }
}

impl SymbolProperties {
    /// Named properties.  Kept as an `Option` so the result can stand directly
    /// where a builder expects optional properties.
    pub fn new(node_name: &str, raw: bool, ignore: bool) -> (r: Option<SymbolProperties>)
        ensures
            r matches Some(p) && p@ == (SpecProps { name: Some(node_name@), raw, ignore }),
    {
        Some(SymbolProperties { node_name: Some(String::from_str(node_name)), raw, ignore })
    }
}

impl Default for SymbolProperties {
    /// Unnamed, not raw, and — deliberately — ignored: an anonymous helper
    /// rule leaves no node of its own in the tree.
    fn default() -> (r: Self)
        ensures
            r@ == (SpecProps { name: None, raw: false, ignore: true }),
    {
        SymbolProperties { node_name: None, raw: false, ignore: true }
    }
}

/// One grammar rule: a shape and its presentation flags.
#[derive(Clone, Debug)]
pub struct Symbol {
    pub symbol_type: SymbolType,
    pub properties: SymbolProperties,
}

/// The mathematical value of a rule.
pub ghost struct SpecSymbol {
    pub shape: SpecShape,
    pub name: Option<Seq<char>>,
    pub raw: bool,
    pub ignore: bool,
}

impl View for Symbol {
    type V = SpecSymbol;

    open spec fn view(&self) -> SpecSymbol {
        SpecSymbol {
            shape: self.symbol_type@,
            name: self.properties@.name,
            raw: self.properties@.raw,
            ignore: self.properties@.ignore,
        }
    }
}

/// The member indices of a well-formed sequence or alternation all lie
/// below the arena bound.
pub proof fn lemma_collection_wf(shape: SpecShape, bound: int)
    requires
        shape.wf(bound),
    ensures
        shape matches SpecShape::Sequence(ms) ==> forall|i: int|
            0 <= i < ms.len() ==> 0 <= #[trigger] ms[i] < bound,
        shape matches SpecShape::OneOf(ms) ==> forall|i: int|
            0 <= i < ms.len() ==> 0 <= #[trigger] ms[i] < bound,
{
}

impl Symbol {
    /// The display name of the nodes this rule produces: the name of its
    /// properties, or a name derived from its shape when it has none.
    pub fn name(&self) -> (r: String)
        ensures
            r@ == crate::semantics::sym_name(self@),
    {
        match &self.properties.node_name {
            Some(n) => n.clone(),
            None => match &self.symbol_type {
                SymbolType::Sequence(_) => String::from_str("Sequence"),
                SymbolType::OneOf(_) => String::from_str("OneOf"),
                SymbolType::Optional(_) => String::from_str("Optional"),
                SymbolType::OneOrMore(_) => String::from_str("OneOrMore"),
                SymbolType::ZeroOrMore(_) => String::from_str("ZeroOrMore"),
                SymbolType::Terminal(_) => String::from_str("Terminal"),
                SymbolType::AnyExcept(_) => String::from_str("AnyExcept"),
            },
        }
    }

    /// Appends a member to a collection-shaped rule (sequence or alternation).
    pub fn add_ident(&mut self, ident: &SymbolIdent)
        requires
            old(self)@.shape is Sequence || old(self)@.shape is OneOf,
        ensures
            final(self)@.name == old(self)@.name,
            final(self)@.raw == old(self)@.raw,
            final(self)@.ignore == old(self)@.ignore,
            old(self)@.shape matches SpecShape::Sequence(ms) ==> final(self)@.shape
                == SpecShape::Sequence(ms.push(ident.0 as int)),
            old(self)@.shape matches SpecShape::OneOf(ms) ==> final(self)@.shape
                == SpecShape::OneOf(ms.push(ident.0 as int)),
    {
        match &mut self.symbol_type {
            SymbolType::Sequence(s) => {
                let ghost pre = s@;
                s.push(*ident);
                assert(s@.map_values(|m: SymbolIdent| m.0 as int) =~= pre.map_values(
                    |m: SymbolIdent| m.0 as int,
                ).push(ident.0 as int));
            },
            SymbolType::OneOf(s) => {
                let ghost pre = s@;
                s.push(*ident);
                assert(s@.map_values(|m: SymbolIdent| m.0 as int) =~= pre.map_values(
                    |m: SymbolIdent| m.0 as int,
                ).push(ident.0 as int));
            },
            _ => {
                proof {
                    assert(false);
                }
            },
        }
    }
}

} // verus!
