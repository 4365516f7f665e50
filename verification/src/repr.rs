//! A textual rendering of grammar rules, for inspection: each rule prints
//! in the notation the compiler reads, with named members shown by name
//! and anonymous members expanded in place.
//!
//! Expansion follows references through the arena, so it carries a depth
//! budget; a reference that can only be reached through itself prints as
//! an ellipsis once the budget runs out.

use crate::node::push_char;
use crate::parse::Parser;
use crate::symbol::SpecShape;
use crate::symbol::SpecSymbol;
use crate::symbol::Symbol;
use crate::symbol::SymbolIdent;
use vstd::prelude::*;
use vstd::string::StringExecFns;

verus! {

/// The strings joined with the separator between them.
pub open spec fn spec_join_from(strs: Seq<Seq<char>>, from: int, sep: Seq<char>) -> Seq<char>
    decreases (if from < strs.len() { strs.len() - from } else { 0 }),
{
    if from >= strs.len() {
        Seq::empty()
    } else if from == strs.len() - 1 {
        strs[from]
    } else {
        strs[from] + sep + spec_join_from(strs, from + 1, sep)
    }
}

/// The strings joined with the separator, wrapped in parentheses when
/// there is more than one of them.
pub open spec fn spec_join_wrap(strs: Seq<Seq<char>>, sep: Seq<char>) -> Seq<char> {
    if strs.len() > 1 {
        "( "@ + spec_join_from(strs, 0, sep) + " )"@
    } else {
        spec_join_from(strs, 0, sep)
    }
}

/// The rendering of one member of a collection rule: its name if it has
/// one, its own rendering otherwise.
pub open spec fn spec_member_repr(g: Seq<SpecSymbol>, m: int, depth: nat) -> Seq<char>
    decreases depth, 0nat, 0nat,
{
    match g[m].name {
        Some(n) => n,
        None => if depth == 0 {
            "..."@
        } else {
            spec_repr(g, g[m], (depth - 1) as nat)
        },
    }
}

/// The renderings of the members of a collection rule from index `from` on.
pub open spec fn spec_repr_items(g: Seq<SpecSymbol>, ms: Seq<int>, from: int, depth: nat) -> Seq<
    Seq<char>,
>
    decreases depth, 1nat, (if from < ms.len() { ms.len() - from } else { 0 }),
{
    if from >= ms.len() {
        Seq::empty()
    } else {
        seq![spec_member_repr(g, ms[from], depth)] + spec_repr_items(g, ms, from + 1, depth)
    }
}

/// The rendering of the member a bracket or repetition wraps.
pub open spec fn spec_inner_repr(g: Seq<SpecSymbol>, m: int, depth: nat) -> Seq<char>
    decreases depth, 1nat, 1nat,
{
    if depth == 0 {
        "..."@
    } else {
        spec_repr(g, g[m], (depth - 1) as nat)
    }
}

/// The hexadecimal digit of a value below sixteen.
pub open spec fn spec_hex_digit(n: int) -> char {
    if n == 0 {
        '0'
    } else if n == 1 {
        '1'
    } else if n == 2 {
        '2'
    } else if n == 3 {
        '3'
    } else if n == 4 {
        '4'
    } else if n == 5 {
        '5'
    } else if n == 6 {
        '6'
    } else if n == 7 {
        '7'
    } else if n == 8 {
        '8'
    } else if n == 9 {
        '9'
    } else if n == 10 {
        'a'
    } else if n == 11 {
        'b'
    } else if n == 12 {
        'c'
    } else if n == 13 {
        'd'
    } else if n == 14 {
        'e'
    } else {
        'f'
    }
}

/// The debug-style escape of a terminal's character: the common escapes by
/// name, the remaining control characters — ASCII and the Latin-1 range —
/// as a hexadecimal code, and every other character as itself.
pub open spec fn spec_escape_char(c: char) -> Seq<char> {
    if c == '\t' {
        "\\t"@
    } else if c == '\r' {
        "\\r"@
    } else if c == '\n' {
        "\\n"@
    } else if c == '\\' {
        "\\\\"@
    } else if c == '\'' {
        "\\'"@
    } else if c == '"' {
        "\\\""@
    } else if (c as u32) < 0x20 || (0x7f <= (c as u32) && (c as u32) < 0xa0) {
        let n = (c as u32) as int;
        if n < 16 {
            "\\u{"@.push(spec_hex_digit(n)) + "}"@
        } else {
            "\\u{"@.push(spec_hex_digit(n / 16)).push(spec_hex_digit(n % 16)) + "}"@
        }
    } else {
        seq![c]
    }
}

/// The rendering of one rule in the grammar notation.
pub open spec fn spec_repr(g: Seq<SpecSymbol>, sym: SpecSymbol, depth: nat) -> Seq<char>
    decreases depth, 2nat, 0nat,
{
    match sym.shape {
        SpecShape::AnyExcept(_) => "ANY"@,
        SpecShape::Terminal(c) => "'"@ + spec_escape_char(c) + "'"@,
        SpecShape::Sequence(ms) => spec_join_wrap(spec_repr_items(g, ms, 0, depth), " "@),
        SpecShape::OneOf(ms) => spec_join_wrap(spec_repr_items(g, ms, 0, depth), " | "@),
        SpecShape::Optional(m) => "[ "@ + spec_member_repr(g, m, depth) + " ]"@,
        SpecShape::OneOrMore(m) => "{ "@ + spec_inner_repr(g, m, depth) + " }+"@,
        SpecShape::ZeroOrMore(m) => "{ "@ + spec_inner_repr(g, m, depth) + " }"@,
    }
}

/// The hexadecimal digit of a value below sixteen.
fn hex_digit(n: u32) -> (r: char)
    requires
        n < 16,
    ensures
        r == spec_hex_digit(n as int),
{
    match n {
        0 => '0',
        1 => '1',
        2 => '2',
        3 => '3',
        4 => '4',
        5 => '5',
        6 => '6',
        7 => '7',
        8 => '8',
        9 => '9',
        10 => 'a',
        11 => 'b',
        12 => 'c',
        13 => 'd',
        14 => 'e',
        _ => 'f',
    }
}

/// Appends the debug-style escape of one character.
fn push_escaped(s: &mut String, c: char)
    ensures
        final(s)@ == old(s)@ + spec_escape_char(c),
{
    if c == '\t' {
        s.append("\\t");
    } else if c == '\r' {
        s.append("\\r");
    } else if c == '\n' {
        s.append("\\n");
    } else if c == '\\' {
        s.append("\\\\");
    } else if c == '\'' {
        s.append("\\'");
    } else if c == '"' {
        s.append("\\\"");
    } else if (c as u32) < 0x20 || (0x7f <= c as u32 && (c as u32) < 0xa0) {
        let n = c as u32;
        s.append("\\u{");
        if n < 16 {
            push_char(s, hex_digit(n));
        } else {
            push_char(s, hex_digit(n / 16));
            push_char(s, hex_digit(n % 16));
        }
        s.append("}");
        proof {
            assert(s@ =~= old(s)@ + spec_escape_char(c));
        }
    } else {
        push_char(s, c);
        proof {
            assert(s@ =~= old(s)@ + seq![c]);
        }
    }
}

/// The strings joined with the separator between them, from `from` on.
fn join_from(strings: &Vec<String>, from: usize, sep: &str) -> (r: String)
    requires
        from <= strings@.len(),
    ensures
        r@ == spec_join_from(strings@.map_values(|s: String| s@), from as int, sep@),
    decreases strings@.len() - from,
{
    let ghost strs = strings@.map_values(|s: String| s@);
    if from >= strings.len() {
        String::new()
    } else if from == strings.len() - 1 {
        strings[from].clone()
    } else {
        let rest = join_from(strings, from + 1, sep);
        let r = strings[from].clone().concat(sep).concat(rest.as_str());
        proof {
            assert(r@ =~= strs[from as int] + sep@ + spec_join_from(strs, from + 1, sep@));
        }
        r
    }
}

/// The strings joined with the separator, wrapped in parentheses when
/// there is more than one of them.
pub fn join_and_wrap(strings: Vec<String>, sep: &str) -> (r: String)
    ensures
        r@ == spec_join_wrap(strings@.map_values(|s: String| s@), sep@),
{
    let joined = join_from(&strings, 0, sep);
    if strings.len() > 1 {
        let r = String::from_str("( ").concat(joined.as_str()).concat(" )");
        proof {
            assert(r@ =~= "( "@ + joined@ + " )"@);
        }
        r
    } else {
        joined
    }
}

impl Symbol {
    /// Renders this rule in the grammar notation, expanding anonymous
    /// members in place down to the given depth.
    pub fn repr(&self, p: &Parser, depth: u64) -> (r: String)
        requires
            p.wf(),
            self@.shape.wf(p@.symbols.len() as int),
        ensures
            r@ == spec_repr(p@.symbols, self@, depth as nat),
        decreases depth, 2int, 0int,
    {
        let ghost g = p@.symbols;
        match &self.symbol_type {
            crate::symbol::SymbolType::AnyExcept(_) => String::from_str("ANY"),
            crate::symbol::SymbolType::Terminal(c) => {
                let mut s = String::from_str("'");
                push_escaped(&mut s, *c);
                push_char(&mut s, '\'');
                proof {
                    reveal_strlit("'");
                    assert(s@ =~= "'"@ + spec_escape_char(*c) + "'"@);
                }
                s
            },
            crate::symbol::SymbolType::Sequence(ms) => {
                proof {
                    assert(self@.shape == SpecShape::Sequence(
                        ms@.map_values(|m: SymbolIdent| m.0 as int),
                    ));
                    crate::symbol::lemma_collection_wf(self@.shape, p@.symbols.len() as int);
                    assert forall|i: int| 0 <= i < ms@.len() implies (#[trigger] ms@[i]).0
                        < p@.symbols.len() by {
                        let msint = ms@.map_values(|m: SymbolIdent| m.0 as int);
                        assert(0 <= msint[i] < p@.symbols.len());
                        assert(msint[i] == ms@[i].0 as int);
                    }
                }
                let items = Self::repr_items(p, ms, depth);
                join_and_wrap(items, " ")
            },
            crate::symbol::SymbolType::OneOf(ms) => {
                proof {
                    assert(self@.shape == SpecShape::OneOf(
                        ms@.map_values(|m: SymbolIdent| m.0 as int),
                    ));
                    crate::symbol::lemma_collection_wf(self@.shape, p@.symbols.len() as int);
                    assert forall|i: int| 0 <= i < ms@.len() implies (#[trigger] ms@[i]).0
                        < p@.symbols.len() by {
                        let msint = ms@.map_values(|m: SymbolIdent| m.0 as int);
                        assert(0 <= msint[i] < p@.symbols.len());
                        assert(msint[i] == ms@[i].0 as int);
                    }
                }
                let items = Self::repr_items(p, ms, depth);
                join_and_wrap(items, " | ")
            },
            crate::symbol::SymbolType::Optional(m) => {
                let inner = Self::member_repr(p, m, depth);
                let r = String::from_str("[ ").concat(inner.as_str()).concat(" ]");
                proof {
                    assert(r@ =~= "[ "@ + inner@ + " ]"@);
                }
                r
            },
            crate::symbol::SymbolType::OneOrMore(m) => {
                let inner = Self::inner_repr(p, m, depth);
                let r = String::from_str("{ ").concat(inner.as_str()).concat(" }+");
                proof {
                    assert(r@ =~= "{ "@ + inner@ + " }+"@);
                }
                r
            },
            crate::symbol::SymbolType::ZeroOrMore(m) => {
                let inner = Self::inner_repr(p, m, depth);
                let r = String::from_str("{ ").concat(inner.as_str()).concat(" }");
                proof {
                    assert(r@ =~= "{ "@ + inner@ + " }"@);
                }
                r
            },
        }
    }

    /// Renders one referenced member: by name if it has one, expanded
    /// otherwise.
    fn member_repr(p: &Parser, m: &SymbolIdent, depth: u64) -> (r: String)
        requires
            p.wf(),
            m.0 < p@.symbols.len(),
        ensures
            r@ == spec_member_repr(p@.symbols, m.0 as int, depth as nat),
        decreases depth, 1int, 0int,
    {
        let sym = p.get_symbol(m);
        match &sym.properties.node_name {
            Some(n) => n.clone(),
            None => {
                if depth == 0 {
                    String::from_str("...")
                } else {
                    sym.repr(p, depth - 1)
                }
            },
        }
    }

    /// Renders the member a bracket or repetition wraps, expanded in place.
    fn inner_repr(p: &Parser, m: &SymbolIdent, depth: u64) -> (r: String)
        requires
            p.wf(),
            m.0 < p@.symbols.len(),
        ensures
            r@ == spec_inner_repr(p@.symbols, m.0 as int, depth as nat),
        decreases depth, 1int, 0int,
    {
        if depth == 0 {
            String::from_str("...")
        } else {
            p.get_symbol(m).repr(p, depth - 1)
        }
    }

    /// Renders the members of a collection rule, in order.
    fn repr_items(p: &Parser, ms: &Vec<SymbolIdent>, depth: u64) -> (r: Vec<String>)
        requires
            p.wf(),
            forall|i: int| 0 <= i < ms@.len() ==> (#[trigger] ms@[i]).0 < p@.symbols.len(),
        ensures
            r@.map_values(|s: String| s@) == spec_repr_items(
                p@.symbols,
                ms@.map_values(|m: SymbolIdent| m.0 as int),
                0,
                depth as nat,
            ),
        decreases depth, 1int, 1int,
    {
        let ghost g = p@.symbols;
        let ghost mids = ms@.map_values(|m: SymbolIdent| m.0 as int);
        let mut r: Vec<String> = Vec::new();
        let mut i: usize = 0;
        while i < ms.len()
            invariant
                i <= ms@.len(),
                p.wf(),
                g == p@.symbols,
                mids == ms@.map_values(|m: SymbolIdent| m.0 as int),
                forall|j: int| 0 <= j < ms@.len() ==> (#[trigger] ms@[j]).0 < p@.symbols.len(),
                r@.map_values(|s: String| s@) =~= spec_repr_items(
                    p@.symbols,
                    mids,
                    0,
                    depth as nat,
                ).take(i as int),
            decreases ms@.len() - i,
        {
            let ghost pre = r@;
            let m = ms[i];
            let item = Self::member_repr(p, &m, depth);
            r.push(item);
            proof {
                lemma_repr_items_len(g, mids, 0, depth as nat);
                assert(r@.map_values(|s: String| s@) =~= pre.map_values(|s: String| s@).push(
                    item@,
                ));
                lemma_repr_items_index(g, mids, 0, depth as nat, i as int);
                assert(mids[i as int] == ms@[i as int].0 as int);
                assert(item@ == spec_repr_items(g, mids, 0, depth as nat)[i as int]);
                assert(spec_repr_items(g, mids, 0, depth as nat).take(i + 1) =~= spec_repr_items(
                    g,
                    mids,
                    0,
                    depth as nat,
                ).take(i as int).push(spec_repr_items(g, mids, 0, depth as nat)[i as int]));
                assert(r@.map_values(|s: String| s@) =~= spec_repr_items(
                    g,
                    mids,
                    0,
                    depth as nat,
                ).take(i + 1));
            }
            i += 1;
        }
        proof {
            lemma_repr_items_len(g, mids, 0, depth as nat);
            assert(spec_repr_items(g, mids, 0, depth as nat).take(ms@.len() as int)
                =~= spec_repr_items(g, mids, 0, depth as nat));
        }
        r
    }
}

/// A member list renders to one string per member.
proof fn lemma_repr_items_len(g: Seq<SpecSymbol>, ms: Seq<int>, from: int, depth: nat)
    requires
        0 <= from <= ms.len(),
    ensures
        spec_repr_items(g, ms, from, depth).len() == ms.len() - from,
    decreases ms.len() - from,
{
    if from < ms.len() {
        lemma_repr_items_len(g, ms, from + 1, depth);
    }
}

/// The rendering at position `i` of a member list is the rendering of the
/// member at position `from + i`.
proof fn lemma_repr_items_index(g: Seq<SpecSymbol>, ms: Seq<int>, from: int, depth: nat, i: int)
    requires
        0 <= from <= ms.len(),
        from <= i < ms.len(),
    ensures
        spec_repr_items(g, ms, from, depth)[i - from] == spec_member_repr(g, ms[i], depth),
    decreases i - from,
{
    lemma_repr_items_len(g, ms, from + 1, depth);
    if i > from {
        lemma_repr_items_index(g, ms, from + 1, depth, i);
    }
}

} // verus!
