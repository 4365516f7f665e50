//! The grammar compiler: walks the tree that the bootstrap meta-grammar
//! produced for a grammar text and emits an equivalent [`Parser`].
//!
//! All declared rule names are registered before any rule is built, and a
//! name is compiled on first use with memoization for named sequences and
//! alternations — their arena entry is created empty and registered before
//! its members are built, which is what lets forward references and mutual
//! recursion compile without a dependency-ordering pass.
//!
//! Authoring-time defects — malformed trees, references to undeclared
//! names, a missing root flag — are a different failure domain from a
//! parse failure against the finished grammar, and surface as explicit
//! [`BuildError`] values.

use crate::node::lemma_deep_data;
use crate::node::nodes_deep;
use crate::node::SpecNodeData;
use crate::node::Node;
use crate::node::NodeData;
use crate::node::SpecNode;
use crate::parse::Parser;
use crate::symbol::SpecShape;
use crate::symbol::SpecSymbol;
use crate::symbol::SymbolIdent;
use crate::symbol::SymbolProperties;
use vstd::prelude::*;
use vstd::string::StrSliceExecFns;
use vstd::string::StringExecFns;

verus! {

/// A defect in the grammar description itself, found while compiling it.
#[derive(Debug)]
pub enum BuildError {
    /// A node of the tree does not have the shape the notation produces.
    MalformedTree,
    /// An identifier is used that no statement declares.
    UndeclaredIdentifier(String),
    /// The grammar text itself cannot be parsed by the bootstrap
    /// meta-grammar; the position is where its parse stopped.
    Unparsable(crate::input::Position),
    /// No statement carries the `root` flag.
    MissingRoot,
    /// The statement carrying the `root` flag compiles to an ignored rule,
    /// which could never materialize a tree of its own.
    RootIgnored,
    /// The chain of rule references exceeded the compiler's recursion
    /// budget; some rule can only be reached through itself.
    DepthExceeded,
}

/// The flag nodes of one statement node, given its child list: none when
/// the statement has no flag list, else the children of its second child.
pub open spec fn spec_flag_nodes(cs: Seq<SpecNode>) -> Seq<SpecNode> {
    if cs.len() == 2 {
        Seq::empty()
    } else {
        cs[1].data->Children_0
    }
}

/// Whether a statement node carries the given flag.
pub open spec fn stmt_has_flag(stmt: SpecNode, flag: Seq<char>) -> bool {
    exists|i: int|
        0 <= i < spec_flag_nodes(stmt.data->Children_0).len() && (#[trigger] spec_flag_nodes(
            stmt.data->Children_0,
        )[i]).data == crate::node::SpecNodeData::Raw(flag)
}

/// Whether a statement's flag list has the shape the notation produces,
/// so that its flags can be read off.
pub open spec fn flags_readable(cs: Seq<SpecNode>) -> bool {
    cs.len() == 2 || {
        &&& cs[1].name == "STMT_INFO"@
        &&& cs[1].data is Children
        &&& forall|i: int|
            0 <= i < cs[1].data->Children_0.len() ==> (#[trigger] cs[1].data->Children_0[i]).data
                is Raw
    }
}

/// Whether a statement node has the whole shape the notation produces:
/// a raw identifier first, then an optional well-shaped flag list.
pub open spec fn stmt_ok(stmt: SpecNode) -> bool {
    &&& stmt.name == "STATEMENT"@
    &&& stmt.data is Children
    &&& stmt.data->Children_0.len() >= 2
    &&& stmt.data->Children_0[0].data is Raw
    &&& flags_readable(stmt.data->Children_0)
}


/// The abstract value of one registry slot.
pub ghost struct SpecEntry {
    pub name: Seq<char>,
    pub stmt_idx: int,
    pub raw: bool,
    pub ignore: bool,
    pub built: Option<int>,
}

/// The abstract value of a compile defect.
pub ghost enum SpecBuildError {
    MalformedTree,
    UndeclaredIdentifier(Seq<char>),
    Unparsable(crate::input::Position),
    MissingRoot,
    RootIgnored,
    DepthExceeded,
}

impl View for BuildError {
    type V = SpecBuildError;

    open spec fn view(&self) -> SpecBuildError {
        match self {
            BuildError::MalformedTree => SpecBuildError::MalformedTree,
            BuildError::UndeclaredIdentifier(s) => SpecBuildError::UndeclaredIdentifier(s@),
            BuildError::Unparsable(p) => SpecBuildError::Unparsable(*p),
            BuildError::MissingRoot => SpecBuildError::MissingRoot,
            BuildError::RootIgnored => SpecBuildError::RootIgnored,
            BuildError::DepthExceeded => SpecBuildError::DepthExceeded,
        }
    }
}

/// The compiler's abstract state: the declared names with their compile
/// status, and the arena built so far.
pub ghost struct CompileState {
    pub registry: Seq<SpecEntry>,
    pub symbols: Seq<SpecSymbol>,
}

/// The outcome of compiling one construct: the state afterwards and the
/// arena index the construct compiled to, or the defect found.
pub ghost enum CompileStep {
    Done(CompileState, int),
    Fail(SpecBuildError),
}

/// The slot a name occupies in the registry: the first slot carrying it.
pub open spec fn spec_find(reg: Seq<SpecEntry>, name: Seq<char>, from: int) -> Option<int>
    decreases (if from < reg.len() { reg.len() - from } else { 0 }),
{
    if from < 0 || from >= reg.len() {
        None
    } else if reg[from].name == name {
        Some(from)
    } else {
        spec_find(reg, name, from + 1)
    }
}

/// A found slot carries the name it was looked up by.
pub proof fn lemma_spec_find(reg: Seq<SpecEntry>, name: Seq<char>, from: int)
    ensures
        spec_find(reg, name, from) matches Some(i) ==> from <= i < reg.len() && reg[i].name
            == name,
    decreases (if from < reg.len() { reg.len() - from } else { 0 }),
{
    if 0 <= from < reg.len() && reg[from].name != name {
        lemma_spec_find(reg, name, from + 1);
    }
}

/// Registration of a declared name: the slot already carrying the name is
/// replaced, a fresh name gets a new slot.
pub open spec fn spec_upsert(reg: Seq<SpecEntry>, e: SpecEntry) -> Seq<SpecEntry> {
    match spec_find(reg, e.name, 0) {
        Some(i) => reg.update(i, e),
        None => reg.push(e),
    }
}

/// Marking a name as compiled to the given arena entry.
pub open spec fn spec_mark(reg: Seq<SpecEntry>, name: Seq<char>, id: int) -> Seq<SpecEntry> {
    match spec_find(reg, name, 0) {
        Some(i) => reg.update(
            i,
            SpecEntry {
                name,
                stmt_idx: reg[i].stmt_idx,
                raw: reg[i].raw,
                ignore: reg[i].ignore,
                built: Some(id),
            },
        ),
        None => reg.push(SpecEntry { name, stmt_idx: 0, raw: false, ignore: false, built: Some(id) }),
    }
}

/// A rule carrying the given name and flags.
pub open spec fn named_sym(shape: SpecShape, n: Seq<char>, raw: bool, ignore: bool) -> SpecSymbol {
    SpecSymbol { shape, name: Some(n), raw, ignore }
}

/// An anonymous helper rule: unnamed, not raw, ignored.
pub open spec fn anon_sym(shape: SpecShape) -> SpecSymbol {
    SpecSymbol { shape, name: None, raw: false, ignore: true }
}

/// A rule under an optional name: named with the given flags, or anonymous.
pub open spec fn opt_sym(
    shape: SpecShape,
    name: Option<Seq<char>>,
    raw: bool,
    ignore: bool,
) -> SpecSymbol {
    match name {
        Some(n) => named_sym(shape, n, raw, ignore),
        None => anon_sym(shape),
    }
}

/// The abstract value of an optional rule name.
pub open spec fn opt_name(name: Option<&String>) -> Option<Seq<char>> {
    match name {
        Some(n) => Some(n@),
        None => None,
    }
}

/// The arena grown by one rule.
pub open spec fn push_sym(st: CompileState, sym: SpecSymbol) -> CompileState {
    CompileState { registry: st.registry, symbols: st.symbols.push(sym) }
}

/// One member appended to a collection rule of the arena.
pub open spec fn add_member(st: CompileState, sym: int, id: int) -> CompileState {
    let s = st.symbols[sym];
    let shape = match s.shape {
        SpecShape::Sequence(ms) => SpecShape::Sequence(ms.push(id)),
        SpecShape::OneOf(ms) => SpecShape::OneOf(ms.push(id)),
        other => other,
    };
    CompileState {
        registry: st.registry,
        symbols: st.symbols.update(
            sym,
            SpecSymbol { shape, name: s.name, raw: s.raw, ignore: s.ignore },
        ),
    }
}

/// Compiling the statement at `idx` of the statement list under the given
/// flags: its expression is compiled under the statement's name, and the
/// name is recorded as built, so that every later reference reuses the
/// same arena entry.
pub open spec fn spec_compile_statement(
    stmts: Seq<SpecNode>,
    st: CompileState,
    idx: int,
    raw: bool,
    ignore: bool,
    depth: nat,
) -> CompileStep
    decreases depth, stmts[idx], 2nat, 0nat,
{
    if depth == 0 {
        CompileStep::Fail(SpecBuildError::DepthExceeded)
    } else if !(0 <= idx < stmts.len()) {
        CompileStep::Fail(SpecBuildError::MalformedTree)
    } else {
        let stmt = stmts[idx];
        if stmt.name != "STATEMENT"@ {
            CompileStep::Fail(SpecBuildError::MalformedTree)
        } else if !(stmt.data is Children) {
            CompileStep::Fail(SpecBuildError::MalformedTree)
        } else {
            let c = stmt.data->Children_0;
            if c.len() < 2 {
                CompileStep::Fail(SpecBuildError::MalformedTree)
            } else if !(c[0].data is Raw) {
                CompileStep::Fail(SpecBuildError::MalformedTree)
            } else {
                let name = c[0].data->Raw_0;
                let expr = if c.len() == 2 {
                    c[1]
                } else {
                    c[2]
                };
                match spec_compile_expr(stmts, st, expr, Some(name), raw, ignore, depth) {
                    CompileStep::Done(st2, id) => CompileStep::Done(
                        CompileState {
                            registry: spec_mark(st2.registry, name, id),
                            symbols: st2.symbols,
                        },
                        id,
                    ),
                    fail => fail,
                }
            }
        }
    }
}

/// Compiling one expression node: the structural mapping of the notation —
/// space-sequence to `Sequence`, pipe-alternation to `OneOf`, brackets to
/// `Optional`, braces to `ZeroOrMore`, a quoted character to `Terminal` of
/// its second character, `*` to `AnyExcept` of the fixed exclusion set,
/// `$WHITESPACE` to a fresh ignored whitespace repetition, and a name
/// reference to the declared rule, compiled on first use.
pub open spec fn spec_compile_expr(
    stmts: Seq<SpecNode>,
    st: CompileState,
    node: SpecNode,
    name: Option<Seq<char>>,
    raw: bool,
    ignore: bool,
    depth: nat,
) -> CompileStep
    decreases depth, node, 1nat, 0nat,
{
    if node.name == "SEQUENCE"@ {
        spec_compile_collection(stmts, st, node, name, raw, ignore, depth, false)
    } else if node.name == "ONE_OF"@ {
        spec_compile_collection(stmts, st, node, name, raw, ignore, depth, true)
    } else if node.name == "TERMINAL"@ {
        if !(node.data is Raw) {
            CompileStep::Fail(SpecBuildError::MalformedTree)
        } else {
            let v = node.data->Raw_0;
            if v.len() < 2 {
                CompileStep::Fail(SpecBuildError::MalformedTree)
            } else {
                let sym = match name {
                    Some(n) => named_sym(SpecShape::Terminal(v[1]), n, true, false),
                    None => anon_sym(SpecShape::Terminal(v[1])),
                };
                CompileStep::Done(push_sym(st, sym), st.symbols.len() as int)
            }
        }
    } else if node.name == "IDENTIFIER"@ {
        if !(node.data is Raw) {
            CompileStep::Fail(SpecBuildError::MalformedTree)
        } else {
            let v = node.data->Raw_0;
            match spec_find(st.registry, v, 0) {
                None => CompileStep::Fail(SpecBuildError::UndeclaredIdentifier(v)),
                Some(i) => match st.registry[i].built {
                    Some(id) => CompileStep::Done(st, id),
                    None => if depth == 0 {
                        CompileStep::Fail(SpecBuildError::DepthExceeded)
                    } else {
                        spec_compile_statement(
                            stmts,
                            st,
                            st.registry[i].stmt_idx,
                            st.registry[i].raw,
                            st.registry[i].ignore,
                            (depth - 1) as nat,
                        )
                    },
                },
            }
        }
    } else if node.name == "OPTIONAL"@ {
        match spec_compile_only_child(stmts, st, node, depth) {
            CompileStep::Done(st2, cid) => CompileStep::Done(
                push_sym(st2, opt_sym(SpecShape::Optional(cid), name, raw, ignore)),
                st2.symbols.len() as int,
            ),
            fail => fail,
        }
    } else if node.name == "MANY"@ {
        match spec_compile_only_child(stmts, st, node, depth) {
            CompileStep::Done(st2, cid) => CompileStep::Done(
                push_sym(st2, opt_sym(SpecShape::ZeroOrMore(cid), name, raw, ignore)),
                st2.symbols.len() as int,
            ),
            fail => fail,
        }
    } else if node.name == "ANY"@ {
        CompileStep::Done(
            push_sym(st, opt_sym(SpecShape::AnyExcept(seq!['"', '\\']), name, raw, ignore)),
            st.symbols.len() as int,
        )
    } else if node.name == "WHITESPACE_ID"@ {
        let b = st.symbols.len() as int;
        let grown = st.symbols.push(anon_sym(SpecShape::Terminal(" \n\r\t"@[0]))).push(
            anon_sym(SpecShape::Terminal(" \n\r\t"@[1])),
        ).push(anon_sym(SpecShape::Terminal(" \n\r\t"@[2]))).push(
            anon_sym(SpecShape::Terminal(" \n\r\t"@[3])),
        ).push(
            named_sym(SpecShape::OneOf(seq![b, b + 1, b + 2, b + 3]), "WHITESPACE_CHAR"@, false, true),
        ).push(named_sym(SpecShape::ZeroOrMore(b + 4), "WHITESPACE"@, false, true));
        CompileStep::Done(CompileState { registry: st.registry, symbols: grown }, b + 5)
    } else {
        CompileStep::Fail(SpecBuildError::MalformedTree)
    }
}

/// Compiling the single child of an optional or repetition bracket.
pub open spec fn spec_compile_only_child(
    stmts: Seq<SpecNode>,
    st: CompileState,
    node: SpecNode,
    depth: nat,
) -> CompileStep
    decreases depth, node, 0nat, 0nat,
{
    if !(node.data is Children) {
        CompileStep::Fail(SpecBuildError::MalformedTree)
    } else if node.data->Children_0.len() != 1 {
        CompileStep::Fail(SpecBuildError::MalformedTree)
    } else {
        spec_compile_expr(stmts, st, node.data->Children_0[0], None, false, true, depth)
    }
}

/// Compiling a sequence or alternation node: an empty placeholder first —
/// registered under the statement's name at once, so members referring back
/// to the name reuse it — then the members, compiled and appended in order.
pub open spec fn spec_compile_collection(
    stmts: Seq<SpecNode>,
    st: CompileState,
    node: SpecNode,
    name: Option<Seq<char>>,
    raw: bool,
    ignore: bool,
    depth: nat,
    alternation: bool,
) -> CompileStep
    decreases depth, node, 0nat, 0nat,
{
    if !(node.data is Children) {
        CompileStep::Fail(SpecBuildError::MalformedTree)
    } else {
        let shape = if alternation {
            SpecShape::OneOf(Seq::empty())
        } else {
            SpecShape::Sequence(Seq::empty())
        };
        let sym = st.symbols.len() as int;
        let st1 = push_sym(st, opt_sym(shape, name, raw, ignore));
        let st2 = match name {
            Some(n) => if stmts.len() > 0 {
                CompileState { registry: spec_mark(st1.registry, n, sym), symbols: st1.symbols }
            } else {
                st1
            },
            None => st1,
        };
        spec_compile_members(stmts, st2, node.data->Children_0, 0, sym, depth)
    }
}

/// Compiling and appending the members of a collection rule from index
/// `from` on.
pub open spec fn spec_compile_members(
    stmts: Seq<SpecNode>,
    st: CompileState,
    cs: Seq<SpecNode>,
    from: int,
    sym: int,
    depth: nat,
) -> CompileStep
    decreases depth, cs, 0nat, (if from < cs.len() { cs.len() - from } else { 0 }),
{
    if from < 0 || from >= cs.len() {
        CompileStep::Done(st, sym)
    } else {
        match spec_compile_expr(stmts, st, cs[from], None, false, true, depth) {
            CompileStep::Done(st2, id) => spec_compile_members(
                stmts,
                add_member(st2, sym, id),
                cs,
                from + 1,
                sym,
                depth,
            ),
            fail => fail,
        }
    }
}

/// The outcome of the registration pass: the filled registry and the last
/// root-flagged statement, or a malformed statement.
pub ghost enum RegStep {
    Done(Seq<SpecEntry>, Option<(int, bool, bool)>),
    Fail,
}

/// Registering every statement from index `from` on: each declared name,
/// its position and flags, with the last `root`-flagged statement noted.
pub open spec fn spec_register(
    cs: Seq<SpecNode>,
    from: int,
    reg: Seq<SpecEntry>,
    rf: Option<(int, bool, bool)>,
) -> RegStep
    decreases (if from < cs.len() { cs.len() - from } else { 0 }),
{
    if from < 0 || from >= cs.len() {
        RegStep::Done(reg, rf)
    } else {
        let stmt = cs[from];
        if !stmt_ok(stmt) {
            RegStep::Fail
        } else {
            let c = stmt.data->Children_0;
            let fs = spec_flag_nodes(c);
            let raw = c.len() != 2 && exists|i: int|
                0 <= i < fs.len() && (#[trigger] fs[i]).data == SpecNodeData::Raw("raw"@);
            let ignore = c.len() != 2 && exists|i: int|
                0 <= i < fs.len() && (#[trigger] fs[i]).data == SpecNodeData::Raw("ignore"@);
            let root = c.len() != 2 && exists|i: int|
                0 <= i < fs.len() && (#[trigger] fs[i]).data == SpecNodeData::Raw("root"@);
            let rf2 = if root {
                Some((from, raw, ignore))
            } else {
                rf
            };
            let e = SpecEntry {
                name: c[0].data->Raw_0,
                stmt_idx: from,
                raw,
                ignore,
                built: None,
            };
            spec_register(cs, from + 1, spec_upsert(reg, e), rf2)
        }
    }
}

/// The abstract value of the root-statement note kept while registering.
pub open spec fn rf_view(rf: Option<(usize, bool, bool)>) -> Option<(int, bool, bool)> {
    match rf {
        Some(f) => Some((f.0 as int, f.1, f.2)),
        None => None,
    }
}

/// The outcome of compiling a whole grammar tree.
pub ghost enum SpecBuildOutcome {
    Built(crate::parse::SpecParser),
    Failed(SpecBuildError),
}

/// The grammar a whole tree compiles to, from a fresh compiler: names are
/// registered first, the last root-flagged statement is compiled, and the
/// result must designate a rule that builds a node.
pub open spec fn spec_build(root: SpecNode) -> SpecBuildOutcome {
    if root.name != "ROOT"@ {
        SpecBuildOutcome::Failed(SpecBuildError::MalformedTree)
    } else if !(root.data is Children) {
        SpecBuildOutcome::Failed(SpecBuildError::MalformedTree)
    } else {
        let cs = root.data->Children_0;
        match spec_register(cs, 0, Seq::empty(), None) {
            RegStep::Fail => SpecBuildOutcome::Failed(SpecBuildError::MalformedTree),
            RegStep::Done(reg, None) => SpecBuildOutcome::Failed(SpecBuildError::MissingRoot),
            RegStep::Done(reg, Some((idx, raw, ignore))) => {
                let st0 = CompileState { registry: reg, symbols: Seq::empty() };
                match spec_compile_statement(cs, st0, idx, raw, ignore, BUILD_DEPTH_LIMIT as nat) {
                    CompileStep::Fail(e) => SpecBuildOutcome::Failed(e),
                    CompileStep::Done(st, rid) => if st.symbols[rid].ignore {
                        SpecBuildOutcome::Failed(SpecBuildError::RootIgnored)
                    } else {
                        SpecBuildOutcome::Built(
                            crate::parse::SpecParser { symbols: st.symbols, root: Some(rid) },
                        )
                    },
                }
            },
        }
    }
}

/// One declared rule name: where its statement stands in the grammar tree,
/// its flags, and — once known — the arena entry it compiled to.
struct StmtEntry {
    name: String,
    stmt_idx: usize,
    raw: bool,
    ignore: bool,
    built: Option<SymbolIdent>,
}

impl View for StmtEntry {
    type V = SpecEntry;

    closed spec fn view(&self) -> SpecEntry {
        SpecEntry {
            name: self.name@,
            stmt_idx: self.stmt_idx as int,
            raw: self.raw,
            ignore: self.ignore,
            built: match self.built {
                Some(id) => Some(id.0 as int),
                None => None,
            },
        }
    }
}

/// The compiler's working state: the name registry and the arena being
/// filled.
pub struct ParserBuilder {
    stmt_registry: Vec<StmtEntry>,
    parser: Parser,
}

/// The payload of a node as its exec representation; `Ok` exactly when the
/// node has children rather than raw text.
fn node_children(node: &Node) -> (r: Result<&Vec<Node>, BuildError>)
    ensures
        r matches Ok(c) ==> node.data == NodeData::Children(*c),
        r is Ok <==> node.data is Children,
        r matches Err(e) ==> e is MalformedTree,
{
    match &node.data {
        NodeData::Children(c) => Ok(c),
        NodeData::Raw(_) => Err(BuildError::MalformedTree),
    }
}

/// The raw text of a node; `Ok` exactly when the node is a raw capture.
fn node_raw(node: &Node) -> (r: Result<&String, BuildError>)
    ensures
        r matches Ok(s) ==> node.data == NodeData::Raw(*s),
        r is Ok <==> node.data is Raw,
        r matches Err(e) ==> e is MalformedTree,
{
    match &node.data {
        NodeData::Children(_) => Err(BuildError::MalformedTree),
        NodeData::Raw(s) => Ok(s),
    }
}

/// Whether the node was produced by a rule of the given display name.
fn is_named(node: &Node, name: &str) -> (r: bool)
    ensures
        r == (node.deep().name == name@),
{
    node.node_type == String::from_str(name)
}

/// The flags of one statement: whether `raw`, `ignore` and `root` occur in
/// its flag list.  A statement without a flag list has none.
fn stmt_flags(stmt_children: &Vec<Node>) -> (r: Result<(bool, bool, bool), BuildError>)
    requires
        stmt_children@.len() != 2,
        stmt_children@.len() >= 2,
    ensures
        r is Ok <==> flags_readable(nodes_deep(stmt_children@)),
        r matches Err(e) ==> e is MalformedTree,
        r matches Ok(f) ==> {
            let fs = spec_flag_nodes(nodes_deep(stmt_children@));
            &&& f.0 == exists|i: int|
                0 <= i < fs.len() && (#[trigger] fs[i]).data == SpecNodeData::Raw("raw"@)
            &&& f.1 == exists|i: int|
                0 <= i < fs.len() && (#[trigger] fs[i]).data == SpecNodeData::Raw("ignore"@)
            &&& f.2 == exists|i: int|
                0 <= i < fs.len() && (#[trigger] fs[i]).data == SpecNodeData::Raw("root"@)
        },
{
    let ghost cs = nodes_deep(stmt_children@);
    let info_node = &stmt_children[1];
    proof {
        assert(cs[1] == stmt_children@[1].deep());
        lemma_deep_data(info_node);
    }
    if !is_named(info_node, "STMT_INFO") {
        return Err(BuildError::MalformedTree);
    }
    let flags = match node_children(info_node) {
        Ok(c) => c,
        Err(e) => {
            proof {
                assert(!flags_readable(cs));
            }
            return Err(e);
        },
    };
    let ghost fs = spec_flag_nodes(cs);
    proof {
        assert(fs =~= nodes_deep(flags@));
    }
    let mut raw = false;
    let mut ignore = false;
    let mut root = false;
    let mut i: usize = 0;
    while i < flags.len()
        invariant
            i <= flags@.len(),
            cs == nodes_deep(stmt_children@),
            stmt_children@.len() != 2,
            stmt_children@.len() >= 2,
            fs == spec_flag_nodes(cs),
            fs == nodes_deep(flags@),
            forall|j: int| 0 <= j < i ==> (#[trigger] fs[j]).data is Raw,
            raw == exists|j: int|
                0 <= j < i && (#[trigger] fs[j]).data == SpecNodeData::Raw("raw"@),
            ignore == exists|j: int|
                0 <= j < i && (#[trigger] fs[j]).data == SpecNodeData::Raw("ignore"@),
            root == exists|j: int|
                0 <= j < i && (#[trigger] fs[j]).data == SpecNodeData::Raw("root"@),
        decreases flags@.len() - i,
    {
        proof {
            assert(fs[i as int] == flags@[i as int].deep());
            lemma_deep_data(&flags@[i as int]);
        }
        let flag = match node_raw(&flags[i]) {
            Ok(s) => s,
            Err(e) => {
                proof {
                    assert(cs.len() == stmt_children@.len());
                    assert(spec_flag_nodes(cs) == nodes_deep(flags@));
                    assert(fs[i as int].data is Children);
                    assert(cs[1].data->Children_0[i as int].data is Children);
                    assert(!flags_readable(cs));
                }
                return Err(e);
            },
        };
        proof {
            assert(fs[i as int].data == SpecNodeData::Raw(flag@));
        }
        if *flag == String::from_str("raw") {
            raw = true;
        }
        if *flag == String::from_str("ignore") {
            ignore = true;
        }
        if *flag == String::from_str("root") {
            root = true;
        }
        i += 1;
    }
    proof {
        assert(flags_readable(cs));
    }
    Ok((raw, ignore, root))
}

impl ParserBuilder {
    /// The compiler's abstract state.
    pub closed spec fn st(&self) -> CompileState {
        CompileState {
            registry: self.stmt_registry@.map_values(|e: StmtEntry| e@),
            symbols: self.parser@.symbols,
        }
    }

    /// A compiler that has seen nothing yet: empty registry, empty arena,
    /// no root designated.
    pub closed spec fn fresh(&self) -> bool {
        &&& self.stmt_registry@.len() == 0
        &&& self.parser@.symbols.len() == 0
        &&& self.parser@.root is None
    }

    /// Every arena entry the registry refers to exists, and every statement
    /// index points into the statement list.
    pub closed spec fn wf(&self, n_stmts: int) -> bool {
        &&& self.parser.wf()
        &&& self.parser@.root is None
        &&& forall|i: int|
            0 <= i < self.stmt_registry@.len() ==> ((#[trigger] self.stmt_registry@[i]).built
                matches Some(id) ==> id.0 < self.parser@.symbols.len())
        &&& forall|i: int|
            0 <= i < self.stmt_registry@.len() ==> (#[trigger] self.stmt_registry@[i]).stmt_idx
                < n_stmts
    }

    pub fn new() -> (r: Self)
        ensures
            r.wf(0),
            r.fresh(),
    {
        ParserBuilder { stmt_registry: Vec::new(), parser: Parser::new() }
    }

    /// The registry slot of a name, if the name is declared.
    fn find_entry(&self, name: &String) -> (r: Option<usize>)
        ensures
            r matches Some(i) ==> i < self.stmt_registry@.len(),
            match spec_find(self.st().registry, name@, 0) {
                Some(i) => r matches Some(j) && j == i,
                None => r is None,
            },
    {
        let ghost reg = self.st().registry;
        let mut i: usize = 0;
        while i < self.stmt_registry.len()
            invariant
                i <= self.stmt_registry@.len(),
                reg == self.st().registry,
                reg.len() == self.stmt_registry@.len(),
                spec_find(reg, name@, 0) == spec_find(reg, name@, i as int),
            decreases self.stmt_registry@.len() - i,
        {
            proof {
                assert(reg[i as int] == self.stmt_registry@[i as int]@);
            }
            if self.stmt_registry[i].name == *name {
                return Some(i);
            }
            i += 1;
        }
        None
    }

    /// Registers a declared name, replacing any earlier declaration of the
    /// same name.
    fn register(&mut self, entry: StmtEntry, Ghost(n_stmts): Ghost<int>)
        requires
            old(self).wf(n_stmts),
            entry.built matches Some(id) ==> id.0 < old(self).parser@.symbols.len(),
            entry.stmt_idx < n_stmts,
        ensures
            final(self).wf(n_stmts),
            final(self).parser == old(self).parser,
            final(self).st().registry == spec_upsert(old(self).st().registry, entry@),
    {
        let ghost reg = self.st().registry;
        let slot = self.find_entry(&entry.name);
        match slot {
            Some(i) => {
                let ghost j = i as int;
                let e = &mut self.stmt_registry[i];
                *e = entry;
                proof {
                    assert(self.st().registry =~= reg.update(j, entry@));
                }
            },
            None => {
                self.stmt_registry.push(entry);
                proof {
                    assert(self.st().registry =~= reg.push(entry@));
                }
            },
        }
    }

    /// Marks a declared name as compiled to the given arena entry.
    fn mark_built(&mut self, name: &String, id: SymbolIdent, Ghost(n_stmts): Ghost<int>)
        requires
            old(self).wf(n_stmts),
            1 <= n_stmts,
            id.0 < old(self).parser@.symbols.len(),
        ensures
            final(self).wf(n_stmts),
            final(self).parser == old(self).parser,
            final(self).st().registry == spec_mark(old(self).st().registry, name@, id.0 as int),
    {
        let ghost reg = self.st().registry;
        let slot = self.find_entry(name);
        match slot {
            Some(i) => {
                let ghost j = i as int;
                let e = &mut self.stmt_registry[i];
                let built = StmtEntry {
                    name: name.clone(),
                    stmt_idx: e.stmt_idx,
                    raw: e.raw,
                    ignore: e.ignore,
                    built: Some(id),
                };
                *e = built;
                proof {
                    lemma_spec_find(reg, name@, 0);
                    assert(reg[j].name == name@);
                    assert(self.st().registry =~= spec_mark(reg, name@, id.0 as int));
                }
            },
            None => {
                self.stmt_registry.push(
                    StmtEntry {
                        name: name.clone(),
                        stmt_idx: 0,
                        raw: false,
                        ignore: false,
                        built: Some(id),
                    },
                );
                proof {
                    assert(self.st().registry =~= spec_mark(reg, name@, id.0 as int));
                }
            },
        }
    }
}

/// The compiler's recursion budget: consumed only when one rule's build
/// jumps to another rule through a name, so only a rule reachable solely
/// through itself can exhaust it.
pub const BUILD_DEPTH_LIMIT: u64 = u64::MAX;

/// Arena growth never turns a sequence or alternation entry into another
/// shape, so a placeholder registered for a named rule can keep receiving
/// members.
pub open spec fn ctor_preserved(a: Seq<crate::symbol::SpecSymbol>, b: Seq<crate::symbol::SpecSymbol>) -> bool {
    &&& a.len() <= b.len()
    &&& forall|j: int|
        0 <= j < a.len() ==> (((#[trigger] a[j]).shape is Sequence ==> b[j].shape is Sequence) && (
        a[j].shape is OneOf ==> b[j].shape is OneOf))
}

impl ParserBuilder {
    /// Compiles the statement at `stmt_idx` of the statement list, under
    /// the given flags.
    fn build_statement(
        &mut self,
        stmts: &Vec<Node>,
        stmt_idx: usize,
        raw: bool,
        ignore: bool,
        depth: u64,
    ) -> (r: Result<SymbolIdent, BuildError>)
        requires
            old(self).wf(stmts@.len() as int),
            stmt_idx < stmts@.len(),
        ensures
            final(self).wf(stmts@.len() as int),
            ctor_preserved(old(self).parser@.symbols, final(self).parser@.symbols),
            r matches Ok(id) ==> id.0 < final(self).parser@.symbols.len(),
            !(r == Err::<SymbolIdent, BuildError>(BuildError::MissingRoot)),
            match spec_compile_statement(
                nodes_deep(stmts@),
                old(self).st(),
                stmt_idx as int,
                raw,
                ignore,
                depth as nat,
            ) {
                CompileStep::Done(st2, id) => r matches Ok(rid) && rid.0 == id && final(self).st()
                    == st2,
                CompileStep::Fail(e) => r matches Err(err) && err@ == e,
            },
        decreases depth, stmts@[stmt_idx as int], 2int,
    {
        let ghost sd = nodes_deep(stmts@);
        if depth == 0 {
            return Err(BuildError::DepthExceeded);
        }
        let stmt = &stmts[stmt_idx];
        proof {
            assert(sd[stmt_idx as int] == stmts@[stmt_idx as int].deep());
            lemma_deep_data(stmt);
        }
        if !is_named(stmt, "STATEMENT") {
            return Err(BuildError::MalformedTree);
        }
        let children = match node_children(stmt) {
            Ok(c) => c,
            Err(e) => {
                return Err(e);
            },
        };
        proof {
            assert(sd[stmt_idx as int].data->Children_0 == nodes_deep(children@));
        }
        if children.len() < 2 {
            return Err(BuildError::MalformedTree);
        }
        proof {
            assert(nodes_deep(children@)[0] == children@[0].deep());
            lemma_deep_data(&children@[0]);
        }
        let identifier = match node_raw(&children[0]) {
            Ok(s) => s,
            Err(e) => {
                return Err(e);
            },
        };
        let expr = if children.len() == 2 {
            &children[1]
        } else {
            &children[2]
        };
        proof {
            if children@.len() == 2 {
                assert(nodes_deep(children@)[1] == children@[1].deep());
            } else {
                assert(nodes_deep(children@)[2] == children@[2].deep());
            }
        }
        let name = identifier.clone();
        let built = self.build_expr(stmts, expr, Some(&name), raw, ignore, depth);
        match built {
            Ok(id) => {
                self.mark_built(&name, id, Ghost(stmts@.len() as int));
                Ok(id)
            },
            Err(e) => Err(e),
        }
    }

    /// Compiles one expression node into an arena entry.
    fn build_expr(
        &mut self,
        stmts: &Vec<Node>,
        node: &Node,
        name: Option<&String>,
        raw: bool,
        ignore: bool,
        depth: u64,
    ) -> (r: Result<SymbolIdent, BuildError>)
        requires
            old(self).wf(stmts@.len() as int),
            1 <= depth,
        ensures
            final(self).wf(stmts@.len() as int),
            ctor_preserved(old(self).parser@.symbols, final(self).parser@.symbols),
            r matches Ok(id) ==> id.0 < final(self).parser@.symbols.len(),
            !(r == Err::<SymbolIdent, BuildError>(BuildError::MissingRoot)),
            match spec_compile_expr(
                nodes_deep(stmts@),
                old(self).st(),
                node.deep(),
                opt_name(name),
                raw,
                ignore,
                depth as nat,
            ) {
                CompileStep::Done(st2, id) => r matches Ok(rid) && rid.0 == id && final(self).st()
                    == st2,
                CompileStep::Fail(e) => r matches Err(err) && err@ == e,
            },
        decreases depth, *node, 1int,
    {
        let ghost st0 = self.st();
        proof {
            lemma_deep_data(node);
        }
        if is_named(node, "SEQUENCE") {
            self.build_collection(stmts, node, name, raw, ignore, depth, false)
        } else if is_named(node, "ONE_OF") {
            self.build_collection(stmts, node, name, raw, ignore, depth, true)
        } else if is_named(node, "TERMINAL") {
            let value = match node_raw(node) {
                Ok(s) => s,
                Err(e) => {
                    return Err(e);
                },
            };
            if value.as_str().unicode_len() < 2 {
                return Err(BuildError::MalformedTree);
            }
            let c = value.as_str().get_char(1);
            match name {
                Some(n) => {
                    let id = self.parser.terminal(c, SymbolProperties::new(n.as_str(), true, false));
                    proof {
                        assert(self.st() == push_sym(
                            st0,
                            named_sym(SpecShape::Terminal(c), n@, true, false),
                        ));
                    }
                    Ok(id)
                },
                None => {
                    let id = self.parser.terminal(c, None);
                    proof {
                        assert(self.st() == push_sym(st0, anon_sym(SpecShape::Terminal(c))));
                    }
                    Ok(id)
                },
            }
        } else if is_named(node, "IDENTIFIER") {
            let value = match node_raw(node) {
                Ok(s) => s,
                Err(e) => {
                    return Err(e);
                },
            };
            let slot = self.find_entry(value);
            match slot {
                Some(i) => {
                    proof {
                        assert(self.st().registry[i as int] == self.stmt_registry@[i as int]@);
                    }
                    let built = self.stmt_registry[i].built;
                    match built {
                        Some(id) => Ok(id),
                        None => {
                            let idx = self.stmt_registry[i].stmt_idx;
                            let entry_raw = self.stmt_registry[i].raw;
                            let entry_ignore = self.stmt_registry[i].ignore;
                            self.build_statement(stmts, idx, entry_raw, entry_ignore, depth - 1)
                        },
                    }
                },
                None => Err(BuildError::UndeclaredIdentifier(value.clone())),
            }
        } else if is_named(node, "OPTIONAL") {
            let id = match self.build_only_child(stmts, node, depth) {
                Ok(id) => id,
                Err(e) => {
                    return Err(e);
                },
            };
            let ghost st2 = self.st();
            match name {
                Some(n) => {
                    let rid = self.parser.optional(&id, SymbolProperties::new(n.as_str(), raw, ignore));
                    proof {
                        assert(self.st() == push_sym(
                            st2,
                            named_sym(SpecShape::Optional(id.0 as int), n@, raw, ignore),
                        ));
                    }
                    Ok(rid)
                },
                None => {
                    let rid = self.parser.optional(&id, None);
                    proof {
                        assert(self.st() == push_sym(st2, anon_sym(SpecShape::Optional(id.0 as int))));
                    }
                    Ok(rid)
                },
            }
        } else if is_named(node, "MANY") {
            let id = match self.build_only_child(stmts, node, depth) {
                Ok(id) => id,
                Err(e) => {
                    return Err(e);
                },
            };
            let ghost st2 = self.st();
            match name {
                Some(n) => {
                    let rid = self.parser.zero_or_more(&id, SymbolProperties::new(n.as_str(), raw, ignore));
                    proof {
                        assert(self.st() == push_sym(
                            st2,
                            named_sym(SpecShape::ZeroOrMore(id.0 as int), n@, raw, ignore),
                        ));
                    }
                    Ok(rid)
                },
                None => {
                    let rid = self.parser.zero_or_more(&id, None);
                    proof {
                        assert(self.st() == push_sym(st2, anon_sym(SpecShape::ZeroOrMore(id.0 as int))));
                    }
                    Ok(rid)
                },
            }
        } else if is_named(node, "ANY") {
            let excluded = ['"', '\\'];
            proof {
                assert(excluded@ =~= seq!['"', '\\']);
            }
            match name {
                Some(n) => {
                    let rid = self.parser.any_except(&excluded, SymbolProperties::new(n.as_str(), raw, ignore));
                    proof {
                        assert(self.st() == push_sym(
                            st0,
                            named_sym(SpecShape::AnyExcept(seq!['"', '\\']), n@, raw, ignore),
                        ));
                    }
                    Ok(rid)
                },
                None => {
                    let rid = self.parser.any_except(&excluded, None);
                    proof {
                        assert(self.st() == push_sym(st0, anon_sym(SpecShape::AnyExcept(seq!['"', '\\']))));
                    }
                    Ok(rid)
                },
            }
        } else if is_named(node, "WHITESPACE_ID") {
            let possible_chars = self.parser.one_of_chars(
                " \n\r\t",
                SymbolProperties::new("WHITESPACE_CHAR", false, true),
            );
            let rid = self.parser.zero_or_more(
                &possible_chars,
                SymbolProperties::new("WHITESPACE", false, true),
            );
            proof {
                reveal_strlit(" \n\r\t");
                let b = st0.symbols.len() as int;
                assert(" \n\r\t"@.len() == 4);
                assert(Seq::new(" \n\r\t"@.len(), |i: int| b + i) =~= seq![b, b + 1, b + 2, b + 3]);
                assert(self.st().registry == st0.registry);
                assert(self.st().symbols =~~= st0.symbols.push(
                    anon_sym(SpecShape::Terminal(" \n\r\t"@[0])),
                ).push(anon_sym(SpecShape::Terminal(" \n\r\t"@[1]))).push(
                    anon_sym(SpecShape::Terminal(" \n\r\t"@[2])),
                ).push(anon_sym(SpecShape::Terminal(" \n\r\t"@[3]))).push(
                    named_sym(
                        SpecShape::OneOf(seq![b, b + 1, b + 2, b + 3]),
                        "WHITESPACE_CHAR"@,
                        false,
                        true,
                    ),
                ).push(named_sym(SpecShape::ZeroOrMore(b + 4), "WHITESPACE"@, false, true)));
            }
            Ok(rid)
        } else {
            Err(BuildError::MalformedTree)
        }
    }

    /// Compiles the single child of an optional or repetition bracket.
    fn build_only_child(&mut self, stmts: &Vec<Node>, node: &Node, depth: u64) -> (r: Result<
        SymbolIdent,
        BuildError,
    >)
        requires
            old(self).wf(stmts@.len() as int),
            1 <= depth,
        ensures
            final(self).wf(stmts@.len() as int),
            ctor_preserved(old(self).parser@.symbols, final(self).parser@.symbols),
            r matches Ok(id) ==> id.0 < final(self).parser@.symbols.len(),
            !(r == Err::<SymbolIdent, BuildError>(BuildError::MissingRoot)),
            match spec_compile_only_child(
                nodes_deep(stmts@),
                old(self).st(),
                node.deep(),
                depth as nat,
            ) {
                CompileStep::Done(st2, id) => r matches Ok(rid) && rid.0 == id && final(self).st()
                    == st2,
                CompileStep::Fail(e) => r matches Err(err) && err@ == e,
            },
        decreases depth, *node, 0int,
    {
        proof {
            lemma_deep_data(node);
        }
        let children = match node_children(node) {
            Ok(c) => c,
            Err(e) => {
                return Err(e);
            },
        };
        proof {
            assert(node.deep().data->Children_0 == nodes_deep(children@));
        }
        if children.len() != 1 {
            return Err(BuildError::MalformedTree);
        }
        let child = &children[0];
        proof {
            assert(nodes_deep(children@)[0] == children@[0].deep());
        }
        proof {
            assert(decreases_to!(*node => node.data));
            assert(decreases_to!(node.data => node.data->Children_0));
            assert(node.data->Children_0 == *children);
            assert(decreases_to!(*children => children@));
            assert(decreases_to!(children@ => children@[0]));
            assert(decreases_to!(*node => *child));
        }
        self.build_expr(stmts, child, None, false, true, depth)
    }

    /// Compiles a sequence or alternation node: its arena entry is created
    /// empty — and, when named, registered at once, so that members that
    /// refer back to the name reuse the entry instead of recursing into it —
    /// and the members are then compiled and appended one by one.
    fn build_collection(
        &mut self,
        stmts: &Vec<Node>,
        node: &Node,
        name: Option<&String>,
        raw: bool,
        ignore: bool,
        depth: u64,
        alternation: bool,
    ) -> (r: Result<SymbolIdent, BuildError>)
        requires
            old(self).wf(stmts@.len() as int),
            1 <= depth,
        ensures
            final(self).wf(stmts@.len() as int),
            ctor_preserved(old(self).parser@.symbols, final(self).parser@.symbols),
            r matches Ok(id) ==> id.0 < final(self).parser@.symbols.len(),
            !(r == Err::<SymbolIdent, BuildError>(BuildError::MissingRoot)),
            match spec_compile_collection(
                nodes_deep(stmts@),
                old(self).st(),
                node.deep(),
                opt_name(name),
                raw,
                ignore,
                depth as nat,
                alternation,
            ) {
                CompileStep::Done(st2, id) => r matches Ok(rid) && rid.0 == id && final(self).st()
                    == st2,
                CompileStep::Fail(e) => r matches Err(err) && err@ == e,
            },
        decreases depth, *node, 0int,
    {
        let ghost sd = nodes_deep(stmts@);
        let ghost st0 = self.st();
        proof {
            lemma_deep_data(node);
        }
        let children = match node_children(node) {
            Ok(c) => c,
            Err(e) => {
                return Err(e);
            },
        };
        let ghost cd = nodes_deep(children@);
        proof {
            assert(node.deep().data->Children_0 == cd);
        }
        let symbol = match name {
            Some(n) => {
                let sid = if alternation {
                    let sid = self.parser.one_of(vec![], SymbolProperties::new(n.as_str(), raw, ignore));
                    proof {
                        assert(Seq::<&SymbolIdent>::empty().map_values(|m: &SymbolIdent| m.0 as int)
                            =~= Seq::<int>::empty());
                        assert(self.st() == push_sym(
                            st0,
                            named_sym(SpecShape::OneOf(Seq::empty()), n@, raw, ignore),
                        ));
                    }
                    sid
                } else {
                    let sid = self.parser.sequence(vec![], SymbolProperties::new(n.as_str(), raw, ignore));
                    proof {
                        assert(Seq::<&SymbolIdent>::empty().map_values(|m: &SymbolIdent| m.0 as int)
                            =~= Seq::<int>::empty());
                        assert(self.st() == push_sym(
                            st0,
                            named_sym(SpecShape::Sequence(Seq::empty()), n@, raw, ignore),
                        ));
                    }
                    sid
                };
                if stmts.len() > 0 {
                    self.mark_built(n, sid, Ghost(stmts@.len() as int));
                }
                sid
            },
            None => {
                if alternation {
                    let sid = self.parser.one_of(vec![], None);
                    proof {
                        assert(Seq::<&SymbolIdent>::empty().map_values(|m: &SymbolIdent| m.0 as int)
                            =~= Seq::<int>::empty());
                        assert(self.st() == push_sym(st0, anon_sym(SpecShape::OneOf(Seq::empty()))));
                    }
                    sid
                } else {
                    let sid = self.parser.sequence(vec![], None);
                    proof {
                        assert(Seq::<&SymbolIdent>::empty().map_values(|m: &SymbolIdent| m.0 as int)
                            =~= Seq::<int>::empty());
                        assert(self.st() == push_sym(st0, anon_sym(SpecShape::Sequence(Seq::empty()))));
                    }
                    sid
                }
            },
        };
        let ghost symi = symbol.0 as int;
        let ghost st_start = self.st();
        proof {
            assert(spec_compile_collection(sd, st0, node.deep(), opt_name(name), raw, ignore, depth as nat, alternation)
                == spec_compile_members(sd, st_start, cd, 0, symi, depth as nat));
        }
        let ghost at_create = self.parser@.symbols;
        let mut i: usize = 0;
        while i < children.len()
            invariant
                i <= children@.len(),
                1 <= depth,
                self.wf(stmts@.len() as int),
                node.data == NodeData::Children(*children),
                sd == nodes_deep(stmts@),
                cd == nodes_deep(children@),
                symi == symbol.0 as int,
                ctor_preserved(at_create, self.parser@.symbols),
                ctor_preserved(old(self).parser@.symbols, self.parser@.symbols),
                symbol.0 < self.parser@.symbols.len(),
                at_create[symbol.0 as int].shape is Sequence <==> !alternation,
                at_create[symbol.0 as int].shape is OneOf <==> alternation,
                symbol.0 < at_create.len(),
                at_create == st_start.symbols,
                spec_compile_collection(
                    sd,
                    old(self).st(),
                    node.deep(),
                    opt_name(name),
                    raw,
                    ignore,
                    depth as nat,
                    alternation,
                ) == spec_compile_members(sd, st_start, cd, 0, symi, depth as nat),
                spec_compile_members(sd, st_start, cd, 0, symi, depth as nat)
                    == spec_compile_members(sd, self.st(), cd, i as int, symi, depth as nat),
            decreases children@.len() - i,
        {
            let child = &children[i];
            proof {
                assert(decreases_to!(*node => node.data));
                assert(decreases_to!(node.data => node.data->Children_0));
                assert(node.data->Children_0 == *children);
                assert(decreases_to!(*children => children@));
                assert(decreases_to!(children@ => children@[i as int]));
                assert(decreases_to!(*node => *child));
                assert(cd[i as int] == children@[i as int].deep());
            }
            let ghost st_pre = self.st();
            let id = match self.build_expr(stmts, child, None, false, true, depth) {
                Ok(id) => id,
                Err(e) => {
                    return Err(e);
                },
            };
            let ghost st_mid = self.st();
            self.parser.add_ident(&symbol, &id);
            proof {
                assert(self.st().symbols =~= add_member(st_mid, symi, id.0 as int).symbols);
                assert(self.st() == add_member(st_mid, symi, id.0 as int));
            }
            i += 1;
        }
        Ok(symbol)
    }
}

impl ParserBuilder {
    /// Compiles a whole grammar tree — the root node the bootstrap grammar
    /// produced for a grammar text — into a runnable grammar.  Every
    /// declared name is registered before any rule is built, so statements
    /// may refer to each other in any order.  The outcome — the exact arena
    /// emitted on success, or the defect found — is the one [`spec_build`]
    /// assigns to the tree.  Success yields a well-formed grammar whose
    /// designated root rule builds a node; a well-shaped grammar tree none
    /// of whose statements carries the `root` flag is rejected with
    /// [`BuildError::MissingRoot`], and `MissingRoot` comes back only when
    /// no statement carries that flag.
    pub fn build(self, root_node: &Node) -> (r: Result<Parser, BuildError>)
        requires
            self.wf(0),
            self.fresh(),
        ensures
            r matches Ok(p) ==> p.wf() && p@.root_ok() && !p@.symbols[p@.root->0].ignore,
            match spec_build(root_node.deep()) {
                SpecBuildOutcome::Built(sp) => r matches Ok(p) && p@ == sp,
                SpecBuildOutcome::Failed(e) => r matches Err(err) && err@ == e,
            },
            ({
                let rd = root_node.deep();
                &&& rd.name == "ROOT"@
                &&& rd.data is Children
                &&& (forall|j: int|
                    0 <= j < rd.data->Children_0.len() ==> stmt_ok(
                        #[trigger] rd.data->Children_0[j],
                    ))
                &&& (forall|j: int|
                    0 <= j < rd.data->Children_0.len() ==> !stmt_has_flag(
                        #[trigger] rd.data->Children_0[j],
                        "root"@,
                    ))
            }) ==> r == Err::<Parser, BuildError>(BuildError::MissingRoot),
            r == Err::<Parser, BuildError>(BuildError::MissingRoot) ==> (forall|j: int|
                0 <= j < root_node.deep().data->Children_0.len() ==> !stmt_has_flag(
                    #[trigger] root_node.deep().data->Children_0[j],
                    "root"@,
                )),
    {
        let mut this = self;
        let ghost rd = root_node.deep();
        proof {
            lemma_deep_data(root_node);
        }
        if !is_named(root_node, "ROOT") {
            return Err(BuildError::MalformedTree);
        }
        let stmts = match node_children(root_node) {
            Ok(c) => c,
            Err(e) => {
                return Err(e);
            },
        };
        let ghost cs = nodes_deep(stmts@);
        proof {
            assert(rd.data->Children_0 == cs);
        }
        let ghost n = stmts@.len() as int;
        proof {
            assert(this.st().registry =~= Seq::<SpecEntry>::empty());
        }
        let mut root_found: Option<(usize, bool, bool)> = None;
        let mut i: usize = 0;
        while i < stmts.len()
            invariant
                i <= stmts@.len(),
                n == stmts@.len() as int,
                cs == nodes_deep(stmts@),
                rd == root_node.deep(),
                rd.data->Children_0 == cs,
                this.wf(n),
                this.st().symbols.len() == 0,
                root_found matches Some(f) ==> f.0 < stmts@.len(),
                root_found is None <==> (forall|j: int|
                    0 <= j < i ==> !stmt_has_flag(#[trigger] cs[j], "root"@)),
                spec_register(cs, 0, Seq::empty(), None) == spec_register(
                    cs,
                    i as int,
                    this.st().registry,
                    rf_view(root_found),
                ),
            decreases stmts@.len() - i,
        {
            let stmt = &stmts[i];
            proof {
                assert(cs[i as int] == stmts@[i as int].deep());
                lemma_deep_data(stmt);
            }
            if !is_named(stmt, "STATEMENT") {
                proof {
                    assert(!stmt_ok(cs[i as int]));
                }
                return Err(BuildError::MalformedTree);
            }
            let children = match node_children(stmt) {
                Ok(c) => c,
                Err(e) => {
                    proof {
                        assert(!stmt_ok(cs[i as int]));
                    }
                    return Err(e);
                },
            };
            proof {
                assert(cs[i as int].data->Children_0 == nodes_deep(children@));
            }
            if children.len() < 2 {
                proof {
                    assert(!stmt_ok(cs[i as int]));
                }
                return Err(BuildError::MalformedTree);
            }
            proof {
                assert(nodes_deep(children@)[0] == children@[0].deep());
                lemma_deep_data(&children@[0]);
            }
            let identifier = match node_raw(&children[0]) {
                Ok(s) => s,
                Err(e) => {
                    proof {
                        assert(cs[i as int].data->Children_0[0].data is Children);
                        assert(!stmt_ok(cs[i as int]));
                    }
                    return Err(e);
                },
            };
            let (raw, ignore, root) = if children.len() == 2 {
                (false, false, false)
            } else {
                match stmt_flags(children) {
                    Ok(f) => f,
                    Err(e) => {
                        proof {
                            assert(!flags_readable(cs[i as int].data->Children_0));
                            assert(!stmt_ok(cs[i as int]));
                        }
                        return Err(e);
                    },
                }
            };
            proof {
                assert(spec_flag_nodes(cs[i as int].data->Children_0) == spec_flag_nodes(
                    nodes_deep(children@),
                ));
                assert(root == stmt_has_flag(cs[i as int], "root"@));
                assert(stmt_ok(cs[i as int]));
            }
            let ghost reg_pre = this.st().registry;
            let ghost rf_pre = rf_view(root_found);
            if root {
                root_found = Some((i, raw, ignore));
            }
            this.register(
                StmtEntry { name: identifier.clone(), stmt_idx: i, raw, ignore, built: None },
                Ghost(n),
            );
            proof {
                assert(identifier@ == cs[i as int].data->Children_0[0].data->Raw_0);
                assert(spec_register(cs, i as int, reg_pre, rf_pre) == spec_register(
                    cs,
                    i + 1,
                    this.st().registry,
                    rf_view(root_found),
                ));
            }
            i += 1;
        }
        proof {
            assert(spec_register(cs, stmts@.len() as int, this.st().registry, rf_view(root_found))
                == RegStep::Done(this.st().registry, rf_view(root_found)));
        }
        match root_found {
            Some((root_idx, raw, ignore)) => {
                proof {
                    assert(!(forall|j: int|
                        0 <= j < cs.len() ==> !stmt_has_flag(#[trigger] cs[j], "root"@)));
                    assert(this.st().symbols =~= Seq::<SpecSymbol>::empty());
                    assert(this.st() == (CompileState {
                        registry: this.st().registry,
                        symbols: Seq::empty(),
                    }));
                }
                let root_ident = match this.build_statement(
                    stmts,
                    root_idx,
                    raw,
                    ignore,
                    BUILD_DEPTH_LIMIT,
                ) {
                    Ok(id) => id,
                    Err(e) => {
                        return Err(e);
                    },
                };
                let ghost stf = this.st();
                let mut parser = this.parser;
                if parser.get_symbol(&root_ident).properties.ignore {
                    return Err(BuildError::RootIgnored);
                }
                parser.root_node(&root_ident);
                proof {
                    assert(parser@ == (crate::parse::SpecParser {
                        symbols: stf.symbols,
                        root: Some(root_ident.0 as int),
                    }));
                }
                Ok(parser)
            },
            None => Err(BuildError::MissingRoot),
        }
    }
}

} // verus!
