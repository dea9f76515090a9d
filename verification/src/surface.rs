//! The surface forms of selector definitions: bare strings, union and
//! intersection composites, method atoms with graph-relative flags, exclude
//! blocks, and named-selector definitions. The parser normalizes these into
//! the canonical expression model.

use vstd::prelude::*;

use crate::expr::IndirectSelection;

verus! {

/// One named selector definition of the registry.
#[derive(Debug)]
pub struct SelectorDefinition {
    pub name: String,
    pub description: Option<String>,
    pub default: Option<bool>,
    pub definition: SelectorDefinitionValue,
}

/// A surface definition: a bare specifier string, or a structured expression.
#[derive(Debug)]
pub enum SelectorDefinitionValue {
    String(String),
    Full(SelectorExpr),
}

/// A structured surface expression: a composite block or an atom.
#[derive(Debug)]
pub enum SelectorExpr {
    Composite(CompositeExpr),
    Atom(AtomExpr),
}

/// A composite block. Surface syntax allows several operator entries; only
/// the first is meaningful, and a block with none is a parse error.
#[derive(Debug)]
pub struct CompositeExpr {
    pub kind: Vec<CompositeKind>,
}

/// The operator of a composite block and its operand list.
#[derive(Debug)]
pub enum CompositeKind {
    Union(Vec<SelectorDefinitionValue>),
    Intersection(Vec<SelectorDefinitionValue>),
}

/// An atom: a structured method call, a single-entry method-to-value
/// shorthand, or a standalone exclude block.
#[derive(Debug)]
pub enum AtomExpr {
    Method(MethodAtomExpr),
    MethodKey(Vec<(String, String)>),
    Exclude(ExcludeAtomExpr),
}

/// A structured method call with graph-relative flags, an optional indirect
/// mode and an optional attached exclude list.
#[derive(Debug)]
pub struct MethodAtomExpr {
    pub method: String,
    pub value: String,
    pub childrens_parents: bool,
    pub parents: bool,
    pub children: bool,
    pub parents_depth: Option<u32>,
    pub children_depth: Option<u32>,
    pub indirect_selection: Option<IndirectSelection>,
    pub exclude: Option<Vec<SelectorDefinitionValue>>,
}

/// A standalone exclude block naming the sub-definitions to remove.
#[derive(Debug)]
pub struct ExcludeAtomExpr {
    pub exclude: Vec<SelectorDefinitionValue>,
}

impl MethodAtomExpr {
    /// Whether any graph-relative expansion is requested. On a
    /// named-selector reference these flags are ignored, since selector
    /// inheritance does not re-apply graph operators to an already-resolved
    /// expression; a caller may use this test to report the ignored flags.
    pub fn has_graph_operators(&self) -> (r: bool)
        ensures
            r == (self.childrens_parents || self.parents || self.children
                || self.parents_depth is Some || self.children_depth is Some),
    {
        self.childrens_parents || self.parents || self.children || self.parents_depth.is_some()
            || self.children_depth.is_some()
    }
}

/// Structural size of a surface definition, used as a termination measure by
/// the recursive definitions over surface trees.
pub open spec fn def_height(d: SelectorDefinitionValue) -> nat
    decreases d,
{
    match d {
        SelectorDefinitionValue::String(_) => 1,
        SelectorDefinitionValue::Full(e) => 1 + sexpr_height(e),
    }
}

pub open spec fn sexpr_height(e: SelectorExpr) -> nat
    decreases e,
{
    match e {
        SelectorExpr::Composite(c) => 1 + kinds_height(c.kind@),
        SelectorExpr::Atom(a) => 1 + atom_height(a),
    }
}

pub open spec fn kinds_height(ks: Seq<CompositeKind>) -> nat
    decreases ks,
{
    if ks.len() == 0 {
        0
    } else {
        1 + kind_height(ks.first()) + kinds_height(ks.drop_first())
    }
}

pub open spec fn kind_height(k: CompositeKind) -> nat
    decreases k,
{
    match k {
        CompositeKind::Union(vs) => 1 + defs_height(vs@),
        CompositeKind::Intersection(vs) => 1 + defs_height(vs@),
    }
}

pub open spec fn defs_height(ds: Seq<SelectorDefinitionValue>) -> nat
    decreases ds,
{
    if ds.len() == 0 {
        0
    } else {
        1 + def_height(ds.first()) + defs_height(ds.drop_first())
    }
}

pub open spec fn atom_height(a: AtomExpr) -> nat
    decreases a,
{
    match a {
        AtomExpr::Method(m) => 1 + method_atom_height(m),
        AtomExpr::MethodKey(_) => 1,
        AtomExpr::Exclude(x) => 2 + defs_height(x.exclude@),
    }
}

/// Structural size of a structured method call's attached exclude list.
pub open spec fn method_atom_height(m: MethodAtomExpr) -> nat
    decreases m,
{
    match m.exclude {
        Some(ds) => 1 + defs_height(ds@),
        None => 0,
    }
}

/// Every member of a definition list is structurally smaller than the list.
pub broadcast proof fn lemma_defs_height(ds: Seq<SelectorDefinitionValue>, i: int)
    requires
        0 <= i < ds.len(),
    ensures
        #[trigger] def_height(ds[i]) < defs_height(ds),
    decreases ds,
{
    if i > 0 {
        lemma_defs_height(ds.drop_first(), i - 1);
    }
}

/// The operand list of a composite's first operator entry is structurally
/// smaller than the composite's surface expression.
pub broadcast proof fn lemma_kinds_height(ks: Seq<CompositeKind>, i: int)
    requires
        0 <= i < ks.len(),
    ensures
        #[trigger] kind_height(ks[i]) < kinds_height(ks),
    decreases ks,
{
    if i > 0 {
        lemma_kinds_height(ks.drop_first(), i - 1);
    }
}

} // verus!
