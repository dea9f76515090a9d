//! The parser: normalizes surface selector definitions — bare strings,
//! union/intersection composites, standalone exclude blocks and
//! named-selector references — into the canonical expression model.

use vstd::prelude::*;
use vstd::string::StringExecFns;

use crate::expr::CriteriaV;
use crate::expr::ExprV;
use crate::expr::IndirectSelection;
use crate::expr::MethodName;
use crate::expr::SelectExpression;
use crate::expr::SelectionCriteria;
use crate::expr::view_expr;
use crate::surface::AtomExpr;
use crate::surface::CompositeExpr;
use crate::surface::CompositeKind;
use crate::surface::ExcludeAtomExpr;
use crate::surface::MethodAtomExpr;
use crate::surface::SelectorDefinition;
use crate::surface::SelectorDefinitionValue;
use crate::surface::SelectorExpr;
use crate::text::spec_split;

verus! {

/// The single error kind of selection parsing.
#[derive(Clone, Copy, PartialEq, Eq, Structural, Debug)]
pub enum ErrorCode {
    SelectorError,
}

/// A selection-syntax error. Every variant carries enough to produce a
/// message precise enough to localize the failing definition.
#[derive(Debug)]
pub enum SelectorError {
    /// A named-selector reference names a selector absent from the registry.
    UnknownSelector(String),
    /// A chain of named-selector references revisits a selector.
    CyclicSelector(String),
    /// A composite block holds no union or intersection entry.
    EmptyComposite,
    /// An exclude block names zero sub-definitions.
    EmptyExcludeList,
    /// A method-to-value shorthand holds more or fewer than one pair.
    MethodKeyNotSingle,
    /// A standalone exclude block stands at the top level of a definition.
    TopLevelExclude,
}

/// Mathematical view of `SelectorError`.
pub enum ErrV {
    UnknownSelector(Seq<char>),
    CyclicSelector(Seq<char>),
    EmptyComposite,
    EmptyExcludeList,
    MethodKeyNotSingle,
    TopLevelExclude,
}

impl View for SelectorError {
    type V = ErrV;

    open spec fn view(&self) -> ErrV {
        match self {
            SelectorError::UnknownSelector(n) => ErrV::UnknownSelector(n@),
            SelectorError::CyclicSelector(n) => ErrV::CyclicSelector(n@),
            SelectorError::EmptyComposite => ErrV::EmptyComposite,
            SelectorError::EmptyExcludeList => ErrV::EmptyExcludeList,
            SelectorError::MethodKeyNotSingle => ErrV::MethodKeyNotSingle,
            SelectorError::TopLevelExclude => ErrV::TopLevelExclude,
        }
    }
}

impl SelectorError {
    /// Every selection-syntax error carries the one selector error code.
    pub fn code(&self) -> (r: ErrorCode)
        ensures
            r == ErrorCode::SelectorError,
    {
        ErrorCode::SelectorError
    }

    /// The human-readable message distinguishing the failure.
    pub fn message(&self) -> (r: String)
        ensures
            r@ == spec_message(self@),
    {
        match self {
            SelectorError::UnknownSelector(n) => "Unknown selector `".to_owned().concat(
                n.as_str(),
            ).concat("`"),
            SelectorError::CyclicSelector(n) => "Cyclic selector reference `".to_owned().concat(
                n.as_str(),
            ).concat("`"),
            SelectorError::EmptyComposite => "Empty composite expression".to_owned(),
            SelectorError::EmptyExcludeList => "Empty exclude list".to_owned(),
            SelectorError::MethodKeyNotSingle =>
                "MethodKey must have exactly one key-value pair".to_owned(),
            SelectorError::TopLevelExclude =>
                "Top level exclude not allowed in YAML selectors".to_owned(),
        }
    }
}

/// The message each error denotes.
pub open spec fn spec_message(e: ErrV) -> Seq<char> {
    match e {
        ErrV::UnknownSelector(n) => "Unknown selector `"@ + n + "`"@,
        ErrV::CyclicSelector(n) => "Cyclic selector reference `"@ + n + "`"@,
        ErrV::EmptyComposite => "Empty composite expression"@,
        ErrV::EmptyExcludeList => "Empty exclude list"@,
        ErrV::MethodKeyNotSingle => "MethodKey must have exactly one key-value pair"@,
        ErrV::TopLevelExclude => "Top level exclude not allowed in YAML selectors"@,
    }
}

/// The method a recognized head resolves to.
pub open spec fn spec_method_from_name(head: Seq<char>) -> Option<MethodName> {
    if head == "tag"@ {
        Some(MethodName::Tag)
    } else if head == "fqn"@ {
        Some(MethodName::Fqn)
    } else if head == "path"@ {
        Some(MethodName::Path)
    } else if head == "resource_type"@ {
        Some(MethodName::ResourceType)
    } else if head == "package"@ {
        Some(MethodName::Package)
    } else {
        None
    }
}

/// The method a plain value defaults to, inferred from its shape: a value
/// holding a path separator reads as a path, any other as a fully-qualified
/// name.
pub open spec fn spec_default_method(value: Seq<char>) -> MethodName {
    if crate::text::char_count(value, '/') > 0 {
        MethodName::Path
    } else {
        MethodName::Fqn
    }
}

/// Resolve a method head, falling back to the default inferred from the
/// value when the head is unrecognized.
pub open spec fn spec_resolve_method(head: Seq<char>, value: Seq<char>) -> MethodName {
    match spec_method_from_name(head) {
        Some(m) => m,
        None => spec_default_method(value),
    }
}

/// The method a recognized head resolves to.
pub fn method_from_name(head: &str) -> (r: Option<MethodName>)
    ensures
        r == spec_method_from_name(head@),
{
    if crate::text::str_eq(head, "tag") {
        Some(MethodName::Tag)
    } else if crate::text::str_eq(head, "fqn") {
        Some(MethodName::Fqn)
    } else if crate::text::str_eq(head, "path") {
        Some(MethodName::Path)
    } else if crate::text::str_eq(head, "resource_type") {
        Some(MethodName::ResourceType)
    } else if crate::text::str_eq(head, "package") {
        Some(MethodName::Package)
    } else {
        None
    }
}

/// The method a plain value defaults to, inferred from its shape.
pub fn default_method_for(value: &str) -> (r: MethodName)
    ensures
        r == spec_default_method(value@),
{
    if crate::text::count_char(value, '/') > 0 {
        MethodName::Path
    } else {
        MethodName::Fqn
    }
}

/// Resolve a method head, falling back to the default inferred from the
/// value when the head is unrecognized.
pub fn resolve_method(head: &str, value: &str) -> (r: MethodName)
    ensures
        r == spec_resolve_method(head@, value@),
{
    match method_from_name(head) {
        Some(m) => m,
        None => default_method_for(value),
    }
}

/// The atom a bare specifier string denotes: `method:value` resolves the
/// dotted method head (the dotted suffix becomes the method arguments);
/// a plain value takes the default method inferred from its shape.
pub open spec fn spec_parse_bare_atom(s: Seq<char>) -> ExprV {
    if crate::text::char_count(s, ':') > 0 {
        let i = crate::text::first_occurrence(s, ':') as int;
        let method_part = s.take(i);
        let value = s.skip(i + 1);
        let parts = spec_split(method_part, '.');
        ExprV::Atom(
            CriteriaV {
                method: spec_resolve_method(parts[0], value),
                method_args: parts.drop_first(),
                value,
                childrens_parents: false,
                parents_depth: None,
                children_depth: None,
                indirect: None,
                exclude: None,
            },
        )
    } else {
        ExprV::Atom(
            CriteriaV {
                method: spec_default_method(s),
                method_args: Seq::empty(),
                value: s,
                childrens_parents: false,
                parents_depth: None,
                children_depth: None,
                indirect: None,
                exclude: None,
            },
        )
    }
}

/// What a list of bare specifier strings denotes: one specifier is its atom;
/// several are the union of their atoms.
pub open spec fn spec_parse_model_specifiers(specs: Seq<Seq<char>>) -> ExprV {
    if specs.len() == 1 {
        spec_parse_bare_atom(specs[0])
    } else {
        ExprV::Or(specs.map_values(|s: Seq<char>| spec_parse_bare_atom(s)))
    }
}

/// Parse one bare specifier string into an atom.
pub fn parse_bare_atom(s: &str) -> (r: SelectExpression)
    ensures
        view_expr(r) == spec_parse_bare_atom(s@),
{
    if crate::text::count_char(s, ':') > 0 {
        let i = crate::text::find_char(s, ':');
        let len = s.unicode_len();
        let method_part = crate::text::substring(s, 0, i);
        let value = crate::text::substring(s, i + 1, len);
        let mut parts = crate::text::split_char(method_part.as_str(), '.');
        let ghost parts0 = parts@;
        proof {
            assert(parts0.map_values(|p: String| p@).len() >= 1);
            assert(parts0[0]@ == parts0.map_values(|p: String| p@)[0]);
        }
        let head = parts.remove(0);
        proof {
            assert(parts@ =~= parts0.drop_first());
        }
        let method = resolve_method(head.as_str(), value.as_str());
        let r = SelectExpression::Atom(
            SelectionCriteria {
                method,
                method_args: parts,
                value,
                childrens_parents: false,
                parents_depth: None,
                children_depth: None,
                indirect: None,
                exclude: None,
            },
        );
        proof {
            reveal_with_fuel(view_expr, 2);
            assert(parts0.drop_first().map_values(|p: String| p@) =~= spec_split(
                method_part@,
                '.',
            ).drop_first());
            assert(view_expr(r) == spec_parse_bare_atom(s@));
        }
        r
    } else {
        let method = default_method_for(s);
        let r = SelectExpression::Atom(
            SelectionCriteria {
                method,
                method_args: Vec::new(),
                value: s.to_owned(),
                childrens_parents: false,
                parents_depth: None,
                children_depth: None,
                indirect: None,
                exclude: None,
            },
        );
        proof {
            reveal_with_fuel(view_expr, 2);
            assert(Seq::<String>::empty().map_values(|p: String| p@) =~= Seq::<Seq<char>>::empty());
            assert(view_expr(r) == spec_parse_bare_atom(s@));
        }
        r
    }
}

/// Parse bare specifier strings: one specifier denotes its atom, several
/// the union of their atoms.
pub fn parse_model_specifiers(specs: &Vec<String>) -> (r: SelectExpression)
    ensures
        view_expr(r) == spec_parse_model_specifiers(specs@.map_values(|s: String| s@)),
{
    let ghost sv = specs@.map_values(|s: String| s@);
    let mut atoms: Vec<SelectExpression> = Vec::new();
    let mut i: usize = 0;
    while i < specs.len()
        invariant
            0 <= i <= specs@.len(),
            sv == specs@.map_values(|s: String| s@),
            crate::expr::view_exprs(atoms@) == sv.take(i as int).map_values(
                |s: Seq<char>| spec_parse_bare_atom(s),
            ),
        decreases specs@.len() - i,
    {
        let ghost atoms0 = atoms@;
        let a = parse_bare_atom(specs[i].as_str());
        atoms.push(a);
        proof {
            assert(atoms@.drop_last() =~= atoms0);
            assert(atoms@.last() == a);
            assert(crate::expr::view_exprs(atoms@) == crate::expr::view_exprs(atoms0).push(
                view_expr(a),
            ));
            assert(specs@[i as int]@ == sv[i as int]);
            assert(crate::expr::view_exprs(atoms@) =~= sv.take(i + 1).map_values(
                |s: Seq<char>| spec_parse_bare_atom(s),
            ));
        }
        i += 1;
    }
    proof {
        assert(sv.take(sv.len() as int) =~= sv);
    }
    proof {
        crate::expr::lemma_view_exprs(atoms@);
        assert(atoms@.len() == sv.len());
    }
    if atoms.len() == 1 {
        let ghost atoms1 = atoms@;
        let r = atoms.remove(0);
        proof {
            crate::expr::lemma_view_exprs(atoms1);
            assert(view_expr(r) == sv.map_values(|s: Seq<char>| spec_parse_bare_atom(s))[0]);
        }
        r
    } else {
        SelectExpression::Or(atoms)
    }
}

/// The definition the registry maps a name to, scanning from position `i`:
/// the first entry with that name wins.
pub open spec fn lookup_from(
    defs: Seq<(String, SelectorDefinition)>,
    name: Seq<char>,
    i: int,
) -> Option<SelectorDefinition>
    decreases defs.len() - i,
{
    if i < 0 || i >= defs.len() {
        None
    } else if defs[i].0@ == name {
        Some(defs[i].1)
    } else {
        lookup_from(defs, name, i + 1)
    }
}

/// The definition the registry maps a name to.
pub open spec fn lookup_def(
    defs: Seq<(String, SelectorDefinition)>,
    name: Seq<char>,
) -> Option<SelectorDefinition> {
    lookup_from(defs, name, 0)
}

/// The exclude block a composite operand holds, when the operand is a
/// standalone exclude.
pub open spec fn as_exclude_block(v: SelectorDefinitionValue) -> Option<ExcludeAtomExpr> {
    match v {
        SelectorDefinitionValue::Full(
            SelectorExpr::Atom(AtomExpr::Exclude(x)),
        ) => Some(x),
        _ => None,
    }
}

/// One parsed exclude entry stands alone; several combine into a union:
/// excluding each of several sets means excluding anything in any of them.
pub open spec fn combine_excludes(exprs: Seq<ExprV>) -> ExprV {
    if exprs.len() == 1 {
        exprs[0]
    } else {
        ExprV::Or(exprs)
    }
}

/// What parsing a named-selector reference yields: the referenced
/// definition's expression as-is, with the resolution chain threaded through
/// `visiting` so that a reference cycle fails fast.
pub open spec fn spec_parse_named(
    defs: Seq<(String, SelectorDefinition)>,
    visiting: Seq<Seq<char>>,
    name: Seq<char>,
) -> Result<ExprV, ErrV>
    decreases defs.len() - visiting.len(), 0nat, 0nat,
{
    if visiting.contains(name) {
        Err(ErrV::CyclicSelector(name))
    } else {
        match lookup_def(defs, name) {
            None => Err(ErrV::UnknownSelector(name)),
            Some(d) => if visiting.len() >= defs.len() {
                Err(ErrV::CyclicSelector(name))
            } else {
                spec_parse_definition(defs, visiting.push(name), d.definition)
            },
        }
    }
}

/// What parsing a surface definition yields: a bare string goes to the
/// specifier grammar; a structured expression is parsed by shape.
pub open spec fn spec_parse_definition(
    defs: Seq<(String, SelectorDefinition)>,
    visiting: Seq<Seq<char>>,
    d: SelectorDefinitionValue,
) -> Result<ExprV, ErrV>
    decreases defs.len() - visiting.len(), crate::surface::def_height(d), 0nat,
{
    match d {
        SelectorDefinitionValue::String(s) => Ok(spec_parse_bare_atom(s@)),
        SelectorDefinitionValue::Full(e) => spec_parse_expr(defs, visiting, e),
    }
}

pub open spec fn spec_parse_expr(
    defs: Seq<(String, SelectorDefinition)>,
    visiting: Seq<Seq<char>>,
    e: SelectorExpr,
) -> Result<ExprV, ErrV>
    decreases defs.len() - visiting.len(), crate::surface::sexpr_height(e), 0nat,
{
    match e {
        SelectorExpr::Composite(c) => spec_parse_composite(defs, visiting, c),
        SelectorExpr::Atom(a) => spec_parse_atom(defs, visiting, a),
    }
}

/// What parsing a composite yields: operands partition into includes and
/// hoisted excludes; includes combine under the block's own operator; any
/// excludes combine into a union wrapped in `Exclude`, and the result is the
/// intersection of the include expression with that removal set — even when
/// the block's operator is union, since exclusion always narrows.
pub open spec fn spec_parse_composite(
    defs: Seq<(String, SelectorDefinition)>,
    visiting: Seq<Seq<char>>,
    c: CompositeExpr,
) -> Result<ExprV, ErrV>
    decreases defs.len() - visiting.len(), crate::surface::kinds_height(c.kind@), 0nat,
    via spec_parse_composite_dec
{
    if c.kind@.len() == 0 {
        Err(ErrV::EmptyComposite)
    } else {
        let k = c.kind@[0];
        let values = match k {
            CompositeKind::Union(vs) => vs@,
            CompositeKind::Intersection(vs) => vs@,
        };
        match spec_split_composite(defs, visiting, values, values.len() as int) {
            Err(e) => Err(e),
            Ok((incs, excs)) => {
                let include_expr = match k {
                    CompositeKind::Union(_) => ExprV::Or(incs),
                    CompositeKind::Intersection(_) => ExprV::And(incs),
                };
                if excs.len() == 0 {
                    Ok(include_expr)
                } else {
                    Ok(
                        ExprV::And(
                            seq![
                                include_expr,
                                ExprV::Exclude(Box::new(combine_excludes(excs))),
                            ],
                        ),
                    )
                }
            },
        }
    }
}

#[via_fn]
proof fn spec_parse_composite_dec(
    defs: Seq<(String, SelectorDefinition)>,
    visiting: Seq<Seq<char>>,
    c: CompositeExpr,
) {
    if c.kind@.len() > 0 {
        crate::surface::lemma_kinds_height(c.kind@, 0);
    }
}

/// Partition and parse the first `i` operands of a composite into parsed
/// includes and parsed hoisted excludes, in order. An exclude operand's
/// entries are parsed and combined; an empty exclude list is an error.
pub open spec fn spec_split_composite(
    defs: Seq<(String, SelectorDefinition)>,
    visiting: Seq<Seq<char>>,
    values: Seq<SelectorDefinitionValue>,
    i: int,
) -> Result<(Seq<ExprV>, Seq<ExprV>), ErrV>
    decreases defs.len() - visiting.len(), crate::surface::defs_height(values), i,
    via spec_split_composite_dec
{
    if i <= 0 || i > values.len() {
        Ok((Seq::empty(), Seq::empty()))
    } else {
        match spec_split_composite(defs, visiting, values, i - 1) {
            Err(e) => Err(e),
            Ok((incs, excs)) => match as_exclude_block(values[i - 1]) {
                Some(x) => match spec_parse_defs_list(
                    defs,
                    visiting,
                    x.exclude@,
                    x.exclude@.len() as int,
                ) {
                    Err(e) => Err(e),
                    Ok(list) => if list.len() == 0 {
                        Err(ErrV::EmptyExcludeList)
                    } else {
                        Ok((incs, excs.push(combine_excludes(list))))
                    },
                },
                None => match spec_parse_definition(defs, visiting, values[i - 1]) {
                    Err(e) => Err(e),
                    Ok(e) => Ok((incs.push(e), excs)),
                },
            },
        }
    }
}

#[via_fn]
proof fn spec_split_composite_dec(
    defs: Seq<(String, SelectorDefinition)>,
    visiting: Seq<Seq<char>>,
    values: Seq<SelectorDefinitionValue>,
    i: int,
) {
    if 0 < i <= values.len() {
        crate::surface::lemma_defs_height(values, i - 1);
        match as_exclude_block(values[i - 1]) {
            Some(x) => {
                assert(crate::surface::defs_height(x.exclude@) < crate::surface::def_height(
                    values[i - 1],
                ));
            },
            None => {},
        }
    }
}

/// Parse each definition of a list, in order; the first failure aborts.
pub open spec fn spec_parse_defs_list(
    defs: Seq<(String, SelectorDefinition)>,
    visiting: Seq<Seq<char>>,
    ds: Seq<SelectorDefinitionValue>,
    i: int,
) -> Result<Seq<ExprV>, ErrV>
    decreases defs.len() - visiting.len(), crate::surface::defs_height(ds), i,
    via spec_parse_defs_list_dec
{
    if i <= 0 || i > ds.len() {
        Ok(Seq::empty())
    } else {
        match spec_parse_defs_list(defs, visiting, ds, i - 1) {
            Err(e) => Err(e),
            Ok(list) => match spec_parse_definition(defs, visiting, ds[i - 1]) {
                Err(e) => Err(e),
                Ok(e) => Ok(list.push(e)),
            },
        }
    }
}

#[via_fn]
proof fn spec_parse_defs_list_dec(
    defs: Seq<(String, SelectorDefinition)>,
    visiting: Seq<Seq<char>>,
    ds: Seq<SelectorDefinitionValue>,
    i: int,
) {
    if 0 < i <= ds.len() {
        crate::surface::lemma_defs_height(ds, i - 1);
    }
}

/// What parsing an atom yields. A `selector` method is a named-selector
/// reference: it resolves to the referenced expression as-is — graph flags
/// on the reference are ignored, and an attached exclude list is not merged
/// into the inherited result. Any other method builds a criterion: the
/// dotted method suffix becomes the method arguments, a `parents` or
/// `children` request without an explicit depth takes the unbounded depth
/// sentinel, and an attached exclude list parses into the atom's nested
/// removal set. A method-to-value shorthand must hold exactly one pair; a
/// standalone exclude block at the top level is an error.
pub open spec fn spec_parse_atom(
    defs: Seq<(String, SelectorDefinition)>,
    visiting: Seq<Seq<char>>,
    a: AtomExpr,
) -> Result<ExprV, ErrV>
    decreases defs.len() - visiting.len(), crate::surface::atom_height(a), 0nat,
    via spec_parse_atom_dec
{
    match a {
        AtomExpr::Method(m) => {
            if m.method@ == "selector"@ {
                spec_parse_named(defs, visiting, m.value@)
            } else {
                spec_method_atom(defs, visiting, m)
            }
        },
        AtomExpr::MethodKey(pairs) => {
            if pairs@.len() != 1 {
                Err(ErrV::MethodKeyNotSingle)
            } else {
                let parts = spec_split(pairs@[0].0@, '.');
                Ok(
                    ExprV::Atom(
                        CriteriaV {
                            method: spec_resolve_method(parts[0], pairs@[0].1@),
                            method_args: parts.drop_first(),
                            value: pairs@[0].1@,
                            childrens_parents: false,
                            parents_depth: None,
                            children_depth: None,
                            indirect: Some(IndirectSelection::Eager),
                            exclude: None,
                        },
                    ),
                )
            }
        },
        AtomExpr::Exclude(_) => Err(ErrV::TopLevelExclude),
    }
}

#[via_fn]
proof fn spec_parse_atom_dec(
    defs: Seq<(String, SelectorDefinition)>,
    visiting: Seq<Seq<char>>,
    a: AtomExpr,
) {
    match a {
        AtomExpr::Method(m) => {
            assert(crate::surface::atom_height(a) >= 1);
        },
        _ => {},
    }
}

/// What building a criterion from a structured method call yields: the
/// dotted method head resolves (falling back to the default inferred from
/// the value), the dotted suffix becomes the method arguments, a `parents`
/// or `children` request without an explicit depth takes the unbounded
/// depth sentinel, and an attached exclude list parses into the atom's
/// nested removal set (an empty attached list leaves no removal set).
pub open spec fn spec_method_atom(
    defs: Seq<(String, SelectorDefinition)>,
    visiting: Seq<Seq<char>>,
    m: MethodAtomExpr,
) -> Result<ExprV, ErrV>
    decreases defs.len() - visiting.len(), crate::surface::method_atom_height(m), 0nat,
{
    let parts = spec_split(m.method@, '.');
    let method = spec_resolve_method(parts[0], m.value@);
    let pd = if m.parents && m.parents_depth is None {
        Some(u32::MAX)
    } else {
        m.parents_depth
    };
    let cd = if m.children && m.children_depth is None {
        Some(u32::MAX)
    } else {
        m.children_depth
    };
    match m.exclude {
        Some(ds) => match spec_parse_defs_list(defs, visiting, ds@, ds@.len() as int) {
            Err(e) => Err(e),
            Ok(list) => Ok(
                ExprV::Atom(
                    CriteriaV {
                        method,
                        method_args: parts.drop_first(),
                        value: m.value@,
                        childrens_parents: m.childrens_parents,
                        parents_depth: pd,
                        children_depth: cd,
                        indirect: m.indirect_selection,
                        exclude: if list.len() == 0 {
                            None
                        } else {
                            Some(Box::new(combine_excludes(list)))
                        },
                    },
                ),
            ),
        },
        None => Ok(
            ExprV::Atom(
                CriteriaV {
                    method,
                    method_args: parts.drop_first(),
                    value: m.value@,
                    childrens_parents: m.childrens_parents,
                    parents_depth: pd,
                    children_depth: cd,
                    indirect: m.indirect_selection,
                    exclude: None,
                },
            ),
        ),
    }
}

/// An error among the first `j` operands stands for the whole list.
proof fn lemma_split_composite_err(
    defs: Seq<(String, SelectorDefinition)>,
    visiting: Seq<Seq<char>>,
    values: Seq<SelectorDefinitionValue>,
    j: int,
    j2: int,
)
    requires
        0 <= j <= j2 <= values.len(),
        spec_split_composite(defs, visiting, values, j) is Err,
    ensures
        spec_split_composite(defs, visiting, values, j2) == spec_split_composite(
            defs,
            visiting,
            values,
            j,
        ),
    decreases j2 - j,
{
    if j2 > j {
        lemma_split_composite_err(defs, visiting, values, j, j2 - 1);
    }
}

/// An error among the first `j` definitions stands for the whole list.
proof fn lemma_defs_list_err(
    defs: Seq<(String, SelectorDefinition)>,
    visiting: Seq<Seq<char>>,
    ds: Seq<SelectorDefinitionValue>,
    j: int,
    j2: int,
)
    requires
        0 <= j <= j2 <= ds.len(),
        spec_parse_defs_list(defs, visiting, ds, j) is Err,
    ensures
        spec_parse_defs_list(defs, visiting, ds, j2) == spec_parse_defs_list(
            defs,
            visiting,
            ds,
            j,
        ),
    decreases j2 - j,
{
    if j2 > j {
        lemma_defs_list_err(defs, visiting, ds, j, j2 - 1);
    }
}

/// The views of the names on the resolution chain.
pub open spec fn names_view(v: Seq<String>) -> Seq<Seq<char>> {
    v.map_values(|s: String| s@)
}

/// A parse outcome at the level of views.
pub open spec fn parse_result_view(r: Result<SelectExpression, SelectorError>) -> Result<
    ExprV,
    ErrV,
> {
    match r {
        Ok(e) => Ok(view_expr(e)),
        Err(x) => Err(x@),
    }
}

/// A parsed-list outcome at the level of views.
pub open spec fn parse_list_view(r: Result<Vec<SelectExpression>, SelectorError>) -> Result<
    Seq<ExprV>,
    ErrV,
> {
    match r {
        Ok(es) => Ok(crate::expr::view_exprs(es@)),
        Err(x) => Err(x@),
    }
}

/// Whether the resolution chain already holds this name.
fn name_in_visiting(visiting: &Vec<String>, name: &str) -> (r: bool)
    ensures
        r == names_view(visiting@).contains(name@),
{
    let mut i: usize = 0;
    while i < visiting.len()
        invariant
            0 <= i <= visiting@.len(),
            forall|j: int| 0 <= j < i ==> visiting@[j]@ != name@,
        decreases visiting@.len() - i,
    {
        if crate::text::str_eq(visiting[i].as_str(), name) {
            proof {
                assert(names_view(visiting@)[i as int] == name@);
            }
            return true;
        }
        i += 1;
    }
    proof {
        assert forall|j: int| 0 <= j < names_view(visiting@).len() implies names_view(
            visiting@,
        )[j] != name@ by {
            assert(visiting@[j]@ != name@);
        }
    }
    false
}

/// Find the first registry entry with this name.
fn lookup_index(defs: &Vec<(String, SelectorDefinition)>, name: &str) -> (r: Option<usize>)
    ensures
        match r {
            Some(i) => i < defs@.len() && lookup_def(defs@, name@) == Some(defs@[i as int].1),
            None => lookup_def(defs@, name@) is None,
        },
{
    let mut i: usize = 0;
    while i < defs.len()
        invariant
            0 <= i <= defs@.len(),
            lookup_def(defs@, name@) == lookup_from(defs@, name@, i as int),
        decreases defs@.len() - i,
    {
        if crate::text::str_eq(defs[i].0.as_str(), name) {
            return Some(i);
        }
        i += 1;
    }
    None
}

/// The selector parser: a registry of named selector definitions and the
/// operations that normalize surface definitions against it.
#[derive(Debug)]
pub struct SelectorParser {
    defs: Vec<(String, SelectorDefinition)>,
}

impl SelectorParser {
    /// The registry of named selector definitions, in lookup order.
    pub closed spec fn registry(&self) -> Seq<(String, SelectorDefinition)> {
        self.defs@
    }

    pub fn new(defs: Vec<(String, SelectorDefinition)>) -> (r: SelectorParser)
        ensures
            r.registry() == defs@,
    {
        SelectorParser { defs }
    }

    /// Resolve a named selector from the registry.
    pub fn parse_named(&self, name: &str) -> (r: Result<SelectExpression, SelectorError>)
        ensures
            parse_result_view(r) == spec_parse_named(self.registry(), Seq::empty(), name@),
    {
        let mut visiting: Vec<String> = Vec::new();
        proof {
            assert(names_view(visiting@) =~= Seq::<Seq<char>>::empty());
        }
        self.parse_named_at(name, &mut visiting)
    }

    /// Parse one surface definition.
    pub fn parse_definition(&self, def: &SelectorDefinitionValue) -> (r: Result<
        SelectExpression,
        SelectorError,
    >)
        ensures
            parse_result_view(r) == spec_parse_definition(self.registry(), Seq::empty(), *def),
    {
        let mut visiting: Vec<String> = Vec::new();
        proof {
            assert(names_view(visiting@) =~= Seq::<Seq<char>>::empty());
        }
        self.parse_definition_at(def, &mut visiting)
    }

    /// Parse one structured surface expression.
    pub fn parse_expr(&self, expr: &SelectorExpr) -> (r: Result<SelectExpression, SelectorError>)
        ensures
            parse_result_view(r) == spec_parse_expr(self.registry(), Seq::empty(), *expr),
    {
        let mut visiting: Vec<String> = Vec::new();
        proof {
            assert(names_view(visiting@) =~= Seq::<Seq<char>>::empty());
        }
        self.parse_expr_at(expr, &mut visiting)
    }

    /// Parse one composite block.
    pub fn parse_composite(&self, comp: &CompositeExpr) -> (r: Result<
        SelectExpression,
        SelectorError,
    >)
        ensures
            parse_result_view(r) == spec_parse_composite(self.registry(), Seq::empty(), *comp),
    {
        let mut visiting: Vec<String> = Vec::new();
        proof {
            assert(names_view(visiting@) =~= Seq::<Seq<char>>::empty());
        }
        self.parse_composite_at(comp, &mut visiting)
    }

    /// Parse one atom.
    pub fn parse_atom(&self, atom: &AtomExpr) -> (r: Result<SelectExpression, SelectorError>)
        ensures
            parse_result_view(r) == spec_parse_atom(self.registry(), Seq::empty(), *atom),
    {
        let mut visiting: Vec<String> = Vec::new();
        proof {
            assert(names_view(visiting@) =~= Seq::<Seq<char>>::empty());
        }
        self.parse_atom_at(atom, &mut visiting)
    }

    fn parse_named_at(&self, name: &str, visiting: &mut Vec<String>) -> (r: Result<
        SelectExpression,
        SelectorError,
    >)
        ensures
            final(visiting)@ == old(visiting)@,
            parse_result_view(r) == spec_parse_named(
                self.registry(),
                names_view(old(visiting)@),
                name@,
            ),
        decreases self.registry().len() - old(visiting)@.len(), 0nat,
    {
        if name_in_visiting(visiting, name) {
            return Err(SelectorError::CyclicSelector(name.to_owned()));
        }
        match lookup_index(&self.defs, name) {
            None => Err(SelectorError::UnknownSelector(name.to_owned())),
            Some(i) => {
                if visiting.len() >= self.defs.len() {
                    Err(SelectorError::CyclicSelector(name.to_owned()))
                } else {
                    let ghost vis0 = visiting@;
                    visiting.push(name.to_owned());
                    proof {
                        assert(names_view(visiting@) =~= names_view(vis0).push(name@));
                    }
                    let r = self.parse_definition_at(&self.defs[i].1.definition, visiting);
                    let _ = visiting.pop();
                    proof {
                        assert(visiting@ =~= vis0);
                    }
                    r
                }
            },
        }
    }

    fn parse_definition_at(
        &self,
        def: &SelectorDefinitionValue,
        visiting: &mut Vec<String>,
    ) -> (r: Result<SelectExpression, SelectorError>)
        ensures
            final(visiting)@ == old(visiting)@,
            parse_result_view(r) == spec_parse_definition(
                self.registry(),
                names_view(old(visiting)@),
                *def,
            ),
        decreases
                self.registry().len() - old(visiting)@.len(),
                crate::surface::def_height(*def),
    {
        match def {
            SelectorDefinitionValue::String(s) => {
                let one = vec![s.clone()];
                proof {
                    assert(one@.map_values(|t: String| t@) =~= seq![s@]);
                }
                Ok(parse_model_specifiers(&one))
            },
            SelectorDefinitionValue::Full(expr) => self.parse_expr_at(expr, visiting),
        }
    }

    fn parse_expr_at(&self, expr: &SelectorExpr, visiting: &mut Vec<String>) -> (r: Result<
        SelectExpression,
        SelectorError,
    >)
        ensures
            final(visiting)@ == old(visiting)@,
            parse_result_view(r) == spec_parse_expr(
                self.registry(),
                names_view(old(visiting)@),
                *expr,
            ),
        decreases
                self.registry().len() - old(visiting)@.len(),
                crate::surface::sexpr_height(*expr),
    {
        match expr {
            SelectorExpr::Composite(comp) => self.parse_composite_at(comp, visiting),
            SelectorExpr::Atom(atom) => self.parse_atom_at(atom, visiting),
        }
    }

    #[verifier::loop_isolation(false)]
    fn parse_composite_at(&self, comp: &CompositeExpr, visiting: &mut Vec<String>) -> (r: Result<
        SelectExpression,
        SelectorError,
    >)
        ensures
            final(visiting)@ == old(visiting)@,
            parse_result_view(r) == spec_parse_composite(
                self.registry(),
                names_view(old(visiting)@),
                *comp,
            ),
        decreases
                self.registry().len() - old(visiting)@.len(),
                crate::surface::kinds_height(comp.kind@),
    {
        let ghost vis0 = names_view(old(visiting)@);
        if comp.kind.len() == 0 {
            return Err(SelectorError::EmptyComposite);
        }
        proof {
            crate::surface::lemma_kinds_height(comp.kind@, 0);
        }
        let k = &comp.kind[0];
        let values: &Vec<SelectorDefinitionValue> = match k {
            CompositeKind::Union(vs) => vs,
            CompositeKind::Intersection(vs) => vs,
        };
        let ghost vals = values@;
        let mut includes: Vec<SelectExpression> = Vec::new();
        let mut excludes: Vec<SelectExpression> = Vec::new();
        let mut i: usize = 0;
        while i < values.len()
            invariant
                0 <= i <= vals.len(),
                visiting@ == old(visiting)@,
                spec_split_composite(self.registry(), vis0, vals, i as int) == Ok::<
                    _,
                    ErrV,
                >((crate::expr::view_exprs(includes@), crate::expr::view_exprs(excludes@))),
            decreases vals.len() - i,
        {
            proof {
                crate::surface::lemma_defs_height(vals, i as int);
            }
            let ghost incs0 = includes@;
            let ghost excs0 = excludes@;
            match &values[i] {
                SelectorDefinitionValue::Full(
                    SelectorExpr::Atom(AtomExpr::Exclude(x)),
                ) => {
                    match self.collect_definition_includes(&x.exclude, visiting) {
                        Err(e) => {
                            proof {
                                lemma_split_composite_err(
                                    self.registry(),
                                    vis0,
                                    vals,
                                    i + 1,
                                    vals.len() as int,
                                );
                            }
                            return Err(e);
                        },
                        Ok(mut exprs) => {
                            if exprs.len() == 0 {
                                proof {
                                    lemma_split_composite_err(
                                        self.registry(),
                                        vis0,
                                        vals,
                                        i + 1,
                                        vals.len() as int,
                                    );
                                }
                                return Err(SelectorError::EmptyExcludeList);
                            }
                            let ghost exprs0 = exprs@;
                            let combined = if exprs.len() == 1 {
                                exprs.remove(0)
                            } else {
                                SelectExpression::Or(exprs)
                            };
                            proof {
                                crate::expr::lemma_view_exprs(exprs0);
                                assert(view_expr(combined) == combine_excludes(
                                    crate::expr::view_exprs(exprs0),
                                ));
                            }
                            excludes.push(combined);
                            proof {
                                assert(excludes@.drop_last() =~= excs0);
                                assert(crate::expr::view_exprs(excludes@)
                                    == crate::expr::view_exprs(excs0).push(view_expr(combined)));
                            }
                        },
                    }
                },
                other => {
                    match self.parse_definition_at(other, visiting) {
                        Err(e) => {
                            proof {
                                lemma_split_composite_err(
                                    self.registry(),
                                    vis0,
                                    vals,
                                    i + 1,
                                    vals.len() as int,
                                );
                            }
                            return Err(e);
                        },
                        Ok(e) => {
                            includes.push(e);
                            proof {
                                assert(includes@.drop_last() =~= incs0);
                                assert(crate::expr::view_exprs(includes@)
                                    == crate::expr::view_exprs(incs0).push(view_expr(
                                    includes@.last(),
                                )));
                            }
                        },
                    }
                },
            }
            i += 1;
        }
        let include_expr = match k {
            CompositeKind::Union(_) => SelectExpression::Or(includes),
            CompositeKind::Intersection(_) => SelectExpression::And(includes),
        };
        if excludes.len() == 0 {
            proof {
                assert(crate::expr::view_exprs(excludes@) =~= Seq::<ExprV>::empty());
            }
            Ok(include_expr)
        } else {
            let ghost excs1 = excludes@;
            let combined = if excludes.len() == 1 {
                excludes.remove(0)
            } else {
                SelectExpression::Or(excludes)
            };
            proof {
                crate::expr::lemma_view_exprs(excs1);
                assert(view_expr(combined) == combine_excludes(crate::expr::view_exprs(excs1)));
            }
            let r = SelectExpression::And(
                vec![include_expr, SelectExpression::Exclude(Box::new(combined))],
            );
            proof {
                match &r {
                    SelectExpression::And(two) => {
                        crate::expr::lemma_view_exprs(two@);
                        assert(crate::expr::view_exprs(two@) =~= seq![
                            view_expr(two@[0]),
                            ExprV::Exclude(Box::new(combine_excludes(crate::expr::view_exprs(
                                excs1,
                            )))),
                        ]);
                    },
                    _ => {
                        assert(false);
                    },
                }
            }
            Ok(r)
        }
    }

    /// Parse each definition of an exclude list, in order.
    fn collect_definition_includes(
        &self,
        ds: &Vec<SelectorDefinitionValue>,
        visiting: &mut Vec<String>,
    ) -> (r: Result<Vec<SelectExpression>, SelectorError>)
        ensures
            final(visiting)@ == old(visiting)@,
            parse_list_view(r) == spec_parse_defs_list(
                self.registry(),
                names_view(old(visiting)@),
                ds@,
                ds@.len() as int,
            ),
        decreases
                self.registry().len() - old(visiting)@.len(),
                crate::surface::defs_height(ds@),
    {
        let ghost vis0 = names_view(old(visiting)@);
        let mut out: Vec<SelectExpression> = Vec::new();
        let mut i: usize = 0;
        while i < ds.len()
            invariant
                0 <= i <= ds@.len(),
                visiting@ == old(visiting)@,
                vis0 == names_view(old(visiting)@),
                spec_parse_defs_list(self.registry(), vis0, ds@, i as int) == Ok::<_, ErrV>(
                    crate::expr::view_exprs(out@),
                ),
            decreases ds@.len() - i,
        {
            proof {
                crate::surface::lemma_defs_height(ds@, i as int);
            }
            let ghost out0 = out@;
            match self.parse_definition_at(&ds[i], visiting) {
                Err(e) => {
                    proof {
                        lemma_defs_list_err(self.registry(), vis0, ds@, i + 1, ds@.len() as int);
                    }
                    return Err(e);
                },
                Ok(e) => {
                    out.push(e);
                    proof {
                        assert(out@.drop_last() =~= out0);
                        assert(crate::expr::view_exprs(out@) == crate::expr::view_exprs(
                            out0,
                        ).push(view_expr(out@.last())));
                    }
                },
            }
            i += 1;
        }
        Ok(out)
    }

    fn parse_atom_at(&self, atom: &AtomExpr, visiting: &mut Vec<String>) -> (r: Result<
        SelectExpression,
        SelectorError,
    >)
        ensures
            final(visiting)@ == old(visiting)@,
            parse_result_view(r) == spec_parse_atom(
                self.registry(),
                names_view(old(visiting)@),
                *atom,
            ),
        decreases
                self.registry().len() - old(visiting)@.len(),
                crate::surface::atom_height(*atom),
    {
        match atom {
            AtomExpr::Method(expr) => {
                if crate::text::str_eq(expr.method.as_str(), "selector") {
                    // Graph-relative flags on the reference are ignored:
                    // selector inheritance does not re-apply graph operators
                    // to an already-resolved expression. A caller that wants
                    // to report them can test `expr.has_graph_operators()`.
                    // An attached exclude list is likewise not merged into
                    // the inherited result.
                    self.parse_named_at(expr.value.as_str(), visiting)
                } else {
                    self.atom_to_select_expression(expr, visiting)
                }
            },
            AtomExpr::MethodKey(pairs) => {
                if pairs.len() != 1 {
                    return Err(SelectorError::MethodKeyNotSingle);
                }
                let wrapper = MethodAtomExpr {
                    method: pairs[0].0.clone(),
                    value: pairs[0].1.clone(),
                    childrens_parents: false,
                    parents: false,
                    children: false,
                    parents_depth: None,
                    children_depth: None,
                    indirect_selection: Some(IndirectSelection::default()),
                    exclude: None,
                };
                let r = self.atom_to_select_expression(&wrapper, visiting);
                proof {
                    assert(parse_result_view(r) == spec_parse_atom(
                        self.registry(),
                        names_view(old(visiting)@),
                        *atom,
                    ));
                }
                r
            },
            AtomExpr::Exclude(_) => Err(SelectorError::TopLevelExclude),
        }
    }

    /// Build a criterion atom from a structured method call: resolve the
    /// dotted method head, normalize depth flags into the unbounded
    /// sentinel, and parse any attached exclude list into the atom's nested
    /// removal set.
    fn atom_to_select_expression(
        &self,
        expr: &MethodAtomExpr,
        visiting: &mut Vec<String>,
    ) -> (r: Result<SelectExpression, SelectorError>)
        ensures
            final(visiting)@ == old(visiting)@,
            parse_result_view(r) == spec_method_atom(
                self.registry(),
                names_view(old(visiting)@),
                *expr,
            ),
        decreases
                self.registry().len() - old(visiting)@.len(),
                crate::surface::method_atom_height(*expr),
    {
        let exclude_expr: Option<Box<SelectExpression>> = match &expr.exclude {
            Some(ds) => {
                match self.collect_definition_includes(ds, visiting) {
                    Err(e) => {
                        return Err(e);
                    },
                    Ok(mut exprs) => {
                        let ghost exprs0 = exprs@;
                        proof {
                            crate::expr::lemma_view_exprs(exprs0);
                        }
                        if exprs.len() == 0 {
                            None
                        } else if exprs.len() == 1 {
                            let inner = exprs.remove(0);
                            Some(Box::new(inner))
                        } else {
                            Some(Box::new(SelectExpression::Or(exprs)))
                        }
                    },
                }
            },
            None => None,
        };
        let mut parts = crate::text::split_char(expr.method.as_str(), '.');
        let ghost parts0 = parts@;
        proof {
            assert(parts0[0]@ == parts0.map_values(|p: String| p@)[0]);
        }
        let head = parts.remove(0);
        proof {
            assert(parts@ =~= parts0.drop_first());
            assert(parts@.map_values(|p: String| p@) =~= spec_split(
                expr.method@,
                '.',
            ).drop_first());
        }
        let method = resolve_method(head.as_str(), expr.value.as_str());
        let pd = if expr.parents && expr.parents_depth.is_none() {
            Some(u32::MAX)
        } else {
            expr.parents_depth
        };
        let cd = if expr.children && expr.children_depth.is_none() {
            Some(u32::MAX)
        } else {
            expr.children_depth
        };
        let r = SelectExpression::Atom(
            SelectionCriteria::new(
                method,
                parts,
                expr.value.clone(),
                expr.childrens_parents,
                pd,
                cd,
                expr.indirect_selection,
                exclude_expr,
            ),
        );
        proof {
            reveal_with_fuel(view_expr, 4);
            let sp = spec_method_atom(self.registry(), names_view(old(visiting)@), *expr);
            assert(sp is Ok);
            let spc = sp->Ok_0;
            let rv = view_expr(r);
            assert(rv is Atom && spc is Atom);
            assert(rv->Atom_0.method == spc->Atom_0.method);
            assert(rv->Atom_0.method_args == spc->Atom_0.method_args);
            assert(rv->Atom_0.value == spc->Atom_0.value);
            assert(rv->Atom_0.childrens_parents == spc->Atom_0.childrens_parents);
            assert(rv->Atom_0.parents_depth == spc->Atom_0.parents_depth);
            assert(rv->Atom_0.children_depth == spc->Atom_0.children_depth);
            assert(rv->Atom_0.indirect == spc->Atom_0.indirect);
            assert(rv->Atom_0.exclude == spc->Atom_0.exclude);
            assert(parse_result_view(Ok::<_, SelectorError>(r)) == sp);
        }
        Ok(r)
    }
}

} // verus!
