//! The laws of the selection algebra: how `Exclude` behaves inside and
//! outside an `And`, how composites with hoisted excludes evaluate, how
//! named-selector references resolve, and what the indirect-selection
//! propagator guarantees.

use vstd::prelude::*;

use crate::eval::NodeV;
use crate::eval::sel_eval;
use crate::eval::atom_base;
use crate::eval::eval_and_upto;
use crate::eval::eval_or_upto;
use crate::expr::CriteriaV;
use crate::expr::ExprV;
use crate::expr::IndirectSelection;
use crate::expr::stamp_expr;
use crate::expr::stamp_exprs;
use crate::parser::ErrV;
use crate::parser::as_exclude_block;
use crate::parser::lookup_def;
use crate::parser::spec_parse_atom;
use crate::parser::spec_parse_composite;
use crate::parser::spec_parse_definition;
use crate::parser::spec_parse_defs_list;
use crate::parser::spec_parse_expr;
use crate::parser::spec_parse_named;
use crate::parser::spec_split_composite;
use crate::surface::AtomExpr;
use crate::surface::CompositeExpr;
use crate::surface::ExcludeAtomExpr;
use crate::surface::MethodAtomExpr;
use crate::surface::SelectorDefinition;
use crate::surface::SelectorDefinitionValue;
use crate::surface::SelectorExpr;

verus! {

/// An exclude that matches nothing has no effect: evaluating
/// `And([x, Exclude(y)])` where `y`'s matches are empty yields exactly the
/// matches of `x` alone. An empty exclude match must never clear the result.
pub proof fn law_exclude_matches_nothing(x: ExprV, y: ExprV, nodes: Seq<NodeV>)
    requires
        sel_eval(y, nodes) == Set::<Seq<char>>::empty(),
    ensures
        sel_eval(ExprV::And(seq![x, ExprV::Exclude(Box::new(y))]), nodes) == sel_eval(x, nodes),
{
    let es = seq![x, ExprV::Exclude(Box::new(y))];
    assert(eval_and_upto(es, 1, nodes) == sel_eval(x, nodes));
    assert(sel_eval(es[1], nodes) == sel_eval(y, nodes));
    assert(eval_and_upto(es, 2, nodes) == sel_eval(x, nodes).difference(sel_eval(y, nodes)));
    assert(sel_eval(x, nodes).difference(sel_eval(y, nodes)) =~= sel_eval(x, nodes));
}

/// An exclude whose matches cover everything the include matches empties the
/// result: evaluating `And([x, Exclude(y)])` where `x`'s matches are a
/// subset of `y`'s yields the empty set.
pub proof fn law_exclude_matches_everything(x: ExprV, y: ExprV, nodes: Seq<NodeV>)
    requires
        sel_eval(x, nodes).subset_of(sel_eval(y, nodes)),
    ensures
        sel_eval(ExprV::And(seq![x, ExprV::Exclude(Box::new(y))]), nodes) == Set::<
            Seq<char>,
        >::empty(),
{
    let es = seq![x, ExprV::Exclude(Box::new(y))];
    assert(eval_and_upto(es, 1, nodes) == sel_eval(x, nodes));
    assert(sel_eval(es[1], nodes) == sel_eval(y, nodes));
    assert(eval_and_upto(es, 2, nodes) == sel_eval(x, nodes).difference(sel_eval(y, nodes)));
    assert(sel_eval(x, nodes).difference(sel_eval(y, nodes)) =~= Set::<Seq<char>>::empty());
}

/// Exclusion is contextual: a bare `Exclude(x)` evaluated on its own — not
/// as an operand of an `And` — denotes exactly the match set of `x`, not its
/// complement over the node snapshot.
pub proof fn law_exclude_contextual_meaning(x: ExprV, nodes: Seq<NodeV>)
    ensures
        sel_eval(ExprV::Exclude(Box::new(x)), nodes) == sel_eval(x, nodes),
{
}

/// An atom's own nested exclude is always subtracted from the atom's direct
/// matches, wherever the atom sits in the tree: an atom with a nested
/// removal set evaluates to the same atom without it, minus the removal
/// set's matches.
pub proof fn law_nested_exclude_independence(c: CriteriaV, e: ExprV, nodes: Seq<NodeV>)
    requires
        c.exclude == Some(Box::new(e)),
    ensures
        sel_eval(ExprV::Atom(c), nodes) == sel_eval(
            ExprV::Atom(CriteriaV { exclude: None, ..c }),
            nodes,
        ).difference(sel_eval(e, nodes)),
{
    let bare = CriteriaV { exclude: None, ..c };
    assert forall|n: NodeV| true implies crate::eval::spec_matches_criteria(c, n)
        == crate::eval::spec_matches_criteria(bare, n) by {}
    assert(atom_base(c, nodes) =~= atom_base(bare, nodes));
    assert(sel_eval(ExprV::Atom(c), nodes) == atom_base(c, nodes).difference(
        sel_eval(e, nodes),
    ));
    assert(sel_eval(ExprV::Atom(bare), nodes) == atom_base(bare, nodes));
}

/// Every operand of an `Or` contributes exactly its own matches: an
/// identifier is in the union's result precisely when some operand matches
/// it. In particular an `Exclude` operand of an `Or` contributes its raw
/// match set — the subtraction reading belongs to `And` alone.
pub proof fn law_or_is_union(es: Seq<ExprV>, i: int, nodes: Seq<NodeV>)
    requires
        0 <= i <= es.len(),
    ensures
        forall|id: Seq<char>|
            eval_or_upto(es, i, nodes).contains(id) <==> exists|j: int|
                0 <= j < i && #[trigger] sel_eval(es[j], nodes).contains(id),
    decreases i,
{
    if i > 0 {
        law_or_is_union(es, i - 1, nodes);
        assert forall|id: Seq<char>| eval_or_upto(es, i, nodes).contains(id) implies exists|j: int|
            0 <= j < i && #[trigger] sel_eval(es[j], nodes).contains(id) by {
            if !eval_or_upto(es, i - 1, nodes).contains(id) {
                assert(sel_eval(es[i - 1], nodes).contains(id));
            }
        }
        assert forall|id: Seq<char>|
            (exists|j: int| 0 <= j < i && #[trigger] sel_eval(es[j], nodes).contains(id)) implies
            eval_or_upto(es, i, nodes).contains(id) by {
            let j = choose|j: int| 0 <= j < i && #[trigger] sel_eval(es[j], nodes).contains(id);
            if j == i - 1 {
                assert(eval_or_upto(es, i, nodes).contains(id));
            } else {
                assert(eval_or_upto(es, i - 1, nodes).contains(id));
            }
        }
    }
}

/// Parsing a union composite `[a, exclude: [b]]` yields a tree that
/// evaluates to the matches of `a` minus the matches of `b`, even though
/// the composite's own operator is union: exclusion always narrows the
/// result through an outer intersection.
pub proof fn law_union_exclude_composition(
    defs: Seq<(String, SelectorDefinition)>,
    c: CompositeExpr,
    a: SelectorDefinitionValue,
    x: ExcludeAtomExpr,
    b: SelectorDefinitionValue,
    ea: ExprV,
    eb: ExprV,
    nodes: Seq<NodeV>,
)
    requires
        c.kind@.len() >= 1,
        c.kind@[0] is Union,
        c.kind@[0]->Union_0@ == seq![
            a,
            SelectorDefinitionValue::Full(SelectorExpr::Atom(AtomExpr::Exclude(x))),
        ],
        as_exclude_block(a) is None,
        x.exclude@ == seq![b],
        spec_parse_definition(defs, Seq::empty(), a) == Ok::<ExprV, ErrV>(ea),
        spec_parse_definition(defs, Seq::empty(), b) == Ok::<ExprV, ErrV>(eb),
    ensures
        spec_parse_composite(defs, Seq::empty(), c) is Ok,
        sel_eval(spec_parse_composite(defs, Seq::empty(), c)->Ok_0, nodes) == sel_eval(
            ea,
            nodes,
        ).difference(sel_eval(eb, nodes)),
{
    let vis = Seq::<Seq<char>>::empty();
    let values = c.kind@[0]->Union_0@;
    let excl = SelectorDefinitionValue::Full(SelectorExpr::Atom(AtomExpr::Exclude(x)));
    assert(values[0] == a && values[1] == excl);
    assert(spec_parse_defs_list(defs, vis, x.exclude@, 0) == Ok::<Seq<ExprV>, ErrV>(Seq::empty()));
    assert(spec_parse_defs_list(defs, vis, x.exclude@, 1) == Ok::<Seq<ExprV>, ErrV>(seq![eb]));
    assert(spec_split_composite(defs, vis, values, 0) == Ok::<(Seq<ExprV>, Seq<ExprV>), ErrV>(
        (Seq::empty(), Seq::empty()),
    ));
    assert(spec_split_composite(defs, vis, values, 1) == Ok::<(Seq<ExprV>, Seq<ExprV>), ErrV>(
        (Seq::empty().push(ea), Seq::empty()),
    ));
    assert(as_exclude_block(values[1]) == Some(x));
    assert(spec_split_composite(defs, vis, values, 2) == Ok::<(Seq<ExprV>, Seq<ExprV>), ErrV>(
        (Seq::empty().push(ea), Seq::<ExprV>::empty().push(eb)),
    ));
    let t = spec_parse_composite(defs, vis, c)->Ok_0;
    let incs = Seq::<ExprV>::empty().push(ea);
    assert(t == ExprV::And(seq![
        ExprV::Or(incs),
        ExprV::Exclude(Box::new(eb)),
    ]));
    let es = seq![ExprV::Or(incs), ExprV::Exclude(Box::new(eb))];
    assert(eval_or_upto(incs, 1, nodes) == eval_or_upto(incs, 0, nodes).union(
        sel_eval(incs[0], nodes),
    ));
    assert(sel_eval(ExprV::Or(incs), nodes) =~= sel_eval(ea, nodes));
    assert(eval_and_upto(es, 1, nodes) == sel_eval(es[0], nodes));
    assert(sel_eval(es[1], nodes) == sel_eval(eb, nodes));
    assert(eval_and_upto(es, 2, nodes) == sel_eval(es[0], nodes).difference(
        sel_eval(eb, nodes),
    ));
    assert(sel_eval(t, nodes) =~= sel_eval(ea, nodes).difference(sel_eval(eb, nodes)));
}

/// With several hoisted excludes, the effective removal set is the union of
/// their matches, not the intersection: parsing
/// `intersection: [a, exclude: [b], exclude: [d]]` yields a tree that
/// evaluates to the matches of `a` minus the union of the matches of `b`
/// and `d`.
pub proof fn law_multiple_excludes_union(
    defs: Seq<(String, SelectorDefinition)>,
    c: CompositeExpr,
    a: SelectorDefinitionValue,
    x1: ExcludeAtomExpr,
    b: SelectorDefinitionValue,
    x2: ExcludeAtomExpr,
    d: SelectorDefinitionValue,
    ea: ExprV,
    eb: ExprV,
    ed: ExprV,
    nodes: Seq<NodeV>,
)
    requires
        c.kind@.len() >= 1,
        c.kind@[0] is Intersection,
        c.kind@[0]->Intersection_0@ == seq![
            a,
            SelectorDefinitionValue::Full(SelectorExpr::Atom(AtomExpr::Exclude(x1))),
            SelectorDefinitionValue::Full(SelectorExpr::Atom(AtomExpr::Exclude(x2))),
        ],
        as_exclude_block(a) is None,
        x1.exclude@ == seq![b],
        x2.exclude@ == seq![d],
        spec_parse_definition(defs, Seq::empty(), a) == Ok::<ExprV, ErrV>(ea),
        spec_parse_definition(defs, Seq::empty(), b) == Ok::<ExprV, ErrV>(eb),
        spec_parse_definition(defs, Seq::empty(), d) == Ok::<ExprV, ErrV>(ed),
    ensures
        spec_parse_composite(defs, Seq::empty(), c) is Ok,
        sel_eval(spec_parse_composite(defs, Seq::empty(), c)->Ok_0, nodes) == sel_eval(
            ea,
            nodes,
        ).difference(sel_eval(eb, nodes).union(sel_eval(ed, nodes))),
{
    let vis = Seq::<Seq<char>>::empty();
    let values = c.kind@[0]->Intersection_0@;
    assert(values[0] == a);
    assert(as_exclude_block(values[1]) == Some(x1));
    assert(as_exclude_block(values[2]) == Some(x2));
    assert(spec_parse_defs_list(defs, vis, x1.exclude@, 0) == Ok::<Seq<ExprV>, ErrV>(
        Seq::empty(),
    ));
    assert(spec_parse_defs_list(defs, vis, x1.exclude@, 1) == Ok::<Seq<ExprV>, ErrV>(seq![eb]));
    assert(spec_parse_defs_list(defs, vis, x2.exclude@, 0) == Ok::<Seq<ExprV>, ErrV>(
        Seq::empty(),
    ));
    assert(spec_parse_defs_list(defs, vis, x2.exclude@, 1) == Ok::<Seq<ExprV>, ErrV>(seq![ed]));
    assert(spec_split_composite(defs, vis, values, 0) == Ok::<(Seq<ExprV>, Seq<ExprV>), ErrV>(
        (Seq::empty(), Seq::empty()),
    ));
    assert(spec_split_composite(defs, vis, values, 1) == Ok::<(Seq<ExprV>, Seq<ExprV>), ErrV>(
        (Seq::empty().push(ea), Seq::empty()),
    ));
    assert(spec_split_composite(defs, vis, values, 2) == Ok::<(Seq<ExprV>, Seq<ExprV>), ErrV>(
        (Seq::empty().push(ea), Seq::<ExprV>::empty().push(eb)),
    ));
    assert(spec_split_composite(defs, vis, values, 3) == Ok::<(Seq<ExprV>, Seq<ExprV>), ErrV>(
        (Seq::empty().push(ea), Seq::<ExprV>::empty().push(eb).push(ed)),
    ));
    let incs = Seq::<ExprV>::empty().push(ea);
    let excs = Seq::<ExprV>::empty().push(eb).push(ed);
    let t = spec_parse_composite(defs, vis, c)->Ok_0;
    assert(excs.len() == 2);
    assert(t == ExprV::And(seq![
        ExprV::And(incs),
        ExprV::Exclude(Box::new(ExprV::Or(excs))),
    ]));
    assert(eval_and_upto(incs, 1, nodes) == sel_eval(ea, nodes));
    assert(sel_eval(ExprV::And(incs), nodes) == sel_eval(ea, nodes));
    assert(eval_or_upto(excs, 1, nodes) == eval_or_upto(excs, 0, nodes).union(
        sel_eval(excs[0], nodes),
    ));
    assert(eval_or_upto(excs, 2, nodes) == eval_or_upto(excs, 1, nodes).union(
        sel_eval(excs[1], nodes),
    ));
    assert(sel_eval(ExprV::Or(excs), nodes) =~= sel_eval(eb, nodes).union(sel_eval(ed, nodes)));
    let es = seq![ExprV::And(incs), ExprV::Exclude(Box::new(ExprV::Or(excs)))];
    assert(eval_and_upto(es, 1, nodes) == sel_eval(es[0], nodes));
    assert(sel_eval(es[1], nodes) == sel_eval(ExprV::Or(excs), nodes));
    assert(eval_and_upto(es, 2, nodes) == sel_eval(es[0], nodes).difference(
        sel_eval(ExprV::Or(excs), nodes),
    ));
    assert(sel_eval(t, nodes) =~= sel_eval(ea, nodes).difference(
        sel_eval(eb, nodes).union(sel_eval(ed, nodes)),
    ));
}

/// Resolving `selector: name` where the registry maps `name` to a
/// definition yields exactly the parse of that definition — whatever
/// graph-relative flags or exclude list stand on the referencing atom, they
/// play no part in the result.
pub proof fn law_selector_inheritance_identity(
    defs: Seq<(String, SelectorDefinition)>,
    m: MethodAtomExpr,
    d: SelectorDefinition,
)
    requires
        m.method@ == "selector"@,
        lookup_def(defs, m.value@) == Some(d),
    ensures
        spec_parse_atom(defs, Seq::empty(), AtomExpr::Method(m)) == spec_parse_definition(
            defs,
            seq![m.value@],
            d.definition,
        ),
{
    assert(defs.len() > 0);
    assert(Seq::<Seq<char>>::empty().push(m.value@) =~= seq![m.value@]);
}

/// Selector inheritance composes: a reference to a selector that is itself a
/// reference resolves, in two steps, to the parse of the definition at the
/// end of the chain.
pub proof fn law_selector_inheritance_two_level(
    defs: Seq<(String, SelectorDefinition)>,
    m1: MethodAtomExpr,
    d1: SelectorDefinition,
    m2: MethodAtomExpr,
    d2: SelectorDefinition,
)
    requires
        m1.method@ == "selector"@,
        lookup_def(defs, m1.value@) == Some(d1),
        d1.definition == SelectorDefinitionValue::Full(
            SelectorExpr::Atom(AtomExpr::Method(m2)),
        ),
        m2.method@ == "selector"@,
        lookup_def(defs, m2.value@) == Some(d2),
        m2.value@ != m1.value@,
        defs.len() >= 2,
    ensures
        spec_parse_atom(defs, Seq::empty(), AtomExpr::Method(m1)) == spec_parse_definition(
            defs,
            seq![m1.value@, m2.value@],
            d2.definition,
        ),
{
    let v0 = Seq::<Seq<char>>::empty();
    let v1 = seq![m1.value@];
    assert(v0.push(m1.value@) =~= v1);
    assert(!v1.contains(m2.value@));
    assert(v1.push(m2.value@) =~= seq![m1.value@, m2.value@]);
    assert(defs.len() > 0);
    assert(spec_parse_atom(defs, v0, AtomExpr::Method(m1)) == spec_parse_named(
        defs,
        v0,
        m1.value@,
    ));
    assert(spec_parse_named(defs, v0, m1.value@) == spec_parse_definition(
        defs,
        v1,
        d1.definition,
    ));
    assert(spec_parse_definition(defs, v1, d1.definition) == spec_parse_expr(
        defs,
        v1,
        SelectorExpr::Atom(AtomExpr::Method(m2)),
    ));
    assert(spec_parse_expr(defs, v1, SelectorExpr::Atom(AtomExpr::Method(m2)))
        == spec_parse_atom(defs, v1, AtomExpr::Method(m2)));
    assert(spec_parse_atom(defs, v1, AtomExpr::Method(m2)) == spec_parse_named(
        defs,
        v1,
        m2.value@,
    ));
    assert(spec_parse_named(defs, v1, m2.value@) == spec_parse_definition(
        defs,
        seq![m1.value@, m2.value@],
        d2.definition,
    ));
}

/// Whether every atom of the tree carries this indirect-selection mode,
/// nested removal sets included.
pub open spec fn all_atoms_indirect(e: ExprV, mode: IndirectSelection) -> bool
    decreases e,
{
    match e {
        ExprV::Atom(c) => c.indirect == Some(mode) && match c.exclude {
            Some(b) => all_atoms_indirect(*b, mode),
            None => true,
        },
        ExprV::And(es) => all_atoms_indirect_seq(es, mode),
        ExprV::Or(es) => all_atoms_indirect_seq(es, mode),
        ExprV::Exclude(b) => all_atoms_indirect(*b, mode),
    }
}

pub open spec fn all_atoms_indirect_seq(es: Seq<ExprV>, mode: IndirectSelection) -> bool
    decreases es,
{
    if es.len() == 0 {
        true
    } else {
        all_atoms_indirect(es.last(), mode) && all_atoms_indirect_seq(es.drop_last(), mode)
    }
}

/// The propagator reaches every atom: after stamping a mode onto a tree,
/// every atom of the tree — atoms inside nested removal sets included —
/// carries that mode.
pub proof fn law_stamp_sets_every_atom(e: ExprV, mode: IndirectSelection)
    ensures
        all_atoms_indirect(stamp_expr(e, mode), mode),
    decreases e,
{
    match e {
        ExprV::Atom(c) => {
            match c.exclude {
                Some(b) => {
                    law_stamp_sets_every_atom(*b, mode);
                },
                None => {},
            }
        },
        ExprV::And(es) => {
            law_stamp_sets_every_atom_seq(es, mode);
        },
        ExprV::Or(es) => {
            law_stamp_sets_every_atom_seq(es, mode);
        },
        ExprV::Exclude(b) => {
            law_stamp_sets_every_atom(*b, mode);
        },
    }
}

proof fn law_stamp_sets_every_atom_seq(es: Seq<ExprV>, mode: IndirectSelection)
    ensures
        all_atoms_indirect_seq(stamp_exprs(es, mode), mode),
    decreases es,
{
    if es.len() > 0 {
        law_stamp_sets_every_atom(es.last(), mode);
        law_stamp_sets_every_atom_seq(es.drop_last(), mode);
        assert(stamp_exprs(es, mode).drop_last() =~= stamp_exprs(es.drop_last(), mode));
        assert(stamp_exprs(es, mode).last() == stamp_expr(es.last(), mode));
    }
}

} // verus!
