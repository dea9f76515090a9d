//! The canonical selection-expression model: a tagged-union tree of atoms,
//! intersections, unions and removal-set markers, together with its
//! mathematical view and the indirect-selection propagator.

use vstd::prelude::*;

verus! {

/// The closed enumeration of node attributes a criterion can test.
#[derive(Clone, Copy, PartialEq, Eq, Structural, Debug)]
pub enum MethodName {
    Tag,
    Fqn,
    Path,
    ResourceType,
    Package,
}

/// How dependent resources are pulled in when their parent is selected.
#[derive(Clone, Copy, PartialEq, Eq, Structural, Debug)]
pub enum IndirectSelection {
    Eager,
    Cautious,
    Buildable,
    Empty,
}

impl Default for IndirectSelection {
    fn default() -> (r: Self)
        ensures
            r == IndirectSelection::Eager,
    {
        IndirectSelection::Eager
    }
}

/// The atom payload: one method-based predicate, graph-relative expansion
/// requests, an indirect-selection mode, and an optional nested removal set.
#[derive(Debug)]
pub struct SelectionCriteria {
    pub method: MethodName,
    pub method_args: Vec<String>,
    pub value: String,
    pub childrens_parents: bool,
    pub parents_depth: Option<u32>,
    pub children_depth: Option<u32>,
    pub indirect: Option<IndirectSelection>,
    pub exclude: Option<Box<SelectExpression>>,
}

/// The canonical boolean-expression tree. `Exclude` is a removal-set marker
/// only as a direct operand of an enclosing `And`; anywhere else it denotes
/// the raw match set of its inner expression.
#[derive(Debug)]
pub enum SelectExpression {
    Atom(SelectionCriteria),
    And(Vec<SelectExpression>),
    Or(Vec<SelectExpression>),
    Exclude(Box<SelectExpression>),
}

/// Mathematical view of `SelectionCriteria`.
pub struct CriteriaV {
    pub method: MethodName,
    pub method_args: Seq<Seq<char>>,
    pub value: Seq<char>,
    pub childrens_parents: bool,
    pub parents_depth: Option<u32>,
    pub children_depth: Option<u32>,
    pub indirect: Option<IndirectSelection>,
    pub exclude: Option<Box<ExprV>>,
}

/// Mathematical view of `SelectExpression`.
pub enum ExprV {
    Atom(CriteriaV),
    And(Seq<ExprV>),
    Or(Seq<ExprV>),
    Exclude(Box<ExprV>),
}

pub open spec fn view_criteria(c: SelectionCriteria) -> CriteriaV
    decreases c,
{
    CriteriaV {
        method: c.method,
        method_args: c.method_args@.map_values(|s: String| s@),
        value: c.value@,
        childrens_parents: c.childrens_parents,
        parents_depth: c.parents_depth,
        children_depth: c.children_depth,
        indirect: c.indirect,
        exclude: match c.exclude {
            Some(b) => Some(Box::new(view_expr(*b))),
            None => None,
        },
    }
}

pub open spec fn view_expr(e: SelectExpression) -> ExprV
    decreases e,
{
    match e {
        SelectExpression::Atom(c) => ExprV::Atom(view_criteria(c)),
        SelectExpression::And(es) => ExprV::And(view_exprs(es@)),
        SelectExpression::Or(es) => ExprV::Or(view_exprs(es@)),
        SelectExpression::Exclude(b) => ExprV::Exclude(Box::new(view_expr(*b))),
    }
}

pub open spec fn view_exprs(es: Seq<SelectExpression>) -> Seq<ExprV>
    decreases es,
{
    if es.len() == 0 {
        Seq::empty()
    } else {
        view_exprs(es.drop_last()).push(view_expr(es.last()))
    }
}

impl View for SelectionCriteria {
    type V = CriteriaV;

    open spec fn view(&self) -> CriteriaV {
        view_criteria(*self)
    }
}

impl View for SelectExpression {
    type V = ExprV;

    open spec fn view(&self) -> ExprV {
        view_expr(*self)
    }
}

pub broadcast proof fn lemma_view_exprs(es: Seq<SelectExpression>)
    ensures
        (#[trigger] view_exprs(es)).len() == es.len(),
        forall|i: int| 0 <= i < es.len() ==> view_exprs(es)[i] == view_expr(es[i]),
    decreases es,
{
    if es.len() > 0 {
        lemma_view_exprs(es.drop_last());
    }
}

/// Structural size of an expression view, used as a termination measure by
/// the recursive definitions over expression trees.
pub open spec fn exprv_height(e: ExprV) -> nat
    decreases e,
{
    match e {
        ExprV::Atom(c) => match c.exclude {
            Some(b) => 1 + exprv_height(*b),
            None => 1,
        },
        ExprV::And(es) => 1 + exprsv_height(es),
        ExprV::Or(es) => 1 + exprsv_height(es),
        ExprV::Exclude(b) => 1 + exprv_height(*b),
    }
}

/// Structural size of a sequence of expression views: one more than the sum
/// of the members' sizes, so every member is strictly smaller than the whole.
pub open spec fn exprsv_height(es: Seq<ExprV>) -> nat
    decreases es,
{
    if es.len() == 0 {
        0
    } else {
        1 + exprv_height(es.first()) + exprsv_height(es.drop_first())
    }
}

pub broadcast proof fn lemma_exprsv_height(es: Seq<ExprV>, i: int)
    requires
        0 <= i < es.len(),
    ensures
        #[trigger] exprv_height(es[i]) < exprsv_height(es),
    decreases es,
{
    if i > 0 {
        lemma_exprsv_height(es.drop_first(), i - 1);
    }
}

/// What stamping a mode onto a tree means: every atom's `indirect` field is
/// overwritten with the given mode; the rest of the tree is unchanged.
pub open spec fn stamp_expr(e: ExprV, mode: IndirectSelection) -> ExprV
    decreases e,
{
    match e {
        ExprV::Atom(c) => ExprV::Atom(
            CriteriaV {
                method: c.method,
                method_args: c.method_args,
                value: c.value,
                childrens_parents: c.childrens_parents,
                parents_depth: c.parents_depth,
                children_depth: c.children_depth,
                indirect: Some(mode),
                exclude: match c.exclude {
                    Some(b) => Some(Box::new(stamp_expr(*b, mode))),
                    None => None,
                },
            },
        ),
        ExprV::And(es) => ExprV::And(stamp_exprs(es, mode)),
        ExprV::Or(es) => ExprV::Or(stamp_exprs(es, mode)),
        ExprV::Exclude(b) => ExprV::Exclude(Box::new(stamp_expr(*b, mode))),
    }
}

pub open spec fn stamp_exprs(es: Seq<ExprV>, mode: IndirectSelection) -> Seq<ExprV>
    decreases es,
{
    if es.len() == 0 {
        Seq::empty()
    } else {
        stamp_exprs(es.drop_last(), mode).push(stamp_expr(es.last(), mode))
    }
}

pub broadcast proof fn lemma_stamp_exprs(es: Seq<ExprV>, mode: IndirectSelection)
    ensures
        (#[trigger] stamp_exprs(es, mode)).len() == es.len(),
        forall|i: int| 0 <= i < es.len() ==> stamp_exprs(es, mode)[i] == stamp_expr(es[i], mode),
    decreases es,
{
    if es.len() > 0 {
        lemma_stamp_exprs(es.drop_last(), mode);
    }
}

impl SelectionCriteria {
    /// Assemble an atom payload from its parts.
    pub fn new(
        method: MethodName,
        method_args: Vec<String>,
        value: String,
        childrens_parents: bool,
        parents_depth: Option<u32>,
        children_depth: Option<u32>,
        indirect: Option<IndirectSelection>,
        exclude: Option<Box<SelectExpression>>,
    ) -> (r: SelectionCriteria)
        ensures
            r == (SelectionCriteria {
                method,
                method_args,
                value,
                childrens_parents,
                parents_depth,
                children_depth,
                indirect,
                exclude,
            }),
    {
        SelectionCriteria {
            method,
            method_args,
            value,
            childrens_parents,
            parents_depth,
            children_depth,
            indirect,
            exclude,
        }
    }
}

impl SelectExpression {
    /// Stamp `mode` onto every atom of the tree: each atom's `indirect`
    /// field is overwritten unconditionally, including atoms inside nested
    /// removal sets; the shape of the tree is unchanged.
    pub fn set_indirect_selection(&mut self, mode: IndirectSelection)
        ensures
            final(self)@ == stamp_expr(old(self)@, mode),
    {
        let mut tmp = SelectExpression::Or(Vec::new());
        core::mem::swap(self, &mut tmp);
        *self = tmp.into_stamped(mode);
    }

    fn into_stamped(self, mode: IndirectSelection) -> (r: SelectExpression)
        ensures
            r@ == stamp_expr(self@, mode),
        decreases self, 1nat,
    {
        let ghost whole = self;
        match self {
            SelectExpression::Atom(c) => {
                let SelectionCriteria {
                    method,
                    method_args,
                    value,
                    childrens_parents,
                    parents_depth,
                    children_depth,
                    indirect: _,
                    exclude,
                } = c;
                let new_exclude: Option<Box<SelectExpression>> = match exclude {
                    Some(b) => Some(Box::new((*b).into_stamped(mode))),
                    None => None,
                };
                let r = SelectExpression::Atom(
                    SelectionCriteria {
                        method,
                        method_args,
                        value,
                        childrens_parents,
                        parents_depth,
                        children_depth,
                        indirect: Some(mode),
                        exclude: new_exclude,
                    },
                );
                proof {
                    reveal_with_fuel(view_expr, 2);
                    assert(view_expr(r) == stamp_expr(view_expr(whole), mode));
                }
                r
            },
            SelectExpression::And(es) => SelectExpression::And(
                Self::into_stamped_all(es, mode, Ghost(whole)),
            ),
            SelectExpression::Or(es) => SelectExpression::Or(
                Self::into_stamped_all(es, mode, Ghost(whole)),
            ),
            SelectExpression::Exclude(b) => SelectExpression::Exclude(
                Box::new((*b).into_stamped(mode)),
            ),
        }
    }

    #[verifier::loop_isolation(false)]
    fn into_stamped_all(
        es: Vec<SelectExpression>,
        mode: IndirectSelection,
        Ghost(whole): Ghost<SelectExpression>,
    ) -> (r: Vec<SelectExpression>)
        requires
            whole == SelectExpression::And(es) || whole == SelectExpression::Or(es),
        ensures
            view_exprs(r@) == stamp_exprs(view_exprs(es@), mode),
        decreases whole, 0nat,
    {
        broadcast use lemma_view_exprs, lemma_stamp_exprs;

        let ghost orig = es@;
        let mut rest = es;
        let mut out: Vec<SelectExpression> = Vec::new();
        while rest.len() > 0
            invariant
                out@.len() + rest@.len() == orig.len(),
                rest@ == orig.skip(out@.len() as int),
                forall|i: int|
                    0 <= i < out@.len() ==> view_expr(#[trigger] out@[i]) == stamp_expr(
                        view_expr(orig[i]),
                        mode,
                    ),
            decreases rest@.len(),
        {
            let ghost k = out@.len() as int;
            let x = rest.remove(0);
            proof {
                assert(x == orig[k]);
                assert(decreases_to!(orig => orig[k]));
                match whole {
                    SelectExpression::And(v) => {
                        assert(decreases_to!(whole => v));
                        assert(decreases_to!(v => v@));
                        assert(v@ == orig);
                    },
                    SelectExpression::Or(v) => {
                        assert(decreases_to!(whole => v));
                        assert(decreases_to!(v => v@));
                        assert(v@ == orig);
                    },
                    _ => {
                        assert(false);
                    },
                }
                assert(decreases_to!(whole => x));
            }
            let y = x.into_stamped(mode);
            out.push(y);
            proof {
                assert(rest@ =~= orig.skip(out@.len() as int));
            }
        }
        proof {
            assert(view_exprs(out@) =~= stamp_exprs(view_exprs(orig), mode));
        }
        out
    }
}

} // verus!
