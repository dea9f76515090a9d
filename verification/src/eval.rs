//! The evaluator: turns a selection-expression tree and a snapshot of graph
//! nodes into the set of matching node identifiers.
//!
//! `Exclude` is interpreted as subtraction only where it stands as a direct
//! operand of an enclosing `And`; evaluated anywhere else it denotes the raw
//! match set of its inner expression. Inside an `And`, an exclude whose
//! matches are empty removes nothing: it never clears the running result.

use vstd::prelude::*;

use crate::expr::CriteriaV;
use crate::expr::ExprV;
use crate::expr::MethodName;
use crate::expr::SelectExpression;
use crate::expr::SelectionCriteria;
use crate::expr::exprsv_height;
use crate::expr::exprv_height;
use crate::expr::lemma_exprsv_height;
use crate::expr::lemma_view_exprs;
use crate::expr::view_expr;
use crate::expr::view_exprs;
use crate::text::spec_join_dot;
use crate::text::spec_matches_pattern;

verus! {

/// One addressable unit of the dependency graph, exposing the attributes a
/// selection criterion can test.
#[derive(Debug)]
pub struct Node {
    pub unique_id: String,
    pub fqn: Vec<String>,
    pub tags: Vec<String>,
    pub resource_type: String,
    pub path: String,
    pub package_name: String,
}

/// Mathematical view of `Node`.
pub struct NodeV {
    pub unique_id: Seq<char>,
    pub fqn: Seq<Seq<char>>,
    pub tags: Seq<Seq<char>>,
    pub resource_type: Seq<char>,
    pub path: Seq<char>,
    pub package_name: Seq<char>,
}

impl View for Node {
    type V = NodeV;

    open spec fn view(&self) -> NodeV {
        NodeV {
            unique_id: self.unique_id@,
            fqn: self.fqn@.map_values(|s: String| s@),
            tags: self.tags@.map_values(|s: String| s@),
            resource_type: self.resource_type@,
            path: self.path@,
            package_name: self.package_name@,
        }
    }
}

pub open spec fn nodes_view(ns: Seq<Node>) -> Seq<NodeV> {
    ns.map_values(|n: Node| n@)
}

/// Whether a node satisfies a criterion's method-value test. The criterion's
/// nested exclude plays no part here; it is applied by atom evaluation.
pub open spec fn spec_matches_criteria(c: CriteriaV, n: NodeV) -> bool {
    match c.method {
        MethodName::Tag => exists|i: int|
            0 <= i < n.tags.len() && spec_matches_pattern(n.tags[i], c.value),
        MethodName::Fqn => spec_matches_pattern(spec_join_dot(n.fqn), c.value),
        MethodName::Path => spec_matches_pattern(n.path, c.value),
        MethodName::ResourceType => n.resource_type == c.value,
        MethodName::Package => n.package_name == c.value,
    }
}

/// The identifiers of the nodes that satisfy the criterion's method-value
/// test, before the criterion's nested exclude is applied.
pub open spec fn atom_base(c: CriteriaV, nodes: Seq<NodeV>) -> Set<Seq<char>> {
    Set::new(
        |id: Seq<char>|
            exists|k: int|
                0 <= k < nodes.len() && nodes[k].unique_id == id && spec_matches_criteria(
                    c,
                    nodes[k],
                ),
    )
}

/// The set of node identifiers a selection expression denotes.
pub open spec fn sel_eval(e: ExprV, nodes: Seq<NodeV>) -> Set<Seq<char>>
    decreases exprv_height(e), 0nat,
{
    match e {
        ExprV::Atom(c) => match c.exclude {
            Some(b) => atom_base(c, nodes).difference(sel_eval(*b, nodes)),
            None => atom_base(c, nodes),
        },
        ExprV::And(es) => if es.len() == 0 {
            Set::empty()
        } else {
            eval_and_upto(es, es.len() as int, nodes)
        },
        ExprV::Or(es) => eval_or_upto(es, es.len() as int, nodes),
        ExprV::Exclude(b) => sel_eval(*b, nodes),
    }
}

/// The running result after the first `i` operands of an `And` (for
/// `1 <= i <= es.len()`): the first operand's matches seeded, then each
/// further operand's matches subtracted where the operand is an `Exclude`
/// and intersected otherwise. An exclude whose matches are empty therefore
/// leaves the running result unchanged.
pub open spec fn eval_and_upto(es: Seq<ExprV>, i: int, nodes: Seq<NodeV>) -> Set<Seq<char>>
    decreases exprsv_height(es), i,
    via eval_and_upto_dec
{
    if es.len() == 0 {
        Set::empty()
    } else if i <= 1 || i > es.len() {
        sel_eval(es[0], nodes)
    } else {
        let prev = eval_and_upto(es, i - 1, nodes);
        let matched = sel_eval(es[i - 1], nodes);
        if es[i - 1] is Exclude {
            prev.difference(matched)
        } else {
            prev.intersect(matched)
        }
    }
}

#[via_fn]
proof fn eval_and_upto_dec(es: Seq<ExprV>, i: int, nodes: Seq<NodeV>) {
    if es.len() > 0 {
        lemma_exprsv_height(es, 0);
        if 1 < i <= es.len() {
            lemma_exprsv_height(es, i - 1);
        }
    }
}

/// The union of the matches of the first `i` operands of an `Or`.
pub open spec fn eval_or_upto(es: Seq<ExprV>, i: int, nodes: Seq<NodeV>) -> Set<Seq<char>>
    decreases exprsv_height(es), i,
    via eval_or_upto_dec
{
    if i <= 0 || i > es.len() {
        Set::empty()
    } else {
        eval_or_upto(es, i - 1, nodes).union(sel_eval(es[i - 1], nodes))
    }
}

#[via_fn]
proof fn eval_or_upto_dec(es: Seq<ExprV>, i: int, nodes: Seq<NodeV>) {
    if 0 < i <= es.len() {
        lemma_exprsv_height(es, i - 1);
    }
}

/// The set of identifier views held by a vector of identifiers.
pub open spec fn id_set(v: Seq<String>) -> Set<Seq<char>> {
    Set::new(|id: Seq<char>| exists|i: int| 0 <= i < v.len() && v[i]@ == id)
}

/// No identifier occurs twice in the vector.
pub open spec fn ids_distinct(v: Seq<String>) -> bool {
    forall|i: int, j: int| 0 <= i < j < v.len() ==> v[i]@ != v[j]@
}

/// Extending a prefix by one element extends its identifier set by that
/// element's view.
proof fn lemma_id_set_take_step(v: Seq<String>, i: int)
    requires
        0 <= i < v.len(),
    ensures
        id_set(v.take(i + 1)) == id_set(v.take(i)).insert(v[i]@),
{
    assert forall|id: Seq<char>|
        id_set(v.take(i + 1)).contains(id) implies id_set(v.take(i)).insert(
        v[i]@,
    ).contains(id) by {
        let k = choose|k: int| 0 <= k < i + 1 && (#[trigger] v.take(i + 1)[k])@ == id;
        if k < i {
            assert(v.take(i)[k]@ == id);
        }
    }
    assert forall|id: Seq<char>|
        id_set(v.take(i)).insert(v[i]@).contains(id) implies id_set(
        v.take(i + 1),
    ).contains(id) by {
        if id_set(v.take(i)).contains(id) {
            let k = choose|k: int| 0 <= k < i && (#[trigger] v.take(i)[k])@ == id;
            assert(v.take(i + 1)[k]@ == id);
        } else {
            assert(v.take(i + 1)[i]@ == id);
        }
    }
    assert(id_set(v.take(i + 1)) =~= id_set(v.take(i)).insert(v[i]@));
}

/// Pushing an identifier that the vector does not yet hold keeps the
/// identifiers distinct and inserts the identifier's view into the set.
proof fn lemma_id_set_push(v: Seq<String>, s: String)
    ensures
        id_set(v.push(s)) == id_set(v).insert(s@),
        ids_distinct(v) && !id_set(v).contains(s@) ==> ids_distinct(v.push(s)),
{
    assert forall|id: Seq<char>|
        id_set(v.push(s)).contains(id) implies id_set(v).insert(s@).contains(id) by {
        let k = choose|k: int| 0 <= k < v.len() + 1 && (#[trigger] v.push(s)[k])@ == id;
        if k < v.len() {
            assert(v[k]@ == id);
        }
    }
    assert forall|id: Seq<char>|
        id_set(v).insert(s@).contains(id) implies id_set(v.push(s)).contains(id) by {
        if id_set(v).contains(id) {
            let k = choose|k: int| 0 <= k < v.len() && (#[trigger] v[k])@ == id;
            assert(v.push(s)[k]@ == id);
        } else {
            assert(v.push(s)[v.len() as int]@ == id);
        }
    }
    assert(id_set(v.push(s)) =~= id_set(v).insert(s@));
    if ids_distinct(v) && !id_set(v).contains(s@) {
        assert forall|i: int, j: int|
            0 <= i < j < v.push(s).len() implies v.push(s)[i]@ != v.push(s)[j]@ by {
            if j == v.len() {
                assert(v[i]@ != s@);
            }
        }
    }
}

/// Whether the vector holds an identifier with this view.
fn contains_id(v: &Vec<String>, id: &String) -> (r: bool)
    ensures
        r == id_set(v@).contains(id@),
{
    let mut i: usize = 0;
    while i < v.len()
        invariant
            0 <= i <= v@.len(),
            forall|j: int| 0 <= j < i ==> v@[j]@ != id@,
        decreases v@.len() - i,
    {
        if crate::text::str_eq(v[i].as_str(), id.as_str()) {
            proof {
                assert(v@[i as int]@ == id@);
            }
            return true;
        }
        i += 1;
    }
    false
}

/// Keep the identifiers of `a` that are not in `b`.
fn set_difference(a: Vec<String>, b: &Vec<String>) -> (r: Vec<String>)
    requires
        ids_distinct(a@),
    ensures
        id_set(r@) == id_set(a@).difference(id_set(b@)),
        ids_distinct(r@),
{
    let mut out: Vec<String> = Vec::new();
    let mut i: usize = 0;
    while i < a.len()
        invariant
            0 <= i <= a@.len(),
            ids_distinct(a@),
            ids_distinct(out@),
            id_set(out@) == id_set(a@.take(i as int)).difference(id_set(b@)),
        decreases a@.len() - i,
    {
        let keep = !contains_id(b, &a[i]);
        proof {
            lemma_id_set_take_step(a@, i as int);
            if id_set(out@).contains(a@[i as int]@) {
                let k = choose|k: int| 0 <= k < i && (#[trigger] a@.take(i as int)[k])@ == a@[i as int]@;
                assert(a@[k]@ == a@[i as int]@);
                assert(false);
            }
        }
        if keep {
            let ghost out0 = out@;
            out.push(a[i].clone());
            proof {
                lemma_id_set_push(out0, a@[i as int]);
                assert(id_set(out@) =~= id_set(a@.take(i + 1)).difference(id_set(b@)));
            }
        } else {
            proof {
                assert(id_set(out@) =~= id_set(a@.take(i + 1)).difference(id_set(b@)));
            }
        }
        i += 1;
    }
    proof {
        assert(a@.take(a@.len() as int) =~= a@);
    }
    out
}

/// Keep the identifiers of `a` that are also in `b`.
fn set_intersect(a: Vec<String>, b: &Vec<String>) -> (r: Vec<String>)
    requires
        ids_distinct(a@),
    ensures
        id_set(r@) == id_set(a@).intersect(id_set(b@)),
        ids_distinct(r@),
{
    let mut out: Vec<String> = Vec::new();
    let mut i: usize = 0;
    while i < a.len()
        invariant
            0 <= i <= a@.len(),
            ids_distinct(a@),
            ids_distinct(out@),
            id_set(out@) == id_set(a@.take(i as int)).intersect(id_set(b@)),
        decreases a@.len() - i,
    {
        let keep = contains_id(b, &a[i]);
        proof {
            lemma_id_set_take_step(a@, i as int);
            if id_set(out@).contains(a@[i as int]@) {
                let k = choose|k: int| 0 <= k < i && (#[trigger] a@.take(i as int)[k])@ == a@[i as int]@;
                assert(a@[k]@ == a@[i as int]@);
                assert(false);
            }
        }
        if keep {
            let ghost out0 = out@;
            out.push(a[i].clone());
            proof {
                lemma_id_set_push(out0, a@[i as int]);
                assert(id_set(out@) =~= id_set(a@.take(i + 1)).intersect(id_set(b@)));
            }
        } else {
            proof {
                assert(id_set(out@) =~= id_set(a@.take(i + 1)).intersect(id_set(b@)));
            }
        }
        i += 1;
    }
    proof {
        assert(a@.take(a@.len() as int) =~= a@);
    }
    out
}

/// Add to `out` every identifier of `add` that it does not already hold.
fn extend_union(out: &mut Vec<String>, add: &Vec<String>)
    requires
        ids_distinct(old(out)@),
    ensures
        id_set(final(out)@) == id_set(old(out)@).union(id_set(add@)),
        ids_distinct(final(out)@),
{
    let mut i: usize = 0;
    while i < add.len()
        invariant
            0 <= i <= add@.len(),
            ids_distinct(out@),
            id_set(out@) == id_set(old(out)@).union(id_set(add@.take(i as int))),
        decreases add@.len() - i,
    {
        let absent = !contains_id(out, &add[i]);
        proof {
            lemma_id_set_take_step(add@, i as int);
        }
        if absent {
            let ghost out0 = out@;
            out.push(add[i].clone());
            proof {
                lemma_id_set_push(out0, add@[i as int]);
                assert(id_set(out@) =~= id_set(old(out)@).union(id_set(add@.take(i + 1))));
            }
        } else {
            proof {
                assert(id_set(out@) =~= id_set(old(out)@).union(id_set(add@.take(i + 1))));
            }
        }
        i += 1;
    }
    proof {
        assert(add@.take(add@.len() as int) =~= add@);
    }
}

impl Node {
    /// Whether `value` matches `pattern`: a pattern with exactly one `*`
    /// matches when its part before the `*` is a prefix of the value and its
    /// part after the `*` is a suffix; any other pattern matches by exact
    /// equality.
    pub fn matches_pattern(&self, value: &str, pattern: &str) -> (r: bool)
        ensures
            r == spec_matches_pattern(value@, pattern@),
    {
        crate::text::matches_pattern_str(value, pattern)
    }

    /// Whether this node satisfies the criterion's method-value test; the
    /// criterion's nested exclude plays no part here.
    #[verifier::loop_isolation(false)]
    pub fn matches_criteria(&self, criteria: &SelectionCriteria) -> (r: bool)
        ensures
            r == spec_matches_criteria(criteria@, self@),
    {
        match criteria.method {
            MethodName::Tag => {
                let mut i: usize = 0;
                while i < self.tags.len()
                    invariant
                        0 <= i <= self.tags@.len(),
                        forall|j: int|
                            0 <= j < i ==> !spec_matches_pattern(
                                self@.tags[j],
                                criteria@.value,
                            ),
                    decreases self.tags@.len() - i,
                {
                    if self.matches_pattern(self.tags[i].as_str(), criteria.value.as_str()) {
                        proof {
                            assert(self@.tags[i as int] == self.tags@[i as int]@);
                        }
                        return true;
                    }
                    i += 1;
                }
                false
            },
            MethodName::Fqn => {
                let joined = crate::text::join_dot(&self.fqn);
                self.matches_pattern(joined.as_str(), criteria.value.as_str())
            },
            MethodName::Path => self.matches_pattern(
                self.path.as_str(),
                criteria.value.as_str(),
            ),
            MethodName::ResourceType => crate::text::str_eq(
                self.resource_type.as_str(),
                criteria.value.as_str(),
            ),
            MethodName::Package => crate::text::str_eq(
                self.package_name.as_str(),
                criteria.value.as_str(),
            ),
        }
    }
}

/// Adding one node to the snapshot prefix adds its identifier to the atom's
/// base matches exactly when the node satisfies the criterion.
proof fn lemma_atom_base_take_step(c: CriteriaV, nodes: Seq<NodeV>, i: int)
    requires
        0 <= i < nodes.len(),
    ensures
        atom_base(c, nodes.take(i + 1)) == if spec_matches_criteria(c, nodes[i]) {
            atom_base(c, nodes.take(i)).insert(nodes[i].unique_id)
        } else {
            atom_base(c, nodes.take(i))
        },
{
    let with = atom_base(c, nodes.take(i + 1));
    let without = atom_base(c, nodes.take(i));
    assert forall|id: Seq<char>| with.contains(id) implies (without.contains(id)
        || (spec_matches_criteria(c, nodes[i]) && nodes[i].unique_id == id)) by {
        let k = choose|k: int|
            0 <= k < i + 1 && (#[trigger] nodes.take(i + 1)[k]).unique_id == id
                && spec_matches_criteria(c, nodes.take(i + 1)[k]);
        if k < i {
            assert(nodes.take(i)[k] == nodes[k]);
        }
    }
    assert forall|id: Seq<char>| without.contains(id) implies with.contains(id) by {
        let k = choose|k: int|
            0 <= k < i && (#[trigger] nodes.take(i)[k]).unique_id == id
                && spec_matches_criteria(c, nodes.take(i)[k]);
        assert(nodes.take(i + 1)[k] == nodes[k]);
    }
    if spec_matches_criteria(c, nodes[i]) {
        assert(nodes.take(i + 1)[i] == nodes[i]);
        assert(with =~= without.insert(nodes[i].unique_id));
    } else {
        assert(with =~= without);
    }
}

/// Collect the identifiers of the nodes that satisfy the criterion, then
/// remove every identifier matched by the criterion's nested exclude, when
/// one is present — unconditionally, regardless of where the atom sits.
#[verifier::loop_isolation(false)]
pub fn evaluate_atom(criteria: &SelectionCriteria, all_nodes: &Vec<Node>) -> (r: Vec<String>)
    ensures
        id_set(r@) == sel_eval(ExprV::Atom(criteria@), nodes_view(all_nodes@)),
        ids_distinct(r@),
    decreases exprv_height(ExprV::Atom(criteria@)), 0nat,
{
    let ghost cv = criteria@;
    let ghost nv = nodes_view(all_nodes@);
    let mut result: Vec<String> = Vec::new();
    let mut i: usize = 0;
    proof {
        assert(atom_base(cv, nv.take(0)) =~= Set::empty());
        assert(id_set(result@) =~= Set::<Seq<char>>::empty());
    }
    while i < all_nodes.len()
        invariant
            0 <= i <= all_nodes@.len(),
            ids_distinct(result@),
            id_set(result@) == atom_base(cv, nv.take(i as int)),
        decreases all_nodes@.len() - i,
    {
        let n = &all_nodes[i];
        let m = n.matches_criteria(criteria);
        proof {
            assert(nv[i as int] == all_nodes@[i as int]@);
            lemma_atom_base_take_step(cv, nv, i as int);
        }
        if m {
            let dup = contains_id(&result, &n.unique_id);
            if !dup {
                let ghost r0 = result@;
                result.push(n.unique_id.clone());
                proof {
                    lemma_id_set_push(r0, all_nodes@[i as int].unique_id);
                    assert(id_set(result@) =~= atom_base(cv, nv.take(i + 1)));
                }
            } else {
                proof {
                    assert(id_set(result@) =~= atom_base(cv, nv.take(i + 1)));
                }
            }
        } else {
            proof {
                assert(id_set(result@) =~= atom_base(cv, nv.take(i + 1)));
            }
        }
        i += 1;
    }
    proof {
        assert(nv.take(nv.len() as int) =~= nv);
    }
    match &criteria.exclude {
        Some(b) => {
            proof {
                assert(cv.exclude == Some(Box::new(view_expr(**b))));
                assert(exprv_height(ExprV::Atom(cv)) == 1 + exprv_height(view_expr(**b)));
            }
            let excluded = evaluate_select_expression(b, all_nodes);
            set_difference(result, &excluded)
        },
        None => result,
    }
}

/// Evaluate the operands of an `And` left to right: the first operand's
/// matches seed the running result; each later operand's matches are
/// subtracted where the operand is an `Exclude` (so an exclude matching
/// nothing removes nothing) and intersected otherwise. An empty operand
/// list denotes the empty set.
#[verifier::loop_isolation(false)]
pub fn evaluate_and(exprs: &Vec<SelectExpression>, all_nodes: &Vec<Node>) -> (r: Vec<String>)
    ensures
        id_set(r@) == sel_eval(ExprV::And(view_exprs(exprs@)), nodes_view(all_nodes@)),
        ids_distinct(r@),
    decreases exprsv_height(view_exprs(exprs@)), 0nat,
{
    let ghost es_v = view_exprs(exprs@);
    let ghost nv = nodes_view(all_nodes@);
    proof {
        lemma_view_exprs(exprs@);
    }
    if exprs.len() == 0 {
        let r: Vec<String> = Vec::new();
        proof {
            assert(id_set(r@) =~= Set::<Seq<char>>::empty());
        }
        return r;
    }
    proof {
        lemma_exprsv_height(es_v, 0);
    }
    let mut result = evaluate_select_expression(&exprs[0], all_nodes);
    let mut i: usize = 1;
    while i < exprs.len()
        invariant
            1 <= i <= exprs@.len(),
            ids_distinct(result@),
            id_set(result@) == eval_and_upto(es_v, i as int, nv),
        decreases exprs@.len() - i,
    {
        proof {
            lemma_exprsv_height(es_v, i as int);
        }
        let matched = evaluate_select_expression(&exprs[i], all_nodes);
        result = match &exprs[i] {
            SelectExpression::Exclude(_) => {
                proof {
                    assert(es_v[i as int] is Exclude);
                }
                set_difference(result, &matched)
            },
            _ => {
                proof {
                    assert(!(es_v[i as int] is Exclude));
                }
                set_intersect(result, &matched)
            },
        };
        i += 1;
    }
    result
}

/// Evaluate each operand of an `Or` against the full node snapshot and
/// return the union of their matches. An empty operand list denotes the
/// empty set.
#[verifier::loop_isolation(false)]
pub fn evaluate_or(exprs: &Vec<SelectExpression>, all_nodes: &Vec<Node>) -> (r: Vec<String>)
    ensures
        id_set(r@) == sel_eval(ExprV::Or(view_exprs(exprs@)), nodes_view(all_nodes@)),
        ids_distinct(r@),
    decreases exprsv_height(view_exprs(exprs@)), 0nat,
{
    let ghost es_v = view_exprs(exprs@);
    let ghost nv = nodes_view(all_nodes@);
    proof {
        lemma_view_exprs(exprs@);
    }
    let mut result: Vec<String> = Vec::new();
    proof {
        assert(id_set(result@) =~= eval_or_upto(es_v, 0, nv));
    }
    let mut i: usize = 0;
    while i < exprs.len()
        invariant
            0 <= i <= exprs@.len(),
            ids_distinct(result@),
            id_set(result@) == eval_or_upto(es_v, i as int, nv),
        decreases exprs@.len() - i,
    {
        proof {
            lemma_exprsv_height(es_v, i as int);
        }
        let matched = evaluate_select_expression(&exprs[i], all_nodes);
        extend_union(&mut result, &matched);
        i += 1;
    }
    result
}

/// Evaluate an `Exclude` marker: return the inner expression's matches
/// as-is — this is intentionally not a complement. Only an enclosing `And`
/// interprets the returned set as identifiers to remove.
pub fn evaluate_exclude(inner_expr: &SelectExpression, all_nodes: &Vec<Node>) -> (r: Vec<String>)
    ensures
        id_set(r@) == sel_eval(inner_expr@, nodes_view(all_nodes@)),
        ids_distinct(r@),
    decreases exprv_height(inner_expr@) + 1, 0nat,
{
    evaluate_select_expression(inner_expr, all_nodes)
}

/// Evaluate a selection expression against a snapshot of nodes, returning
/// the matching node identifiers with no duplicates.
pub fn evaluate_select_expression(expr: &SelectExpression, all_nodes: &Vec<Node>) -> (r: Vec<
    String,
>)
    ensures
        id_set(r@) == sel_eval(expr@, nodes_view(all_nodes@)),
        ids_distinct(r@),
    decreases exprv_height(expr@), 1nat,
{
    match expr {
        SelectExpression::Atom(criteria) => evaluate_atom(criteria, all_nodes),
        SelectExpression::And(exprs) => evaluate_and(exprs, all_nodes),
        SelectExpression::Or(exprs) => evaluate_or(exprs, all_nodes),
        SelectExpression::Exclude(inner_expr) => evaluate_exclude(inner_expr, all_nodes),
    }
}

} // verus!
