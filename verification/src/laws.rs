//! Statement-level laws of the translator, proved from the spec-level
//! definitions of the pipeline stages.

use vstd::prelude::*;

use crate::ast::{ClauseV, NodePatV, RelPatV};
use crate::desugar::{
    binding_node, find_binding, spec_delete_var, spec_delete_vars, spec_desugar,
    spec_desugar_clause, spec_desugar_from,
};
use crate::errors::TranslationErrorV;
use crate::sql::{
    edge_cleanup_sql, join_with, node_delete_sql, node_preds, rel_preds, rel_select_sql, sql_str,
    star_list, where_clause,
};
use crate::spec_translate;

verus! {

/// Determinism: translation is a pure function of the query text alone.
/// Any two results that `translate`'s contract admits for the same text are
/// one and the same value, errors included.
pub proof fn lemma_translate_deterministic(
    q: Seq<char>,
    r1: Result<Seq<Seq<char>>, TranslationErrorV>,
    r2: Result<Seq<Seq<char>>, TranslationErrorV>,
)
    requires
        r1 == spec_translate(q),
        r2 == spec_translate(q),
    ensures
        r1 == r2,
{
}

/// The statements emitted by the clauses before clause `ci`, in source
/// order (meaningful when desugaring succeeds).
pub open spec fn emitted_before(clauses: Seq<ClauseV>, ci: int) -> Seq<Seq<char>>
    decreases ci when 0 <= ci
{
    if ci <= 0 {
        Seq::empty()
    } else {
        emitted_before(clauses, ci - 1) + spec_desugar_clause(clauses, ci - 1)->Ok_0
    }
}

/// The statements emitted by a Delete clause for its variables before index
/// `vi` (meaningful when desugaring succeeds).
pub open spec fn delete_emitted_before(
    clauses: Seq<ClauseV>,
    ci: int,
    vars: Seq<Seq<char>>,
    detach: bool,
    vi: int,
) -> Seq<Seq<char>>
    decreases vi when 0 <= vi
{
    if vi <= 0 {
        Seq::empty()
    } else {
        delete_emitted_before(clauses, ci, vars, detach, vi - 1) + spec_delete_var(
            clauses,
            ci,
            vars[vi - 1],
            detach,
        )->Ok_0
    }
}

proof fn lemma_desugar_prefix(clauses: Seq<ClauseV>, ci: int)
    requires
        0 <= ci <= clauses.len(),
        spec_desugar(clauses) is Ok,
    ensures
        spec_desugar_from(clauses, ci) is Ok,
        spec_desugar(clauses)->Ok_0 == emitted_before(clauses, ci) + spec_desugar_from(
            clauses,
            ci,
        )->Ok_0,
    decreases ci,
{
    if ci == 0 {
        assert(Seq::<Seq<char>>::empty() + spec_desugar_from(clauses, 0)->Ok_0
            =~= spec_desugar_from(clauses, 0)->Ok_0);
    } else {
        lemma_desugar_prefix(clauses, ci - 1);
        assert((emitted_before(clauses, ci - 1) + spec_desugar_clause(clauses, ci - 1)->Ok_0)
            + spec_desugar_from(clauses, ci)->Ok_0 =~= emitted_before(clauses, ci - 1) + (
        spec_desugar_clause(clauses, ci - 1)->Ok_0 + spec_desugar_from(clauses, ci)->Ok_0));
    }
}

proof fn lemma_delete_vars_prefix(
    clauses: Seq<ClauseV>,
    ci: int,
    vars: Seq<Seq<char>>,
    detach: bool,
    vi: int,
)
    requires
        0 <= vi <= vars.len(),
        spec_delete_vars(clauses, ci, vars, detach) is Ok,
    ensures
        spec_delete_vars(clauses, ci, vars.skip(vi), detach) is Ok,
        spec_delete_vars(clauses, ci, vars, detach)->Ok_0 == delete_emitted_before(
            clauses,
            ci,
            vars,
            detach,
            vi,
        ) + spec_delete_vars(clauses, ci, vars.skip(vi), detach)->Ok_0,
    decreases vi,
{
    if vi == 0 {
        assert(vars.skip(0) =~= vars);
        assert(Seq::<Seq<char>>::empty() + spec_delete_vars(clauses, ci, vars, detach)->Ok_0
            =~= spec_delete_vars(clauses, ci, vars, detach)->Ok_0);
    } else {
        lemma_delete_vars_prefix(clauses, ci, vars, detach, vi - 1);
        let tail = vars.skip(vi - 1);
        assert(tail.len() > 0);
        assert(tail[0] == vars[vi - 1]);
        assert(tail.drop_first() =~= vars.skip(vi));
        assert((delete_emitted_before(clauses, ci, vars, detach, vi - 1) + spec_delete_var(
            clauses,
            ci,
            vars[vi - 1],
            detach,
        )->Ok_0) + spec_delete_vars(clauses, ci, vars.skip(vi), detach)->Ok_0
            =~= delete_emitted_before(clauses, ci, vars, detach, vi - 1) + (spec_delete_var(
            clauses,
            ci,
            vars[vi - 1],
            detach,
        )->Ok_0 + spec_delete_vars(clauses, ci, vars.skip(vi), detach)->Ok_0));
    }
}

/// Ordering invariant: in any statement whose translation succeeds, a
/// `DETACH DELETE` of a node-bound variable puts its edge-delete statement
/// at a strictly smaller position in the output list than its node-delete
/// statement (here: immediately before it).
pub proof fn lemma_detach_delete_order(clauses: Seq<ClauseV>, ci: int, vi: int)
    requires
        spec_desugar(clauses) is Ok,
        0 <= ci < clauses.len(),
        clauses[ci] is Delete,
        clauses[ci]->Delete_detach == true,
        0 <= vi < clauses[ci]->Delete_vars.len(),
        find_binding(clauses, ci, clauses[ci]->Delete_vars[vi]) is Some,
        binding_node(find_binding(clauses, ci, clauses[ci]->Delete_vars[vi])->0) is Some,
    ensures
        ({
            let out = spec_desugar(clauses)->Ok_0;
            let vars = clauses[ci]->Delete_vars;
            let p = binding_node(find_binding(clauses, ci, vars[vi])->0)->0;
            let i = emitted_before(clauses, ci).len() as int + delete_emitted_before(
                clauses,
                ci,
                vars,
                true,
                vi,
            ).len() as int;
            &&& 0 <= i
            &&& i + 1 < out.len()
            &&& out[i] == edge_cleanup_sql(p)
            &&& out[i + 1] == node_delete_sql(p)
        }),
{
    let vars = clauses[ci]->Delete_vars;
    let v = vars[vi];
    let b = find_binding(clauses, ci, v)->0;
    let p = binding_node(b)->0;
    lemma_desugar_prefix(clauses, ci);
    assert(spec_desugar_clause(clauses, ci) is Ok);
    assert(spec_desugar_clause(clauses, ci) == spec_delete_vars(clauses, ci, vars, true));
    lemma_delete_vars_prefix(clauses, ci, vars, true, vi);
    let tail = vars.skip(vi);
    assert(tail[0] == vars[vi]);
    assert(spec_delete_var(clauses, ci, v, true) == Ok::<Seq<Seq<char>>, TranslationErrorV>(
        seq![edge_cleanup_sql(p), node_delete_sql(p)],
    ));
    assert(tail.drop_first() =~= vars.skip(vi + 1));
    let pre = emitted_before(clauses, ci);
    let dpre = delete_emitted_before(clauses, ci, vars, true, vi);
    let pair = seq![edge_cleanup_sql(p), node_delete_sql(p)];
    let rest1 = spec_delete_vars(clauses, ci, vars.skip(vi + 1), true)->Ok_0;
    let rest2 = spec_desugar_from(clauses, ci + 1)->Ok_0;
    let out = spec_desugar(clauses)->Ok_0;
    assert(spec_delete_vars(clauses, ci, tail, true)->Ok_0 == pair + rest1);
    assert(spec_desugar_from(clauses, ci) is Ok);
    assert(spec_desugar_from(clauses, ci)->Ok_0 == (dpre + (pair + rest1)) + rest2);
    assert(out == pre + ((dpre + (pair + rest1)) + rest2));
    let i = pre.len() as int + dpre.len() as int;
    assert(out[i] == edge_cleanup_sql(p));
    assert(out[i + 1] == node_delete_sql(p));
}

/// Join shape: the select emitted for a relationship Match is exactly the
/// select list over the returned variables, a `FROM` with exactly two
/// `JOIN` clauses on `src_id` and `dst_id`, and one `WHERE` clause holding
/// the `AND`-joined predicates, led by the `r.type` filter when the pattern
/// has a type; the `WHERE` clause is omitted entirely exactly when the
/// pattern carries no filter at all.
pub proof fn lemma_join_shape(
    vars: Seq<Seq<char>>,
    a: Seq<char>,
    r: Seq<char>,
    b: Seq<char>,
    rel: RelPatV,
    src: NodePatV,
    dst: NodePatV,
)
    ensures
        rel_select_sql(vars, a, r, b, rel, src, dst) == "SELECT "@ + star_list(vars)
            + " FROM nodes "@ + a + " JOIN edges "@ + r + " ON "@ + a + ".id = "@ + r
            + ".src_id JOIN nodes "@ + b + " ON "@ + r + ".dst_id = "@ + b + ".id"@
            + where_clause(rel_preds(a, r, b, rel, src, dst)) + ";"@,
        (rel.rel_type is None && src.label is None && src.props.len() == 0 && dst.label is None
            && dst.props.len() == 0) ==> where_clause(rel_preds(a, r, b, rel, src, dst))
            == Seq::<char>::empty(),
        rel.rel_type matches Some(t) ==> rel_preds(a, r, b, rel, src, dst)[0] == r + ".type = "@
            + sql_str(t) && where_clause(rel_preds(a, r, b, rel, src, dst)) == " WHERE "@
            + join_with(rel_preds(a, r, b, rel, src, dst), " AND "@),
{
    if rel.rel_type is None && src.label is None && src.props.len() == 0 && dst.label is None
        && dst.props.len() == 0 {
        assert(node_preds(a + "."@, src) =~= Seq::<Seq<char>>::empty());
        assert(node_preds(b + "."@, dst) =~= Seq::<Seq<char>>::empty());
        assert(rel_preds(a, r, b, rel, src, dst) =~= Seq::<Seq<char>>::empty());
    }
    match rel.rel_type {
        Some(t) => {
            assert(rel_preds(a, r, b, rel, src, dst)[0] == r + ".type = "@ + sql_str(t));
            assert(rel_preds(a, r, b, rel, src, dst).len() > 0);
        },
        None => {},
    }
}

} // verus!
