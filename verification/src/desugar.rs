//! The desugarer: a validated statement to an ordered list of SQL statement
//! strings, per clause in source order.
//!
//! A Match clause emits nothing by itself; it only binds variables to
//! patterns.  Create, Delete and Return clauses derive their predicates from
//! the pattern each referenced variable was bound to by an earlier Match.
//! For `DETACH DELETE` the edge-cleanup statement is emitted strictly before
//! the node-delete statement.  Any clause or pattern shape outside the
//! supported translation table fails with an `UnsupportedPatternError`;
//! nothing ever falls back to partial output.

use vstd::prelude::*;

use crate::ast::{Clause, ClauseV, NodePat, NodePatV, PatternGraph, PatternGraphV, RelPatV, Statement};
use crate::errors::{ClauseKind, TranslationError, TranslationErrorV};
use crate::parser::{spec_unsup, unsup_err};
use crate::sql::{
    edge_cleanup_sql, edge_delete_sql, insert_edge_sql, insert_node_sql, mk_edge_cleanup,
    mk_edge_delete, mk_insert_edge, mk_insert_node, mk_node_delete, mk_node_select, mk_rel_select,
    node_delete_sql, node_select_sql, rel_select_sql,
};

verus! {

/// The role a variable plays in the pattern graph that bound it.
#[derive(Clone, Copy, PartialEq, Eq, Structural, Debug)]
pub enum Role {
    /// The single node of a node pattern.
    NodeRole,
    /// The source node of a relationship pattern.
    SrcRole,
    /// The relationship itself.
    RelRole,
    /// The destination node of a relationship pattern.
    DstRole,
}

/// A resolved binding: the Match clause and pattern graph that bound the
/// variable, and the element it denotes.
#[verifier::ext_equal]
pub ghost struct BindingV {
    pub ci: int,
    pub gi: int,
    pub graph: PatternGraphV,
    pub role: Role,
}

/// Where `name` is bound within one pattern graph, if anywhere.
pub open spec fn graph_find(g: PatternGraphV, name: Seq<char>) -> Option<Role> {
    match g {
        PatternGraphV::Node(n) => if n.var == Some(name) {
            Some(Role::NodeRole)
        } else {
            None
        },
        PatternGraphV::Rel { src, rel, dst } => if src.var == Some(name) {
            Some(Role::SrcRole)
        } else if rel.var == Some(name) {
            Some(Role::RelRole)
        } else if dst.var == Some(name) {
            Some(Role::DstRole)
        } else {
            None
        },
    }
}

/// The first pattern graph of a list that binds `name`, with its index.
pub open spec fn graphs_find(gs: Seq<PatternGraphV>, name: Seq<char>) -> Option<
    (int, PatternGraphV, Role),
>
    decreases gs.len(),
{
    if gs.len() == 0 {
        None
    } else {
        match graph_find(gs[0], name) {
            Some(role) => Some((0, gs[0], role)),
            None => match graphs_find(gs.drop_first(), name) {
                Some(t) => Some((t.0 + 1, t.1, t.2)),
                None => None,
            },
        }
    }
}

/// The binding of `name` established by the Match clauses before clause
/// `ci`: the earliest one, since the binder rejects re-binding.
pub open spec fn find_binding(clauses: Seq<ClauseV>, ci: int, name: Seq<char>) -> Option<BindingV>
    decreases ci when 0 <= ci <= clauses.len()
{
    if ci <= 0 {
        None
    } else {
        match find_binding(clauses, ci - 1, name) {
            Some(b) => Some(b),
            None => match clauses[ci - 1] {
                ClauseV::Match(gs) => match graphs_find(gs, name) {
                    Some(t) => Some(BindingV { ci: ci - 1, gi: t.0, graph: t.1, role: t.2 }),
                    None => None,
                },
                _ => None,
            },
        }
    }
}

pub proof fn lemma_find_binding_persist(clauses: Seq<ClauseV>, j: int, jj: int, name: Seq<char>)
    requires
        0 <= j <= jj <= clauses.len(),
        find_binding(clauses, j, name) is Some,
    ensures
        find_binding(clauses, jj, name) == find_binding(clauses, j, name),
    decreases jj - j,
{
    if jj > j {
        lemma_find_binding_persist(clauses, j, jj - 1, name);
    }
}

/// The node pattern a binding denotes, when its role is a node role.
pub open spec fn binding_node(b: BindingV) -> Option<NodePatV> {
    match b.graph {
        PatternGraphV::Node(n) => if b.role == Role::NodeRole {
            Some(n)
        } else {
            None
        },
        PatternGraphV::Rel { src, rel, dst } => if b.role == Role::SrcRole {
            Some(src)
        } else if b.role == Role::DstRole {
            Some(dst)
        } else {
            None
        },
    }
}

/// Prepends already-emitted statements to the outcome of emitting the rest.
pub open spec fn sql_cat(
    pre: Seq<Seq<char>>,
    r: Result<Seq<Seq<char>>, TranslationErrorV>,
) -> Result<Seq<Seq<char>>, TranslationErrorV> {
    match r {
        Ok(rest) => Ok(pre + rest),
        Err(e) => Err(e),
    }
}

proof fn lemma_sql_cat_assoc(
    a: Seq<Seq<char>>,
    b: Seq<Seq<char>>,
    r: Result<Seq<Seq<char>>, TranslationErrorV>,
)
    ensures
        sql_cat(a, sql_cat(b, r)) == sql_cat(a + b, r),
{
    match r {
        Ok(rest) => {
            assert(a + (b + rest) =~= (a + b) + rest);
        },
        Err(_) => {},
    }
}

/// The statements emitted for deleting one variable: an edge delete for an
/// edge variable; for a node variable, the node delete, preceded (for
/// `DETACH`) by the edge-cleanup statement.
pub open spec fn spec_delete_var(
    clauses: Seq<ClauseV>,
    ci: int,
    v: Seq<char>,
    detach: bool,
) -> Result<Seq<Seq<char>>, TranslationErrorV> {
    match find_binding(clauses, ci, v) {
        None => Err(TranslationErrorV::UnboundVariableError { variable: v, clause: ClauseKind::Delete }),
        Some(b) => if b.role == Role::RelRole {
            match b.graph {
                PatternGraphV::Rel { src, rel, dst } => Ok(seq![edge_delete_sql(rel)]),
                PatternGraphV::Node(n) => Err(spec_unsup("unsupported pattern shape"@)),
            }
        } else {
            match binding_node(b) {
                Some(p) => if detach {
                    Ok(seq![edge_cleanup_sql(p), node_delete_sql(p)])
                } else {
                    Ok(seq![node_delete_sql(p)])
                },
                None => Err(spec_unsup("unsupported pattern shape"@)),
            }
        },
    }
}

/// The statements of a Delete clause: per variable, in list order.
pub open spec fn spec_delete_vars(
    clauses: Seq<ClauseV>,
    ci: int,
    vars: Seq<Seq<char>>,
    detach: bool,
) -> Result<Seq<Seq<char>>, TranslationErrorV>
    decreases vars.len(),
{
    if vars.len() == 0 {
        Ok(Seq::empty())
    } else {
        match spec_delete_var(clauses, ci, vars[0], detach) {
            Err(e) => Err(e),
            Ok(stmts) => sql_cat(stmts, spec_delete_vars(clauses, ci, vars.drop_first(), detach)),
        }
    }
}

/// Whether every Return variable is bound by the same pattern graph.
pub open spec fn return_all_same(
    clauses: Seq<ClauseV>,
    ci: int,
    vars: Seq<Seq<char>>,
    bci: int,
    bgi: int,
) -> Result<(), TranslationErrorV>
    decreases vars.len(),
{
    if vars.len() == 0 {
        Ok(())
    } else {
        match find_binding(clauses, ci, vars[0]) {
            None => Err(
                TranslationErrorV::UnboundVariableError {
                    variable: vars[0],
                    clause: ClauseKind::Return,
                },
            ),
            Some(b) => if b.ci == bci && b.gi == bgi {
                return_all_same(clauses, ci, vars.drop_first(), bci, bgi)
            } else {
                Err(spec_unsup("RETURN variables must come from one MATCH pattern"@))
            },
        }
    }
}

/// The select statement of a Return clause: over the single pattern graph
/// that bound its variables.
pub open spec fn spec_return(clauses: Seq<ClauseV>, ci: int, vars: Seq<Seq<char>>) -> Result<
    Seq<Seq<char>>,
    TranslationErrorV,
> {
    if vars.len() == 0 {
        Err(spec_unsup("empty RETURN"@))
    } else {
        match find_binding(clauses, ci, vars[0]) {
            None => Err(
                TranslationErrorV::UnboundVariableError {
                    variable: vars[0],
                    clause: ClauseKind::Return,
                },
            ),
            Some(b0) => match return_all_same(clauses, ci, vars, b0.ci, b0.gi) {
                Err(e) => Err(e),
                Ok(u) => match b0.graph {
                    PatternGraphV::Node(n) => match n.var {
                        Some(alias) => Ok(seq![node_select_sql(vars, alias, n)]),
                        None => Err(spec_unsup("unsupported pattern shape"@)),
                    },
                    PatternGraphV::Rel { src, rel, dst } => match (src.var, rel.var, dst.var) {
                        (Some(a), Some(r), Some(b)) => Ok(
                            seq![rel_select_sql(vars, a, r, b, rel, src, dst)],
                        ),
                        _ => Err(
                            spec_unsup(
                                "pattern elements in a returned relationship pattern must be named"@,
                            ),
                        ),
                    },
                },
            },
        }
    }
}

/// The statement of a relationship Create: both endpoints must be bare,
/// bound node variables; one row is inserted per matching pair.
pub open spec fn spec_create_edge(
    clauses: Seq<ClauseV>,
    ci: int,
    src: NodePatV,
    rel: RelPatV,
    dst: NodePatV,
) -> Result<Seq<Seq<char>>, TranslationErrorV> {
    if src.label is Some || src.props.len() != 0 || dst.label is Some || dst.props.len() != 0 {
        Err(spec_unsup("relationship endpoint in CREATE must be a bare variable"@))
    } else {
        match (src.var, dst.var) {
            (Some(a), Some(b)) => match find_binding(clauses, ci, a) {
                None => Err(
                    TranslationErrorV::UnboundVariableError {
                        variable: a,
                        clause: ClauseKind::Create,
                    },
                ),
                Some(ba) => match binding_node(ba) {
                    None => Err(
                        spec_unsup("relationship endpoint in CREATE must be a node variable"@),
                    ),
                    Some(apat) => match find_binding(clauses, ci, b) {
                        None => Err(
                            TranslationErrorV::UnboundVariableError {
                                variable: b,
                                clause: ClauseKind::Create,
                            },
                        ),
                        Some(bb) => match binding_node(bb) {
                            None => Err(
                                spec_unsup(
                                    "relationship endpoint in CREATE must be a node variable"@,
                                ),
                            ),
                            Some(bpat) => Ok(
                                seq![insert_edge_sql(a, apat, b, bpat, rel.rel_type)],
                            ),
                        },
                    },
                },
            },
            _ => Err(spec_unsup("relationship endpoint in CREATE must be a bound variable"@)),
        }
    }
}

/// The statements emitted for clause `ci`, per the translation table.
pub open spec fn spec_desugar_clause(clauses: Seq<ClauseV>, ci: int) -> Result<
    Seq<Seq<char>>,
    TranslationErrorV,
> {
    match clauses[ci] {
        ClauseV::Match(gs) => Ok(Seq::empty()),
        ClauseV::Create(gs) => if gs.len() != 1 {
            Err(spec_unsup("CREATE with more than one pattern"@))
        } else {
            match gs[0] {
                PatternGraphV::Node(n) => Ok(seq![insert_node_sql(n)]),
                PatternGraphV::Rel { src, rel, dst } => spec_create_edge(clauses, ci, src, rel, dst),
            }
        },
        ClauseV::Delete { vars, detach } => spec_delete_vars(clauses, ci, vars, detach),
        ClauseV::Return(vars) => spec_return(clauses, ci, vars),
    }
}

/// The statements of the clauses from `ci` on, concatenated in source
/// order; the first failing clause's error.
pub open spec fn spec_desugar_from(clauses: Seq<ClauseV>, ci: int) -> Result<
    Seq<Seq<char>>,
    TranslationErrorV,
>
    decreases clauses.len() - ci when 0 <= ci
{
    if ci >= clauses.len() {
        Ok(Seq::empty())
    } else {
        match spec_desugar_clause(clauses, ci) {
            Err(e) => Err(e),
            Ok(stmts) => sql_cat(stmts, spec_desugar_from(clauses, ci + 1)),
        }
    }
}

/// The mathematical definition of desugaring a whole statement.
pub open spec fn spec_desugar(clauses: Seq<ClauseV>) -> Result<Seq<Seq<char>>, TranslationErrorV> {
    spec_desugar_from(clauses, 0)
}

proof fn lemma_skip_step<A>(s: Seq<A>, k: int)
    requires
        0 <= k < s.len(),
    ensures
        s.skip(k)[0] == s[k],
        s.skip(k).drop_first() =~= s.skip(k + 1),
        s.skip(k).len() == s.len() - k,
{
}

proof fn lemma_take_snoc<A>(s: Seq<A>, k: int)
    requires
        0 <= k < s.len(),
    ensures
        s.take(k + 1).drop_last() =~= s.take(k),
        s.take(k + 1).last() == s[k],
        s.take(k + 1).len() == k + 1,
{
}

/// Whether an optional binding variable is exactly `name`.
fn opt_eq(o: &Option<String>, name: &String) -> (r: bool)
    ensures
        r == (o.deep_view() == Some(name@)),
{
    match o {
        Some(v) => *v == *name,
        None => false,
    }
}

/// Where `name` is bound within one pattern graph.
fn graph_find_at(g: &PatternGraph, name: &String) -> (r: Option<Role>)
    ensures
        r == graph_find(g.deep_view(), name@),
{
    match g {
        PatternGraph::Node(n) => {
            if opt_eq(&n.var, name) {
                Some(Role::NodeRole)
            } else {
                None
            }
        },
        PatternGraph::Rel { src, rel, dst } => {
            if opt_eq(&src.var, name) {
                Some(Role::SrcRole)
            } else if opt_eq(&rel.var, name) {
                Some(Role::RelRole)
            } else if opt_eq(&dst.var, name) {
                Some(Role::DstRole)
            } else {
                None
            }
        },
    }
}

/// Resolves `name` against the Match clauses before clause `ci_limit`.
fn lookup_binding(stmt: &Statement, ci_limit: usize, name: &String) -> (r: Option<
    (usize, usize, Role),
>)
    requires
        ci_limit <= stmt.clauses.len(),
    ensures
        match r {
            Some(t) => ({
                &&& t.0 < ci_limit
                &&& stmt@[t.0 as int] matches ClauseV::Match(gs)
                &&& t.1 < gs.len()
                &&& find_binding(stmt@, ci_limit as int, name@) == Some(
                    BindingV { ci: t.0 as int, gi: t.1 as int, graph: gs[t.1 as int], role: t.2 },
                )
            }),
            None => find_binding(stmt@, ci_limit as int, name@) is None,
        },
{
    let ghost cv = stmt@;
    let mut ci: usize = 0;
    while ci < ci_limit
        invariant
            ci <= ci_limit <= stmt.clauses.len(),
            cv == stmt@,
            find_binding(cv, ci as int, name@) is None,
        decreases ci_limit - ci,
    {
        match &stmt.clauses[ci] {
            Clause::Match(gs) => {
                let ghost gdv = gs.deep_view();
                proof {
                    assert(gdv.skip(0) =~= gdv);
                }
                let mut gi: usize = 0;
                while gi < gs.len()
                    invariant
                        gi <= gs.len(),
                        ci < ci_limit <= stmt.clauses.len(),
                        cv == stmt@,
                        gdv == gs.deep_view(),
                        cv[ci as int] == ClauseV::Match(gdv),
                        find_binding(cv, ci as int, name@) is None,
                        graphs_find(gdv, name@) == (match graphs_find(
                            gdv.skip(gi as int),
                            name@,
                        ) {
                            Some(t) => Some((t.0 + gi as int, t.1, t.2)),
                            None => None::<(int, PatternGraphV, Role)>,
                        }),
                    decreases gs.len() - gi,
                {
                    proof {
                        lemma_skip_step(gdv, gi as int);
                    }
                    match graph_find_at(&gs[gi], name) {
                        Some(role) => {
                            proof {
                                assert(graphs_find(gdv.skip(gi as int), name@) == Some(
                                    (0int, gdv[gi as int], role),
                                ));
                                assert(find_binding(cv, ci as int + 1, name@) == Some(
                                    BindingV {
                                        ci: ci as int,
                                        gi: gi as int,
                                        graph: gdv[gi as int],
                                        role,
                                    },
                                ));
                                lemma_find_binding_persist(
                                    cv,
                                    ci as int + 1,
                                    ci_limit as int,
                                    name@,
                                );
                            }
                            return Some((ci, gi, role));
                        },
                        None => {},
                    }
                    gi = gi + 1;
                }
                proof {
                    assert(gdv.skip(gs.len() as int) =~= Seq::<PatternGraphV>::empty());
                }
            },
            _ => {},
        }
        ci = ci + 1;
    }
    None
}

/// Fetches the node pattern a binding denotes, or the given error when the
/// binding is not a node.
fn fetch_node_pat<'a>(
    stmt: &'a Statement,
    Ghost(b): Ghost<BindingV>,
    bci: usize,
    bgi: usize,
    role: Role,
) -> (r: Option<&'a NodePat>)
    requires
        b.ci == bci as int,
        b.gi == bgi as int,
        bci < stmt.clauses.len(),
        stmt@[bci as int] matches ClauseV::Match(gs) && b.gi < gs.len() && gs[b.gi] == b.graph,
        b.role == role,
    ensures
        match r {
            Some(n) => binding_node(b) == Some(n.deep_view()),
            None => binding_node(b) is None,
        },
{
    match &stmt.clauses[bci] {
        Clause::Match(gs) => {
            match &gs[bgi] {
                PatternGraph::Node(n) => match role {
                    Role::NodeRole => Some(n),
                    _ => None,
                },
                PatternGraph::Rel { src, rel, dst } => match role {
                    Role::SrcRole => Some(src),
                    Role::DstRole => Some(dst),
                    _ => None,
                },
            }
        },
        _ => None,
    }
}

/// The statements for deleting one variable.
fn desugar_delete_var(stmt: &Statement, ci: usize, v: &String, detach: bool) -> (r: Result<
    Vec<String>,
    TranslationError,
>)
    requires
        ci <= stmt.clauses.len(),
    ensures
        match r {
            Ok(stmts) => spec_delete_var(stmt@, ci as int, v@, detach) == Ok::<
                Seq<Seq<char>>,
                TranslationErrorV,
            >(stmts.deep_view()),
            Err(e) => spec_delete_var(stmt@, ci as int, v@, detach) == Err::<
                Seq<Seq<char>>,
                TranslationErrorV,
            >(e@),
        },
{
    let ghost cv = stmt@;
    let t = match lookup_binding(stmt, ci, v) {
        Some(t) => t,
        None => {
            return Err(
                TranslationError::UnboundVariableError {
                    variable: v.clone(),
                    clause: ClauseKind::Delete,
                },
            );
        },
    };
    let ghost b = find_binding(cv, ci as int, v@)->0;
    let mut out: Vec<String> = Vec::new();
    match t.2 {
        Role::RelRole => {
            match &stmt.clauses[t.0] {
                Clause::Match(gs) => {
                    match &gs[t.1] {
                        PatternGraph::Rel { src, rel, dst } => {
                            out.push(mk_edge_delete(rel));
                            proof {
                                assert(out.deep_view() =~= seq![edge_delete_sql(rel.deep_view())]);
                            }
                            Ok(out)
                        },
                        PatternGraph::Node(_) => Err(unsup_err("unsupported pattern shape")),
                    }
                },
                _ => Err(unsup_err("unsupported pattern shape")),
            }
        },
        _ => {
            let np = match fetch_node_pat(stmt, Ghost(b), t.0, t.1, t.2) {
                Some(n) => n,
                None => {
                    return Err(unsup_err("unsupported pattern shape"));
                },
            };
            if detach {
                out.push(mk_edge_cleanup(np));
                out.push(mk_node_delete(np));
                proof {
                    assert(out.deep_view() =~= seq![
                        edge_cleanup_sql(np.deep_view()),
                        node_delete_sql(np.deep_view()),
                    ]);
                }
            } else {
                out.push(mk_node_delete(np));
                proof {
                    assert(out.deep_view() =~= seq![node_delete_sql(np.deep_view())]);
                }
            }
            Ok(out)
        },
    }
}

/// The statements of one clause, per the translation table.
fn desugar_clause(stmt: &Statement, ci: usize) -> (r: Result<Vec<String>, TranslationError>)
    requires
        ci < stmt.clauses.len(),
    ensures
        match r {
            Ok(stmts) => spec_desugar_clause(stmt@, ci as int) == Ok::<
                Seq<Seq<char>>,
                TranslationErrorV,
            >(stmts.deep_view()),
            Err(e) => spec_desugar_clause(stmt@, ci as int) == Err::<
                Seq<Seq<char>>,
                TranslationErrorV,
            >(e@),
        },
{
    let ghost cv = stmt@;
    match &stmt.clauses[ci] {
        Clause::Match(gs) => {
            let out: Vec<String> = Vec::new();
            proof {
                assert(out.deep_view() =~= Seq::<Seq<char>>::empty());
            }
            Ok(out)
        },
        Clause::Create(gs) => {
            if gs.len() != 1 {
                return Err(unsup_err("CREATE with more than one pattern"));
            }
            match &gs[0] {
                PatternGraph::Node(n) => {
                    let mut out: Vec<String> = Vec::new();
                    out.push(mk_insert_node(n));
                    proof {
                        assert(out.deep_view() =~= seq![insert_node_sql(n.deep_view())]);
                    }
                    Ok(out)
                },
                PatternGraph::Rel { src, rel, dst } => {
                    if src.label.is_some() || src.props.len() != 0 || dst.label.is_some()
                        || dst.props.len() != 0 {
                        return Err(unsup_err("relationship endpoint in CREATE must be a bare variable"));
                    }
                    let a = match &src.var {
                        Some(a) => a,
                        None => {
                            return Err(
                                unsup_err("relationship endpoint in CREATE must be a bound variable"),
                            );
                        },
                    };
                    let bvar = match &dst.var {
                        Some(b) => b,
                        None => {
                            return Err(
                                unsup_err("relationship endpoint in CREATE must be a bound variable"),
                            );
                        },
                    };
                    let ta = match lookup_binding(stmt, ci, a) {
                        Some(t) => t,
                        None => {
                            return Err(
                                TranslationError::UnboundVariableError {
                                    variable: a.clone(),
                                    clause: ClauseKind::Create,
                                },
                            );
                        },
                    };
                    let ghost ba = find_binding(cv, ci as int, a@)->0;
                    let apat = match fetch_node_pat(stmt, Ghost(ba), ta.0, ta.1, ta.2) {
                        Some(n) => n,
                        None => {
                            return Err(
                                unsup_err("relationship endpoint in CREATE must be a node variable"),
                            );
                        },
                    };
                    let tb = match lookup_binding(stmt, ci, bvar) {
                        Some(t) => t,
                        None => {
                            return Err(
                                TranslationError::UnboundVariableError {
                                    variable: bvar.clone(),
                                    clause: ClauseKind::Create,
                                },
                            );
                        },
                    };
                    let ghost bb = find_binding(cv, ci as int, bvar@)->0;
                    let bpat = match fetch_node_pat(stmt, Ghost(bb), tb.0, tb.1, tb.2) {
                        Some(n) => n,
                        None => {
                            return Err(
                                unsup_err("relationship endpoint in CREATE must be a node variable"),
                            );
                        },
                    };
                    let mut out: Vec<String> = Vec::new();
                    out.push(mk_insert_edge(a, apat, bvar, bpat, &rel.rel_type));
                    proof {
                        assert(out.deep_view() =~= seq![
                            insert_edge_sql(
                                a@,
                                apat.deep_view(),
                                bvar@,
                                bpat.deep_view(),
                                rel.deep_view().rel_type,
                            ),
                        ]);
                    }
                    Ok(out)
                },
            }
        },
        Clause::Delete { vars, detach } => {
            let ghost vdv = vars.deep_view();
            let det = *detach;
            let mut out: Vec<String> = Vec::new();
            proof {
                assert(out.deep_view() =~= Seq::<Seq<char>>::empty());
                assert(vdv.skip(0) =~= vdv);
            }
            let mut k: usize = 0;
            while k < vars.len()
                invariant
                    k <= vars.len(),
                    ci < stmt.clauses.len(),
                    cv == stmt@,
                    vdv == vars.deep_view(),
                    cv[ci as int] == (ClauseV::Delete { vars: vdv, detach: det }),
                    spec_delete_vars(cv, ci as int, vdv, det) == sql_cat(
                        out.deep_view(),
                        spec_delete_vars(cv, ci as int, vdv.skip(k as int), det),
                    ),
                decreases vars.len() - k,
            {
                let ghost pre = out.deep_view();
                proof {
                    lemma_skip_step(vdv, k as int);
                }
                let stmts = match desugar_delete_var(stmt, ci, &vars[k], det) {
                    Ok(s) => s,
                    Err(e) => {
                        return Err(e);
                    },
                };
                proof {
                    lemma_sql_cat_assoc(
                        pre,
                        stmts.deep_view(),
                        spec_delete_vars(cv, ci as int, vdv.skip(k as int + 1), det),
                    );
                }
                let mut m: usize = 0;
                while m < stmts.len()
                    invariant
                        m <= stmts.len(),
                        out.deep_view() =~= pre + stmts.deep_view().take(m as int),
                    decreases stmts.len() - m,
                {
                    let ghost prev = out.deep_view();
                    proof {
                        lemma_take_snoc(stmts.deep_view(), m as int);
                    }
                    out.push(stmts[m].clone());
                    proof {
                        assert(out.deep_view() =~= prev.push(stmts.deep_view()[m as int]));
                        assert(out.deep_view() =~= pre + stmts.deep_view().take(m as int + 1));
                    }
                    m = m + 1;
                }
                proof {
                    assert(stmts.deep_view().take(stmts.len() as int) =~= stmts.deep_view());
                    assert(out.deep_view() =~= pre + stmts.deep_view());
                }
                k = k + 1;
            }
            proof {
                assert(vdv.skip(vars.len() as int) =~= Seq::<Seq<char>>::empty());
                assert(out.deep_view() + Seq::<Seq<char>>::empty() =~= out.deep_view());
            }
            Ok(out)
        },
        Clause::Return(vars) => {
            let ghost vdv = vars.deep_view();
            if vars.len() == 0 {
                return Err(unsup_err("empty RETURN"));
            }
            let t0 = match lookup_binding(stmt, ci, &vars[0]) {
                Some(t) => t,
                None => {
                    return Err(
                        TranslationError::UnboundVariableError {
                            variable: vars[0].clone(),
                            clause: ClauseKind::Return,
                        },
                    );
                },
            };
            let ghost b0 = find_binding(cv, ci as int, vdv[0])->0;
            proof {
                assert(vdv.skip(0) =~= vdv);
            }
            let mut k: usize = 0;
            while k < vars.len()
                invariant
                    k <= vars.len(),
                    ci < stmt.clauses.len(),
                    cv == stmt@,
                    vdv == vars.deep_view(),
                    vdv.len() > 0,
                    cv[ci as int] == ClauseV::Return(vdv),
                    find_binding(cv, ci as int, vdv[0]) == Some(b0),
                    b0.ci == t0.0 as int,
                    b0.gi == t0.1 as int,
                    return_all_same(cv, ci as int, vdv, t0.0 as int, t0.1 as int)
                        == return_all_same(
                        cv,
                        ci as int,
                        vdv.skip(k as int),
                        t0.0 as int,
                        t0.1 as int,
                    ),
                decreases vars.len() - k,
            {
                proof {
                    lemma_skip_step(vdv, k as int);
                }
                match lookup_binding(stmt, ci, &vars[k]) {
                    None => {
                        return Err(
                            TranslationError::UnboundVariableError {
                                variable: vars[k].clone(),
                                clause: ClauseKind::Return,
                            },
                        );
                    },
                    Some(t) => {
                        if !(t.0 == t0.0 && t.1 == t0.1) {
                            return Err(unsup_err("RETURN variables must come from one MATCH pattern"));
                        }
                    },
                }
                k = k + 1;
            }
            proof {
                assert(vdv.skip(vars.len() as int) =~= Seq::<Seq<char>>::empty());
            }
            match &stmt.clauses[t0.0] {
                Clause::Match(gs) => {
                    match &gs[t0.1] {
                        PatternGraph::Node(n) => {
                            let alias = match &n.var {
                                Some(al) => al,
                                None => {
                                    return Err(unsup_err("unsupported pattern shape"));
                                },
                            };
                            let mut out: Vec<String> = Vec::new();
                            out.push(mk_node_select(vars, alias, n));
                            proof {
                                assert(out.deep_view() =~= seq![
                                    node_select_sql(vdv, alias@, n.deep_view()),
                                ]);
                            }
                            Ok(out)
                        },
                        PatternGraph::Rel { src, rel, dst } => {
                            let a = match &src.var {
                                Some(x) => x,
                                None => {
                                    return Err(
                                        unsup_err(
                                            "pattern elements in a returned relationship pattern must be named",
                                        ),
                                    );
                                },
                            };
                            let rr = match &rel.var {
                                Some(x) => x,
                                None => {
                                    return Err(
                                        unsup_err(
                                            "pattern elements in a returned relationship pattern must be named",
                                        ),
                                    );
                                },
                            };
                            let bb = match &dst.var {
                                Some(x) => x,
                                None => {
                                    return Err(
                                        unsup_err(
                                            "pattern elements in a returned relationship pattern must be named",
                                        ),
                                    );
                                },
                            };
                            let mut out: Vec<String> = Vec::new();
                            out.push(mk_rel_select(vars, a, rr, bb, rel, src, dst));
                            proof {
                                assert(out.deep_view() =~= seq![
                                    rel_select_sql(
                                        vdv,
                                        a@,
                                        rr@,
                                        bb@,
                                        rel.deep_view(),
                                        src.deep_view(),
                                        dst.deep_view(),
                                    ),
                                ]);
                            }
                            Ok(out)
                        },
                    }
                },
                _ => Err(unsup_err("unsupported pattern shape")),
            }
        },
    }
}

/// The desugarer: a validated statement to the ordered list of SQL
/// statement strings, per clause in source order.  Returns exactly what the
/// spec function [`spec_desugar`] computes.
pub fn desugar(stmt: &Statement) -> (r: Result<Vec<String>, TranslationError>)
    ensures
        match r {
            Ok(v) => spec_desugar(stmt@) == Ok::<Seq<Seq<char>>, TranslationErrorV>(v.deep_view()),
            Err(e) => spec_desugar(stmt@) == Err::<Seq<Seq<char>>, TranslationErrorV>(e@),
        },
{
    let ghost cv = stmt@;
    let mut out: Vec<String> = Vec::new();
    proof {
        assert(out.deep_view() =~= Seq::<Seq<char>>::empty());
    }
    let mut ci: usize = 0;
    while ci < stmt.clauses.len()
        invariant
            ci <= stmt.clauses.len(),
            cv == stmt@,
            spec_desugar(cv) == sql_cat(out.deep_view(), spec_desugar_from(cv, ci as int)),
        decreases stmt.clauses.len() - ci,
    {
        let ghost pre = out.deep_view();
        let stmts = match desugar_clause(stmt, ci) {
            Ok(v) => v,
            Err(e) => {
                return Err(e);
            },
        };
        proof {
            lemma_sql_cat_assoc(pre, stmts.deep_view(), spec_desugar_from(cv, ci as int + 1));
        }
        let mut k: usize = 0;
        while k < stmts.len()
            invariant
                k <= stmts.len(),
                out.deep_view() =~= pre + stmts.deep_view().take(k as int),
            decreases stmts.len() - k,
        {
            let ghost prev = out.deep_view();
            proof {
                lemma_take_snoc(stmts.deep_view(), k as int);
            }
            out.push(stmts[k].clone());
            proof {
                assert(out.deep_view() =~= prev.push(stmts.deep_view()[k as int]));
                assert(out.deep_view() =~= pre + stmts.deep_view().take(k as int + 1));
            }
            k = k + 1;
        }
        proof {
            assert(stmts.deep_view().take(stmts.len() as int) =~= stmts.deep_view());
            assert(out.deep_view() =~= pre + stmts.deep_view());
        }
        ci = ci + 1;
    }
    proof {
        assert(out.deep_view() + Seq::<Seq<char>>::empty() =~= out.deep_view());
    }
    Ok(out)
}

} // verus!
