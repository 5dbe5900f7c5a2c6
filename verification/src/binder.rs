//! The binder: a pure validation pass over the clause sequence, in source
//! order, maintaining the set of variables bound so far.
//!
//! Match clauses add their patterns' variables to the bound set; re-binding
//! an already-bound variable (in a later Match, or by a Create node pattern)
//! is rejected, since this subset has no notion of graph traversal
//! continuation.  Every variable referenced by a Delete or Return clause,
//! and every relationship endpoint of a Create clause, must already be in
//! the bound set, else an `UnboundVariableError` names the clause and the
//! variable.  The binder rewrites nothing; it runs before desugaring.

use vstd::prelude::*;

use crate::ast::{Clause, ClauseV, PatternGraph, PatternGraphV, Statement};
use crate::errors::{ClauseKind, TranslationError, TranslationErrorV};
use crate::parser::spec_unsup;

verus! {

/// The singleton sequence of a pattern element's binding variable, if any.
pub open spec fn opt_var(o: Option<Seq<char>>) -> Seq<Seq<char>> {
    match o {
        Some(v) => seq![v],
        None => Seq::empty(),
    }
}

/// The binding variables of one pattern graph, in source order.
pub open spec fn graph_vars(g: PatternGraphV) -> Seq<Seq<char>> {
    match g {
        PatternGraphV::Node(n) => opt_var(n.var),
        PatternGraphV::Rel { src, rel, dst } => opt_var(src.var) + opt_var(rel.var) + opt_var(
            dst.var,
        ),
    }
}

/// The binding variables of a pattern-graph list, in source order.
pub open spec fn graphs_vars(gs: Seq<PatternGraphV>) -> Seq<Seq<char>>
    decreases gs.len(),
{
    if gs.len() == 0 {
        Seq::empty()
    } else {
        graphs_vars(gs.drop_last()) + graph_vars(gs.last())
    }
}

/// The variables a clause adds to the bound set: only Match clauses bind.
pub open spec fn clause_bound_vars(c: ClauseV) -> Seq<Seq<char>> {
    match c {
        ClauseV::Match(gs) => graphs_vars(gs),
        _ => Seq::empty(),
    }
}

/// The set of variables bound by the Match clauses before clause `ci`.
pub open spec fn bound_before(clauses: Seq<ClauseV>, ci: int) -> Seq<Seq<char>>
    decreases ci when 0 <= ci <= clauses.len()
{
    if ci <= 0 {
        Seq::empty()
    } else {
        bound_before(clauses, ci - 1) + clause_bound_vars(clauses[ci - 1])
    }
}

/// Whether `v` occurs among `names`.
pub open spec fn name_in(names: Seq<Seq<char>>, v: Seq<char>) -> bool {
    exists|k: int| 0 <= k < names.len() && names[k] == v
}

/// Whether some variable of `vs` is already in `bound`, or repeats an
/// earlier variable of `vs` itself.
pub open spec fn has_rebind(bound: Seq<Seq<char>>, vs: Seq<Seq<char>>) -> bool {
    exists|k: int|
        0 <= k < vs.len() && (name_in(bound, #[trigger] vs[k]) || name_in(vs.take(k), vs[k]))
}

/// The first variable of `vars` not in `bound`, if any.
pub open spec fn first_unbound(bound: Seq<Seq<char>>, vars: Seq<Seq<char>>) -> Option<Seq<char>>
    decreases vars.len(),
{
    if vars.len() == 0 {
        None
    } else if !name_in(bound, vars[0]) {
        Some(vars[0])
    } else {
        first_unbound(bound, vars.drop_first())
    }
}

/// Validity of one Create pattern graph against the bound set: a node
/// pattern may introduce a fresh variable; a relationship's endpoints must
/// be bound variables; a relationship variable must be fresh.
pub open spec fn bind_create_graph(bound: Seq<Seq<char>>, g: PatternGraphV) -> Result<
    (),
    TranslationErrorV,
> {
    match g {
        PatternGraphV::Node(n) => match n.var {
            Some(v) => if name_in(bound, v) {
                Err(spec_unsup("variable rebound by CREATE"@))
            } else {
                Ok(())
            },
            None => Ok(()),
        },
        PatternGraphV::Rel { src, rel, dst } => match src.var {
            None => Err(spec_unsup("relationship endpoint in CREATE must be a bound variable"@)),
            Some(sv) => if !name_in(bound, sv) {
                Err(TranslationErrorV::UnboundVariableError { variable: sv, clause: ClauseKind::Create })
            } else {
                match dst.var {
                    None => Err(
                        spec_unsup("relationship endpoint in CREATE must be a bound variable"@),
                    ),
                    Some(dv) => if !name_in(bound, dv) {
                        Err(
                            TranslationErrorV::UnboundVariableError {
                                variable: dv,
                                clause: ClauseKind::Create,
                            },
                        )
                    } else {
                        match rel.var {
                            Some(rv) => if name_in(bound, rv) {
                                Err(spec_unsup("variable rebound by CREATE"@))
                            } else {
                                Ok(())
                            },
                            None => Ok(()),
                        }
                    },
                }
            },
        },
    }
}

/// Validity of a Create clause's graphs, first failure first.
pub open spec fn bind_create_graphs(bound: Seq<Seq<char>>, gs: Seq<PatternGraphV>) -> Result<
    (),
    TranslationErrorV,
>
    decreases gs.len(),
{
    if gs.len() == 0 {
        Ok(())
    } else {
        match bind_create_graph(bound, gs[0]) {
            Err(e) => Err(e),
            Ok(u) => bind_create_graphs(bound, gs.drop_first()),
        }
    }
}

/// Validity of clause `ci` against the variables bound before it.
pub open spec fn spec_bind_clause(clauses: Seq<ClauseV>, ci: int) -> Result<
    (),
    TranslationErrorV,
> {
    let bound = bound_before(clauses, ci);
    match clauses[ci] {
        ClauseV::Match(gs) => if has_rebind(bound, graphs_vars(gs)) {
            Err(spec_unsup("variable rebound by a later MATCH"@))
        } else {
            Ok(())
        },
        ClauseV::Create(gs) => bind_create_graphs(bound, gs),
        ClauseV::Delete { vars, detach } => match first_unbound(bound, vars) {
            Some(v) => Err(
                TranslationErrorV::UnboundVariableError { variable: v, clause: ClauseKind::Delete },
            ),
            None => Ok(()),
        },
        ClauseV::Return(vars) => match first_unbound(bound, vars) {
            Some(v) => Err(
                TranslationErrorV::UnboundVariableError { variable: v, clause: ClauseKind::Return },
            ),
            None => Ok(()),
        },
    }
}

/// Validity of the clauses from `ci` on, first failure first.
pub open spec fn spec_bind_from(clauses: Seq<ClauseV>, ci: int) -> Result<(), TranslationErrorV>
    decreases clauses.len() - ci when 0 <= ci
{
    if ci >= clauses.len() {
        Ok(())
    } else {
        match spec_bind_clause(clauses, ci) {
            Err(e) => Err(e),
            Ok(u) => spec_bind_from(clauses, ci + 1),
        }
    }
}

/// The mathematical definition of binding validation of a whole statement.
pub open spec fn spec_bind(clauses: Seq<ClauseV>) -> Result<(), TranslationErrorV> {
    spec_bind_from(clauses, 0)
}

proof fn lemma_skip_step<A>(s: Seq<A>, k: int)
    requires
        0 <= k < s.len(),
    ensures
        s.skip(k)[0] == s[k],
        s.skip(k).drop_first() =~= s.skip(k + 1),
        s.skip(k).len() == s.len() - k,
{
}

proof fn lemma_take_snoc<A>(s: Seq<A>, k: int)
    requires
        0 <= k < s.len(),
    ensures
        s.take(k + 1).drop_last() =~= s.take(k),
        s.take(k + 1).last() == s[k],
{
}

/// Whether `x` occurs among the names of `v`.
fn contains_name(v: &Vec<String>, x: &String) -> (r: bool)
    ensures
        r == name_in(v.deep_view(), x@),
{
    let mut k: usize = 0;
    while k < v.len()
        invariant
            k <= v.len(),
            forall|m: int| 0 <= m < k ==> v.deep_view()[m] != x@,
        decreases v.len() - k,
    {
        if v[k] == *x {
            assert(v.deep_view()[k as int] == x@);
            return true;
        }
        k = k + 1;
    }
    false
}

/// Appends the binding variables of `g` to `out`.
fn push_graph_vars(out: &mut Vec<String>, g: &PatternGraph)
    ensures
        final(out).deep_view() =~= old(out).deep_view() + graph_vars(g.deep_view()),
{
    let ghost pre = out.deep_view();
    match g {
        PatternGraph::Node(n) => {
            match &n.var {
                Some(v) => {
                    out.push(v.clone());
                    proof {
                        assert(out.deep_view() =~= pre + graph_vars(g.deep_view()));
                    }
                },
                None => {
                    proof {
                        assert(out.deep_view() =~= pre + graph_vars(g.deep_view()));
                    }
                },
            }
        },
        PatternGraph::Rel { src, rel, dst } => {
            match &src.var {
                Some(v) => {
                    out.push(v.clone());
                },
                None => {},
            }
            match &rel.var {
                Some(v) => {
                    out.push(v.clone());
                },
                None => {},
            }
            match &dst.var {
                Some(v) => {
                    out.push(v.clone());
                },
                None => {},
            }
            proof {
                assert(out.deep_view() =~= pre + graph_vars(g.deep_view()));
            }
        },
    }
}

/// The binding variables of a Match clause's graphs, in source order.
fn collect_graphs_vars(gs: &Vec<PatternGraph>) -> (out: Vec<String>)
    ensures
        out.deep_view() == graphs_vars(gs.deep_view()),
{
    let ghost gdv = gs.deep_view();
    let mut out: Vec<String> = Vec::new();
    proof {
        assert(out.deep_view() =~= Seq::<Seq<char>>::empty());
        assert(gdv.take(0) =~= Seq::<PatternGraphV>::empty());
    }
    let mut k: usize = 0;
    while k < gs.len()
        invariant
            k <= gs.len(),
            gdv == gs.deep_view(),
            out.deep_view() == graphs_vars(gdv.take(k as int)),
        decreases gs.len() - k,
    {
        proof {
            lemma_take_snoc(gdv, k as int);
        }
        push_graph_vars(&mut out, &gs[k]);
        k = k + 1;
    }
    proof {
        assert(gdv.take(gs.len() as int) =~= gdv);
    }
    out
}

/// Checks a Match clause's variable list for re-bindings.
fn check_rebind(bound: &Vec<String>, vs: &Vec<String>) -> (r: bool)
    ensures
        r == has_rebind(bound.deep_view(), vs.deep_view()),
{
    let ghost bdv = bound.deep_view();
    let ghost vdv = vs.deep_view();
    let mut k: usize = 0;
    while k < vs.len()
        invariant
            k <= vs.len(),
            bdv == bound.deep_view(),
            vdv == vs.deep_view(),
            forall|m: int|
                0 <= m < k ==> !(name_in(bdv, #[trigger] vdv[m]) || name_in(vdv.take(m), vdv[m])),
        decreases vs.len() - k,
    {
        if contains_name(bound, &vs[k]) {
            assert(name_in(bdv, vdv[k as int]));
            return true;
        }
        let mut m: usize = 0;
        while m < k
            invariant
                m <= k,
                k < vs.len(),
                vdv == vs.deep_view(),
                forall|p: int| 0 <= p < m ==> vdv.take(k as int)[p] != vdv[k as int],
            decreases k - m,
        {
            if vs[m] == vs[k] {
                assert(vdv.take(k as int)[m as int] == vdv[k as int]);
                assert(name_in(vdv.take(k as int), vdv[k as int]));
                return true;
            }
            m = m + 1;
        }
        assert(!name_in(vdv.take(k as int), vdv[k as int]));
        k = k + 1;
    }
    false
}

/// Checks the variables of a Delete or Return clause against the bound set,
/// returning the first unbound one.
fn check_vars(bound: &Vec<String>, vars: &Vec<String>) -> (r: Option<String>)
    ensures
        match r {
            Some(v) => first_unbound(bound.deep_view(), vars.deep_view()) == Some(v@),
            None => first_unbound(bound.deep_view(), vars.deep_view()) is None,
        },
{
    let ghost bdv = bound.deep_view();
    let ghost vdv = vars.deep_view();
    proof {
        assert(vdv.skip(0) =~= vdv);
    }
    let mut k: usize = 0;
    while k < vars.len()
        invariant
            k <= vars.len(),
            bdv == bound.deep_view(),
            vdv == vars.deep_view(),
            first_unbound(bdv, vdv) == first_unbound(bdv, vdv.skip(k as int)),
        decreases vars.len() - k,
    {
        proof {
            lemma_skip_step(vdv, k as int);
        }
        if !contains_name(bound, &vars[k]) {
            return Some(vars[k].clone());
        }
        k = k + 1;
    }
    proof {
        assert(vdv.skip(vars.len() as int) =~= Seq::<Seq<char>>::empty());
    }
    None
}

/// Checks one Create pattern graph against the bound set.
fn check_create_graph(bound: &Vec<String>, g: &PatternGraph) -> (r: Result<(), TranslationError>)
    ensures
        match r {
            Ok(u) => bind_create_graph(bound.deep_view(), g.deep_view()) == Ok::<
                (),
                TranslationErrorV,
            >(()),
            Err(e) => bind_create_graph(bound.deep_view(), g.deep_view()) == Err::<
                (),
                TranslationErrorV,
            >(e@),
        },
{
    match g {
        PatternGraph::Node(n) => {
            match &n.var {
                Some(v) => {
                    if contains_name(bound, v) {
                        Err(crate::parser::unsup_err("variable rebound by CREATE"))
                    } else {
                        Ok(())
                    }
                },
                None => Ok(()),
            }
        },
        PatternGraph::Rel { src, rel, dst } => {
            let sv = match &src.var {
                Some(v) => v,
                None => {
                    return Err(
                        crate::parser::unsup_err(
                            "relationship endpoint in CREATE must be a bound variable",
                        ),
                    );
                },
            };
            if !contains_name(bound, sv) {
                return Err(
                    TranslationError::UnboundVariableError {
                        variable: sv.clone(),
                        clause: ClauseKind::Create,
                    },
                );
            }
            let dv = match &dst.var {
                Some(v) => v,
                None => {
                    return Err(
                        crate::parser::unsup_err(
                            "relationship endpoint in CREATE must be a bound variable",
                        ),
                    );
                },
            };
            if !contains_name(bound, dv) {
                return Err(
                    TranslationError::UnboundVariableError {
                        variable: dv.clone(),
                        clause: ClauseKind::Create,
                    },
                );
            }
            match &rel.var {
                Some(rv) => {
                    if contains_name(bound, rv) {
                        Err(crate::parser::unsup_err("variable rebound by CREATE"))
                    } else {
                        Ok(())
                    }
                },
                None => Ok(()),
            }
        },
    }
}

/// Checks a Create clause's graphs in order.
fn check_create_graphs(bound: &Vec<String>, gs: &Vec<PatternGraph>) -> (r: Result<
    (),
    TranslationError,
>)
    ensures
        match r {
            Ok(u) => bind_create_graphs(bound.deep_view(), gs.deep_view()) == Ok::<
                (),
                TranslationErrorV,
            >(()),
            Err(e) => bind_create_graphs(bound.deep_view(), gs.deep_view()) == Err::<
                (),
                TranslationErrorV,
            >(e@),
        },
{
    let ghost bdv = bound.deep_view();
    let ghost gdv = gs.deep_view();
    proof {
        assert(gdv.skip(0) =~= gdv);
    }
    let mut k: usize = 0;
    while k < gs.len()
        invariant
            k <= gs.len(),
            bdv == bound.deep_view(),
            gdv == gs.deep_view(),
            bind_create_graphs(bdv, gdv) == bind_create_graphs(bdv, gdv.skip(k as int)),
        decreases gs.len() - k,
    {
        proof {
            lemma_skip_step(gdv, k as int);
        }
        match check_create_graph(bound, &gs[k]) {
            Ok(u) => {},
            Err(e) => {
                return Err(e);
            },
        }
        k = k + 1;
    }
    proof {
        assert(gdv.skip(gs.len() as int) =~= Seq::<PatternGraphV>::empty());
    }
    Ok(())
}

/// The binder: walks the statement in clause order and validates every
/// variable reference against the set of variables bound so far.  Returns
/// exactly what the spec function [`spec_bind`] computes; mutates nothing.
pub fn bind(stmt: &Statement) -> (r: Result<(), TranslationError>)
    ensures
        match r {
            Ok(u) => spec_bind(stmt@) == Ok::<(), TranslationErrorV>(()),
            Err(e) => spec_bind(stmt@) == Err::<(), TranslationErrorV>(e@),
        },
{
    let ghost cv = stmt@;
    let mut bound: Vec<String> = Vec::new();
    proof {
        assert(bound.deep_view() =~= Seq::<Seq<char>>::empty());
    }
    let mut ci: usize = 0;
    while ci < stmt.clauses.len()
        invariant
            ci <= stmt.clauses.len(),
            cv == stmt@,
            bound.deep_view() == bound_before(cv, ci as int),
            spec_bind(cv) == spec_bind_from(cv, ci as int),
        decreases stmt.clauses.len() - ci,
    {
        let ghost pre = bound.deep_view();
        match &stmt.clauses[ci] {
            Clause::Match(gs) => {
                let vs = collect_graphs_vars(gs);
                if check_rebind(&bound, &vs) {
                    return Err(crate::parser::unsup_err("variable rebound by a later MATCH"));
                }
                let mut k: usize = 0;
                while k < vs.len()
                    invariant
                        k <= vs.len(),
                        vs.deep_view() == graphs_vars(gs.deep_view()),
                        bound.deep_view() =~= pre + vs.deep_view().take(k as int),
                    decreases vs.len() - k,
                {
                    let ghost mid = bound.deep_view();
                    bound.push(vs[k].clone());
                    proof {
                        assert(bound.deep_view() =~= mid.push(vs.deep_view()[k as int]));
                        assert(mid.push(vs.deep_view()[k as int]) =~= pre + vs.deep_view().take(
                            k as int + 1,
                        ));
                    }
                    k = k + 1;
                }
                proof {
                    assert(vs.deep_view().take(vs.len() as int) =~= vs.deep_view());
                    assert(bound.deep_view() =~= bound_before(cv, ci as int + 1));
                }
            },
            Clause::Create(gs) => {
                match check_create_graphs(&bound, gs) {
                    Ok(u) => {},
                    Err(e) => {
                        return Err(e);
                    },
                }
                proof {
                    assert(bound.deep_view() =~= bound_before(cv, ci as int + 1));
                }
            },
            Clause::Delete { vars, detach } => {
                match check_vars(&bound, vars) {
                    Some(v) => {
                        return Err(
                            TranslationError::UnboundVariableError {
                                variable: v,
                                clause: ClauseKind::Delete,
                            },
                        );
                    },
                    None => {},
                }
                proof {
                    assert(bound.deep_view() =~= bound_before(cv, ci as int + 1));
                }
            },
            Clause::Return(vars) => {
                match check_vars(&bound, vars) {
                    Some(v) => {
                        return Err(
                            TranslationError::UnboundVariableError {
                                variable: v,
                                clause: ClauseKind::Return,
                            },
                        );
                    },
                    None => {},
                }
                proof {
                    assert(bound.deep_view() =~= bound_before(cv, ci as int + 1));
                }
            },
        }
        ci = ci + 1;
    }
    Ok(())
}

} // verus!
