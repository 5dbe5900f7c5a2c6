//! Desugaring engine that translates a constrained subset of a graph-pattern
//! query language (node/relationship matching, creation, deletion) into
//! equivalent SQL statements against the fixed two-table schema
//! `nodes(id, label, properties)` / `edges(id, src_id, dst_id, type, properties)`.
//!
//! The pipeline is strictly linear and pure: lexer -> parser -> binder ->
//! desugarer.  Every stage is specified by a spec-level function of the input
//! text alone, and each executable stage is proved to return exactly what its
//! spec-level counterpart computes; [`translate`] composes them.

pub mod ast;
pub mod binder;
pub mod desugar;
pub mod errors;
pub mod json;
pub mod laws;
pub mod lexer;
pub mod parser;
pub mod sql;

use vstd::prelude::*;

use crate::errors::{TranslationError, TranslationErrorV};

verus! {

/// The mathematical definition of translating one statement's text:
/// lexing, parsing, binding validation, then desugaring, each stage
/// propagating the first structured error.
pub open spec fn spec_translate(q: Seq<char>) -> Result<Seq<Seq<char>>, TranslationErrorV> {
    match lexer::lex(q) {
        Err(e) => Err(e),
        Ok(toks) => match parser::spec_parse(toks) {
            Err(e) => Err(e),
            Ok(clauses) => match binder::spec_bind(clauses) {
                Err(e) => Err(e),
                Ok(u) => desugar::spec_desugar(clauses),
            },
        },
    }
}

/// The single entry point: translates one statement of the query subset
/// into the ordered list of SQL statement strings, or fails with the first
/// structured error.  Returns exactly what the spec function
/// [`spec_translate`] computes, so identical input text always yields an
/// identical result.
pub fn translate(query: &str) -> (r: Result<Vec<String>, TranslationError>)
    ensures
        match r {
            Ok(v) => spec_translate(query@) == Ok::<Seq<Seq<char>>, TranslationErrorV>(
                v.deep_view(),
            ),
            Err(e) => spec_translate(query@) == Err::<Seq<Seq<char>>, TranslationErrorV>(e@),
        },
{
    let toks = match lexer::tokenize(query) {
        Ok(t) => t,
        Err(e) => {
            return Err(e);
        },
    };
    let stmt = match parser::parse(&toks) {
        Ok(s) => s,
        Err(e) => {
            return Err(e);
        },
    };
    match binder::bind(&stmt) {
        Ok(u) => {},
        Err(e) => {
            return Err(e);
        },
    }
    desugar::desugar(&stmt)
}

} // verus!
