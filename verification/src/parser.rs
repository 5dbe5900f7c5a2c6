//! The pattern parser: the full token sequence of one statement to a
//! [`Statement`] AST, or a structured error.
//!
//! The grammar (recursive descent, one-token lookahead):
//!
//! ```text
//! Statement    := Clause+
//! Clause       := MatchClause | CreateClause | DeleteClause | ReturnClause
//! MatchClause  := "MATCH" PatternGraph ("," PatternGraph)*
//! CreateClause := "CREATE" PatternGraph ("," PatternGraph)*
//! DeleteClause := ["DETACH"] "DELETE" Identifier ("," Identifier)*
//! ReturnClause := "RETURN" Identifier ("," Identifier)*
//! PatternGraph := NodePattern [ "-" "[" RelBody "]" "->" NodePattern ]
//! NodePattern  := "(" [Identifier] [":" Identifier] [PropertyMap] ")"
//! RelBody      := [Identifier] [":" Identifier]
//! PropertyMap  := "{" [Identifier ":" Value ("," Identifier ":" Value)*] "}"
//! Value        := StringLiteral | NumberLiteral
//! ```
//!
//! Keywords are matched case-insensitively.  A repeated property key is a
//! `DuplicatePropertyKeyError`; an unterminated bracket or brace, a pattern
//! with more than one relationship hop, or more than one label on an element
//! is an `UnsupportedPatternError`; any other mismatch is a `ParseError`
//! naming the expected token set and the token position reached.
//!
//! The spec functions `spec_parse_*` are the mathematical definition of the
//! parse; each executable function is proved to return exactly the value of
//! its spec counterpart.

use vstd::prelude::*;

use crate::ast::{
    Clause, ClauseV, NodePat, NodePatV, PatternGraph, PatternGraphV, Prop, PropV, PropVal,
    PropValV, RelPat, RelPatV, Statement,
};
use crate::errors::{TranslationError, TranslationErrorV};
use crate::lexer::{TokKind, Token, TokenV};

verus! {

/// Case-insensitive equality of two characters (ASCII letters only).
pub open spec fn ci_eq_char(a: char, b: char) -> bool {
    a == b || ((('A' as u32) <= (a as u32) && (a as u32) <= ('Z' as u32)) && (b as u32) == (
    a as u32) + 32) || ((('A' as u32) <= (b as u32) && (b as u32) <= ('Z' as u32)) && (a as u32)
        == (b as u32) + 32)
}

/// Case-insensitive equality of two texts, for keyword recognition.
pub open spec fn ci_eq(a: Seq<char>, b: Seq<char>) -> bool {
    a.len() == b.len() && forall|k: int| 0 <= k < a.len() ==> #[trigger] ci_eq_char(a[k], b[k])
}

/// The text of the token at `i`, or a fixed marker at end of input.
pub open spec fn found_text(toks: Seq<TokenV>, i: int) -> Seq<char> {
    if 0 <= i < toks.len() {
        toks[i].text
    } else {
        "end of input"@
    }
}

/// A `ParseError` at token position `i`.
pub open spec fn spec_perr(toks: Seq<TokenV>, i: int, expected: Seq<char>) -> TranslationErrorV {
    TranslationErrorV::ParseError { position: i, expected, found: found_text(toks, i) }
}

/// An `UnsupportedPatternError`.
pub open spec fn spec_unsup(reason: Seq<char>) -> TranslationErrorV {
    TranslationErrorV::UnsupportedPatternError { reason }
}

/// The text between the quotes of a string-literal token.
pub open spec fn strip_quotes(t: Seq<char>) -> Seq<char> {
    if t.len() >= 2 {
        t.subrange(1, t.len() - 1)
    } else {
        Seq::empty()
    }
}

/// Whether `key` already occurs in the property list `acc`.
pub open spec fn has_key(acc: Seq<PropV>, key: Seq<char>) -> bool {
    exists|k: int| 0 <= k < acc.len() && (#[trigger] acc[k]).key == key
}

/// Property-map entries from position `i` (after `{` or `,`), extending
/// `acc`; ends after the closing `}`.
pub open spec fn spec_parse_entries(toks: Seq<TokenV>, i: int, acc: Seq<PropV>) -> Result<
    (Seq<PropV>, int),
    TranslationErrorV,
>
    decreases toks.len() - i when 0 <= i
{
    if i >= toks.len() {
        Err(spec_unsup("unterminated property map"@))
    } else if toks[i].kind != TokKind::Ident {
        Err(spec_perr(toks, i, "property key identifier"@))
    } else if i + 1 >= toks.len() {
        Err(spec_unsup("unterminated property map"@))
    } else if toks[i + 1].kind != TokKind::Colon {
        Err(spec_perr(toks, i + 1, "':' after property key"@))
    } else if i + 2 >= toks.len() {
        Err(spec_unsup("unterminated property map"@))
    } else if toks[i + 2].kind != TokKind::StrLit && toks[i + 2].kind != TokKind::NumLit {
        Err(spec_perr(toks, i + 2, "string or number value"@))
    } else if has_key(acc, toks[i].text) {
        Err(TranslationErrorV::DuplicatePropertyKeyError { key: toks[i].text })
    } else {
        let val = if toks[i + 2].kind == TokKind::StrLit {
            PropValV::Str(strip_quotes(toks[i + 2].text))
        } else {
            PropValV::Num(toks[i + 2].text)
        };
        let acc2 = acc.push(PropV { key: toks[i].text, val });
        if i + 3 >= toks.len() {
            Err(spec_unsup("unterminated property map"@))
        } else if toks[i + 3].kind == TokKind::RBrace {
            Ok((acc2, i + 4))
        } else if toks[i + 3].kind == TokKind::Comma {
            spec_parse_entries(toks, i + 4, acc2)
        } else {
            Err(spec_perr(toks, i + 3, "',' or '}'"@))
        }
    }
}

/// A property map from position `i` (just after the opening `{`).
pub open spec fn spec_parse_props(toks: Seq<TokenV>, i: int) -> Result<
    (Seq<PropV>, int),
    TranslationErrorV,
> {
    if i < toks.len() && toks[i].kind == TokKind::RBrace {
        Ok((Seq::empty(), i + 1))
    } else {
        spec_parse_entries(toks, i, Seq::empty())
    }
}

/// Closing parenthesis of a node pattern.
pub open spec fn spec_parse_node_close(
    toks: Seq<TokenV>,
    i: int,
    var: Option<Seq<char>>,
    label: Option<Seq<char>>,
    props: Seq<PropV>,
) -> Result<(NodePatV, int), TranslationErrorV> {
    if i < toks.len() && toks[i].kind == TokKind::RParen {
        Ok((NodePatV { var, label, props }, i + 1))
    } else if i >= toks.len() {
        Err(spec_unsup("unterminated node pattern"@))
    } else {
        Err(spec_perr(toks, i, "')'"@))
    }
}

/// Optional property map of a node pattern, then its closing parenthesis.
pub open spec fn spec_parse_node_props(
    toks: Seq<TokenV>,
    i: int,
    var: Option<Seq<char>>,
    label: Option<Seq<char>>,
) -> Result<(NodePatV, int), TranslationErrorV> {
    if i < toks.len() && toks[i].kind == TokKind::Colon {
        Err(spec_unsup("multiple labels on one pattern element"@))
    } else if i < toks.len() && toks[i].kind == TokKind::LBrace {
        match spec_parse_props(toks, i + 1) {
            Ok((props, j)) => spec_parse_node_close(toks, j, var, label, props),
            Err(e) => Err(e),
        }
    } else {
        spec_parse_node_close(toks, i, var, label, Seq::empty())
    }
}

/// Optional `:Label` of a node pattern, then the rest of it.
pub open spec fn spec_parse_node_label(toks: Seq<TokenV>, i: int, var: Option<Seq<char>>) -> Result<
    (NodePatV, int),
    TranslationErrorV,
> {
    if i < toks.len() && toks[i].kind == TokKind::Colon {
        if i + 1 >= toks.len() {
            Err(spec_unsup("unterminated node pattern"@))
        } else if toks[i + 1].kind == TokKind::Ident {
            spec_parse_node_props(toks, i + 2, var, Some(toks[i + 1].text))
        } else {
            Err(spec_perr(toks, i + 1, "label identifier after ':'"@))
        }
    } else {
        spec_parse_node_props(toks, i, var, None)
    }
}

/// A node pattern `( [var] [:Label] [{props}] )` from position `i`.
pub open spec fn spec_parse_node(toks: Seq<TokenV>, i: int) -> Result<
    (NodePatV, int),
    TranslationErrorV,
> {
    if !(0 <= i < toks.len() && toks[i].kind == TokKind::LParen) {
        Err(spec_perr(toks, i, "'('"@))
    } else if i + 1 < toks.len() && toks[i + 1].kind == TokKind::Ident {
        spec_parse_node_label(toks, i + 2, Some(toks[i + 1].text))
    } else {
        spec_parse_node_label(toks, i + 1, None)
    }
}

/// Closing bracket and arrow of a relationship pattern.
pub open spec fn spec_parse_rel_close(
    toks: Seq<TokenV>,
    i: int,
    var: Option<Seq<char>>,
    rel_type: Option<Seq<char>>,
) -> Result<(RelPatV, int), TranslationErrorV> {
    if i < toks.len() && toks[i].kind == TokKind::Colon {
        Err(spec_unsup("multiple labels on one pattern element"@))
    } else if i >= toks.len() {
        Err(spec_unsup("unterminated relationship pattern"@))
    } else if toks[i].kind != TokKind::RBracket {
        Err(spec_perr(toks, i, "']'"@))
    } else if i + 1 >= toks.len() {
        Err(spec_unsup("unterminated relationship pattern"@))
    } else if toks[i + 1].kind == TokKind::Arrow {
        Ok((RelPatV { var, rel_type }, i + 2))
    } else if toks[i + 1].kind == TokKind::Dash {
        Err(spec_unsup("only left-to-right '->' relationships are supported"@))
    } else {
        Err(spec_perr(toks, i + 1, "'->'"@))
    }
}

/// Optional `:TYPE` of a relationship body, then its close.
pub open spec fn spec_parse_rel_type(toks: Seq<TokenV>, i: int, var: Option<Seq<char>>) -> Result<
    (RelPatV, int),
    TranslationErrorV,
> {
    if i < toks.len() && toks[i].kind == TokKind::Colon {
        if i + 1 >= toks.len() {
            Err(spec_unsup("unterminated relationship pattern"@))
        } else if toks[i + 1].kind == TokKind::Ident {
            spec_parse_rel_close(toks, i + 2, var, Some(toks[i + 1].text))
        } else {
            Err(spec_perr(toks, i + 1, "relationship type after ':'"@))
        }
    } else {
        spec_parse_rel_close(toks, i, var, None)
    }
}

/// A relationship body `[ [var] [:TYPE] ]->` from position `i` (just after
/// the opening bracket).
pub open spec fn spec_parse_rel(toks: Seq<TokenV>, i: int) -> Result<
    (RelPatV, int),
    TranslationErrorV,
> {
    if i < toks.len() && toks[i].kind == TokKind::Ident {
        spec_parse_rel_type(toks, i + 1, Some(toks[i].text))
    } else {
        spec_parse_rel_type(toks, i, None)
    }
}

/// A pattern graph: one node, or exactly one relationship hop.
pub open spec fn spec_parse_graph(toks: Seq<TokenV>, i: int) -> Result<
    (PatternGraphV, int),
    TranslationErrorV,
> {
    match spec_parse_node(toks, i) {
        Err(e) => Err(e),
        Ok((src, i1)) => {
            if i1 < toks.len() && toks[i1].kind == TokKind::Dash {
                if i1 + 1 >= toks.len() {
                    Err(spec_unsup("unterminated relationship pattern"@))
                } else if toks[i1 + 1].kind != TokKind::LBracket {
                    Err(spec_perr(toks, i1 + 1, "'[' after '-'"@))
                } else {
                    match spec_parse_rel(toks, i1 + 2) {
                        Err(e) => Err(e),
                        Ok((rel, i2)) => match spec_parse_node(toks, i2) {
                            Err(e) => Err(e),
                            Ok((dst, i3)) => {
                                if i3 < toks.len() && (toks[i3].kind == TokKind::Dash || toks[
                                    i3].kind == TokKind::Arrow) {
                                    Err(spec_unsup("multi-hop pattern chains are not supported"@))
                                } else {
                                    Ok((PatternGraphV::Rel { src, rel, dst }, i3))
                                }
                            },
                        },
                    }
                }
            } else {
                Ok((PatternGraphV::Node(src), i1))
            }
        },
    }
}

pub proof fn lemma_parse_entries_advance(toks: Seq<TokenV>, i: int, acc: Seq<PropV>)
    requires
        0 <= i,
    ensures
        match spec_parse_entries(toks, i, acc) {
            Ok((m, j)) => i < j <= toks.len(),
            Err(_) => true,
        },
    decreases toks.len() - i,
{
    if i + 2 < toks.len() && toks[i].kind == TokKind::Ident && toks[i + 1].kind == TokKind::Colon
        && (toks[i + 2].kind == TokKind::StrLit || toks[i + 2].kind == TokKind::NumLit) && !has_key(
        acc,
        toks[i].text,
    ) && i + 3 < toks.len() && toks[i + 3].kind == TokKind::Comma {
        let val = if toks[i + 2].kind == TokKind::StrLit {
            PropValV::Str(strip_quotes(toks[i + 2].text))
        } else {
            PropValV::Num(toks[i + 2].text)
        };
        lemma_parse_entries_advance(toks, i + 4, acc.push(PropV { key: toks[i].text, val }));
    }
}

pub proof fn lemma_parse_props_advance(toks: Seq<TokenV>, i: int)
    requires
        0 <= i,
    ensures
        match spec_parse_props(toks, i) {
            Ok((m, j)) => i < j <= toks.len(),
            Err(_) => true,
        },
{
    lemma_parse_entries_advance(toks, i, Seq::empty());
}

pub proof fn lemma_parse_node_advance(toks: Seq<TokenV>, i: int)
    requires
        0 <= i,
    ensures
        match spec_parse_node(toks, i) {
            Ok((n, j)) => i < j <= toks.len(),
            Err(_) => true,
        },
{
    lemma_parse_props_advance(toks, i + 2);
    lemma_parse_props_advance(toks, i + 3);
    lemma_parse_props_advance(toks, i + 4);
    lemma_parse_props_advance(toks, i + 5);
}

pub proof fn lemma_parse_graph_advance(toks: Seq<TokenV>, i: int)
    requires
        0 <= i,
    ensures
        match spec_parse_graph(toks, i) {
            Ok((g, j)) => i < j <= toks.len(),
            Err(_) => true,
        },
{
    lemma_parse_node_advance(toks, i);
    match spec_parse_node(toks, i) {
        Err(_) => {},
        Ok((src, i1)) => {
            if i1 < toks.len() && toks[i1].kind == TokKind::Dash && i1 + 1 < toks.len() && toks[i1
                + 1].kind == TokKind::LBracket {
                match spec_parse_rel(toks, i1 + 2) {
                    Err(_) => {},
                    Ok((rel, i2)) => {
                        lemma_parse_node_advance(toks, i2);
                    },
                }
            }
        },
    }
}

/// A comma-separated list of pattern graphs, extending `acc`.
pub open spec fn spec_parse_graph_list(toks: Seq<TokenV>, i: int, acc: Seq<PatternGraphV>) -> Result<
    (Seq<PatternGraphV>, int),
    TranslationErrorV,
>
    decreases toks.len() - i when 0 <= i
{
    match spec_parse_graph(toks, i) {
        Err(e) => Err(e),
        Ok((g, j)) => {
            if j < toks.len() && toks[j].kind == TokKind::Comma {
                proof {
                    lemma_parse_graph_advance(toks, i);
                }
                spec_parse_graph_list(toks, j + 1, acc.push(g))
            } else {
                Ok((acc.push(g), j))
            }
        },
    }
}

/// A comma-separated list of variable names, extending `acc`.
pub open spec fn spec_parse_var_list(toks: Seq<TokenV>, i: int, acc: Seq<Seq<char>>) -> Result<
    (Seq<Seq<char>>, int),
    TranslationErrorV,
>
    decreases toks.len() - i when 0 <= i
{
    if i >= toks.len() || toks[i].kind != TokKind::Ident {
        Err(spec_perr(toks, i, "variable name"@))
    } else if i + 1 < toks.len() && toks[i + 1].kind == TokKind::Comma {
        spec_parse_var_list(toks, i + 2, acc.push(toks[i].text))
    } else {
        Ok((acc.push(toks[i].text), i + 1))
    }
}

pub proof fn lemma_parse_graph_list_advance(toks: Seq<TokenV>, i: int, acc: Seq<PatternGraphV>)
    requires
        0 <= i,
    ensures
        match spec_parse_graph_list(toks, i, acc) {
            Ok((gs, j)) => i < j <= toks.len(),
            Err(_) => true,
        },
    decreases toks.len() - i,
{
    lemma_parse_graph_advance(toks, i);
    match spec_parse_graph(toks, i) {
        Err(_) => {},
        Ok((g, j)) => {
            if j < toks.len() && toks[j].kind == TokKind::Comma {
                lemma_parse_graph_list_advance(toks, j + 1, acc.push(g));
            }
        },
    }
}

pub proof fn lemma_parse_var_list_advance(toks: Seq<TokenV>, i: int, acc: Seq<Seq<char>>)
    requires
        0 <= i,
    ensures
        match spec_parse_var_list(toks, i, acc) {
            Ok((vs, j)) => i < j <= toks.len(),
            Err(_) => true,
        },
    decreases toks.len() - i,
{
    if !(i >= toks.len() || toks[i].kind != TokKind::Ident) {
        if i + 1 < toks.len() && toks[i + 1].kind == TokKind::Comma {
            lemma_parse_var_list_advance(toks, i + 2, acc.push(toks[i].text));
        }
    }
}

/// One clause, dispatched on its (case-insensitive) keyword.
pub open spec fn spec_parse_clause(toks: Seq<TokenV>, i: int) -> Result<
    (ClauseV, int),
    TranslationErrorV,
> {
    if i >= toks.len() || toks[i].kind != TokKind::Ident {
        Err(spec_perr(toks, i, "MATCH, CREATE, DELETE, DETACH or RETURN"@))
    } else if ci_eq(toks[i].text, "MATCH"@) {
        match spec_parse_graph_list(toks, i + 1, Seq::empty()) {
            Ok((gs, j)) => Ok((ClauseV::Match(gs), j)),
            Err(e) => Err(e),
        }
    } else if ci_eq(toks[i].text, "CREATE"@) {
        match spec_parse_graph_list(toks, i + 1, Seq::empty()) {
            Ok((gs, j)) => Ok((ClauseV::Create(gs), j)),
            Err(e) => Err(e),
        }
    } else if ci_eq(toks[i].text, "DETACH"@) {
        if i + 1 < toks.len() && toks[i + 1].kind == TokKind::Ident && ci_eq(
            toks[i + 1].text,
            "DELETE"@,
        ) {
            match spec_parse_var_list(toks, i + 2, Seq::empty()) {
                Ok((vs, j)) => Ok((ClauseV::Delete { vars: vs, detach: true }, j)),
                Err(e) => Err(e),
            }
        } else {
            Err(spec_perr(toks, i + 1, "DELETE after DETACH"@))
        }
    } else if ci_eq(toks[i].text, "DELETE"@) {
        match spec_parse_var_list(toks, i + 1, Seq::empty()) {
            Ok((vs, j)) => Ok((ClauseV::Delete { vars: vs, detach: false }, j)),
            Err(e) => Err(e),
        }
    } else if ci_eq(toks[i].text, "RETURN"@) {
        match spec_parse_var_list(toks, i + 1, Seq::empty()) {
            Ok((vs, j)) => Ok((ClauseV::Return(vs), j)),
            Err(e) => Err(e),
        }
    } else {
        Err(spec_perr(toks, i, "MATCH, CREATE, DELETE, DETACH or RETURN"@))
    }
}

pub proof fn lemma_parse_clause_advance(toks: Seq<TokenV>, i: int)
    requires
        0 <= i,
    ensures
        match spec_parse_clause(toks, i) {
            Ok((c, j)) => i < j <= toks.len(),
            Err(_) => true,
        },
{
    lemma_parse_graph_list_advance(toks, i + 1, Seq::empty());
    lemma_parse_var_list_advance(toks, i + 1, Seq::empty());
    lemma_parse_var_list_advance(toks, i + 2, Seq::empty());
}

/// The clause sequence from position `i` to the end of the tokens.
pub open spec fn spec_parse_clauses(toks: Seq<TokenV>, i: int, acc: Seq<ClauseV>) -> Result<
    Seq<ClauseV>,
    TranslationErrorV,
>
    decreases toks.len() - i when 0 <= i
{
    if i >= toks.len() {
        Ok(acc)
    } else {
        match spec_parse_clause(toks, i) {
            Err(e) => Err(e),
            Ok((c, j)) => {
                proof {
                    lemma_parse_clause_advance(toks, i);
                }
                spec_parse_clauses(toks, j, acc.push(c))
            },
        }
    }
}

/// The mathematical definition of parsing one statement: at least one
/// clause, consuming the whole token sequence.
pub open spec fn spec_parse(toks: Seq<TokenV>) -> Result<Seq<ClauseV>, TranslationErrorV> {
    if toks.len() == 0 {
        Err(spec_perr(toks, 0, "MATCH, CREATE, DELETE, DETACH or RETURN"@))
    } else {
        spec_parse_clauses(toks, 0, Seq::empty())
    }
}

fn ci_eq_char_x(a: char, b: char) -> (r: bool)
    ensures
        r == ci_eq_char(a, b),
{
    let ua = a as u32;
    let ub = b as u32;
    a == b || ((('A' as u32) <= ua && ua <= ('Z' as u32)) && ub == ua + 32) || ((('A' as u32) <= ub
        && ub <= ('Z' as u32)) && ua == ub + 32)
}

/// Case-insensitive keyword comparison.
fn kw_eq(s: &String, t: &str) -> (r: bool)
    ensures
        r == ci_eq(s@, t@),
{
    let n = s.as_str().unicode_len();
    let m = t.unicode_len();
    if n != m {
        return false;
    }
    let mut j: usize = 0;
    while j < n
        invariant
            j <= n,
            n == s@.len(),
            n == t@.len(),
            forall|k: int| 0 <= k < j ==> #[trigger] ci_eq_char(s@[k], t@[k]),
        decreases n - j,
    {
        let a = s.as_str().get_char(j);
        let b = t.get_char(j);
        if !ci_eq_char_x(a, b) {
            return false;
        }
        j = j + 1;
    }
    true
}

/// The token text reached, or the end-of-input marker, for error reporting.
fn found_at(toks: &Vec<Token>, i: usize) -> (f: String)
    ensures
        f@ == found_text(toks.deep_view(), i as int),
{
    if i < toks.len() {
        toks[i].text.clone()
    } else {
        String::from_str("end of input")
    }
}

fn perr(toks: &Vec<Token>, i: usize, expected: &str) -> (e: TranslationError)
    ensures
        e@ == spec_perr(toks.deep_view(), i as int, expected@),
{
    TranslationError::ParseError {
        position: i,
        expected: String::from_str(expected),
        found: found_at(toks, i),
    }
}

pub(crate) fn unsup_err(reason: &str) -> (e: TranslationError)
    ensures
        e@ == spec_unsup(reason@),
{
    TranslationError::UnsupportedPatternError { reason: String::from_str(reason) }
}

fn strip_quotes_x(t: &String) -> (r: String)
    ensures
        r@ == strip_quotes(t@),
{
    let n = t.as_str().unicode_len();
    if n >= 2 {
        t.as_str().substring_char(1, n - 1).to_owned()
    } else {
        String::new()
    }
}

fn contains_key(props: &Vec<Prop>, key: &String) -> (r: bool)
    ensures
        r == has_key(props.deep_view(), key@),
{
    let mut k: usize = 0;
    while k < props.len()
        invariant
            k <= props.len(),
            forall|m: int| 0 <= m < k ==> (#[trigger] props.deep_view()[m]).key != key@,
        decreases props.len() - k,
    {
        if props[k].key == *key {
            assert(props.deep_view()[k as int].key == key@);
            return true;
        }
        k = k + 1;
    }
    false
}

/// Parses a property map, starting just after the opening `{`.
fn parse_props(toks: &Vec<Token>, i: usize) -> (r: Result<(Vec<Prop>, usize), TranslationError>)
    ensures
        match r {
            Ok((props, j)) => spec_parse_props(toks.deep_view(), i as int) == Ok::<
                (Seq<PropV>, int),
                TranslationErrorV,
            >((props.deep_view(), j as int)) && j <= toks.len(),
            Err(e) => spec_parse_props(toks.deep_view(), i as int) == Err::<
                (Seq<PropV>, int),
                TranslationErrorV,
            >(e@),
        },
{
    let ghost tv = toks.deep_view();
    if i < toks.len() && toks[i].kind == TokKind::RBrace {
        let empty_props: Vec<Prop> = Vec::new();
        proof {
            assert(empty_props.deep_view() =~= Seq::<PropV>::empty());
        }
        return Ok((empty_props, i + 1));
    }
    let mut props: Vec<Prop> = Vec::new();
    proof {
        assert(props.deep_view() =~= Seq::<PropV>::empty());
    }
    let mut j = i;
    loop
        invariant
            tv == toks.deep_view(),
            i <= j,
            j <= toks.len() || j == i,
            spec_parse_props(tv, i as int) == spec_parse_entries(
                tv,
                j as int,
                props.deep_view(),
            ),
        decreases toks.len() - j,
    {
        let ghost dv = props.deep_view();
        if j >= toks.len() {
            return Err(unsup_err("unterminated property map"));
        }
        if !(toks[j].kind == TokKind::Ident) {
            return Err(perr(toks, j, "property key identifier"));
        }
        if j + 1 >= toks.len() {
            return Err(unsup_err("unterminated property map"));
        }
        if !(toks[j + 1].kind == TokKind::Colon) {
            return Err(perr(toks, j + 1, "':' after property key"));
        }
        if j + 2 >= toks.len() {
            return Err(unsup_err("unterminated property map"));
        }
        let vk = toks[j + 2].kind;
        if !(vk == TokKind::StrLit || vk == TokKind::NumLit) {
            return Err(perr(toks, j + 2, "string or number value"));
        }
        let key = toks[j].text.clone();
        if contains_key(&props, &key) {
            return Err(TranslationError::DuplicatePropertyKeyError { key });
        }
        let val = if vk == TokKind::StrLit {
            PropVal::Str(strip_quotes_x(&toks[j + 2].text))
        } else {
            PropVal::Num(toks[j + 2].text.clone())
        };
        props.push(Prop { key, val });
        proof {
            assert(props.deep_view() =~= dv.push(
                PropV {
                    key: tv[j as int].text,
                    val: if tv[j + 2].kind == TokKind::StrLit {
                        PropValV::Str(strip_quotes(tv[j + 2].text))
                    } else {
                        PropValV::Num(tv[j + 2].text)
                    },
                },
            ));
        }
        if j + 3 >= toks.len() {
            return Err(unsup_err("unterminated property map"));
        }
        if toks[j + 3].kind == TokKind::RBrace {
            return Ok((props, j + 4));
        }
        if !(toks[j + 3].kind == TokKind::Comma) {
            return Err(perr(toks, j + 3, "',' or '}'"));
        }
        j = j + 4;
    }
}

/// Parses a node pattern from position `i`.
fn parse_node(toks: &Vec<Token>, i: usize) -> (r: Result<(NodePat, usize), TranslationError>)
    ensures
        match r {
            Ok((n, j)) => spec_parse_node(toks.deep_view(), i as int) == Ok::<
                (NodePatV, int),
                TranslationErrorV,
            >((n.deep_view(), j as int)) && j <= toks.len(),
            Err(e) => spec_parse_node(toks.deep_view(), i as int) == Err::<
                (NodePatV, int),
                TranslationErrorV,
            >(e@),
        },
{
    let ghost tv = toks.deep_view();
    if !(i < toks.len() && toks[i].kind == TokKind::LParen) {
        return Err(perr(toks, i, "'('"));
    }
    let (var, i1): (Option<String>, usize) = if i + 1 < toks.len() && toks[i + 1].kind
        == TokKind::Ident {
        (Some(toks[i + 1].text.clone()), i + 2)
    } else {
        (None, i + 1)
    };
    let (label, i2): (Option<String>, usize) = if i1 < toks.len() && toks[i1].kind
        == TokKind::Colon {
        if i1 + 1 >= toks.len() {
            return Err(unsup_err("unterminated node pattern"));
        }
        if !(toks[i1 + 1].kind == TokKind::Ident) {
            return Err(perr(toks, i1 + 1, "label identifier after ':'"));
        }
        (Some(toks[i1 + 1].text.clone()), i1 + 2)
    } else {
        (None, i1)
    };
    if i2 < toks.len() && toks[i2].kind == TokKind::Colon {
        return Err(unsup_err("multiple labels on one pattern element"));
    }
    let (props, i3): (Vec<Prop>, usize) = if i2 < toks.len() && toks[i2].kind == TokKind::LBrace {
        match parse_props(toks, i2 + 1) {
            Ok(pj) => pj,
            Err(e) => {
                return Err(e);
            },
        }
    } else {
        let empty_props: Vec<Prop> = Vec::new();
        proof {
            assert(empty_props.deep_view() =~= Seq::<PropV>::empty());
        }
        (empty_props, i2)
    };
    if i3 < toks.len() && toks[i3].kind == TokKind::RParen {
        Ok((NodePat { var, label, props }, i3 + 1))
    } else if i3 >= toks.len() {
        Err(unsup_err("unterminated node pattern"))
    } else {
        Err(perr(toks, i3, "')'"))
    }
}

/// Parses a relationship body from position `i` (just after `[`), through
/// the closing `]->`.
fn parse_rel(toks: &Vec<Token>, i: usize) -> (r: Result<(RelPat, usize), TranslationError>)
    ensures
        match r {
            Ok((rp, j)) => spec_parse_rel(toks.deep_view(), i as int) == Ok::<
                (RelPatV, int),
                TranslationErrorV,
            >((rp.deep_view(), j as int)) && j <= toks.len(),
            Err(e) => spec_parse_rel(toks.deep_view(), i as int) == Err::<
                (RelPatV, int),
                TranslationErrorV,
            >(e@),
        },
{
    let (var, i1): (Option<String>, usize) = if i < toks.len() && toks[i].kind == TokKind::Ident {
        (Some(toks[i].text.clone()), i + 1)
    } else {
        (None, i)
    };
    let (rel_type, i2): (Option<String>, usize) = if i1 < toks.len() && toks[i1].kind
        == TokKind::Colon {
        if i1 + 1 >= toks.len() {
            return Err(unsup_err("unterminated relationship pattern"));
        }
        if !(toks[i1 + 1].kind == TokKind::Ident) {
            return Err(perr(toks, i1 + 1, "relationship type after ':'"));
        }
        (Some(toks[i1 + 1].text.clone()), i1 + 2)
    } else {
        (None, i1)
    };
    if i2 < toks.len() && toks[i2].kind == TokKind::Colon {
        return Err(unsup_err("multiple labels on one pattern element"));
    }
    if i2 >= toks.len() {
        return Err(unsup_err("unterminated relationship pattern"));
    }
    if !(toks[i2].kind == TokKind::RBracket) {
        return Err(perr(toks, i2, "']'"));
    }
    if i2 + 1 >= toks.len() {
        return Err(unsup_err("unterminated relationship pattern"));
    }
    if toks[i2 + 1].kind == TokKind::Arrow {
        Ok((RelPat { var, rel_type }, i2 + 2))
    } else if toks[i2 + 1].kind == TokKind::Dash {
        Err(unsup_err("only left-to-right '->' relationships are supported"))
    } else {
        Err(perr(toks, i2 + 1, "'->'"))
    }
}

/// Parses a pattern graph from position `i`.
fn parse_graph(toks: &Vec<Token>, i: usize) -> (r: Result<(PatternGraph, usize), TranslationError>)
    ensures
        match r {
            Ok((g, j)) => spec_parse_graph(toks.deep_view(), i as int) == Ok::<
                (PatternGraphV, int),
                TranslationErrorV,
            >((g.deep_view(), j as int)) && j <= toks.len(),
            Err(e) => spec_parse_graph(toks.deep_view(), i as int) == Err::<
                (PatternGraphV, int),
                TranslationErrorV,
            >(e@),
        },
{
    let (src, i1) = match parse_node(toks, i) {
        Ok(nj) => nj,
        Err(e) => {
            return Err(e);
        },
    };
    if i1 < toks.len() && toks[i1].kind == TokKind::Dash {
        if i1 + 1 >= toks.len() {
            return Err(unsup_err("unterminated relationship pattern"));
        }
        if !(toks[i1 + 1].kind == TokKind::LBracket) {
            return Err(perr(toks, i1 + 1, "'[' after '-'"));
        }
        let (rel, i2) = match parse_rel(toks, i1 + 2) {
            Ok(rj) => rj,
            Err(e) => {
                return Err(e);
            },
        };
        let (dst, i3) = match parse_node(toks, i2) {
            Ok(nj) => nj,
            Err(e) => {
                return Err(e);
            },
        };
        if i3 < toks.len() && (toks[i3].kind == TokKind::Dash || toks[i3].kind == TokKind::Arrow) {
            return Err(unsup_err("multi-hop pattern chains are not supported"));
        }
        Ok((PatternGraph::Rel { src, rel, dst }, i3))
    } else {
        Ok((PatternGraph::Node(src), i1))
    }
}

/// Parses a comma-separated pattern-graph list from position `i`.
fn parse_graph_list(toks: &Vec<Token>, i: usize) -> (r: Result<
    (Vec<PatternGraph>, usize),
    TranslationError,
>)
    ensures
        match r {
            Ok((gs, j)) => spec_parse_graph_list(toks.deep_view(), i as int, Seq::empty()) == Ok::<
                (Seq<PatternGraphV>, int),
                TranslationErrorV,
            >((gs.deep_view(), j as int)) && j <= toks.len(),
            Err(e) => spec_parse_graph_list(toks.deep_view(), i as int, Seq::empty()) == Err::<
                (Seq<PatternGraphV>, int),
                TranslationErrorV,
            >(e@),
        },
{
    let ghost tv = toks.deep_view();
    let mut gs: Vec<PatternGraph> = Vec::new();
    proof {
        assert(gs.deep_view() =~= Seq::<PatternGraphV>::empty());
    }
    let mut j = i;
    loop
        invariant
            tv == toks.deep_view(),
            i <= j,
            spec_parse_graph_list(tv, i as int, Seq::empty()) == spec_parse_graph_list(
                tv,
                j as int,
                gs.deep_view(),
            ),
        decreases toks.len() + 1 - j,
    {
        let ghost dv = gs.deep_view();
        let (g, j2) = match parse_graph(toks, j) {
            Ok(gj) => gj,
            Err(e) => {
                return Err(e);
            },
        };
        proof {
            lemma_parse_graph_advance(tv, j as int);
        }
        gs.push(g);
        proof {
            assert(gs.deep_view() =~= dv.push(gs@[gs.len() - 1].deep_view()));
        }
        if j2 < toks.len() && toks[j2].kind == TokKind::Comma {
            j = j2 + 1;
        } else {
            return Ok((gs, j2));
        }
    }
}

/// Parses a comma-separated variable-name list from position `i`.
fn parse_var_list(toks: &Vec<Token>, i: usize) -> (r: Result<
    (Vec<String>, usize),
    TranslationError,
>)
    ensures
        match r {
            Ok((vs, j)) => spec_parse_var_list(toks.deep_view(), i as int, Seq::empty()) == Ok::<
                (Seq<Seq<char>>, int),
                TranslationErrorV,
            >((vs.deep_view(), j as int)) && j <= toks.len(),
            Err(e) => spec_parse_var_list(toks.deep_view(), i as int, Seq::empty()) == Err::<
                (Seq<Seq<char>>, int),
                TranslationErrorV,
            >(e@),
        },
{
    let ghost tv = toks.deep_view();
    let mut vs: Vec<String> = Vec::new();
    proof {
        assert(vs.deep_view() =~= Seq::<Seq<char>>::empty());
    }
    let mut j = i;
    loop
        invariant
            tv == toks.deep_view(),
            i <= j,
            spec_parse_var_list(tv, i as int, Seq::empty()) == spec_parse_var_list(
                tv,
                j as int,
                vs.deep_view(),
            ),
        decreases toks.len() + 1 - j,
    {
        let ghost dv = vs.deep_view();
        if j >= toks.len() || !(toks[j].kind == TokKind::Ident) {
            return Err(perr(toks, j, "variable name"));
        }
        vs.push(toks[j].text.clone());
        proof {
            assert(vs.deep_view() =~= dv.push(tv[j as int].text));
        }
        if j + 1 < toks.len() && toks[j + 1].kind == TokKind::Comma {
            j = j + 2;
        } else {
            return Ok((vs, j + 1));
        }
    }
}

/// Parses one clause from position `i`.
fn parse_clause(toks: &Vec<Token>, i: usize) -> (r: Result<(Clause, usize), TranslationError>)
    ensures
        match r {
            Ok((c, j)) => spec_parse_clause(toks.deep_view(), i as int) == Ok::<
                (ClauseV, int),
                TranslationErrorV,
            >((c.deep_view(), j as int)) && j <= toks.len(),
            Err(e) => spec_parse_clause(toks.deep_view(), i as int) == Err::<
                (ClauseV, int),
                TranslationErrorV,
            >(e@),
        },
{
    if i >= toks.len() || !(toks[i].kind == TokKind::Ident) {
        return Err(perr(toks, i, "MATCH, CREATE, DELETE, DETACH or RETURN"));
    }
    if kw_eq(&toks[i].text, "MATCH") {
        match parse_graph_list(toks, i + 1) {
            Ok((gs, j)) => Ok((Clause::Match(gs), j)),
            Err(e) => Err(e),
        }
    } else if kw_eq(&toks[i].text, "CREATE") {
        match parse_graph_list(toks, i + 1) {
            Ok((gs, j)) => Ok((Clause::Create(gs), j)),
            Err(e) => Err(e),
        }
    } else if kw_eq(&toks[i].text, "DETACH") {
        if i + 1 < toks.len() && toks[i + 1].kind == TokKind::Ident && kw_eq(
            &toks[i + 1].text,
            "DELETE",
        ) {
            match parse_var_list(toks, i + 2) {
                Ok((vs, j)) => Ok((Clause::Delete { vars: vs, detach: true }, j)),
                Err(e) => Err(e),
            }
        } else {
            Err(perr(toks, i + 1, "DELETE after DETACH"))
        }
    } else if kw_eq(&toks[i].text, "DELETE") {
        match parse_var_list(toks, i + 1) {
            Ok((vs, j)) => Ok((Clause::Delete { vars: vs, detach: false }, j)),
            Err(e) => Err(e),
        }
    } else if kw_eq(&toks[i].text, "RETURN") {
        match parse_var_list(toks, i + 1) {
            Ok((vs, j)) => Ok((Clause::Return(vs), j)),
            Err(e) => Err(e),
        }
    } else {
        Err(perr(toks, i, "MATCH, CREATE, DELETE, DETACH or RETURN"))
    }
}

/// The parser: the full token sequence of one statement to its AST, or the
/// first structured error.  Returns exactly what the spec function
/// [`spec_parse`] computes.
pub fn parse(toks: &Vec<Token>) -> (r: Result<Statement, TranslationError>)
    ensures
        match r {
            Ok(stmt) => spec_parse(toks.deep_view()) == Ok::<Seq<ClauseV>, TranslationErrorV>(
                stmt@,
            ),
            Err(e) => spec_parse(toks.deep_view()) == Err::<Seq<ClauseV>, TranslationErrorV>(e@),
        },
{
    let ghost tv = toks.deep_view();
    if toks.len() == 0 {
        return Err(perr(toks, 0, "MATCH, CREATE, DELETE, DETACH or RETURN"));
    }
    let mut clauses: Vec<Clause> = Vec::new();
    proof {
        assert(clauses.deep_view() =~= Seq::<ClauseV>::empty());
    }
    let mut j: usize = 0;
    while j < toks.len()
        invariant
            tv == toks.deep_view(),
            j <= toks.len(),
            spec_parse_clauses(tv, 0, Seq::empty()) == spec_parse_clauses(
                tv,
                j as int,
                clauses.deep_view(),
            ),
        decreases toks.len() - j,
    {
        let ghost dv = clauses.deep_view();
        let (c, j2) = match parse_clause(toks, j) {
            Ok(cj) => cj,
            Err(e) => {
                return Err(e);
            },
        };
        proof {
            lemma_parse_clause_advance(tv, j as int);
        }
        clauses.push(c);
        proof {
            assert(clauses.deep_view() =~= dv.push(clauses@[clauses.len() - 1].deep_view()));
        }
        j = j2;
    }
    Ok(Statement { clauses })
}

} // verus!
