//! The abstract syntax of one statement: clauses over node and relationship
//! patterns, with insertion-ordered property maps.
//!
//! Each executable type has a spec-level mirror (`...V`) over mathematical
//! sequences, reached through `View`/`DeepView`; all contracts speak of the
//! mirrors.

use vstd::prelude::*;

verus! {

/// Spec-level mirror of [`PropVal`].
#[verifier::ext_equal]
pub ghost enum PropValV {
    /// The text between the quotes of a string literal.
    Str(Seq<char>),
    /// The exact source text of a numeric literal.
    Num(Seq<char>),
}

/// A property value.  Numeric values keep their source text, so that no
/// lossy reparsing happens; codegen decides formatting.
pub enum PropVal {
    /// The text between the quotes of a string literal.
    Str(String),
    /// The exact source text of a numeric literal.
    Num(String),
}

impl View for PropVal {
    type V = PropValV;

    open spec fn view(&self) -> PropValV {
        match self {
            PropVal::Str(t) => PropValV::Str(t@),
            PropVal::Num(t) => PropValV::Num(t@),
        }
    }
}

impl DeepView for PropVal {
    type V = PropValV;

    open spec fn deep_view(&self) -> PropValV {
        self.view()
    }
}

/// Spec-level mirror of [`Prop`].
#[verifier::ext_equal]
pub ghost struct PropV {
    pub key: Seq<char>,
    pub val: PropValV,
}

/// One key/value pair of a property map.  A property map is a vector of
/// these, in insertion order; its keys are unique (the parser rejects a
/// repeated key).
pub struct Prop {
    pub key: String,
    pub val: PropVal,
}

impl View for Prop {
    type V = PropV;

    open spec fn view(&self) -> PropV {
        PropV { key: self.key@, val: self.val@ }
    }
}

impl DeepView for Prop {
    type V = PropV;

    open spec fn deep_view(&self) -> PropV {
        self.view()
    }
}

/// Spec-level mirror of [`NodePat`].
#[verifier::ext_equal]
pub ghost struct NodePatV {
    pub var: Option<Seq<char>>,
    pub label: Option<Seq<char>>,
    pub props: Seq<PropV>,
}

/// A node pattern: optional binding variable, optional single label,
/// optional property map (empty vector when absent).
pub struct NodePat {
    pub var: Option<String>,
    pub label: Option<String>,
    pub props: Vec<Prop>,
}

impl View for NodePat {
    type V = NodePatV;

    open spec fn view(&self) -> NodePatV {
        NodePatV { var: self.var.deep_view(), label: self.label.deep_view(), props: self.props.deep_view() }
    }
}

impl DeepView for NodePat {
    type V = NodePatV;

    open spec fn deep_view(&self) -> NodePatV {
        self.view()
    }
}

/// Spec-level mirror of [`RelPat`].
#[verifier::ext_equal]
pub ghost struct RelPatV {
    pub var: Option<Seq<char>>,
    pub rel_type: Option<Seq<char>>,
}

/// The body of a relationship pattern: optional binding variable and
/// optional single type.  Direction is always left-to-right (`->`).
pub struct RelPat {
    pub var: Option<String>,
    pub rel_type: Option<String>,
}

impl View for RelPat {
    type V = RelPatV;

    open spec fn view(&self) -> RelPatV {
        RelPatV { var: self.var.deep_view(), rel_type: self.rel_type.deep_view() }
    }
}

impl DeepView for RelPat {
    type V = RelPatV;

    open spec fn deep_view(&self) -> RelPatV {
        self.view()
    }
}

/// Spec-level mirror of [`PatternGraph`].
#[verifier::ext_equal]
pub ghost enum PatternGraphV {
    Node(NodePatV),
    Rel { src: NodePatV, rel: RelPatV, dst: NodePatV },
}

/// A pattern graph: a single node, or exactly one relationship hop between
/// two nodes (multi-hop chains are rejected at parse time).
pub enum PatternGraph {
    Node(NodePat),
    Rel { src: NodePat, rel: RelPat, dst: NodePat },
}

impl View for PatternGraph {
    type V = PatternGraphV;

    open spec fn view(&self) -> PatternGraphV {
        match self {
            PatternGraph::Node(n) => PatternGraphV::Node(n.view()),
            PatternGraph::Rel { src, rel, dst } => PatternGraphV::Rel {
                src: src.view(),
                rel: rel.view(),
                dst: dst.view(),
            },
        }
    }
}

impl DeepView for PatternGraph {
    type V = PatternGraphV;

    open spec fn deep_view(&self) -> PatternGraphV {
        self.view()
    }
}

/// Spec-level mirror of [`Clause`].
#[verifier::ext_equal]
pub ghost enum ClauseV {
    Match(Seq<PatternGraphV>),
    Create(Seq<PatternGraphV>),
    Delete { vars: Seq<Seq<char>>, detach: bool },
    Return(Seq<Seq<char>>),
}

/// One clause of a statement, in source order.
pub enum Clause {
    Match(Vec<PatternGraph>),
    Create(Vec<PatternGraph>),
    Delete { vars: Vec<String>, detach: bool },
    Return(Vec<String>),
}

impl View for Clause {
    type V = ClauseV;

    open spec fn view(&self) -> ClauseV {
        match self {
            Clause::Match(gs) => ClauseV::Match(gs.deep_view()),
            Clause::Create(gs) => ClauseV::Create(gs.deep_view()),
            Clause::Delete { vars, detach } => ClauseV::Delete {
                vars: vars.deep_view(),
                detach: *detach,
            },
            Clause::Return(vars) => ClauseV::Return(vars.deep_view()),
        }
    }
}

impl DeepView for Clause {
    type V = ClauseV;

    open spec fn deep_view(&self) -> ClauseV {
        self.view()
    }
}

/// A statement: the ordered sequence of clauses as written.  Order is
/// semantically significant: later clauses may reference variables bound by
/// earlier ones, never the reverse.
pub struct Statement {
    pub clauses: Vec<Clause>,
}

impl View for Statement {
    type V = Seq<ClauseV>;

    open spec fn view(&self) -> Seq<ClauseV> {
        self.clauses.deep_view()
    }
}

impl DeepView for Statement {
    type V = Seq<ClauseV>;

    open spec fn deep_view(&self) -> Seq<ClauseV> {
        self.view()
    }
}

} // verus!
