//! The error taxonomy of the translator.  Every failure of a translation is
//! one of these structured values; no stage ever falls back to emitting
//! partial output.

use vstd::prelude::*;

verus! {

/// The kind of clause that referenced a variable, for error reporting.
#[derive(Clone, Copy, PartialEq, Eq, Structural, Debug)]
pub enum ClauseKind {
    Match,
    Create,
    Delete,
    Return,
}

/// Spec-level mirror of [`TranslationError`]: the same variants over
/// mathematical sequences of characters.
#[verifier::ext_equal]
pub ghost enum TranslationErrorV {
    /// An unrecognized character, with its byte offset in the input text.
    LexError { offset: int, character: char },
    /// A grammar mismatch: the token position reached, the expected token
    /// set, and what was found instead.
    ParseError { position: int, expected: Seq<char>, found: Seq<char> },
    /// A property map wrote the same key twice.
    DuplicatePropertyKeyError { key: Seq<char> },
    /// A clause referenced a variable that no earlier clause bound.
    UnboundVariableError { variable: Seq<char>, clause: ClauseKind },
    /// A clause or pattern shape outside the supported subset.
    UnsupportedPatternError { reason: Seq<char> },
}

/// A structured, terminal failure of one statement's translation.
#[derive(Debug)]
pub enum TranslationError {
    /// An unrecognized character, with its byte offset in the input text.
    LexError { offset: usize, character: char },
    /// A grammar mismatch: the index of the token reached, the expected
    /// token set, and what was found instead.
    ParseError { position: usize, expected: String, found: String },
    /// A property map wrote the same key twice.
    DuplicatePropertyKeyError { key: String },
    /// A clause referenced a variable that no earlier clause bound.
    UnboundVariableError { variable: String, clause: ClauseKind },
    /// A clause or pattern shape outside the supported subset.
    UnsupportedPatternError { reason: String },
}

impl View for TranslationError {
    type V = TranslationErrorV;

    open spec fn view(&self) -> TranslationErrorV {
        match self {
            TranslationError::LexError { offset, character } => TranslationErrorV::LexError {
                offset: *offset as int,
                character: *character,
            },
            TranslationError::ParseError { position, expected, found } => {
                TranslationErrorV::ParseError {
                    position: *position as int,
                    expected: expected@,
                    found: found@,
                }
            },
            TranslationError::DuplicatePropertyKeyError { key } => {
                TranslationErrorV::DuplicatePropertyKeyError { key: key@ }
            },
            TranslationError::UnboundVariableError { variable, clause } => {
                TranslationErrorV::UnboundVariableError { variable: variable@, clause: *clause }
            },
            TranslationError::UnsupportedPatternError { reason } => {
                TranslationErrorV::UnsupportedPatternError { reason: reason@ }
            },
        }
    }
}

impl DeepView for TranslationError {
    type V = TranslationErrorV;

    open spec fn deep_view(&self) -> TranslationErrorV {
        self.view()
    }
}

} // verus!
