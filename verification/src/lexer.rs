//! The lexer: query text to an ordered token sequence, skipping whitespace.
//!
//! Identifiers match `[A-Za-z_][A-Za-z0-9_]*`; keywords are lexed as ordinary
//! identifiers and recognized (case-insensitively) only by the parser.
//! String literals are single-quoted spans with no literal newline; numeric
//! literals are `[0-9]+(\.[0-9]+)?`.  The punctuation set is
//! `( ) [ ] { } : , -` plus the directed-arrow sequence `->`.  Any other
//! character fails lexing with a [`TranslationError::LexError`] carrying the
//! character and its byte offset; nothing is skipped or guessed.
//!
//! The spec function [`lex`] is the mathematical definition of lexing; the
//! executable [`tokenize`] is proved to return exactly its value.

use vstd::prelude::*;

use crate::errors::{TranslationError, TranslationErrorV};

verus! {

/// The kind of a token.  Tokens are immutable and own no cross-references.
#[derive(Clone, Copy, PartialEq, Eq, Structural, Debug)]
pub enum TokKind {
    /// `[A-Za-z_][A-Za-z0-9_]*` (keywords included).
    Ident,
    /// A single-quoted span; the token text keeps the quotes.
    StrLit,
    /// `[0-9]+(\.[0-9]+)?`.
    NumLit,
    LParen,
    RParen,
    LBracket,
    RBracket,
    LBrace,
    RBrace,
    Colon,
    Comma,
    Dash,
    /// The two-character sequence `->`.
    Arrow,
}

/// Spec-level mirror of [`Token`].
#[verifier::ext_equal]
pub ghost struct TokenV {
    pub kind: TokKind,
    pub text: Seq<char>,
}

/// A token: its kind plus the exact source text span.
pub struct Token {
    pub kind: TokKind,
    pub text: String,
}

impl View for Token {
    type V = TokenV;

    open spec fn view(&self) -> TokenV {
        TokenV { kind: self.kind, text: self.text@ }
    }
}

impl DeepView for Token {
    type V = TokenV;

    open spec fn deep_view(&self) -> TokenV {
        self.view()
    }
}

/// Whitespace skipped between tokens.
pub open spec fn is_space_char(c: char) -> bool {
    c == ' ' || c == '\t' || c == '\n' || c == '\r'
}

/// First character of an identifier: `[A-Za-z_]`.
pub open spec fn is_ident_start_char(c: char) -> bool {
    (('a' as u32) <= (c as u32) && (c as u32) <= ('z' as u32)) || (('A' as u32) <= (c as u32)
        && (c as u32) <= ('Z' as u32)) || c == '_'
}

/// `[0-9]`.
pub open spec fn is_digit_char(c: char) -> bool {
    ('0' as u32) <= (c as u32) && (c as u32) <= ('9' as u32)
}

/// Continuation character of an identifier: `[A-Za-z0-9_]`.
pub open spec fn is_ident_char(c: char) -> bool {
    is_ident_start_char(c) || is_digit_char(c)
}

/// End of the run of identifier characters starting at `i`.
pub open spec fn ident_end(s: Seq<char>, i: int) -> int
    decreases s.len() - i when 0 <= i <= s.len()
{
    if i < s.len() && is_ident_char(s[i]) {
        ident_end(s, i + 1)
    } else {
        i
    }
}

/// End of the run of digits starting at `i`.
pub open spec fn digits_end(s: Seq<char>, i: int) -> int
    decreases s.len() - i when 0 <= i <= s.len()
{
    if i < s.len() && is_digit_char(s[i]) {
        digits_end(s, i + 1)
    } else {
        i
    }
}

/// End of the numeric literal starting at `i`: a digit run, extended by a
/// fractional part only when a dot is followed by at least one digit.
pub open spec fn num_end(s: Seq<char>, i: int) -> int {
    let d = digits_end(s, i);
    if d + 1 < s.len() && s[d] == '.' && is_digit_char(s[d + 1]) {
        digits_end(s, d + 1)
    } else {
        d
    }
}

/// First position at or after `i` holding a closing quote or a literal
/// newline; `s.len()` when there is none.
pub open spec fn str_scan(s: Seq<char>, i: int) -> int
    decreases s.len() - i when 0 <= i <= s.len()
{
    if i < s.len() {
        if s[i] == '\'' || s[i] == '\n' {
            i
        } else {
            str_scan(s, i + 1)
        }
    } else {
        s.len() as int
    }
}

pub proof fn lemma_ident_end_bounds(s: Seq<char>, i: int)
    requires
        0 <= i <= s.len(),
    ensures
        i <= ident_end(s, i) <= s.len(),
    decreases s.len() - i,
{
    if i < s.len() && is_ident_char(s[i]) {
        lemma_ident_end_bounds(s, i + 1);
    }
}

pub proof fn lemma_digits_end_bounds(s: Seq<char>, i: int)
    requires
        0 <= i <= s.len(),
    ensures
        i <= digits_end(s, i) <= s.len(),
    decreases s.len() - i,
{
    if i < s.len() && is_digit_char(s[i]) {
        lemma_digits_end_bounds(s, i + 1);
    }
}

pub proof fn lemma_num_end_bounds(s: Seq<char>, i: int)
    requires
        0 <= i <= s.len(),
    ensures
        i <= num_end(s, i) <= s.len(),
{
    lemma_digits_end_bounds(s, i);
    let d = digits_end(s, i);
    if d + 1 < s.len() && s[d] == '.' && is_digit_char(s[d + 1]) {
        lemma_digits_end_bounds(s, d + 1);
    }
}

pub proof fn lemma_str_scan_bounds(s: Seq<char>, i: int)
    requires
        0 <= i <= s.len(),
    ensures
        i <= str_scan(s, i) <= s.len(),
    decreases s.len() - i,
{
    if i < s.len() && !(s[i] == '\'' || s[i] == '\n') {
        lemma_str_scan_bounds(s, i + 1);
    }
}

/// The byte offset of character position `i` of `s`, under UTF-8 encoding.
pub open spec fn byte_offset(s: Seq<char>, i: int) -> int {
    (vstd::utf8::encode_utf8(s.subrange(0, i)).len() as usize) as int
}

/// The kind of the one-character punctuation token `c`, if any (`-` is
/// handled separately because of the arrow).
pub open spec fn punct_kind(c: char) -> Option<TokKind> {
    if c == '(' {
        Some(TokKind::LParen)
    } else if c == ')' {
        Some(TokKind::RParen)
    } else if c == '[' {
        Some(TokKind::LBracket)
    } else if c == ']' {
        Some(TokKind::RBracket)
    } else if c == '{' {
        Some(TokKind::LBrace)
    } else if c == '}' {
        Some(TokKind::RBrace)
    } else if c == ':' {
        Some(TokKind::Colon)
    } else if c == ',' {
        Some(TokKind::Comma)
    } else {
        None
    }
}

/// Prepends an already-lexed prefix to the outcome of lexing a remainder.
pub open spec fn lex_cat(pre: Seq<TokenV>, r: Result<Seq<TokenV>, TranslationErrorV>) -> Result<
    Seq<TokenV>,
    TranslationErrorV,
> {
    match r {
        Ok(rest) => Ok(pre + rest),
        Err(e) => Err(e),
    }
}

proof fn lemma_lex_cat_assoc(a: Seq<TokenV>, b: Seq<TokenV>, r: Result<Seq<TokenV>, TranslationErrorV>)
    ensures
        lex_cat(a, lex_cat(b, r)) == lex_cat(a + b, r),
{
    match r {
        Ok(rest) => {
            assert(a + (b + rest) =~= (a + b) + rest);
        },
        Err(_) => {},
    }
}

/// The mathematical definition of lexing from character position `i` on:
/// the token sequence of the rest of the text, or the first lexing failure.
pub open spec fn lex_from(s: Seq<char>, i: int) -> Result<Seq<TokenV>, TranslationErrorV>
    decreases s.len() - i when 0 <= i <= s.len()
{
    if i >= s.len() {
        Ok(Seq::empty())
    } else {
        let c = s[i];
        if is_space_char(c) {
            lex_from(s, i + 1)
        } else if is_ident_start_char(c) {
            let j = ident_end(s, i + 1);
            proof {
                lemma_ident_end_bounds(s, i + 1);
            }
            lex_cat(seq![TokenV { kind: TokKind::Ident, text: s.subrange(i, j) }], lex_from(s, j))
        } else if is_digit_char(c) {
            let j = num_end(s, i + 1);
            proof {
                lemma_num_end_bounds(s, i + 1);
            }
            lex_cat(seq![TokenV { kind: TokKind::NumLit, text: s.subrange(i, j) }], lex_from(s, j))
        } else if c == '\'' {
            let j = str_scan(s, i + 1);
            proof {
                lemma_str_scan_bounds(s, i + 1);
            }
            if j < s.len() && s[j] == '\'' {
                lex_cat(
                    seq![TokenV { kind: TokKind::StrLit, text: s.subrange(i, j + 1) }],
                    lex_from(s, j + 1),
                )
            } else {
                Err(TranslationErrorV::LexError { offset: byte_offset(s, i), character: '\'' })
            }
        } else if c == '-' {
            if i + 1 < s.len() && s[i + 1] == '>' {
                lex_cat(
                    seq![TokenV { kind: TokKind::Arrow, text: s.subrange(i, i + 2) }],
                    lex_from(s, i + 2),
                )
            } else {
                lex_cat(
                    seq![TokenV { kind: TokKind::Dash, text: s.subrange(i, i + 1) }],
                    lex_from(s, i + 1),
                )
            }
        } else {
            match punct_kind(c) {
                Some(k) => lex_cat(
                    seq![TokenV { kind: k, text: s.subrange(i, i + 1) }],
                    lex_from(s, i + 1),
                ),
                None => Err(
                    TranslationErrorV::LexError { offset: byte_offset(s, i), character: c },
                ),
            }
        }
    }
}

/// The token sequence of the whole text, or the first lexing failure.
pub open spec fn lex(s: Seq<char>) -> Result<Seq<TokenV>, TranslationErrorV> {
    lex_from(s, 0)
}

/// Spec-level reading of [`tokenize`]'s result.
pub open spec fn lex_result_view(r: Result<Vec<Token>, TranslationError>) -> Result<
    Seq<TokenV>,
    TranslationErrorV,
> {
    match r {
        Ok(v) => Ok(v.deep_view()),
        Err(e) => Err(e@),
    }
}

fn space_char(c: char) -> (r: bool)
    ensures
        r == is_space_char(c),
{
    c == ' ' || c == '\t' || c == '\n' || c == '\r'
}

fn ident_start_char(c: char) -> (r: bool)
    ensures
        r == is_ident_start_char(c),
{
    let u = c as u32;
    (('a' as u32) <= u && u <= ('z' as u32)) || (('A' as u32) <= u && u <= ('Z' as u32)) || c == '_'
}

fn digit_char(c: char) -> (r: bool)
    ensures
        r == is_digit_char(c),
{
    let u = c as u32;
    ('0' as u32) <= u && u <= ('9' as u32)
}

fn ident_char(c: char) -> (r: bool)
    ensures
        r == is_ident_char(c),
{
    ident_start_char(c) || digit_char(c)
}

/// Scans the run of identifier characters starting at `i`.
fn scan_ident(input: &str, i: usize, n: usize) -> (j: usize)
    requires
        n == input@.len(),
        i <= n,
    ensures
        j == ident_end(input@, i as int),
        i <= j <= n,
{
    let ghost s = input@;
    let mut j = i;
    while j < n && ident_char(input.get_char(j))
        invariant
            n == s.len(),
            s == input@,
            i <= j <= n,
            ident_end(s, i as int) == ident_end(s, j as int),
        decreases n - j,
    {
        j = j + 1;
    }
    j
}

/// Scans the run of digits starting at `i`.
fn scan_digits(input: &str, i: usize, n: usize) -> (j: usize)
    requires
        n == input@.len(),
        i <= n,
    ensures
        j == digits_end(input@, i as int),
        i <= j <= n,
{
    let ghost s = input@;
    let mut j = i;
    while j < n && digit_char(input.get_char(j))
        invariant
            n == s.len(),
            s == input@,
            i <= j <= n,
            digits_end(s, i as int) == digits_end(s, j as int),
        decreases n - j,
    {
        j = j + 1;
    }
    j
}

/// Scans for the closing quote (or a newline) from `i` on.
fn scan_str(input: &str, i: usize, n: usize) -> (j: usize)
    requires
        n == input@.len(),
        i <= n,
    ensures
        j == str_scan(input@, i as int),
        i <= j <= n,
{
    let ghost s = input@;
    let mut j = i;
    while j < n && input.get_char(j) != '\'' && input.get_char(j) != '\n'
        invariant
            n == s.len(),
            s == input@,
            i <= j <= n,
            str_scan(s, i as int) == str_scan(s, j as int),
        decreases n - j,
    {
        j = j + 1;
    }
    j
}

/// Builds the token whose exact source span is the characters `i..j`.
fn make_token(input: &str, kind: TokKind, i: usize, j: usize) -> (t: Token)
    requires
        i <= j <= input@.len(),
    ensures
        t@ == (TokenV { kind, text: input@.subrange(i as int, j as int) }),
{
    let text = input.substring_char(i, j).to_owned();
    Token { kind, text }
}

/// The byte offset of character position `i`, computed from the text.
fn byte_offset_at(input: &str, i: usize) -> (off: usize)
    requires
        i <= input@.len(),
    ensures
        off as int == byte_offset(input@, i as int),
{
    input.substring_char(0, i).len()
}

/// The lexer: the token sequence of the query text in source order, or a
/// `LexError` holding the first unrecognized character and its byte offset.
/// Returns exactly what the spec function [`lex`] computes.
pub fn tokenize(input: &str) -> (r: Result<Vec<Token>, TranslationError>)
    ensures
        lex_result_view(r) == lex(input@),
{
    let ghost s = input@;
    let n = input.unicode_len();
    let mut toks: Vec<Token> = Vec::new();
    let mut i: usize = 0;
    while i < n
        invariant
            n == s.len(),
            i <= n,
            s == input@,
            lex(s) == lex_cat(toks.deep_view(), lex_from(s, i as int)),
        decreases n - i,
    {
        let ghost dv = toks.deep_view();
        let c = input.get_char(i);
        if space_char(c) {
            i = i + 1;
        } else if ident_start_char(c) {
            let j = scan_ident(input, i + 1, n);
            let t = make_token(input, TokKind::Ident, i, j);
            proof {
                lemma_lex_cat_assoc(dv, seq![t@], lex_from(s, j as int));
            }
            toks.push(t);
            proof {
                assert(toks.deep_view() =~= dv + seq![t@]);
            }
            i = j;
        } else if digit_char(c) {
            let d = scan_digits(input, i + 1, n);
            let j = if d < n && input.get_char(d) == '.' && d + 1 < n && digit_char(
                input.get_char(d + 1),
            ) {
                scan_digits(input, d + 1, n)
            } else {
                d
            };
            assert(j == num_end(s, i as int + 1));
            let t = make_token(input, TokKind::NumLit, i, j);
            proof {
                lemma_lex_cat_assoc(dv, seq![t@], lex_from(s, j as int));
            }
            toks.push(t);
            proof {
                assert(toks.deep_view() =~= dv + seq![t@]);
            }
            i = j;
        } else if c == '\'' {
            let j = scan_str(input, i + 1, n);
            if j < n && input.get_char(j) == '\'' {
                let t = make_token(input, TokKind::StrLit, i, j + 1);
                proof {
                    lemma_lex_cat_assoc(dv, seq![t@], lex_from(s, j as int + 1));
                }
                toks.push(t);
                proof {
                    assert(toks.deep_view() =~= dv + seq![t@]);
                }
                i = j + 1;
            } else {
                let off = byte_offset_at(input, i);
                return Err(TranslationError::LexError { offset: off, character: '\'' });
            }
        } else if c == '-' {
            if i + 1 < n && input.get_char(i + 1) == '>' {
                let t = make_token(input, TokKind::Arrow, i, i + 2);
                proof {
                    lemma_lex_cat_assoc(dv, seq![t@], lex_from(s, i as int + 2));
                }
                toks.push(t);
                proof {
                    assert(toks.deep_view() =~= dv + seq![t@]);
                }
                i = i + 2;
            } else {
                let t = make_token(input, TokKind::Dash, i, i + 1);
                proof {
                    lemma_lex_cat_assoc(dv, seq![t@], lex_from(s, i as int + 1));
                }
                toks.push(t);
                proof {
                    assert(toks.deep_view() =~= dv + seq![t@]);
                }
                i = i + 1;
            }
        } else {
            let k = match c {
                '(' => Some(TokKind::LParen),
                ')' => Some(TokKind::RParen),
                '[' => Some(TokKind::LBracket),
                ']' => Some(TokKind::RBracket),
                '{' => Some(TokKind::LBrace),
                '}' => Some(TokKind::RBrace),
                ':' => Some(TokKind::Colon),
                ',' => Some(TokKind::Comma),
                _ => None,
            };
            assert(k == punct_kind(c));
            match k {
                Some(kind) => {
                    let t = make_token(input, kind, i, i + 1);
                    proof {
                        lemma_lex_cat_assoc(dv, seq![t@], lex_from(s, i as int + 1));
                    }
                    toks.push(t);
                    proof {
                        assert(toks.deep_view() =~= dv + seq![t@]);
                    }
                    i = i + 1;
                },
                None => {
                    let off = byte_offset_at(input, i);
                    return Err(TranslationError::LexError { offset: off, character: c });
                },
            }
        }
    }
    proof {
        assert(toks.deep_view() + Seq::<TokenV>::empty() =~= toks.deep_view());
    }
    Ok(toks)
}


/// A numeric literal's shape: non-empty, digits and dots only.
pub open spec fn num_shaped(t: Seq<char>) -> bool {
    t.len() > 0 && forall|k: int|
        0 <= k < t.len() ==> is_digit_char(#[trigger] t[k]) || t[k] == '.'
}

/// Every character of a digit run is a digit.
pub proof fn lemma_digits_end_chars(s: Seq<char>, i: int, k: int)
    requires
        0 <= i <= s.len(),
        i <= k < digits_end(s, i),
    ensures
        is_digit_char(s[k]),
    decreases s.len() - i,
{
    lemma_digits_end_bounds(s, i);
    if k > i {
        lemma_digits_end_chars(s, i + 1, k);
    }
}

/// Every character of the numeric literal spanning `i..num_end(s, i + 1)`
/// (whose first character is a digit) is a digit or a dot.
pub proof fn lemma_num_span_chars(s: Seq<char>, i: int)
    requires
        0 <= i < s.len(),
        is_digit_char(s[i]),
    ensures
        num_shaped(s.subrange(i, num_end(s, i + 1))),
{
    let j = num_end(s, i + 1);
    lemma_num_end_bounds(s, i + 1);
    let d = digits_end(s, i + 1);
    lemma_digits_end_bounds(s, i + 1);
    let t = s.subrange(i, j);
    assert forall|k: int| 0 <= k < t.len() implies is_digit_char(#[trigger] t[k]) || t[k]
        == '.' by {
        let m = i + k;
        assert(t[k] == s[m]);
        if m == i {
        } else if m < d {
            lemma_digits_end_chars(s, i + 1, m);
        } else if j != d {
            lemma_digits_end_bounds(s, d + 1);
            if m > d {
                lemma_digits_end_chars(s, d + 1, m);
            }
        }
    }
}

/// Every numeric-literal token the lexer produces has the numeric shape.
pub proof fn lemma_lex_num_shaped(s: Seq<char>, i: int)
    requires
        0 <= i <= s.len(),
    ensures
        match lex_from(s, i) {
            Ok(toks) => forall|k: int|
                0 <= k < toks.len() && (#[trigger] toks[k]).kind == TokKind::NumLit ==> num_shaped(
                    toks[k].text,
                ),
            Err(_) => true,
        },
    decreases s.len() - i,
{
    if i >= s.len() {
    } else {
        let c = s[i];
        if is_space_char(c) {
            lemma_lex_num_shaped(s, i + 1);
        } else if is_ident_start_char(c) {
            lemma_ident_end_bounds(s, i + 1);
            lemma_lex_num_shaped(s, ident_end(s, i + 1));
        } else if is_digit_char(c) {
            lemma_num_end_bounds(s, i + 1);
            lemma_lex_num_shaped(s, num_end(s, i + 1));
            lemma_num_span_chars(s, i);
        } else if c == '\'' {
            lemma_str_scan_bounds(s, i + 1);
            let j = str_scan(s, i + 1);
            if j < s.len() && s[j] == '\'' {
                lemma_lex_num_shaped(s, j + 1);
            }
        } else if c == '-' {
            if i + 1 < s.len() && s[i + 1] == '>' {
                lemma_lex_num_shaped(s, i + 2);
            } else {
                lemma_lex_num_shaped(s, i + 1);
            }
        } else {
            match punct_kind(c) {
                Some(k) => {
                    lemma_lex_num_shaped(s, i + 1);
                },
                None => {},
            }
        }
    }
}

} // verus!
