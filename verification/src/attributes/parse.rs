//! The annotation-text parser.
//!
//! One annotation block's text is first split into tokens (words, string
//! literals, `=`, parentheses, commas), then parsed into zero or more
//! annotation entries of the context's shape set, the entries separated by
//! commas.  Every parse function is specified against a spec-level parser
//! over the block's characters, so a caller's contract pins the parsed
//! entries down exactly.

use vstd::prelude::*;

verus! {

use vstd::string::StrSliceExecFns;

use crate::attributes::AttributeError;
use crate::attributes::ast::{
    EnumAttribute, EnumAttributeView, FieldAttribute, FieldAttributeView, LitStr, LitStrView,
    PrefixAttribute, PrefixAttributeView, PrefixMapping, PrefixMappingView, StructAttribute,
    StructAttributeView, TypeAttribute, TypeAttributeView, VariantAttribute, VariantAttributeView,
};
use crate::decl::{AnnotationBlock, AnnotationBlockView, Span};
use crate::prefix_mappings::{is_ascii_digit, is_ascii_letter};
use crate::text::str_eq;

// ---------------------------------------------------------------------------
// Tokens
// ---------------------------------------------------------------------------

#[derive(Debug)]
pub enum TokenKind {
    /// A keyword-shaped word: a letter or underscore, then letters, digits
    /// or underscores.
    Word(String),
    /// A double-quoted string literal; the payload excludes the quotes.
    /// The literal runs to the next double quote, with no escape sequences.
    Quoted(String),
    Equals,
    LParen,
    RParen,
    Comma,
}

#[derive(Debug)]
pub struct Token {
    pub kind: TokenKind,
    pub span: Span,
}

pub enum TokenKindView {
    Word(Seq<char>),
    Quoted(Seq<char>),
    Equals,
    LParen,
    RParen,
    Comma,
}

pub struct TokenView {
    pub kind: TokenKindView,
    pub span: Span,
}

impl DeepView for TokenKind {
    type V = TokenKindView;

    open spec fn deep_view(&self) -> TokenKindView {
        match self {
            TokenKind::Word(w) => TokenKindView::Word(w@),
            TokenKind::Quoted(v) => TokenKindView::Quoted(v@),
            TokenKind::Equals => TokenKindView::Equals,
            TokenKind::LParen => TokenKindView::LParen,
            TokenKind::RParen => TokenKindView::RParen,
            TokenKind::Comma => TokenKindView::Comma,
        }
    }
}

impl DeepView for Token {
    type V = TokenView;

    open spec fn deep_view(&self) -> TokenView {
        TokenView { kind: self.kind.deep_view(), span: self.span }
    }
}

// ---------------------------------------------------------------------------
// Lexing, specification level
// ---------------------------------------------------------------------------

pub open spec fn is_lex_ws(c: char) -> bool {
    c == ' ' || c == '\t' || c == '\n' || c == '\r'
}

pub open spec fn is_word_start(c: char) -> bool {
    is_ascii_letter(c) || c == '_'
}

pub open spec fn is_word_char(c: char) -> bool {
    is_ascii_letter(c) || is_ascii_digit(c) || c == '_'
}

/// First index at or after `i` that does not continue a word, or the text's
/// end.
pub open spec fn scan_word_end(s: Seq<char>, i: int) -> int
    decreases s.len() - i when 0 <= i <= s.len()
{
    if i < s.len() && is_word_char(s[i]) {
        scan_word_end(s, i + 1)
    } else {
        i
    }
}

/// First index at or after `i` holding a double quote, or the text's end.
pub open spec fn scan_quote_end(s: Seq<char>, i: int) -> int
    decreases s.len() - i when 0 <= i <= s.len()
{
    if i < s.len() && s[i] != '"' {
        scan_quote_end(s, i + 1)
    } else {
        i
    }
}

proof fn lemma_scan_word_end_bounds(s: Seq<char>, i: int)
    requires
        0 <= i <= s.len(),
    ensures
        i <= scan_word_end(s, i) <= s.len(),
    decreases s.len() - i,
{
    if i < s.len() && is_word_char(s[i]) {
        lemma_scan_word_end_bounds(s, i + 1);
    }
}

proof fn lemma_scan_word_end_exact(s: Seq<char>, i: int, j: int)
    requires
        0 <= i <= j <= s.len(),
        forall|t: int| i <= t < j ==> is_word_char(#[trigger] s[t]),
        j == s.len() || !is_word_char(s[j]),
    ensures
        scan_word_end(s, i) == j,
    decreases j - i,
{
    if i < j {
        lemma_scan_word_end_exact(s, i + 1, j);
    }
}

proof fn lemma_scan_quote_end_bounds(s: Seq<char>, i: int)
    requires
        0 <= i <= s.len(),
    ensures
        i <= scan_quote_end(s, i) <= s.len(),
    decreases s.len() - i,
{
    if i < s.len() && s[i] != '"' {
        lemma_scan_quote_end_bounds(s, i + 1);
    }
}

proof fn lemma_scan_quote_end_exact(s: Seq<char>, i: int, j: int)
    requires
        0 <= i <= j <= s.len(),
        forall|t: int| i <= t < j ==> #[trigger] s[t] != '"',
        j == s.len() || s[j] == '"',
    ensures
        scan_quote_end(s, i) == j,
    decreases j - i,
{
    if i < j {
        lemma_scan_quote_end_exact(s, i + 1, j);
    }
}

/// Prepends the entries of `acc` to a parse result.
pub open spec fn parse_continue<T>(acc: Seq<T>, rest: Result<Seq<T>, AttributeError>) -> Result<
    Seq<T>,
    AttributeError,
> {
    match rest {
        Ok(ts) => Ok(acc + ts),
        Err(e) => Err(e),
    }
}

proof fn lemma_parse_continue_app<T>(acc: Seq<T>, more: Seq<T>, rest: Result<Seq<T>, AttributeError>)
    ensures
        parse_continue(acc, parse_continue(more, rest)) == parse_continue(acc + more, rest),
{
    match rest {
        Ok(ts) => {
            assert(acc + (more + ts) =~= (acc + more) + ts);
        },
        Err(_) => {},
    }
}

/// The token sequence of `s` starting at index `i`, or the first lexical
/// error (an unterminated string literal, or a character that starts no
/// token).
pub open spec fn spec_lex_from(s: Seq<char>, tag: u64, i: int) -> Result<
    Seq<TokenView>,
    AttributeError,
>
    decreases s.len() - i when 0 <= i <= s.len() via spec_lex_from_decreases
{
    if i >= s.len() {
        Ok(Seq::empty())
    } else {
        let c = s[i];
        if is_lex_ws(c) {
            spec_lex_from(s, tag, i + 1)
        } else if c == '=' {
            parse_continue(
                seq![
                    TokenView {
                        kind: TokenKindView::Equals,
                        span: Span { tag, start: i as usize, end: (i + 1) as usize },
                    },
                ],
                spec_lex_from(s, tag, i + 1),
            )
        } else if c == '(' {
            parse_continue(
                seq![
                    TokenView {
                        kind: TokenKindView::LParen,
                        span: Span { tag, start: i as usize, end: (i + 1) as usize },
                    },
                ],
                spec_lex_from(s, tag, i + 1),
            )
        } else if c == ')' {
            parse_continue(
                seq![
                    TokenView {
                        kind: TokenKindView::RParen,
                        span: Span { tag, start: i as usize, end: (i + 1) as usize },
                    },
                ],
                spec_lex_from(s, tag, i + 1),
            )
        } else if c == ',' {
            parse_continue(
                seq![
                    TokenView {
                        kind: TokenKindView::Comma,
                        span: Span { tag, start: i as usize, end: (i + 1) as usize },
                    },
                ],
                spec_lex_from(s, tag, i + 1),
            )
        } else if c == '"' {
            let j = scan_quote_end(s, i + 1);
            if j >= s.len() {
                Err(
                    AttributeError::MalformedAttribute {
                        span: Span { tag, start: i as usize, end: s.len() as usize },
                    },
                )
            } else {
                parse_continue(
                    seq![
                        TokenView {
                            kind: TokenKindView::Quoted(s.subrange(i + 1, j)),
                            span: Span { tag, start: i as usize, end: (j + 1) as usize },
                        },
                    ],
                    spec_lex_from(s, tag, j + 1),
                )
            }
        } else if is_word_start(c) {
            let j = scan_word_end(s, i + 1);
            parse_continue(
                seq![
                    TokenView {
                        kind: TokenKindView::Word(s.subrange(i, j)),
                        span: Span { tag, start: i as usize, end: j as usize },
                    },
                ],
                spec_lex_from(s, tag, j),
            )
        } else {
            Err(
                AttributeError::MalformedAttribute {
                    span: Span { tag, start: i as usize, end: (i + 1) as usize },
                },
            )
        }
    }
}

#[via_fn]
proof fn spec_lex_from_decreases(s: Seq<char>, tag: u64, i: int) {
    if 0 <= i < s.len() {
        lemma_scan_word_end_bounds(s, i + 1);
        lemma_scan_quote_end_bounds(s, i + 1);
    }
}

pub open spec fn spec_lex(b: AnnotationBlockView) -> Result<Seq<TokenView>, AttributeError> {
    spec_lex_from(b.text, b.tag, 0)
}

// ---------------------------------------------------------------------------
// Lexing, executable level
// ---------------------------------------------------------------------------

fn is_word_char_exec(c: char) -> (r: bool)
    ensures
        r == is_word_char(c),
{
    let v = c as u32;
    (97 <= v && v <= 122) || (65 <= v && v <= 90) || (48 <= v && v <= 57) || c == '_'
}

/// Splits one annotation block's text into tokens.
pub fn lex(block: &AnnotationBlock) -> (r: Result<Vec<Token>, AttributeError>)
    ensures
        (match spec_lex(block.deep_view()) {
            Ok(ts) => r matches Ok(v) && v.deep_view() == ts,
            Err(e) => r == Err::<Vec<Token>, AttributeError>(e),
        }),
{
    let s = block.text.as_str();
    let tag = block.tag;
    let n = s.unicode_len();
    let mut toks: Vec<Token> = Vec::new();
    let mut i: usize = 0;
    while i < n
        invariant
            i <= n,
            n == s@.len(),
            s@ == block.text@,
            tag == block.tag,
            spec_lex_from(s@, tag, 0) == parse_continue(
                toks.deep_view(),
                spec_lex_from(s@, tag, i as int),
            ),
        decreases n - i,
    {
        let ghost toks0 = toks.deep_view();
        let ghost i0 = i as int;
        let c = s.get_char(i);
        if c == ' ' || c == '\t' || c == '\n' || c == '\r' {
            i = i + 1;
        } else if c == '=' || c == '(' || c == ')' || c == ',' {
            let kind = if c == '=' {
                TokenKind::Equals
            } else if c == '(' {
                TokenKind::LParen
            } else if c == ')' {
                TokenKind::RParen
            } else {
                TokenKind::Comma
            };
            let tok = Token { kind, span: Span { tag, start: i, end: i + 1 } };
            let ghost tv = tok.deep_view();
            toks.push(tok);
            i = i + 1;
            proof {
                assert(spec_lex_from(s@, tag, i0) == parse_continue(
                    seq![tv],
                    spec_lex_from(s@, tag, i as int),
                ));
                lemma_parse_continue_app(toks0, seq![tv], spec_lex_from(s@, tag, i as int));
                assert(toks.deep_view() =~= toks0 + seq![tv]);
            }
        } else if c == '"' {
            let mut j: usize = i + 1;
            while j < n && !(s.get_char(j) == '"')
                invariant
                    i + 1 <= j <= n,
                    n == s@.len(),
                    forall|t: int| i + 1 <= t < j ==> #[trigger] s@[t] != '"',
                decreases n - j,
            {
                j = j + 1;
            }
            proof {
                lemma_scan_quote_end_exact(s@, i0 + 1, j as int);
            }
            if j >= n {
                proof {
                    assert(spec_lex_from(s@, tag, i0) == Err::<Seq<TokenView>, AttributeError>(
                        AttributeError::MalformedAttribute {
                            span: Span { tag, start: i, end: n },
                        },
                    ));
                }
                return Err(AttributeError::MalformedAttribute { span: Span { tag, start: i, end: n } });
            }
            let value = s.substring_char(i + 1, j).to_owned();
            let tok = Token { kind: TokenKind::Quoted(value), span: Span { tag, start: i, end: j + 1 } };
            let ghost tv = tok.deep_view();
            toks.push(tok);
            i = j + 1;
            proof {
                assert(spec_lex_from(s@, tag, i0) == parse_continue(
                    seq![tv],
                    spec_lex_from(s@, tag, i as int),
                ));
                lemma_parse_continue_app(toks0, seq![tv], spec_lex_from(s@, tag, i as int));
                assert(toks.deep_view() =~= toks0 + seq![tv]);
            }
        } else {
            let v = c as u32;
            if (97 <= v && v <= 122) || (65 <= v && v <= 90) || c == '_' {
                let mut j: usize = i + 1;
                while j < n && is_word_char_exec(s.get_char(j))
                    invariant
                        i + 1 <= j <= n,
                        n == s@.len(),
                        forall|t: int| i + 1 <= t < j ==> is_word_char(#[trigger] s@[t]),
                    decreases n - j,
                {
                    j = j + 1;
                }
                proof {
                    lemma_scan_word_end_exact(s@, i0 + 1, j as int);
                }
                let w = s.substring_char(i, j).to_owned();
                let tok = Token { kind: TokenKind::Word(w), span: Span { tag, start: i, end: j } };
                let ghost tv = tok.deep_view();
                toks.push(tok);
                i = j;
                proof {
                    assert(spec_lex_from(s@, tag, i0) == parse_continue(
                        seq![tv],
                        spec_lex_from(s@, tag, i as int),
                    ));
                    lemma_parse_continue_app(toks0, seq![tv], spec_lex_from(s@, tag, i as int));
                    assert(toks.deep_view() =~= toks0 + seq![tv]);
                }
            } else {
                proof {
                    assert(spec_lex_from(s@, tag, i0) == Err::<Seq<TokenView>, AttributeError>(
                        AttributeError::MalformedAttribute {
                            span: Span { tag, start: i, end: (i + 1) as usize },
                        },
                    ));
                }
                return Err(
                    AttributeError::MalformedAttribute { span: Span { tag, start: i, end: i + 1 } },
                );
            }
        }
    }
    proof {
        assert(spec_lex_from(s@, tag, i as int) == Ok::<Seq<TokenView>, AttributeError>(Seq::empty()));
        assert(toks.deep_view() + Seq::<TokenView>::empty() =~= toks.deep_view());
    }
    Ok(toks)
}

// ---------------------------------------------------------------------------
// Entry parsing, specification level
// ---------------------------------------------------------------------------

/// The span of token `i`, or `eof` past the end of the token list.
pub open spec fn tok_span_or_eof(toks: Seq<TokenView>, i: int, eof: Span) -> Span {
    if 0 <= i < toks.len() {
        toks[i].span
    } else {
        eof
    }
}

/// Parses `"prefix" = "namespace"` at token position `i`.
pub open spec fn spec_parse_prefix_mapping(toks: Seq<TokenView>, i: int, eof: Span) -> Result<
    (PrefixMappingView, int),
    AttributeError,
> {
    if i >= toks.len() {
        Err(AttributeError::MalformedAttribute { span: eof })
    } else {
        match toks[i].kind {
            TokenKindView::Quoted(p) => {
                if i + 1 >= toks.len() || !(toks[i + 1].kind is Equals) {
                    Err(
                        AttributeError::MalformedAttribute {
                            span: tok_span_or_eof(toks, i + 1, eof),
                        },
                    )
                } else if i + 2 >= toks.len() {
                    Err(AttributeError::MalformedAttribute { span: eof })
                } else {
                    match toks[i + 2].kind {
                        TokenKindView::Quoted(v) => Ok(
                            (
                                PrefixMappingView {
                                    prefix: LitStrView { value: p, span: toks[i].span },
                                    iri: LitStrView { value: v, span: toks[i + 2].span },
                                },
                                i + 3,
                            ),
                        ),
                        _ => Err(AttributeError::MalformedAttribute { span: toks[i + 2].span }),
                    }
                }
            },
            _ => Err(AttributeError::MalformedAttribute { span: toks[i].span }),
        }
    }
}

/// Parses `type = "identifier"` at token position `i`.
pub open spec fn spec_parse_type_attribute(toks: Seq<TokenView>, i: int, eof: Span) -> Result<
    (TypeAttributeView, int),
    AttributeError,
> {
    if i >= toks.len() {
        Err(AttributeError::MalformedAttribute { span: eof })
    } else {
        match toks[i].kind {
            TokenKindView::Word(w) => {
                if w != "type"@ {
                    Err(AttributeError::MalformedAttribute { span: toks[i].span })
                } else if i + 1 >= toks.len() || !(toks[i + 1].kind is Equals) {
                    Err(
                        AttributeError::MalformedAttribute {
                            span: tok_span_or_eof(toks, i + 1, eof),
                        },
                    )
                } else if i + 2 >= toks.len() {
                    Err(AttributeError::MalformedAttribute { span: eof })
                } else {
                    match toks[i + 2].kind {
                        TokenKindView::Quoted(v) => Ok(
                            (
                                TypeAttributeView {
                                    identifier: LitStrView { value: v, span: toks[i + 2].span },
                                },
                                i + 3,
                            ),
                        ),
                        _ => Err(AttributeError::MalformedAttribute { span: toks[i + 2].span }),
                    }
                }
            },
            _ => Err(AttributeError::MalformedAttribute { span: toks[i].span }),
        }
    }
}

/// Parses `prefix("prefix" = "namespace")` at token position `i`.
pub open spec fn spec_parse_prefix_attribute(toks: Seq<TokenView>, i: int, eof: Span) -> Result<
    (PrefixAttributeView, int),
    AttributeError,
> {
    if i >= toks.len() {
        Err(AttributeError::MalformedAttribute { span: eof })
    } else {
        match toks[i].kind {
            TokenKindView::Word(w) => {
                if w != "prefix"@ {
                    Err(AttributeError::MalformedAttribute { span: toks[i].span })
                } else if i + 1 >= toks.len() || !(toks[i + 1].kind is LParen) {
                    Err(
                        AttributeError::MalformedAttribute {
                            span: tok_span_or_eof(toks, i + 1, eof),
                        },
                    )
                } else {
                    match spec_parse_prefix_mapping(toks, i + 2, eof) {
                        Err(e) => Err(e),
                        Ok((m, j)) => {
                            if j >= toks.len() || !(toks[j].kind is RParen) {
                                Err(
                                    AttributeError::MalformedAttribute {
                                        span: tok_span_or_eof(toks, j, eof),
                                    },
                                )
                            } else {
                                Ok((PrefixAttributeView { mapping: m }, j + 1))
                            }
                        },
                    }
                }
            },
            _ => Err(AttributeError::MalformedAttribute { span: toks[i].span }),
        }
    }
}

/// One record-declaration entry: `type = "..."` or `prefix("..." = "...")`.
pub open spec fn spec_parse_struct_entry(toks: Seq<TokenView>, i: int, eof: Span) -> Result<
    (StructAttributeView, int),
    AttributeError,
> {
    if i >= toks.len() {
        Err(AttributeError::MalformedAttribute { span: eof })
    } else {
        match toks[i].kind {
            TokenKindView::Word(w) => {
                if w == "type"@ {
                    match spec_parse_type_attribute(toks, i, eof) {
                        Ok((t, j)) => Ok((StructAttributeView::Type(t), j)),
                        Err(e) => Err(e),
                    }
                } else if w == "prefix"@ {
                    match spec_parse_prefix_attribute(toks, i, eof) {
                        Ok((p, j)) => Ok((StructAttributeView::Prefix(p), j)),
                        Err(e) => Err(e),
                    }
                } else {
                    Err(AttributeError::MalformedAttribute { span: toks[i].span })
                }
            },
            _ => Err(AttributeError::MalformedAttribute { span: toks[i].span }),
        }
    }
}

/// One tagged-union-declaration entry: `prefix("..." = "...")` only; in
/// particular `type = "..."` is a grammar-level hard error here.
pub open spec fn spec_parse_enum_entry(toks: Seq<TokenView>, i: int, eof: Span) -> Result<
    (EnumAttributeView, int),
    AttributeError,
> {
    if i >= toks.len() {
        Err(AttributeError::MalformedAttribute { span: eof })
    } else {
        match toks[i].kind {
            TokenKindView::Word(w) => {
                if w == "prefix"@ {
                    match spec_parse_prefix_attribute(toks, i, eof) {
                        Ok((p, j)) => Ok((EnumAttributeView::Prefix(p), j)),
                        Err(e) => Err(e),
                    }
                } else {
                    Err(AttributeError::MalformedAttribute { span: toks[i].span })
                }
            },
            _ => Err(AttributeError::MalformedAttribute { span: toks[i].span }),
        }
    }
}

/// One case entry: a bare identifier literal.
pub open spec fn spec_parse_variant_entry(toks: Seq<TokenView>, i: int, eof: Span) -> Result<
    (VariantAttributeView, int),
    AttributeError,
> {
    if i >= toks.len() {
        Err(AttributeError::MalformedAttribute { span: eof })
    } else {
        match toks[i].kind {
            TokenKindView::Quoted(v) => Ok(
                (VariantAttributeView::Iri(LitStrView { value: v, span: toks[i].span }), i + 1),
            ),
            _ => Err(AttributeError::MalformedAttribute { span: toks[i].span }),
        }
    }
}

/// One field entry: `ignore`, `flatten`, `id`, `graph`, or a bare identifier
/// literal.
pub open spec fn spec_parse_field_entry(toks: Seq<TokenView>, i: int, eof: Span) -> Result<
    (FieldAttributeView, int),
    AttributeError,
> {
    if i >= toks.len() {
        Err(AttributeError::MalformedAttribute { span: eof })
    } else {
        match toks[i].kind {
            TokenKindView::Quoted(v) => Ok(
                (FieldAttributeView::Iri(LitStrView { value: v, span: toks[i].span }), i + 1),
            ),
            TokenKindView::Word(w) => {
                if w == "ignore"@ {
                    Ok((FieldAttributeView::Ignore, i + 1))
                } else if w == "flatten"@ {
                    Ok((FieldAttributeView::Flatten, i + 1))
                } else if w == "id"@ {
                    Ok((FieldAttributeView::Id, i + 1))
                } else if w == "graph"@ {
                    Ok((FieldAttributeView::Graph, i + 1))
                } else {
                    Err(AttributeError::MalformedAttribute { span: toks[i].span })
                }
            },
            _ => Err(AttributeError::MalformedAttribute { span: toks[i].span }),
        }
    }
}

proof fn lemma_struct_entry_advances(toks: Seq<TokenView>, i: int, eof: Span)
    requires
        0 <= i,
    ensures
        spec_parse_struct_entry(toks, i, eof) matches Ok((a, j)) ==> i < j <= toks.len(),
{
}

proof fn lemma_enum_entry_advances(toks: Seq<TokenView>, i: int, eof: Span)
    requires
        0 <= i,
    ensures
        spec_parse_enum_entry(toks, i, eof) matches Ok((a, j)) ==> i < j <= toks.len(),
{
}

proof fn lemma_variant_entry_advances(toks: Seq<TokenView>, i: int, eof: Span)
    requires
        0 <= i,
    ensures
        spec_parse_variant_entry(toks, i, eof) matches Ok((a, j)) ==> i < j <= toks.len(),
{
}

proof fn lemma_field_entry_advances(toks: Seq<TokenView>, i: int, eof: Span)
    requires
        0 <= i,
    ensures
        spec_parse_field_entry(toks, i, eof) matches Ok((a, j)) ==> i < j <= toks.len(),
{
}

// ---------------------------------------------------------------------------
// Entry parsing, executable level
// ---------------------------------------------------------------------------

fn span_at(toks: &Vec<Token>, i: usize, eof: Span) -> (r: Span)
    ensures
        r == tok_span_or_eof(toks.deep_view(), i as int, eof),
{
    if i < toks.len() {
        toks[i].span
    } else {
        eof
    }
}

impl PrefixMapping {
    /// Parses `"prefix" = "namespace"` at token position `i`.
    pub fn parse(toks: &Vec<Token>, i: usize, eof: Span) -> (r: Result<
        (PrefixMapping, usize),
        AttributeError,
    >)
        ensures
            (match spec_parse_prefix_mapping(toks.deep_view(), i as int, eof) {
                Ok((m, j)) => r matches Ok(p) && p.0.deep_view() == m && p.1 == j,
                Err(e) => r == Err::<(PrefixMapping, usize), AttributeError>(e),
            }),
    {
        let n = toks.len();
        if i >= n {
            return Err(AttributeError::MalformedAttribute { span: eof });
        }
        match &toks[i].kind {
            TokenKind::Quoted(p) => {
                if i + 1 >= n {
                    return Err(AttributeError::MalformedAttribute { span: span_at(toks, i + 1, eof) });
                }
                match &toks[i + 1].kind {
                    TokenKind::Equals => {},
                    _ => {
                        return Err(
                            AttributeError::MalformedAttribute { span: span_at(toks, i + 1, eof) },
                        );
                    },
                }
                if i + 2 >= n {
                    return Err(AttributeError::MalformedAttribute { span: eof });
                }
                match &toks[i + 2].kind {
                    TokenKind::Quoted(v) => Ok(
                        (
                            PrefixMapping {
                                prefix: LitStr { value: p.clone(), span: toks[i].span },
                                iri: LitStr { value: v.clone(), span: toks[i + 2].span },
                            },
                            i + 3,
                        ),
                    ),
                    _ => Err(AttributeError::MalformedAttribute { span: toks[i + 2].span }),
                }
            },
            _ => Err(AttributeError::MalformedAttribute { span: toks[i].span }),
        }
    }
}

impl TypeAttribute {
    /// Parses `type = "identifier"` at token position `i`.
    pub fn parse(toks: &Vec<Token>, i: usize, eof: Span) -> (r: Result<
        (TypeAttribute, usize),
        AttributeError,
    >)
        ensures
            (match spec_parse_type_attribute(toks.deep_view(), i as int, eof) {
                Ok((t, j)) => r matches Ok(p) && p.0.deep_view() == t && p.1 == j,
                Err(e) => r == Err::<(TypeAttribute, usize), AttributeError>(e),
            }),
    {
        let n = toks.len();
        if i >= n {
            return Err(AttributeError::MalformedAttribute { span: eof });
        }
        match &toks[i].kind {
            TokenKind::Word(w) => {
                if !str_eq(w.as_str(), "type") {
                    return Err(AttributeError::MalformedAttribute { span: toks[i].span });
                }
                if i + 1 >= n {
                    return Err(AttributeError::MalformedAttribute { span: span_at(toks, i + 1, eof) });
                }
                match &toks[i + 1].kind {
                    TokenKind::Equals => {},
                    _ => {
                        return Err(
                            AttributeError::MalformedAttribute { span: span_at(toks, i + 1, eof) },
                        );
                    },
                }
                if i + 2 >= n {
                    return Err(AttributeError::MalformedAttribute { span: eof });
                }
                match &toks[i + 2].kind {
                    TokenKind::Quoted(v) => Ok(
                        (
                            TypeAttribute {
                                identifier: LitStr { value: v.clone(), span: toks[i + 2].span },
                            },
                            i + 3,
                        ),
                    ),
                    _ => Err(AttributeError::MalformedAttribute { span: toks[i + 2].span }),
                }
            },
            _ => Err(AttributeError::MalformedAttribute { span: toks[i].span }),
        }
    }
}

impl PrefixAttribute {
    /// Parses `prefix("prefix" = "namespace")` at token position `i`.
    pub fn parse(toks: &Vec<Token>, i: usize, eof: Span) -> (r: Result<
        (PrefixAttribute, usize),
        AttributeError,
    >)
        ensures
            (match spec_parse_prefix_attribute(toks.deep_view(), i as int, eof) {
                Ok((a, j)) => r matches Ok(p) && p.0.deep_view() == a && p.1 == j,
                Err(e) => r == Err::<(PrefixAttribute, usize), AttributeError>(e),
            }),
    {
        let n = toks.len();
        if i >= n {
            return Err(AttributeError::MalformedAttribute { span: eof });
        }
        match &toks[i].kind {
            TokenKind::Word(w) => {
                if !str_eq(w.as_str(), "prefix") {
                    return Err(AttributeError::MalformedAttribute { span: toks[i].span });
                }
                if i + 1 >= n {
                    return Err(AttributeError::MalformedAttribute { span: span_at(toks, i + 1, eof) });
                }
                match &toks[i + 1].kind {
                    TokenKind::LParen => {},
                    _ => {
                        return Err(
                            AttributeError::MalformedAttribute { span: span_at(toks, i + 1, eof) },
                        );
                    },
                }
                match PrefixMapping::parse(toks, i + 2, eof) {
                    Err(e) => Err(e),
                    Ok((m, j)) => {
                        if j >= n {
                            return Err(
                                AttributeError::MalformedAttribute { span: span_at(toks, j, eof) },
                            );
                        }
                        match &toks[j].kind {
                            TokenKind::RParen => Ok((PrefixAttribute { mapping: m }, j + 1)),
                            _ => Err(
                                AttributeError::MalformedAttribute { span: span_at(toks, j, eof) },
                            ),
                        }
                    },
                }
            },
            _ => Err(AttributeError::MalformedAttribute { span: toks[i].span }),
        }
    }
}

impl StructAttribute {
    /// Parses one record-declaration entry at token position `i`.
    pub fn parse(toks: &Vec<Token>, i: usize, eof: Span) -> (r: Result<
        (StructAttribute, usize),
        AttributeError,
    >)
        ensures
            (match spec_parse_struct_entry(toks.deep_view(), i as int, eof) {
                Ok((a, j)) => r matches Ok(p) && p.0.deep_view() == a && p.1 == j,
                Err(e) => r == Err::<(StructAttribute, usize), AttributeError>(e),
            }),
    {
        let n = toks.len();
        if i >= n {
            return Err(AttributeError::MalformedAttribute { span: eof });
        }
        match &toks[i].kind {
            TokenKind::Word(w) => {
                if str_eq(w.as_str(), "type") {
                    match TypeAttribute::parse(toks, i, eof) {
                        Ok((t, j)) => Ok((StructAttribute::Type(t), j)),
                        Err(e) => Err(e),
                    }
                } else if str_eq(w.as_str(), "prefix") {
                    match PrefixAttribute::parse(toks, i, eof) {
                        Ok((p, j)) => Ok((StructAttribute::Prefix(p), j)),
                        Err(e) => Err(e),
                    }
                } else {
                    Err(AttributeError::MalformedAttribute { span: toks[i].span })
                }
            },
            _ => Err(AttributeError::MalformedAttribute { span: toks[i].span }),
        }
    }
}

impl EnumAttribute {
    /// Parses one tagged-union-declaration entry at token position `i`.
    pub fn parse(toks: &Vec<Token>, i: usize, eof: Span) -> (r: Result<
        (EnumAttribute, usize),
        AttributeError,
    >)
        ensures
            (match spec_parse_enum_entry(toks.deep_view(), i as int, eof) {
                Ok((a, j)) => r matches Ok(p) && p.0.deep_view() == a && p.1 == j,
                Err(e) => r == Err::<(EnumAttribute, usize), AttributeError>(e),
            }),
    {
        let n = toks.len();
        if i >= n {
            return Err(AttributeError::MalformedAttribute { span: eof });
        }
        match &toks[i].kind {
            TokenKind::Word(w) => {
                if str_eq(w.as_str(), "prefix") {
                    match PrefixAttribute::parse(toks, i, eof) {
                        Ok((p, j)) => Ok((EnumAttribute::Prefix(p), j)),
                        Err(e) => Err(e),
                    }
                } else {
                    Err(AttributeError::MalformedAttribute { span: toks[i].span })
                }
            },
            _ => Err(AttributeError::MalformedAttribute { span: toks[i].span }),
        }
    }
}

impl VariantAttribute {
    /// Parses one case entry (a bare identifier literal) at token position
    /// `i`.
    pub fn parse(toks: &Vec<Token>, i: usize, eof: Span) -> (r: Result<
        (VariantAttribute, usize),
        AttributeError,
    >)
        ensures
            (match spec_parse_variant_entry(toks.deep_view(), i as int, eof) {
                Ok((a, j)) => r matches Ok(p) && p.0.deep_view() == a && p.1 == j,
                Err(e) => r == Err::<(VariantAttribute, usize), AttributeError>(e),
            }),
    {
        let n = toks.len();
        if i >= n {
            return Err(AttributeError::MalformedAttribute { span: eof });
        }
        match &toks[i].kind {
            TokenKind::Quoted(v) => Ok(
                (VariantAttribute::Iri(LitStr { value: v.clone(), span: toks[i].span }), i + 1),
            ),
            _ => Err(AttributeError::MalformedAttribute { span: toks[i].span }),
        }
    }
}

impl FieldAttribute {
    /// Parses one field entry at token position `i`.
    pub fn parse(toks: &Vec<Token>, i: usize, eof: Span) -> (r: Result<
        (FieldAttribute, usize),
        AttributeError,
    >)
        ensures
            (match spec_parse_field_entry(toks.deep_view(), i as int, eof) {
                Ok((a, j)) => r matches Ok(p) && p.0.deep_view() == a && p.1 == j,
                Err(e) => r == Err::<(FieldAttribute, usize), AttributeError>(e),
            }),
    {
        let n = toks.len();
        if i >= n {
            return Err(AttributeError::MalformedAttribute { span: eof });
        }
        match &toks[i].kind {
            TokenKind::Quoted(v) => Ok(
                (FieldAttribute::Iri(LitStr { value: v.clone(), span: toks[i].span }), i + 1),
            ),
            TokenKind::Word(w) => {
                if str_eq(w.as_str(), "ignore") {
                    Ok((FieldAttribute::Ignore, i + 1))
                } else if str_eq(w.as_str(), "flatten") {
                    Ok((FieldAttribute::Flatten, i + 1))
                } else if str_eq(w.as_str(), "id") {
                    Ok((FieldAttribute::Id, i + 1))
                } else if str_eq(w.as_str(), "graph") {
                    Ok((FieldAttribute::Graph, i + 1))
                } else {
                    Err(AttributeError::MalformedAttribute { span: toks[i].span })
                }
            },
            _ => Err(AttributeError::MalformedAttribute { span: toks[i].span }),
        }
    }
}

// ---------------------------------------------------------------------------
// Entry lists and whole blocks
// ---------------------------------------------------------------------------

/// The end-of-block position, used as the location of an error past the
/// last token.
pub open spec fn spec_block_eof(b: AnnotationBlockView) -> Span {
    Span { tag: b.tag, start: b.text.len() as usize, end: b.text.len() as usize }
}

/// Zero or more record-declaration entries separated by commas, starting at
/// token position `i`.
pub open spec fn spec_struct_entries(toks: Seq<TokenView>, i: int, eof: Span) -> Result<
    Seq<StructAttributeView>,
    AttributeError,
>
    decreases toks.len() - i when 0 <= i <= toks.len() via spec_struct_entries_decreases
{
    if i >= toks.len() {
        Ok(Seq::empty())
    } else {
        match spec_parse_struct_entry(toks, i, eof) {
            Err(e) => Err(e),
            Ok((a, j)) => {
                if j >= toks.len() {
                    Ok(seq![a])
                } else if toks[j].kind is Comma {
                    parse_continue(seq![a], spec_struct_entries(toks, j + 1, eof))
                } else {
                    Err(AttributeError::MalformedAttribute { span: toks[j].span })
                }
            },
        }
    }
}

#[via_fn]
proof fn spec_struct_entries_decreases(toks: Seq<TokenView>, i: int, eof: Span) {
    lemma_struct_entry_advances(toks, i, eof);
}

/// The entries of one record-declaration annotation block.
pub open spec fn spec_parse_struct_block(b: AnnotationBlockView) -> Result<
    Seq<StructAttributeView>,
    AttributeError,
> {
    match spec_lex(b) {
        Ok(ts) => spec_struct_entries(ts, 0, spec_block_eof(b)),
        Err(e) => Err(e),
    }
}

/// The entries of a whole list of record-declaration annotation blocks, in
/// block order; the first failing block's error wins.
pub open spec fn spec_parse_struct_blocks(blocks: Seq<AnnotationBlockView>) -> Result<
    Seq<StructAttributeView>,
    AttributeError,
>
    decreases blocks.len(),
{
    if blocks.len() == 0 {
        Ok(Seq::empty())
    } else {
        match spec_parse_struct_block(blocks[0]) {
            Err(e) => Err(e),
            Ok(first) => parse_continue(first, spec_parse_struct_blocks(blocks.drop_first())),
        }
    }
}

fn parse_struct_block(block: &AnnotationBlock) -> (r: Result<Vec<StructAttribute>, AttributeError>)
    ensures
        (match spec_parse_struct_block(block.deep_view()) {
            Ok(es) => r matches Ok(v) && v.deep_view() == es,
            Err(e) => r == Err::<Vec<StructAttribute>, AttributeError>(e),
        }),
{
    let text_len = block.text.as_str().unicode_len();
    let eof = Span { tag: block.tag, start: text_len, end: text_len };
    proof {
        assert(eof == spec_block_eof(block.deep_view()));
    }
    match lex(block) {
        Err(e) => Err(e),
        Ok(toks) => {
            let ghost tv = toks.deep_view();
            let mut out: Vec<StructAttribute> = Vec::new();
            let mut i: usize = 0;
            proof {
                assert(out.deep_view() =~= Seq::<StructAttributeView>::empty());
            }
            while i < toks.len()
                invariant
                    i <= toks.len(),
                    toks.deep_view() == tv,
                    spec_parse_struct_block(block.deep_view()) == spec_struct_entries(tv, 0, eof),
                    spec_struct_entries(tv, 0, eof) == parse_continue(
                        out.deep_view(),
                        spec_struct_entries(tv, i as int, eof),
                    ),
                decreases toks.len() - i,
            {
                let ghost out0 = out.deep_view();
                let ghost i0 = i as int;
                proof {
                    lemma_struct_entry_advances(tv, i0, eof);
                }
                match StructAttribute::parse(&toks, i, eof) {
                    Err(e) => {
                        return Err(e);
                    },
                    Ok((a, j)) => {
                        let ghost av = a.deep_view();
                        out.push(a);
                        proof {
                            assert(out.deep_view() =~= out0 + seq![av]);
                        }
                        if j >= toks.len() {
                            proof {
                                assert(spec_struct_entries(tv, j as int, eof) == Ok::<
                                    Seq<StructAttributeView>,
                                    AttributeError,
                                >(Seq::empty()));
                                assert(seq![av] + Seq::<StructAttributeView>::empty() =~= seq![av]);
                                assert(spec_struct_entries(tv, i0, eof) == parse_continue(
                                    seq![av],
                                    spec_struct_entries(tv, j as int, eof),
                                ));
                                lemma_parse_continue_app(
                                    out0,
                                    seq![av],
                                    spec_struct_entries(tv, j as int, eof),
                                );
                            }
                            i = j;
                        } else {
                            match &toks[j].kind {
                                TokenKind::Comma => {
                                    proof {
                                        assert(tv[j as int] == toks@[j as int].deep_view());
                                        assert(spec_struct_entries(tv, i0, eof) == parse_continue(
                                            seq![av],
                                            spec_struct_entries(tv, j as int + 1, eof),
                                        ));
                                        lemma_parse_continue_app(
                                            out0,
                                            seq![av],
                                            spec_struct_entries(tv, j as int + 1, eof),
                                        );
                                    }
                                    i = j + 1;
                                },
                                _ => {
                                    proof {
                                        assert(tv[j as int] == toks@[j as int].deep_view());
                                    }
                                    return Err(
                                        AttributeError::MalformedAttribute { span: toks[j].span },
                                    );
                                },
                            }
                        }
                    },
                }
            }
            proof {
                assert(spec_struct_entries(tv, i as int, eof) == Ok::<
                    Seq<StructAttributeView>,
                    AttributeError,
                >(Seq::empty()));
                assert(out.deep_view() + Seq::<StructAttributeView>::empty() =~= out.deep_view());
            }
            Ok(out)
        },
    }
}

/// Parses every record-declaration annotation block, collecting the entries
/// in block order.
pub fn parse_struct_attributes(blocks: &Vec<AnnotationBlock>) -> (r: Result<
    Vec<StructAttribute>,
    AttributeError,
>)
    ensures
        (match spec_parse_struct_blocks(blocks.deep_view()) {
            Ok(es) => r matches Ok(v) && v.deep_view() == es,
            Err(e) => r == Err::<Vec<StructAttribute>, AttributeError>(e),
        }),
{
    let ghost bv = blocks.deep_view();
    let mut out: Vec<StructAttribute> = Vec::new();
    let mut b: usize = 0;
    proof {
        assert(out.deep_view() =~= Seq::<StructAttributeView>::empty());
        assert(bv.skip(0) =~= bv);
    }
    while b < blocks.len()
        invariant
            b <= blocks.len(),
            blocks.deep_view() == bv,
            spec_parse_struct_blocks(bv) == parse_continue(
                out.deep_view(),
                spec_parse_struct_blocks(bv.skip(b as int)),
            ),
        decreases blocks.len() - b,
    {
        let ghost out0 = out.deep_view();
        let ghost b0 = b as int;
        proof {
            assert(bv.skip(b0)[0] == bv[b0]);
            assert(bv[b0] == blocks@[b0].deep_view());
            assert(bv.skip(b0).drop_first() =~= bv.skip(b0 + 1));
        }
        match parse_struct_block(&blocks[b]) {
            Err(e) => {
                return Err(e);
            },
            Ok(mut entries) => {
                let ghost ev = entries.deep_view();
                out.append(&mut entries);
                b = b + 1;
                proof {
                    assert(spec_parse_struct_blocks(bv.skip(b0)) == parse_continue(
                        ev,
                        spec_parse_struct_blocks(bv.skip(b0 + 1)),
                    ));
                    lemma_parse_continue_app(out0, ev, spec_parse_struct_blocks(bv.skip(b0 + 1)));
                    assert(out.deep_view() =~= out0 + ev);
                }
            },
        }
    }
    proof {
        assert(bv.skip(b as int) =~= Seq::<AnnotationBlockView>::empty());
        assert(spec_parse_struct_blocks(Seq::empty()) == Ok::<
            Seq<StructAttributeView>,
            AttributeError,
        >(Seq::empty()));
        assert(out.deep_view() + Seq::<StructAttributeView>::empty() =~= out.deep_view());
    }
    Ok(out)
}

/// Zero or more tagged-union-declaration entries separated by commas, starting at
/// token position `i`.
pub open spec fn spec_enum_entries(toks: Seq<TokenView>, i: int, eof: Span) -> Result<
    Seq<EnumAttributeView>,
    AttributeError,
>
    decreases toks.len() - i when 0 <= i <= toks.len() via spec_enum_entries_decreases
{
    if i >= toks.len() {
        Ok(Seq::empty())
    } else {
        match spec_parse_enum_entry(toks, i, eof) {
            Err(e) => Err(e),
            Ok((a, j)) => {
                if j >= toks.len() {
                    Ok(seq![a])
                } else if toks[j].kind is Comma {
                    parse_continue(seq![a], spec_enum_entries(toks, j + 1, eof))
                } else {
                    Err(AttributeError::MalformedAttribute { span: toks[j].span })
                }
            },
        }
    }
}

#[via_fn]
proof fn spec_enum_entries_decreases(toks: Seq<TokenView>, i: int, eof: Span) {
    lemma_enum_entry_advances(toks, i, eof);
}

/// The entries of one tagged-union-declaration annotation block.
pub open spec fn spec_parse_enum_block(b: AnnotationBlockView) -> Result<
    Seq<EnumAttributeView>,
    AttributeError,
> {
    match spec_lex(b) {
        Ok(ts) => spec_enum_entries(ts, 0, spec_block_eof(b)),
        Err(e) => Err(e),
    }
}

/// The entries of a whole list of tagged-union-declaration annotation blocks, in
/// block order; the first failing block's error wins.
pub open spec fn spec_parse_enum_blocks(blocks: Seq<AnnotationBlockView>) -> Result<
    Seq<EnumAttributeView>,
    AttributeError,
>
    decreases blocks.len(),
{
    if blocks.len() == 0 {
        Ok(Seq::empty())
    } else {
        match spec_parse_enum_block(blocks[0]) {
            Err(e) => Err(e),
            Ok(first) => parse_continue(first, spec_parse_enum_blocks(blocks.drop_first())),
        }
    }
}

fn parse_enum_block(block: &AnnotationBlock) -> (r: Result<Vec<EnumAttribute>, AttributeError>)
    ensures
        (match spec_parse_enum_block(block.deep_view()) {
            Ok(es) => r matches Ok(v) && v.deep_view() == es,
            Err(e) => r == Err::<Vec<EnumAttribute>, AttributeError>(e),
        }),
{
    let text_len = block.text.as_str().unicode_len();
    let eof = Span { tag: block.tag, start: text_len, end: text_len };
    proof {
        assert(eof == spec_block_eof(block.deep_view()));
    }
    match lex(block) {
        Err(e) => Err(e),
        Ok(toks) => {
            let ghost tv = toks.deep_view();
            let mut out: Vec<EnumAttribute> = Vec::new();
            let mut i: usize = 0;
            proof {
                assert(out.deep_view() =~= Seq::<EnumAttributeView>::empty());
            }
            while i < toks.len()
                invariant
                    i <= toks.len(),
                    toks.deep_view() == tv,
                    spec_parse_enum_block(block.deep_view()) == spec_enum_entries(tv, 0, eof),
                    spec_enum_entries(tv, 0, eof) == parse_continue(
                        out.deep_view(),
                        spec_enum_entries(tv, i as int, eof),
                    ),
                decreases toks.len() - i,
            {
                let ghost out0 = out.deep_view();
                let ghost i0 = i as int;
                proof {
                    lemma_enum_entry_advances(tv, i0, eof);
                }
                match EnumAttribute::parse(&toks, i, eof) {
                    Err(e) => {
                        return Err(e);
                    },
                    Ok((a, j)) => {
                        let ghost av = a.deep_view();
                        out.push(a);
                        proof {
                            assert(out.deep_view() =~= out0 + seq![av]);
                        }
                        if j >= toks.len() {
                            proof {
                                assert(spec_enum_entries(tv, j as int, eof) == Ok::<
                                    Seq<EnumAttributeView>,
                                    AttributeError,
                                >(Seq::empty()));
                                assert(seq![av] + Seq::<EnumAttributeView>::empty() =~= seq![av]);
                                assert(spec_enum_entries(tv, i0, eof) == parse_continue(
                                    seq![av],
                                    spec_enum_entries(tv, j as int, eof),
                                ));
                                lemma_parse_continue_app(
                                    out0,
                                    seq![av],
                                    spec_enum_entries(tv, j as int, eof),
                                );
                            }
                            i = j;
                        } else {
                            match &toks[j].kind {
                                TokenKind::Comma => {
                                    proof {
                                        assert(tv[j as int] == toks@[j as int].deep_view());
                                        assert(spec_enum_entries(tv, i0, eof) == parse_continue(
                                            seq![av],
                                            spec_enum_entries(tv, j as int + 1, eof),
                                        ));
                                        lemma_parse_continue_app(
                                            out0,
                                            seq![av],
                                            spec_enum_entries(tv, j as int + 1, eof),
                                        );
                                    }
                                    i = j + 1;
                                },
                                _ => {
                                    proof {
                                        assert(tv[j as int] == toks@[j as int].deep_view());
                                    }
                                    return Err(
                                        AttributeError::MalformedAttribute { span: toks[j].span },
                                    );
                                },
                            }
                        }
                    },
                }
            }
            proof {
                assert(spec_enum_entries(tv, i as int, eof) == Ok::<
                    Seq<EnumAttributeView>,
                    AttributeError,
                >(Seq::empty()));
                assert(out.deep_view() + Seq::<EnumAttributeView>::empty() =~= out.deep_view());
            }
            Ok(out)
        },
    }
}

/// Parses every tagged-union-declaration annotation block, collecting the entries
/// in block order.
pub fn parse_enum_attributes(blocks: &Vec<AnnotationBlock>) -> (r: Result<
    Vec<EnumAttribute>,
    AttributeError,
>)
    ensures
        (match spec_parse_enum_blocks(blocks.deep_view()) {
            Ok(es) => r matches Ok(v) && v.deep_view() == es,
            Err(e) => r == Err::<Vec<EnumAttribute>, AttributeError>(e),
        }),
{
    let ghost bv = blocks.deep_view();
    let mut out: Vec<EnumAttribute> = Vec::new();
    let mut b: usize = 0;
    proof {
        assert(out.deep_view() =~= Seq::<EnumAttributeView>::empty());
        assert(bv.skip(0) =~= bv);
    }
    while b < blocks.len()
        invariant
            b <= blocks.len(),
            blocks.deep_view() == bv,
            spec_parse_enum_blocks(bv) == parse_continue(
                out.deep_view(),
                spec_parse_enum_blocks(bv.skip(b as int)),
            ),
        decreases blocks.len() - b,
    {
        let ghost out0 = out.deep_view();
        let ghost b0 = b as int;
        proof {
            assert(bv.skip(b0)[0] == bv[b0]);
            assert(bv[b0] == blocks@[b0].deep_view());
            assert(bv.skip(b0).drop_first() =~= bv.skip(b0 + 1));
        }
        match parse_enum_block(&blocks[b]) {
            Err(e) => {
                return Err(e);
            },
            Ok(mut entries) => {
                let ghost ev = entries.deep_view();
                out.append(&mut entries);
                b = b + 1;
                proof {
                    assert(spec_parse_enum_blocks(bv.skip(b0)) == parse_continue(
                        ev,
                        spec_parse_enum_blocks(bv.skip(b0 + 1)),
                    ));
                    lemma_parse_continue_app(out0, ev, spec_parse_enum_blocks(bv.skip(b0 + 1)));
                    assert(out.deep_view() =~= out0 + ev);
                }
            },
        }
    }
    proof {
        assert(bv.skip(b as int) =~= Seq::<AnnotationBlockView>::empty());
        assert(spec_parse_enum_blocks(Seq::empty()) == Ok::<
            Seq<EnumAttributeView>,
            AttributeError,
        >(Seq::empty()));
        assert(out.deep_view() + Seq::<EnumAttributeView>::empty() =~= out.deep_view());
    }
    Ok(out)
}

/// Zero or more case entries separated by commas, starting at
/// token position `i`.
pub open spec fn spec_variant_entries(toks: Seq<TokenView>, i: int, eof: Span) -> Result<
    Seq<VariantAttributeView>,
    AttributeError,
>
    decreases toks.len() - i when 0 <= i <= toks.len() via spec_variant_entries_decreases
{
    if i >= toks.len() {
        Ok(Seq::empty())
    } else {
        match spec_parse_variant_entry(toks, i, eof) {
            Err(e) => Err(e),
            Ok((a, j)) => {
                if j >= toks.len() {
                    Ok(seq![a])
                } else if toks[j].kind is Comma {
                    parse_continue(seq![a], spec_variant_entries(toks, j + 1, eof))
                } else {
                    Err(AttributeError::MalformedAttribute { span: toks[j].span })
                }
            },
        }
    }
}

#[via_fn]
proof fn spec_variant_entries_decreases(toks: Seq<TokenView>, i: int, eof: Span) {
    lemma_variant_entry_advances(toks, i, eof);
}

/// The entries of one case annotation block.
pub open spec fn spec_parse_variant_block(b: AnnotationBlockView) -> Result<
    Seq<VariantAttributeView>,
    AttributeError,
> {
    match spec_lex(b) {
        Ok(ts) => spec_variant_entries(ts, 0, spec_block_eof(b)),
        Err(e) => Err(e),
    }
}

/// The entries of a whole list of case annotation blocks, in
/// block order; the first failing block's error wins.
pub open spec fn spec_parse_variant_blocks(blocks: Seq<AnnotationBlockView>) -> Result<
    Seq<VariantAttributeView>,
    AttributeError,
>
    decreases blocks.len(),
{
    if blocks.len() == 0 {
        Ok(Seq::empty())
    } else {
        match spec_parse_variant_block(blocks[0]) {
            Err(e) => Err(e),
            Ok(first) => parse_continue(first, spec_parse_variant_blocks(blocks.drop_first())),
        }
    }
}

fn parse_variant_block(block: &AnnotationBlock) -> (r: Result<Vec<VariantAttribute>, AttributeError>)
    ensures
        (match spec_parse_variant_block(block.deep_view()) {
            Ok(es) => r matches Ok(v) && v.deep_view() == es,
            Err(e) => r == Err::<Vec<VariantAttribute>, AttributeError>(e),
        }),
{
    let text_len = block.text.as_str().unicode_len();
    let eof = Span { tag: block.tag, start: text_len, end: text_len };
    proof {
        assert(eof == spec_block_eof(block.deep_view()));
    }
    match lex(block) {
        Err(e) => Err(e),
        Ok(toks) => {
            let ghost tv = toks.deep_view();
            let mut out: Vec<VariantAttribute> = Vec::new();
            let mut i: usize = 0;
            proof {
                assert(out.deep_view() =~= Seq::<VariantAttributeView>::empty());
            }
            while i < toks.len()
                invariant
                    i <= toks.len(),
                    toks.deep_view() == tv,
                    spec_parse_variant_block(block.deep_view()) == spec_variant_entries(tv, 0, eof),
                    spec_variant_entries(tv, 0, eof) == parse_continue(
                        out.deep_view(),
                        spec_variant_entries(tv, i as int, eof),
                    ),
                decreases toks.len() - i,
            {
                let ghost out0 = out.deep_view();
                let ghost i0 = i as int;
                proof {
                    lemma_variant_entry_advances(tv, i0, eof);
                }
                match VariantAttribute::parse(&toks, i, eof) {
                    Err(e) => {
                        return Err(e);
                    },
                    Ok((a, j)) => {
                        let ghost av = a.deep_view();
                        out.push(a);
                        proof {
                            assert(out.deep_view() =~= out0 + seq![av]);
                        }
                        if j >= toks.len() {
                            proof {
                                assert(spec_variant_entries(tv, j as int, eof) == Ok::<
                                    Seq<VariantAttributeView>,
                                    AttributeError,
                                >(Seq::empty()));
                                assert(seq![av] + Seq::<VariantAttributeView>::empty() =~= seq![av]);
                                assert(spec_variant_entries(tv, i0, eof) == parse_continue(
                                    seq![av],
                                    spec_variant_entries(tv, j as int, eof),
                                ));
                                lemma_parse_continue_app(
                                    out0,
                                    seq![av],
                                    spec_variant_entries(tv, j as int, eof),
                                );
                            }
                            i = j;
                        } else {
                            match &toks[j].kind {
                                TokenKind::Comma => {
                                    proof {
                                        assert(tv[j as int] == toks@[j as int].deep_view());
                                        assert(spec_variant_entries(tv, i0, eof) == parse_continue(
                                            seq![av],
                                            spec_variant_entries(tv, j as int + 1, eof),
                                        ));
                                        lemma_parse_continue_app(
                                            out0,
                                            seq![av],
                                            spec_variant_entries(tv, j as int + 1, eof),
                                        );
                                    }
                                    i = j + 1;
                                },
                                _ => {
                                    proof {
                                        assert(tv[j as int] == toks@[j as int].deep_view());
                                    }
                                    return Err(
                                        AttributeError::MalformedAttribute { span: toks[j].span },
                                    );
                                },
                            }
                        }
                    },
                }
            }
            proof {
                assert(spec_variant_entries(tv, i as int, eof) == Ok::<
                    Seq<VariantAttributeView>,
                    AttributeError,
                >(Seq::empty()));
                assert(out.deep_view() + Seq::<VariantAttributeView>::empty() =~= out.deep_view());
            }
            Ok(out)
        },
    }
}

/// Parses every case annotation block, collecting the entries
/// in block order.
pub fn parse_variant_attributes(blocks: &Vec<AnnotationBlock>) -> (r: Result<
    Vec<VariantAttribute>,
    AttributeError,
>)
    ensures
        (match spec_parse_variant_blocks(blocks.deep_view()) {
            Ok(es) => r matches Ok(v) && v.deep_view() == es,
            Err(e) => r == Err::<Vec<VariantAttribute>, AttributeError>(e),
        }),
{
    let ghost bv = blocks.deep_view();
    let mut out: Vec<VariantAttribute> = Vec::new();
    let mut b: usize = 0;
    proof {
        assert(out.deep_view() =~= Seq::<VariantAttributeView>::empty());
        assert(bv.skip(0) =~= bv);
    }
    while b < blocks.len()
        invariant
            b <= blocks.len(),
            blocks.deep_view() == bv,
            spec_parse_variant_blocks(bv) == parse_continue(
                out.deep_view(),
                spec_parse_variant_blocks(bv.skip(b as int)),
            ),
        decreases blocks.len() - b,
    {
        let ghost out0 = out.deep_view();
        let ghost b0 = b as int;
        proof {
            assert(bv.skip(b0)[0] == bv[b0]);
            assert(bv[b0] == blocks@[b0].deep_view());
            assert(bv.skip(b0).drop_first() =~= bv.skip(b0 + 1));
        }
        match parse_variant_block(&blocks[b]) {
            Err(e) => {
                return Err(e);
            },
            Ok(mut entries) => {
                let ghost ev = entries.deep_view();
                out.append(&mut entries);
                b = b + 1;
                proof {
                    assert(spec_parse_variant_blocks(bv.skip(b0)) == parse_continue(
                        ev,
                        spec_parse_variant_blocks(bv.skip(b0 + 1)),
                    ));
                    lemma_parse_continue_app(out0, ev, spec_parse_variant_blocks(bv.skip(b0 + 1)));
                    assert(out.deep_view() =~= out0 + ev);
                }
            },
        }
    }
    proof {
        assert(bv.skip(b as int) =~= Seq::<AnnotationBlockView>::empty());
        assert(spec_parse_variant_blocks(Seq::empty()) == Ok::<
            Seq<VariantAttributeView>,
            AttributeError,
        >(Seq::empty()));
        assert(out.deep_view() + Seq::<VariantAttributeView>::empty() =~= out.deep_view());
    }
    Ok(out)
}

/// Zero or more field entries separated by commas, starting at
/// token position `i`.
pub open spec fn spec_field_entries(toks: Seq<TokenView>, i: int, eof: Span) -> Result<
    Seq<FieldAttributeView>,
    AttributeError,
>
    decreases toks.len() - i when 0 <= i <= toks.len() via spec_field_entries_decreases
{
    if i >= toks.len() {
        Ok(Seq::empty())
    } else {
        match spec_parse_field_entry(toks, i, eof) {
            Err(e) => Err(e),
            Ok((a, j)) => {
                if j >= toks.len() {
                    Ok(seq![a])
                } else if toks[j].kind is Comma {
                    parse_continue(seq![a], spec_field_entries(toks, j + 1, eof))
                } else {
                    Err(AttributeError::MalformedAttribute { span: toks[j].span })
                }
            },
        }
    }
}

#[via_fn]
proof fn spec_field_entries_decreases(toks: Seq<TokenView>, i: int, eof: Span) {
    lemma_field_entry_advances(toks, i, eof);
}

/// The entries of one field annotation block.
pub open spec fn spec_parse_field_block(b: AnnotationBlockView) -> Result<
    Seq<FieldAttributeView>,
    AttributeError,
> {
    match spec_lex(b) {
        Ok(ts) => spec_field_entries(ts, 0, spec_block_eof(b)),
        Err(e) => Err(e),
    }
}

/// The entries of a whole list of field annotation blocks, in
/// block order; the first failing block's error wins.
pub open spec fn spec_parse_field_blocks(blocks: Seq<AnnotationBlockView>) -> Result<
    Seq<FieldAttributeView>,
    AttributeError,
>
    decreases blocks.len(),
{
    if blocks.len() == 0 {
        Ok(Seq::empty())
    } else {
        match spec_parse_field_block(blocks[0]) {
            Err(e) => Err(e),
            Ok(first) => parse_continue(first, spec_parse_field_blocks(blocks.drop_first())),
        }
    }
}

fn parse_field_block(block: &AnnotationBlock) -> (r: Result<Vec<FieldAttribute>, AttributeError>)
    ensures
        (match spec_parse_field_block(block.deep_view()) {
            Ok(es) => r matches Ok(v) && v.deep_view() == es,
            Err(e) => r == Err::<Vec<FieldAttribute>, AttributeError>(e),
        }),
{
    let text_len = block.text.as_str().unicode_len();
    let eof = Span { tag: block.tag, start: text_len, end: text_len };
    proof {
        assert(eof == spec_block_eof(block.deep_view()));
    }
    match lex(block) {
        Err(e) => Err(e),
        Ok(toks) => {
            let ghost tv = toks.deep_view();
            let mut out: Vec<FieldAttribute> = Vec::new();
            let mut i: usize = 0;
            proof {
                assert(out.deep_view() =~= Seq::<FieldAttributeView>::empty());
            }
            while i < toks.len()
                invariant
                    i <= toks.len(),
                    toks.deep_view() == tv,
                    spec_parse_field_block(block.deep_view()) == spec_field_entries(tv, 0, eof),
                    spec_field_entries(tv, 0, eof) == parse_continue(
                        out.deep_view(),
                        spec_field_entries(tv, i as int, eof),
                    ),
                decreases toks.len() - i,
            {
                let ghost out0 = out.deep_view();
                let ghost i0 = i as int;
                proof {
                    lemma_field_entry_advances(tv, i0, eof);
                }
                match FieldAttribute::parse(&toks, i, eof) {
                    Err(e) => {
                        return Err(e);
                    },
                    Ok((a, j)) => {
                        let ghost av = a.deep_view();
                        out.push(a);
                        proof {
                            assert(out.deep_view() =~= out0 + seq![av]);
                        }
                        if j >= toks.len() {
                            proof {
                                assert(spec_field_entries(tv, j as int, eof) == Ok::<
                                    Seq<FieldAttributeView>,
                                    AttributeError,
                                >(Seq::empty()));
                                assert(seq![av] + Seq::<FieldAttributeView>::empty() =~= seq![av]);
                                assert(spec_field_entries(tv, i0, eof) == parse_continue(
                                    seq![av],
                                    spec_field_entries(tv, j as int, eof),
                                ));
                                lemma_parse_continue_app(
                                    out0,
                                    seq![av],
                                    spec_field_entries(tv, j as int, eof),
                                );
                            }
                            i = j;
                        } else {
                            match &toks[j].kind {
                                TokenKind::Comma => {
                                    proof {
                                        assert(tv[j as int] == toks@[j as int].deep_view());
                                        assert(spec_field_entries(tv, i0, eof) == parse_continue(
                                            seq![av],
                                            spec_field_entries(tv, j as int + 1, eof),
                                        ));
                                        lemma_parse_continue_app(
                                            out0,
                                            seq![av],
                                            spec_field_entries(tv, j as int + 1, eof),
                                        );
                                    }
                                    i = j + 1;
                                },
                                _ => {
                                    proof {
                                        assert(tv[j as int] == toks@[j as int].deep_view());
                                    }
                                    return Err(
                                        AttributeError::MalformedAttribute { span: toks[j].span },
                                    );
                                },
                            }
                        }
                    },
                }
            }
            proof {
                assert(spec_field_entries(tv, i as int, eof) == Ok::<
                    Seq<FieldAttributeView>,
                    AttributeError,
                >(Seq::empty()));
                assert(out.deep_view() + Seq::<FieldAttributeView>::empty() =~= out.deep_view());
            }
            Ok(out)
        },
    }
}

/// Parses every field annotation block, collecting the entries
/// in block order.
pub fn parse_field_attributes(blocks: &Vec<AnnotationBlock>) -> (r: Result<
    Vec<FieldAttribute>,
    AttributeError,
>)
    ensures
        (match spec_parse_field_blocks(blocks.deep_view()) {
            Ok(es) => r matches Ok(v) && v.deep_view() == es,
            Err(e) => r == Err::<Vec<FieldAttribute>, AttributeError>(e),
        }),
{
    let ghost bv = blocks.deep_view();
    let mut out: Vec<FieldAttribute> = Vec::new();
    let mut b: usize = 0;
    proof {
        assert(out.deep_view() =~= Seq::<FieldAttributeView>::empty());
        assert(bv.skip(0) =~= bv);
    }
    while b < blocks.len()
        invariant
            b <= blocks.len(),
            blocks.deep_view() == bv,
            spec_parse_field_blocks(bv) == parse_continue(
                out.deep_view(),
                spec_parse_field_blocks(bv.skip(b as int)),
            ),
        decreases blocks.len() - b,
    {
        let ghost out0 = out.deep_view();
        let ghost b0 = b as int;
        proof {
            assert(bv.skip(b0)[0] == bv[b0]);
            assert(bv[b0] == blocks@[b0].deep_view());
            assert(bv.skip(b0).drop_first() =~= bv.skip(b0 + 1));
        }
        match parse_field_block(&blocks[b]) {
            Err(e) => {
                return Err(e);
            },
            Ok(mut entries) => {
                let ghost ev = entries.deep_view();
                out.append(&mut entries);
                b = b + 1;
                proof {
                    assert(spec_parse_field_blocks(bv.skip(b0)) == parse_continue(
                        ev,
                        spec_parse_field_blocks(bv.skip(b0 + 1)),
                    ));
                    lemma_parse_continue_app(out0, ev, spec_parse_field_blocks(bv.skip(b0 + 1)));
                    assert(out.deep_view() =~= out0 + ev);
                }
            },
        }
    }
    proof {
        assert(bv.skip(b as int) =~= Seq::<AnnotationBlockView>::empty());
        assert(spec_parse_field_blocks(Seq::empty()) == Ok::<
            Seq<FieldAttributeView>,
            AttributeError,
        >(Seq::empty()));
        assert(out.deep_view() + Seq::<FieldAttributeView>::empty() =~= out.deep_view());
    }
    Ok(out)
}

} // verus!
