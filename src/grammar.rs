//! The grammar of an endpoint specification, stated over token sequences.
//!
//! ```text
//! api      := "metadata" ":" "{" entry ("," entry)* ","? "}"
//!             attr* ["request" section attr*] ["response" section]
//!             ["error" ":" type]
//! entry    := key ":" value
//! section  := ":" "{" field ("," field)* ","? "}"
//! field    := attr* ["pub" ["(" tokens ")"]] ident ":" type
//! attr     := "#" "[" tokens "]"
//! type     := a non-empty run of tokens, balanced in brackets and in `<` `>`
//!             (the `>` of `->` excepted), ending before a `,` or a closing
//!             bracket at the outer level, and holding no two types side by
//!             side at the outer level; a lone `:` (not half of `::`) at
//!             the outer level cannot stand in a type: it belongs to the
//!             next field, so the type ends before that field's name
//! ```
//! Attributes collected before a missing `response` section have nothing to
//! belong to and are rejected.
use vstd::prelude::*;
use crate::token::{
    is_any_ident, is_arrow_head, is_close, is_close_of, is_ident, is_joint_punct, is_lone_colon,
    is_open, is_open_of, is_punct, Delim, Token,
};

verus! {

/// A half-open range `[start, end)` of token positions.
#[derive(Clone, Copy, Debug, PartialEq, Eq, Structural)]
pub struct TokenRange {
    pub start: usize,
    pub end: usize,
}

/// The fields of the metadata section.
#[derive(Clone, Copy, Debug, PartialEq, Eq, Structural)]
pub enum MetaField {
    Description,
    Method,
    Name,
    UnstablePath,
    R0Path,
    StablePath,
    Added,
    Deprecated,
    Removed,
    RateLimited,
    Authentication,
}

/// What the parser looked for where it failed.
#[derive(Clone, Copy, Debug, PartialEq, Eq, Structural)]
pub enum Expected {
    MetadataKeyword,
    Colon,
    Comma,
    OpenBrace,
    OpenBracket,
    Identifier,
    StringLiteral,
    Literal,
    Bool,
    Type,
    EndOfInput,
}

/// Why a specification was rejected.
#[derive(Clone, Copy, Debug, PartialEq, Eq, Structural)]
pub enum ErrorKind {
    /// A malformed token sequence.
    Expected(Expected),
    /// A group that is never closed.
    UnbalancedGroup,
    /// A metadata key that is not one of the known fields.
    UnknownField,
    /// A metadata key, or a field name of a section, given twice.
    DuplicateField,
    /// A mandatory metadata field that was not given.
    MissingField(MetaField),
    /// Attributes with no `response` section after them to belong to.
    AttributesWithoutResponse,
}

/// A rejected specification: the reason, and the position of the token it
/// is tied to (the number of tokens for the end of the input).
#[derive(Clone, Copy, Debug, PartialEq, Eq, Structural)]
pub struct ParseError {
    pub kind: ErrorKind,
    pub at: usize,
}

/// The metadata section, each value given as the position of its token.
#[derive(Clone, Copy, Debug, PartialEq, Eq, Structural)]
pub struct Metadata {
    pub description: usize,
    pub method: usize,
    pub name: usize,
    pub unstable_path: Option<usize>,
    pub r0_path: Option<usize>,
    pub stable_path: Option<usize>,
    pub added: Option<usize>,
    pub deprecated: Option<usize>,
    pub removed: Option<usize>,
    pub rate_limited: bool,
    pub authentication: usize,
}

/// The metadata fields read so far.
#[derive(Clone, Copy, Debug, PartialEq, Eq, Structural)]
pub struct Draft {
    pub description: Option<usize>,
    pub method: Option<usize>,
    pub name: Option<usize>,
    pub unstable_path: Option<usize>,
    pub r0_path: Option<usize>,
    pub stable_path: Option<usize>,
    pub added: Option<usize>,
    pub deprecated: Option<usize>,
    pub removed: Option<usize>,
    pub rate_limited: Option<usize>,
    pub authentication: Option<usize>,
}

/// One named field of a request or response section.
#[derive(Clone, Copy, Debug, PartialEq, Eq, Structural)]
pub struct Field {
    /// The attributes written before the field.
    pub attributes: TokenRange,
    /// The position of the field's name.
    pub name: usize,
    /// The tokens of the field's type.
    pub ty: TokenRange,
}

/// A request or response section as a mathematical value.
pub struct SectionView {
    pub keyword: usize,
    pub attributes: TokenRange,
    pub fields: Seq<Field>,
}

/// A whole specification as a mathematical value.
pub struct ApiView {
    pub metadata: Metadata,
    pub request: Option<SectionView>,
    pub response: Option<SectionView>,
    pub error_ty: Option<TokenRange>,
}

pub open spec fn err<T>(kind: ErrorKind, at: int) -> Result<T, ParseError> {
    Err(ParseError { kind, at: at as usize })
}

pub open spec fn range(start: int, end: int) -> TokenRange {
    TokenRange { start: start as usize, end: end as usize }
}

/// The position just past the group that is open at depth `depth` when
/// reading reaches `i`; `None` when it is never closed.
pub open spec fn group_close(t: Seq<Token>, i: int, depth: int) -> Option<int>
    decreases t.len() - i,
{
    if i < 0 || i >= t.len() {
        None
    } else if t[i] is Open {
        group_close(t, i + 1, depth + 1)
    } else if t[i] is Close {
        if depth <= 1 {
            Some(i + 1)
        } else {
            group_close(t, i + 1, depth - 1)
        }
    } else {
        group_close(t, i + 1, depth)
    }
}

pub open spec fn opens_type_level(t: Seq<Token>, i: int) -> bool {
    is_open(t, i) || is_punct(t, i, '<')
}

pub open spec fn closes_type_level(t: Seq<Token>, i: int) -> bool {
    is_close(t, i) || (is_punct(t, i, '>') && !is_arrow_head(t, i))
}

/// The identifier `s` is a word that a type can go on after: `dyn`,
/// `impl`, `mut`, `const`, `unsafe`, `extern`, `fn` or `for`.
pub open spec fn is_prefix_word(s: Seq<char>) -> bool {
    s == "dyn"@ || s == "impl"@ || s == "mut"@ || s == "const"@ || s == "unsafe"@
        || s == "extern"@ || s == "fn"@ || s == "for"@
}

/// Token `i` is an identifier that completes a type unit: not a prefix
/// word, and not the name of a lifetime.
pub open spec fn ends_unit(t: Seq<Token>, i: int) -> bool {
    0 <= i < t.len() && match t[i] {
        Token::Ident(s) => !is_prefix_word(s@) && !is_joint_punct(t, i - 1, '\''),
        _ => false,
    }
}

/// The position where the scan of a type that is at nesting depth `depth`
/// at `i` stops: a `,`, a closing bracket or a lone `:` at the outer level,
/// an identifier right after a complete type unit at the outer level (two
/// types side by side, with nothing to join them), or the end of the
/// input; `None` when its brackets do not balance. `unit` says that the
/// token before `i` completed a type unit at the outer level.
pub open spec fn type_end(t: Seq<Token>, i: int, depth: int, unit: bool) -> Option<int>
    decreases t.len() - i,
{
    if i < 0 || i >= t.len() {
        if depth == 0 { Some(t.len() as int) } else { None }
    } else if depth == 0 && (is_punct(t, i, ',') || is_close(t, i) || is_lone_colon(t, i)
        || (unit && is_any_ident(t, i))) {
        Some(i)
    } else if opens_type_level(t, i) {
        type_end(t, i + 1, depth + 1, false)
    } else if closes_type_level(t, i) {
        if depth <= 0 { None } else { type_end(t, i + 1, depth - 1, depth == 1) }
    } else {
        type_end(t, i + 1, depth, depth == 0 && ends_unit(t, i))
    }
}

/// The position after the run of outer attributes that starts at `i`.
pub open spec fn attrs_end(t: Seq<Token>, i: int) -> Result<int, ParseError>
    decreases t.len() - i,
{
    if 0 <= i && is_punct(t, i, '#') {
        if !is_open_of(t, i + 1, Delim::Bracket) {
            err(ErrorKind::Expected(Expected::OpenBracket), i + 1)
        } else {
            match group_close(t, i + 1, 0) {
                None => err(ErrorKind::UnbalancedGroup, i + 1),
                Some(e) => if i < e <= t.len() { attrs_end(t, e) } else { Ok(i) },
            }
        }
    } else {
        Ok(i)
    }
}

/// The type starting at `i`, as a range of tokens. Where the scan stops at
/// a lone `:`, the token before it names the next field and is left out.
pub open spec fn parse_type(t: Seq<Token>, i: int) -> Result<TokenRange, ParseError> {
    match type_end(t, i, 0, false) {
        Some(s) => {
            let e = if is_lone_colon(t, s) { s - 1 } else { s };
            if e > i { Ok(range(i, e)) } else { err(ErrorKind::Expected(Expected::Type), i) }
        },
        None => err(ErrorKind::Expected(Expected::Type), i),
    }
}

/// The position after the visibility, if any, that starts at `a`: `pub`,
/// or `pub` with a parenthesized restriction.
pub open spec fn vis_end(t: Seq<Token>, a: int) -> Result<int, ParseError> {
    if is_ident(t, a, "pub"@) {
        if is_open_of(t, a + 1, Delim::Paren) {
            match group_close(t, a + 1, 0) {
                None => err(ErrorKind::UnbalancedGroup, a + 1),
                Some(e) => Ok(e),
            }
        } else {
            Ok(a + 1)
        }
    } else {
        Ok(a)
    }
}

/// The named field starting at `i`; it ends where its type ends.
pub open spec fn parse_field(t: Seq<Token>, i: int) -> Result<Field, ParseError> {
    match attrs_end(t, i) {
        Err(e) => Err(e),
        Ok(a) => match vis_end(t, a) {
            Err(e) => Err(e),
            Ok(n) => {
                if !is_any_ident(t, n) {
                    err(ErrorKind::Expected(Expected::Identifier), n)
                } else if !is_punct(t, n + 1, ':') {
                    err(ErrorKind::Expected(Expected::Colon), n + 1)
                } else {
                    match parse_type(t, n + 2) {
                        Err(e) => Err(e),
                        Ok(ty) => Ok(Field { attributes: range(i, a), name: n as usize, ty }),
                    }
                }
            },
        },
    }
}

/// Tokens `i` and `j` are identifiers with the same text.
pub open spec fn same_ident(t: Seq<Token>, i: int, j: int) -> bool {
    0 <= i < t.len() && 0 <= j < t.len() && match (t[i], t[j]) {
        (Token::Ident(a), Token::Ident(b)) => a@ == b@,
        _ => false,
    }
}

/// Some field of `fields` is named like the identifier at `n`.
pub open spec fn name_taken(t: Seq<Token>, fields: Seq<Field>, n: int) -> bool {
    exists|k: int| 0 <= k < fields.len() && same_ident(t, fields[k].name as int, n)
}

/// The fields from `i` up to the closing brace, after those in `acc`, and
/// the position after that brace.
pub open spec fn parse_fields(t: Seq<Token>, i: int, acc: Seq<Field>) -> Result<(Seq<Field>, int), ParseError>
    decreases t.len() - i,
{
    if 0 <= i && is_close_of(t, i, Delim::Brace) {
        Ok((acc, i + 1))
    } else {
        match parse_field(t, i) {
            Err(e) => Err(e),
            Ok(f) => {
                let j = f.ty.end as int;
                if name_taken(t, acc, f.name as int) {
                    err(ErrorKind::DuplicateField, f.name as int)
                } else if is_close_of(t, j, Delim::Brace) {
                    Ok((acc.push(f), j + 1))
                } else if !is_punct(t, j, ',') {
                    err(ErrorKind::Expected(Expected::Comma), j)
                } else if i < j + 1 <= t.len() {
                    parse_fields(t, j + 1, acc.push(f))
                } else {
                    Ok((acc, i))
                }
            }
        }
    }
}

/// The section whose keyword is at `i`, with the attributes `attrs`, and
/// the position after it.
pub open spec fn parse_section(t: Seq<Token>, i: int, attrs: TokenRange) -> Result<(SectionView, int), ParseError> {
    if !is_punct(t, i + 1, ':') {
        err(ErrorKind::Expected(Expected::Colon), i + 1)
    } else if !is_open_of(t, i + 2, Delim::Brace) {
        err(ErrorKind::Expected(Expected::OpenBrace), i + 2)
    } else {
        match parse_fields(t, i + 3, Seq::empty()) {
            Err(e) => Err(e),
            Ok((fs, j)) => Ok((SectionView { keyword: i as usize, attributes: attrs, fields: fs }, j)),
        }
    }
}

/// The metadata field that the identifier `s` names.
pub open spec fn key_of(s: Seq<char>) -> Option<MetaField> {
    if s == "description"@ {
        Some(MetaField::Description)
    } else if s == "method"@ {
        Some(MetaField::Method)
    } else if s == "name"@ {
        Some(MetaField::Name)
    } else if s == "unstable_path"@ {
        Some(MetaField::UnstablePath)
    } else if s == "r0_path"@ {
        Some(MetaField::R0Path)
    } else if s == "stable_path"@ {
        Some(MetaField::StablePath)
    } else if s == "added"@ {
        Some(MetaField::Added)
    } else if s == "deprecated"@ {
        Some(MetaField::Deprecated)
    } else if s == "removed"@ {
        Some(MetaField::Removed)
    } else if s == "rate_limited"@ {
        Some(MetaField::RateLimited)
    } else if s == "authentication"@ {
        Some(MetaField::Authentication)
    } else {
        None
    }
}

/// The metadata field named by token `i`, if it is an identifier.
pub open spec fn key_at(t: Seq<Token>, i: int) -> Option<MetaField> {
    if 0 <= i < t.len() {
        match t[i] {
            Token::Ident(s) => key_of(s@),
            _ => None,
        }
    } else {
        None
    }
}

pub open spec fn empty_draft() -> Draft {
    Draft {
        description: None,
        method: None,
        name: None,
        unstable_path: None,
        r0_path: None,
        stable_path: None,
        added: None,
        deprecated: None,
        removed: None,
        rate_limited: None,
        authentication: None,
    }
}

/// The field `k` has been given in `d`.
pub open spec fn draft_has(d: Draft, k: MetaField) -> bool {
    match k {
        MetaField::Description => d.description is Some,
        MetaField::Method => d.method is Some,
        MetaField::Name => d.name is Some,
        MetaField::UnstablePath => d.unstable_path is Some,
        MetaField::R0Path => d.r0_path is Some,
        MetaField::StablePath => d.stable_path is Some,
        MetaField::Added => d.added is Some,
        MetaField::Deprecated => d.deprecated is Some,
        MetaField::Removed => d.removed is Some,
        MetaField::RateLimited => d.rate_limited is Some,
        MetaField::Authentication => d.authentication is Some,
    }
}

/// The position of the value given for the field `k` in `d`.
pub open spec fn draft_get(d: Draft, k: MetaField) -> Option<usize> {
    match k {
        MetaField::Description => d.description,
        MetaField::Method => d.method,
        MetaField::Name => d.name,
        MetaField::UnstablePath => d.unstable_path,
        MetaField::R0Path => d.r0_path,
        MetaField::StablePath => d.stable_path,
        MetaField::Added => d.added,
        MetaField::Deprecated => d.deprecated,
        MetaField::Removed => d.removed,
        MetaField::RateLimited => d.rate_limited,
        MetaField::Authentication => d.authentication,
    }
}

/// `d` with the field `k` given by the token at `at`.
pub open spec fn draft_set(d: Draft, k: MetaField, at: usize) -> Draft {
    match k {
        MetaField::Description => Draft { description: Some(at), ..d },
        MetaField::Method => Draft { method: Some(at), ..d },
        MetaField::Name => Draft { name: Some(at), ..d },
        MetaField::UnstablePath => Draft { unstable_path: Some(at), ..d },
        MetaField::R0Path => Draft { r0_path: Some(at), ..d },
        MetaField::StablePath => Draft { stable_path: Some(at), ..d },
        MetaField::Added => Draft { added: Some(at), ..d },
        MetaField::Deprecated => Draft { deprecated: Some(at), ..d },
        MetaField::Removed => Draft { removed: Some(at), ..d },
        MetaField::RateLimited => Draft { rate_limited: Some(at), ..d },
        MetaField::Authentication => Draft { authentication: Some(at), ..d },
    }
}

/// What the value of field `k` must be; `None` when the token at `i` is one.
pub open spec fn value_error(t: Seq<Token>, i: int, k: MetaField) -> Option<Expected> {
    match k {
        MetaField::Method | MetaField::Authentication => {
            if is_any_ident(t, i) { None } else { Some(Expected::Identifier) }
        },
        MetaField::RateLimited => {
            if is_ident(t, i, "true"@) || is_ident(t, i, "false"@) { None } else { Some(Expected::Bool) }
        },
        MetaField::Added | MetaField::Deprecated | MetaField::Removed => {
            if 0 <= i < t.len() && t[i] is Lit { None } else { Some(Expected::Literal) }
        },
        _ => {
            if 0 <= i < t.len() && t[i] is Str { None } else { Some(Expected::StringLiteral) }
        },
    }
}

/// The metadata entries from `i` up to the closing brace, added to `d`, and
/// the position after that brace.
pub open spec fn parse_entries(t: Seq<Token>, i: int, d: Draft) -> Result<(Draft, int), ParseError>
    decreases t.len() - i,
{
    if i < 0 || i >= t.len() {
        err(ErrorKind::Expected(Expected::Identifier), i)
    } else if is_close_of(t, i, Delim::Brace) {
        Ok((d, i + 1))
    } else if !is_any_ident(t, i) {
        err(ErrorKind::Expected(Expected::Identifier), i)
    } else {
        match key_at(t, i) {
            None => err(ErrorKind::UnknownField, i),
            Some(k) => {
                if draft_has(d, k) {
                    err(ErrorKind::DuplicateField, i)
                } else if !is_punct(t, i + 1, ':') {
                    err(ErrorKind::Expected(Expected::Colon), i + 1)
                } else {
                    match value_error(t, i + 2, k) {
                        Some(x) => err(ErrorKind::Expected(x), i + 2),
                        None => {
                            let d2 = draft_set(d, k, (i + 2) as usize);
                            if is_close_of(t, i + 3, Delim::Brace) {
                                Ok((d2, i + 4))
                            } else if !is_punct(t, i + 3, ',') {
                                err(ErrorKind::Expected(Expected::Comma), i + 3)
                            } else {
                                parse_entries(t, i + 4, d2)
                            }
                        },
                    }
                }
            },
        }
    }
}

/// The metadata of a complete draft read from `t`; the first missing
/// mandatory field otherwise.
pub open spec fn finish_draft(t: Seq<Token>, d: Draft) -> Result<Metadata, MetaField> {
    if d.description is None {
        Err(MetaField::Description)
    } else if d.method is None {
        Err(MetaField::Method)
    } else if d.name is None {
        Err(MetaField::Name)
    } else if d.rate_limited is None {
        Err(MetaField::RateLimited)
    } else if d.authentication is None {
        Err(MetaField::Authentication)
    } else {
        Ok(Metadata {
            description: d.description->Some_0,
            method: d.method->Some_0,
            name: d.name->Some_0,
            unstable_path: d.unstable_path,
            r0_path: d.r0_path,
            stable_path: d.stable_path,
            added: d.added,
            deprecated: d.deprecated,
            removed: d.removed,
            rate_limited: is_ident(t, d.rate_limited->Some_0 as int, "true"@),
            authentication: d.authentication->Some_0,
        })
    }
}

/// The metadata section at the start of `t`, and the position after it.
pub open spec fn parse_metadata(t: Seq<Token>) -> Result<(Metadata, int), ParseError> {
    if !is_ident(t, 0, "metadata"@) {
        err(ErrorKind::Expected(Expected::MetadataKeyword), 0)
    } else if !is_punct(t, 1, ':') {
        err(ErrorKind::Expected(Expected::Colon), 1)
    } else if !is_open_of(t, 2, Delim::Brace) {
        err(ErrorKind::Expected(Expected::OpenBrace), 2)
    } else {
        match parse_entries(t, 3, empty_draft()) {
            Err(e) => Err(e),
            Ok((d, i)) => match finish_draft(t, d) {
                Err(k) => err(ErrorKind::MissingField(k), 0),
                Ok(m) => Ok((m, i)),
            },
        }
    }
}

/// The optional `error` section at `i`, which must end the input.
pub open spec fn parse_error_section(t: Seq<Token>, i: int) -> Result<Option<TokenRange>, ParseError> {
    if is_ident(t, i, "error"@) {
        if !is_punct(t, i + 1, ':') {
            err(ErrorKind::Expected(Expected::Colon), i + 1)
        } else {
            match parse_type(t, i + 2) {
                Err(e) => Err(e),
                Ok(ty) => if ty.end as int == t.len() {
                    Ok(Some(ty))
                } else {
                    err(ErrorKind::Expected(Expected::EndOfInput), ty.end as int)
                },
            }
        }
    } else if i == t.len() {
        Ok(None)
    } else {
        err(ErrorKind::Expected(Expected::EndOfInput), i)
    }
}

/// What follows the request section (or its place), given the attributes
/// `[s, a)` that were collected for the response section.
pub open spec fn parse_tail(t: Seq<Token>, m: Metadata, request: Option<SectionView>, s: int, a: int) -> Result<ApiView, ParseError> {
    let response = if is_ident(t, a, "response"@) {
        match parse_section(t, a, range(s, a)) {
            Err(e) => Err(e),
            Ok((rs, j)) => Ok((Some(rs), j)),
        }
    } else if a > s {
        err(ErrorKind::AttributesWithoutResponse, s)
    } else {
        Ok((None, a))
    };
    match response {
        Err(e) => Err(e),
        Ok((response, j)) => match parse_error_section(t, j) {
            Err(e) => Err(e),
            Ok(error_ty) => Ok(ApiView { metadata: m, request, response, error_ty }),
        },
    }
}

/// The specification that the tokens `t` spell, or why they spell none.
pub open spec fn parse_api(t: Seq<Token>) -> Result<ApiView, ParseError> {
    match parse_metadata(t) {
        Err(e) => Err(e),
        Ok((m, i)) => match attrs_end(t, i) {
            Err(e) => Err(e),
            Ok(a) => if is_ident(t, a, "request"@) {
                match parse_section(t, a, range(i, a)) {
                    Err(e) => Err(e),
                    Ok((rq, j)) => match attrs_end(t, j) {
                        Err(e) => Err(e),
                        Ok(b) => parse_tail(t, m, Some(rq), j, b),
                    },
                }
            } else {
                parse_tail(t, m, None, i, a)
            },
        },
    }
}

} // verus!
