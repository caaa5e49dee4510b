//! The parsed specification of one endpoint.
use vstd::prelude::*;
use crate::grammar::{
    parse_api, parse_error_section, parse_tail, range, ApiView, ErrorKind, Expected, Metadata,
    ParseError, SectionView, TokenRange,
};
use crate::parse::{lemma_attrs_end_bounds, read_metadata, read_section, read_type, skip_attrs, Section};
use crate::token::{ident_at, Token};

verus! {

/// The specification of one endpoint: its metadata and its optional
/// request, response and error sections.
pub struct Api {
    /// The `metadata` section.
    pub metadata: Metadata,
    /// The `request` section.
    pub request: Option<Section>,
    /// The `response` section.
    pub response: Option<Section>,
    /// The type given in the `error` section.
    pub error_ty: Option<TokenRange>,
}

pub open spec fn section_view(s: Option<Section>) -> Option<SectionView> {
    match s {
        Some(s) => Some(s@),
        None => None,
    }
}

impl View for Api {
    type V = ApiView;

    open spec fn view(&self) -> ApiView {
        ApiView {
            metadata: self.metadata,
            request: section_view(self.request),
            response: section_view(self.response),
            error_ty: self.error_ty,
        }
    }
}

/// The optional `error` section at `i`, which must end the input.
fn read_error_section(t: &Vec<Token>, i: usize) -> (r: Result<Option<TokenRange>, ParseError>)
    requires
        i <= t.len(),
    ensures
        r == parse_error_section(t@, i as int),
{
    if ident_at(t, i, "error") {
        if !crate::token::punct_at(t, i + 1, ':') {
            return Err(ParseError { kind: ErrorKind::Expected(Expected::Colon), at: i + 1 });
        }
        match read_type(t, i + 2) {
            Err(e) => Err(e),
            Ok(ty) => if ty.end == t.len() {
                Ok(Some(ty))
            } else {
                Err(ParseError { kind: ErrorKind::Expected(Expected::EndOfInput), at: ty.end })
            },
        }
    } else if i == t.len() {
        Ok(None)
    } else {
        Err(ParseError { kind: ErrorKind::Expected(Expected::EndOfInput), at: i })
    }
}

/// What follows the request section (or its place), given the attributes
/// `[s, a)` collected for the response section.
fn read_tail(t: &Vec<Token>, metadata: Metadata, request: Option<Section>, s: usize, a: usize) -> (r: Result<Api, ParseError>)
    requires
        s <= a <= t.len(),
    ensures
        match r {
            Ok(api) => parse_tail(t@, metadata, section_view(request), s as int, a as int) == Ok::<ApiView, ParseError>(api@),
            Err(e) => parse_tail(t@, metadata, section_view(request), s as int, a as int) == Err::<ApiView, ParseError>(e),
        },
{
    let has_response = ident_at(t, a, "response");
    let (response, j) = if has_response {
        match read_section(t, a, TokenRange { start: s, end: a }) {
            Err(e) => {
                return Err(e);
            },
            Ok((rs, j)) => (Some(rs), j),
        }
    } else if a > s {
        return Err(ParseError { kind: ErrorKind::AttributesWithoutResponse, at: s });
    } else {
        (None, a)
    };
    assert(j <= t.len()) by {
        if has_response {
            crate::parse::lemma_section_bounds(t@, a as int, range(s as int, a as int));
        }
    }
    match read_error_section(t, j) {
        Err(e) => Err(e),
        Ok(error_ty) => Ok(Api { metadata, request, response, error_ty }),
    }
}

impl Api {
    /// Parses the specification that the tokens `t` spell.
    pub fn parse(t: &Vec<Token>) -> (r: Result<Api, ParseError>)
        ensures
            match r {
                Ok(api) => parse_api(t@) == Ok::<ApiView, ParseError>(api@),
                Err(e) => parse_api(t@) == Err::<ApiView, ParseError>(e),
            },
    {
        let (metadata, i) = match read_metadata(t) {
            Err(e) => {
                return Err(e);
            },
            Ok(p) => p,
        };
        proof { crate::parse::lemma_metadata_bounds(t@); }
        let a = match skip_attrs(t, i) {
            Err(e) => {
                return Err(e);
            },
            Ok(a) => a,
        };
        proof { lemma_attrs_end_bounds(t@, i as int); }
        if ident_at(t, a, "request") {
            let (request, j) = match read_section(t, a, TokenRange { start: i, end: a }) {
                Err(e) => {
                    return Err(e);
                },
                Ok(p) => p,
            };
            proof {
                assert(t@.len() == t.len());
                crate::parse::lemma_section_bounds(t@, a as int, range(i as int, a as int));
            }
            let b = match skip_attrs(t, j) {
                Err(e) => {
                    return Err(e);
                },
                Ok(b) => b,
            };
            proof { lemma_attrs_end_bounds(t@, j as int); }
            read_tail(t, metadata, Some(request), j, b)
        } else {
            read_tail(t, metadata, None, i, a)
        }
    }
}

} // verus!
