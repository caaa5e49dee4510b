//! Planning the generated module of an endpoint.
use vstd::prelude::*;
use crate::api::{section_view, Api};
use crate::capability::CapabilityError;
use crate::descriptor::{build_descriptor, descriptor_of, Descriptor};
use crate::grammar::TokenRange;
use crate::parse::Section;
use crate::token::Token;

verus! {

/// The error type that the generated bindings use.
#[derive(Clone, Copy, Debug, PartialEq, Eq, Structural)]
pub enum ErrorType {
    /// The default generic error type.
    Default,
    /// The type written in the `error` section, by its tokens.
    Custom(TokenRange),
}

/// Everything the generated module holds, in the order it is emitted.
pub struct Expansion {
    /// A failed capability check, reported as a compile error ahead of the
    /// rest of the output.
    pub diagnostic: Option<CapabilityError>,
    /// The metadata descriptor constant.
    pub descriptor: Descriptor,
    /// The resolved error type, handed to both delegates.
    pub error_type: ErrorType,
    /// The request section handed to the request delegate, if any.
    pub request: Option<Section>,
    /// The response section handed to the response delegate, if any.
    pub response: Option<Section>,
}

/// The error type that the `error` section resolves to.
pub open spec fn resolve_error_type(error_ty: Option<TokenRange>) -> ErrorType {
    match error_ty {
        Some(r) => ErrorType::Custom(r),
        None => ErrorType::Default,
    }
}

/// The diagnostic that a capability check's result calls for.
pub open spec fn diagnostic_of(capability: Result<(), CapabilityError>) -> Option<CapabilityError> {
    match capability {
        Ok(()) => None,
        Err(e) => Some(e),
    }
}

impl Api {
    /// Plans the generated module of this endpoint, read from the tokens
    /// `t`, given the result of the capability check.
    pub fn expand_all(self, t: &Vec<Token>, capability: Result<(), CapabilityError>) -> (r: Expansion)
        ensures
            r.diagnostic == diagnostic_of(capability),
            r.descriptor@ == descriptor_of(t@, self.metadata),
            r.error_type == resolve_error_type(self.error_ty),
            section_view(r.request) == section_view(self.request),
            section_view(r.response) == section_view(self.response),
    {
        let diagnostic = match capability {
            Ok(()) => None,
            Err(e) => Some(e),
        };
        let descriptor = build_descriptor(t, &self.metadata);
        let error_type = match self.error_ty {
            Some(r) => ErrorType::Custom(r),
            None => ErrorType::Default,
        };
        Expansion { diagnostic, descriptor, error_type, request: self.request, response: self.response }
    }
}

} // verus!
