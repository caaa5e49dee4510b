//! The metadata descriptor: the emit-ready form of the metadata section.
use vstd::prelude::*;
use crate::grammar::Metadata;
use crate::token::Token;

verus! {

/// The source text of token `i`: empty for a bracket or punctuation, or a
/// position past the end.
pub open spec fn text_at(t: Seq<Token>, i: int) -> Seq<char> {
    if 0 <= i < t.len() {
        match t[i] {
            Token::Ident(s) => s@,
            Token::Str(s) => s@,
            Token::Lit(s) => s@,
            _ => Seq::empty(),
        }
    } else {
        Seq::empty()
    }
}

/// The source text of an optional token.
pub open spec fn opt_text(t: Seq<Token>, o: Option<usize>) -> Option<Seq<char>> {
    match o {
        Some(i) => Some(text_at(t, i as int)),
        None => None,
    }
}

pub open spec fn opt_string_view(o: Option<String>) -> Option<Seq<char>> {
    match o {
        Some(s) => Some(s@),
        None => None,
    }
}

/// The immutable summary of an endpoint that generated code embeds as a
/// constant. Each value is the source text of the literal or symbol given
/// for it; an optional field that was not given is `None`.
pub struct Descriptor {
    pub description: String,
    pub method: String,
    pub name: String,
    pub unstable_path: Option<String>,
    pub r0_path: Option<String>,
    pub stable_path: Option<String>,
    pub added: Option<String>,
    pub deprecated: Option<String>,
    pub removed: Option<String>,
    pub rate_limited: bool,
    pub authentication: String,
}

pub struct DescriptorView {
    pub description: Seq<char>,
    pub method: Seq<char>,
    pub name: Seq<char>,
    pub unstable_path: Option<Seq<char>>,
    pub r0_path: Option<Seq<char>>,
    pub stable_path: Option<Seq<char>>,
    pub added: Option<Seq<char>>,
    pub deprecated: Option<Seq<char>>,
    pub removed: Option<Seq<char>>,
    pub rate_limited: bool,
    pub authentication: Seq<char>,
}

impl View for Descriptor {
    type V = DescriptorView;

    open spec fn view(&self) -> DescriptorView {
        DescriptorView {
            description: self.description@,
            method: self.method@,
            name: self.name@,
            unstable_path: opt_string_view(self.unstable_path),
            r0_path: opt_string_view(self.r0_path),
            stable_path: opt_string_view(self.stable_path),
            added: opt_string_view(self.added),
            deprecated: opt_string_view(self.deprecated),
            removed: opt_string_view(self.removed),
            rate_limited: self.rate_limited,
            authentication: self.authentication@,
        }
    }
}

/// The descriptor of the metadata `m` read from the tokens `t`.
pub open spec fn descriptor_of(t: Seq<Token>, m: Metadata) -> DescriptorView {
    DescriptorView {
        description: text_at(t, m.description as int),
        method: text_at(t, m.method as int),
        name: text_at(t, m.name as int),
        unstable_path: opt_text(t, m.unstable_path),
        r0_path: opt_text(t, m.r0_path),
        stable_path: opt_text(t, m.stable_path),
        added: opt_text(t, m.added),
        deprecated: opt_text(t, m.deprecated),
        removed: opt_text(t, m.removed),
        rate_limited: m.rate_limited,
        authentication: text_at(t, m.authentication as int),
    }
}

/// The source text of token `i`.
pub fn token_text(t: &Vec<Token>, i: usize) -> (r: String)
    ensures
        r@ == text_at(t@, i as int),
{
    if i >= t.len() {
        return String::new();
    }
    match &t[i] {
        Token::Ident(s) => s.clone(),
        Token::Str(s) => s.clone(),
        Token::Lit(s) => s.clone(),
        _ => String::new(),
    }
}

/// The source text of an optional token.
pub fn opt_token_text(t: &Vec<Token>, o: Option<usize>) -> (r: Option<String>)
    ensures
        opt_string_view(r) == opt_text(t@, o),
{
    match o {
        Some(i) => Some(token_text(t, i)),
        None => None,
    }
}

/// Lowers the metadata `m`, read from the tokens `t`, into its descriptor.
pub fn build_descriptor(t: &Vec<Token>, m: &Metadata) -> (r: Descriptor)
    ensures
        r@ == descriptor_of(t@, *m),
{
    Descriptor {
        description: token_text(t, m.description),
        method: token_text(t, m.method),
        name: token_text(t, m.name),
        unstable_path: opt_token_text(t, m.unstable_path),
        r0_path: opt_token_text(t, m.r0_path),
        stable_path: opt_token_text(t, m.stable_path),
        added: opt_token_text(t, m.added),
        deprecated: opt_token_text(t, m.deprecated),
        removed: opt_token_text(t, m.removed),
        rate_limited: m.rate_limited,
        authentication: token_text(t, m.authentication),
    }
}

} // verus!
