//! Properties of the parser and of the descriptor it leads to.
use vstd::prelude::*;
use crate::descriptor::{descriptor_of, text_at};
use crate::grammar::{
    attrs_end, draft_get, draft_set, empty_draft, finish_draft, group_close, key_at,
    name_taken, parse_api, parse_entries, parse_field, parse_fields, parse_metadata,
    parse_section, parse_type, range, ends_unit, type_end, value_error, ApiView, TokenRange, Draft, ErrorKind, Expected,
    Field, MetaField, Metadata, ParseError, SectionView,
};
use crate::parse::{lemma_attrs_end_bounds, lemma_group_close_bounds};
use crate::token::{is_any_ident, is_close_of, is_ident, is_lone_colon, is_punct, Delim, Token};

verus! {

/// Token `p` is the value of an entry `k: value` of the metadata section.
pub open spec fn entry_for(t: Seq<Token>, p: int, k: MetaField) -> bool {
    2 <= p && key_at(t, p - 2) == Some(k) && is_punct(t, p - 1, ':') && value_error(t, p, k) is None
}

/// The metadata section holds an entry for `k` whose value reads `v`.
pub open spec fn written_as(t: Seq<Token>, k: MetaField, v: Seq<char>) -> bool {
    exists|p: int| entry_for(t, p, k) && text_at(t, p) == v
}

/// Every field given in `d` is the value of an entry for it before `hi`.
pub open spec fn draft_sound(t: Seq<Token>, d: Draft, hi: int) -> bool {
    forall|k: MetaField| #[trigger] draft_get(d, k) is Some ==> {
        let p = draft_get(d, k)->Some_0;
        p < hi && entry_for(t, p as int, k)
    }
}

proof fn lemma_get_set(d: Draft, k: MetaField, at: usize, k2: MetaField)
    ensures
        draft_get(draft_set(d, k, at), k2) == if k == k2 { Some(at) } else { draft_get(d, k2) },
{
}

proof fn lemma_entries_sound(t: Seq<Token>, i: int, d: Draft)
    requires
        0 <= i <= t.len() <= usize::MAX,
        draft_sound(t, d, i),
    ensures
        parse_entries(t, i, d) matches Ok((d2, e)) ==> draft_sound(t, d2, e),
    decreases t.len() - i,
{
    if 0 <= i < t.len() && !is_close_of(t, i, Delim::Brace) {
        if let Some(k) = key_at(t, i) {
            let d2 = draft_set(d, k, (i + 2) as usize);
            if i + 4 <= t.len() && value_error(t, i + 2, k) is None && is_punct(t, i + 1, ':') {
                assert forall|k2: MetaField| #[trigger] draft_get(d2, k2) is Some implies {
                    let p = draft_get(d2, k2)->Some_0;
                    p < i + 4 && entry_for(t, p as int, k2)
                } by {
                    lemma_get_set(d, k, (i + 2) as usize, k2);
                }
                lemma_entries_sound(t, i + 4, d2);
            }
        }
    }
}

/// Where the metadata section parses, each value of the metadata is the
/// value of an entry for its field.
proof fn lemma_metadata_sound(t: Seq<Token>)
    requires
        t.len() <= usize::MAX,
    ensures
        parse_metadata(t) matches Ok((m, _)) ==> {
            &&& entry_for(t, m.description as int, MetaField::Description)
            &&& entry_for(t, m.method as int, MetaField::Method)
            &&& entry_for(t, m.name as int, MetaField::Name)
            &&& entry_for(t, m.authentication as int, MetaField::Authentication)
            &&& (m.unstable_path matches Some(p) ==> entry_for(t, p as int, MetaField::UnstablePath))
            &&& (m.r0_path matches Some(p) ==> entry_for(t, p as int, MetaField::R0Path))
            &&& (m.stable_path matches Some(p) ==> entry_for(t, p as int, MetaField::StablePath))
            &&& (m.added matches Some(p) ==> entry_for(t, p as int, MetaField::Added))
            &&& (m.deprecated matches Some(p) ==> entry_for(t, p as int, MetaField::Deprecated))
            &&& (m.removed matches Some(p) ==> entry_for(t, p as int, MetaField::Removed))
            &&& exists|p: int| entry_for(t, p, MetaField::RateLimited) && m.rate_limited == is_ident(t, p, "true"@)
        },
{
    if t.len() >= 3 {
        lemma_entries_sound(t, 3, empty_draft());
        if let Ok((d, _)) = parse_entries(t, 3, empty_draft()) {
            let _ = draft_get(d, MetaField::Description);
            let _ = draft_get(d, MetaField::Method);
            let _ = draft_get(d, MetaField::Name);
            let _ = draft_get(d, MetaField::UnstablePath);
            let _ = draft_get(d, MetaField::R0Path);
            let _ = draft_get(d, MetaField::StablePath);
            let _ = draft_get(d, MetaField::Added);
            let _ = draft_get(d, MetaField::Deprecated);
            let _ = draft_get(d, MetaField::Removed);
            let _ = draft_get(d, MetaField::RateLimited);
            let _ = draft_get(d, MetaField::Authentication);
            if let Ok(m) = finish_draft(t, d) {
                let p = d.rate_limited->Some_0 as int;
                assert(entry_for(t, p, MetaField::RateLimited) && m.rate_limited == is_ident(t, p, "true"@));
            }
        }
    }
}

/// A specification that parses has the metadata that its metadata section
/// parses to.
proof fn lemma_api_metadata(t: Seq<Token>)
    ensures
        parse_api(t) matches Ok(api) ==> parse_metadata(t) matches Ok((m, _)) && api.metadata == m,
{
}

/// Parsing is a function of the tokens alone: equal token sequences parse
/// to equal specifications, or fail with equal errors.
pub proof fn lemma_parse_is_deterministic(a: Seq<Token>, b: Seq<Token>)
    requires
        a == b,
    ensures
        parse_api(a) == parse_api(b),
{
}

/// A request section followed at once by an `error` section, with no
/// response section between them, parses; the error type is the one
/// written, as it is written.
pub proof fn lemma_request_then_error(t: Seq<Token>, m: Metadata, i: int, request: SectionView, j: int)
    requires
        t.len() <= usize::MAX,
        parse_metadata(t) == Ok::<(Metadata, int), ParseError>((m, i)),
        is_ident(t, i, "request"@),
        parse_section(t, i, range(i, i)) == Ok::<(SectionView, int), ParseError>((request, j)),
        is_ident(t, j, "error"@),
        is_punct(t, j + 1, ':'),
        parse_type(t, j + 2) == Ok::<crate::grammar::TokenRange, ParseError>(range(j + 2, t.len() as int)),
    ensures
        parse_api(t) == Ok::<ApiView, ParseError>(ApiView {
            metadata: m,
            request: Some(request),
            response: None,
            error_ty: Some(range(j + 2, t.len() as int)),
        }),
{
    reveal_strlit("error");
    reveal_strlit("response");
    reveal_strlit("request");
    assert(!is_punct(t, i, '#'));
    assert(!is_punct(t, j, '#'));
    assert(attrs_end(t, i) == Ok::<int, ParseError>(i));
    assert(attrs_end(t, j) == Ok::<int, ParseError>(j));
    assert(!is_ident(t, j, "response"@)) by {
        assert("error"@.len() != "response"@.len());
    }
}

/// Attributes after the metadata section that are followed by neither a
/// request nor a response section are rejected, at the first attribute.
pub proof fn lemma_attributes_without_response(t: Seq<Token>, m: Metadata, i: int, a: int)
    requires
        parse_metadata(t) == Ok::<(Metadata, int), ParseError>((m, i)),
        is_punct(t, i, '#'),
        attrs_end(t, i) == Ok::<int, ParseError>(a),
        !is_ident(t, a, "request"@),
        !is_ident(t, a, "response"@),
    ensures
        parse_api(t) == Err::<ApiView, ParseError>(ParseError { kind: ErrorKind::AttributesWithoutResponse, at: i as usize }),
{
    lemma_group_close_bounds(t, i + 1, 0);
    let e = group_close(t, i + 1, 0)->Some_0;
    lemma_attrs_end_bounds(t, e);
    assert(a > i);
}

/// Attributes after a request section that are not followed by a response
/// section are rejected, at the first of them.
pub proof fn lemma_attributes_after_request(t: Seq<Token>, m: Metadata, i: int, a: int, request: SectionView, j: int, b: int)
    requires
        parse_metadata(t) == Ok::<(Metadata, int), ParseError>((m, i)),
        attrs_end(t, i) == Ok::<int, ParseError>(a),
        is_ident(t, a, "request"@),
        parse_section(t, a, range(i, a)) == Ok::<(SectionView, int), ParseError>((request, j)),
        is_punct(t, j, '#'),
        attrs_end(t, j) == Ok::<int, ParseError>(b),
        !is_ident(t, b, "response"@),
    ensures
        parse_api(t) == Err::<ApiView, ParseError>(ParseError { kind: ErrorKind::AttributesWithoutResponse, at: j as usize }),
{
    lemma_group_close_bounds(t, j + 1, 0);
    let e = group_close(t, j + 1, 0)->Some_0;
    lemma_attrs_end_bounds(t, e);
    assert(b > j);
}

/// Round trip: for a specification that parses, each value of its
/// metadata descriptor is the source text of the value written for that
/// field in the metadata section, and the rate-limiting flag is set exactly
/// when the value written for it is `true`.
pub proof fn lemma_descriptor_round_trip(t: Seq<Token>, api: ApiView)
    requires
        t.len() <= usize::MAX,
        parse_api(t) == Ok::<ApiView, ParseError>(api),
    ensures
        ({
            let d = descriptor_of(t, api.metadata);
            &&& written_as(t, MetaField::Description, d.description)
            &&& written_as(t, MetaField::Method, d.method)
            &&& written_as(t, MetaField::Name, d.name)
            &&& written_as(t, MetaField::Authentication, d.authentication)
            &&& (d.unstable_path matches Some(v) ==> written_as(t, MetaField::UnstablePath, v))
            &&& (d.r0_path matches Some(v) ==> written_as(t, MetaField::R0Path, v))
            &&& (d.stable_path matches Some(v) ==> written_as(t, MetaField::StablePath, v))
            &&& (d.added matches Some(v) ==> written_as(t, MetaField::Added, v))
            &&& (d.deprecated matches Some(v) ==> written_as(t, MetaField::Deprecated, v))
            &&& (d.removed matches Some(v) ==> written_as(t, MetaField::Removed, v))
            &&& exists|p: int| entry_for(t, p, MetaField::RateLimited) && d.rate_limited == is_ident(t, p, "true"@)
        }),
{
    lemma_api_metadata(t);
    lemma_metadata_sound(t);
    let m = api.metadata;
    let d = descriptor_of(t, m);
    assert(entry_for(t, m.description as int, MetaField::Description) && text_at(t, m.description as int) == d.description);
    assert(entry_for(t, m.method as int, MetaField::Method) && text_at(t, m.method as int) == d.method);
    assert(entry_for(t, m.name as int, MetaField::Name) && text_at(t, m.name as int) == d.name);
    assert(entry_for(t, m.authentication as int, MetaField::Authentication) && text_at(t, m.authentication as int) == d.authentication);
    if let Some(p) = m.unstable_path {
        assert(entry_for(t, p as int, MetaField::UnstablePath) && text_at(t, p as int) == d.unstable_path->Some_0);
    }
    if let Some(p) = m.r0_path {
        assert(entry_for(t, p as int, MetaField::R0Path) && text_at(t, p as int) == d.r0_path->Some_0);
    }
    if let Some(p) = m.stable_path {
        assert(entry_for(t, p as int, MetaField::StablePath) && text_at(t, p as int) == d.stable_path->Some_0);
    }
    if let Some(p) = m.added {
        assert(entry_for(t, p as int, MetaField::Added) && text_at(t, p as int) == d.added->Some_0);
    }
    if let Some(p) = m.deprecated {
        assert(entry_for(t, p as int, MetaField::Deprecated) && text_at(t, p as int) == d.deprecated->Some_0);
    }
    if let Some(p) = m.removed {
        assert(entry_for(t, p as int, MetaField::Removed) && text_at(t, p as int) == d.removed->Some_0);
    }
}

/// An optional field that the metadata section does not give is absent
/// from the descriptor, not present with an empty or default value.
pub proof fn lemma_omitted_fields_are_absent(t: Seq<Token>, api: ApiView)
    requires
        t.len() <= usize::MAX,
        parse_api(t) == Ok::<ApiView, ParseError>(api),
    ensures
        ({
            let d = descriptor_of(t, api.metadata);
            &&& (forall|p: int| !entry_for(t, p, MetaField::UnstablePath)) ==> d.unstable_path is None
            &&& (forall|p: int| !entry_for(t, p, MetaField::R0Path)) ==> d.r0_path is None
            &&& (forall|p: int| !entry_for(t, p, MetaField::StablePath)) ==> d.stable_path is None
            &&& (forall|p: int| !entry_for(t, p, MetaField::Added)) ==> d.added is None
            &&& (forall|p: int| !entry_for(t, p, MetaField::Deprecated)) ==> d.deprecated is None
            &&& (forall|p: int| !entry_for(t, p, MetaField::Removed)) ==> d.removed is None
        }),
{
    lemma_api_metadata(t);
    lemma_metadata_sound(t);
    let m = api.metadata;
    if let Some(p) = m.unstable_path {
        assert(entry_for(t, p as int, MetaField::UnstablePath));
    }
    if let Some(p) = m.r0_path {
        assert(entry_for(t, p as int, MetaField::R0Path));
    }
    if let Some(p) = m.stable_path {
        assert(entry_for(t, p as int, MetaField::StablePath));
    }
    if let Some(p) = m.added {
        assert(entry_for(t, p as int, MetaField::Added));
    }
    if let Some(p) = m.deprecated {
        assert(entry_for(t, p as int, MetaField::Deprecated));
    }
    if let Some(p) = m.removed {
        assert(entry_for(t, p as int, MetaField::Removed));
    }
}

/// Two fields with no comma between them are rejected: the first field's
/// type stops before the name of the second, and a comma is asked for
/// there.
pub proof fn lemma_missing_comma_rejected(t: Seq<Token>, i: int, acc: Seq<Field>, f: Field)
    requires
        0 <= i,
        !is_close_of(t, i, Delim::Brace),
        parse_field(t, i) == Ok::<Field, ParseError>(f),
        !name_taken(t, acc, f.name as int),
        is_any_ident(t, f.ty.end as int),
        is_lone_colon(t, f.ty.end + 1),
    ensures
        parse_fields(t, i, acc) == Err::<(Seq<Field>, int), ParseError>(
            ParseError { kind: ErrorKind::Expected(Expected::Comma), at: f.ty.end },
        ),
{
}

/// Two types side by side, with nothing to join them, are not one type:
/// a type that starts with a complete type unit followed by an identifier
/// is that unit alone.
pub proof fn lemma_adjacent_types_split(t: Seq<Token>, p: int)
    requires
        0 <= p,
        t.len() <= usize::MAX,
        ends_unit(t, p),
        is_any_ident(t, p + 1),
    ensures
        parse_type(t, p) == Ok::<TokenRange, ParseError>(range(p, p + 1)),
{
    assert(type_end(t, p + 1, 0, true) == Some(p + 1));
    assert(type_end(t, p, 0, false) == type_end(t, p + 1, 0, true));
}

/// A field whose type is two types with no comma between them is
/// rejected: a comma is asked for at the second type.
pub proof fn lemma_adjacent_field_types_rejected(t: Seq<Token>, i: int, acc: Seq<Field>)
    requires
        0 <= i,
        t.len() <= usize::MAX,
        is_any_ident(t, i),
        !is_ident(t, i, "pub"@),
        is_punct(t, i + 1, ':'),
        ends_unit(t, i + 2),
        is_any_ident(t, i + 3),
        !name_taken(t, acc, i),
    ensures
        parse_fields(t, i, acc) == Err::<(Seq<Field>, int), ParseError>(
            ParseError { kind: ErrorKind::Expected(Expected::Comma), at: (i + 3) as usize },
        ),
{
    lemma_adjacent_types_split(t, i + 2);
}

/// The error type must end the input: whatever follows it (a second type,
/// or a second `error` section) is rejected, at its first token.
pub proof fn lemma_error_type_ends_input(t: Seq<Token>, m: Metadata, i: int, ty: TokenRange)
    requires
        t.len() <= usize::MAX,
        parse_metadata(t) == Ok::<(Metadata, int), ParseError>((m, i)),
        is_ident(t, i, "error"@),
        is_punct(t, i + 1, ':'),
        parse_type(t, i + 2) == Ok::<TokenRange, ParseError>(ty),
        ty.end < t.len(),
    ensures
        parse_api(t) == Err::<ApiView, ParseError>(
            ParseError { kind: ErrorKind::Expected(Expected::EndOfInput), at: ty.end },
        ),
{
    reveal_strlit("error");
    reveal_strlit("response");
    reveal_strlit("request");
    assert(!is_punct(t, i, '#'));
    assert(attrs_end(t, i) == Ok::<int, ParseError>(i));
    assert(!is_ident(t, i, "response"@)) by {
        assert("error"@.len() != "response"@.len());
    }
    assert(!is_ident(t, i, "request"@)) by {
        assert("error"@.len() != "request"@.len());
    }
}

} // verus!
