//! The parser: executable counterparts of the grammar in `grammar`.
use vstd::prelude::*;
use crate::grammar::{
    attrs_end, closes_type_level, ends_unit, vis_end, draft_has, draft_set, empty_draft, finish_draft, group_close,
    key_at, name_taken, opens_type_level, parse_entries, parse_field, parse_fields,
    parse_metadata, parse_section, parse_type, same_ident, type_end, value_error, Draft,
    ErrorKind, Expected, Field, MetaField, Metadata, ParseError, SectionView, TokenRange,
};
use crate::token::{
    any_ident_at, brace_close_at, brace_open_at, bracket_open_at, close_at, ident_at,
    is_any_ident, is_close_of, is_ident, is_open, is_open_of, is_punct, open_at, punct_at,
    str_eq, Delim, Token, arrow_head_at, lone_colon_at, paren_open_at, is_lone_colon, joint_punct_at,
};

verus! {

/// `r` is the position result `s`, read as machine integers.
pub open spec fn same_pos(r: Result<usize, ParseError>, s: Result<int, ParseError>) -> bool {
    match r {
        Ok(p) => s == Ok::<int, ParseError>(p as int),
        Err(e) => s == Err::<int, ParseError>(e),
    }
}

pub proof fn lemma_group_close_bounds(t: Seq<Token>, i: int, depth: int)
    ensures
        group_close(t, i, depth) matches Some(e) ==> i < e <= t.len(),
    decreases t.len() - i,
{
    if 0 <= i < t.len() {
        lemma_group_close_bounds(t, i + 1, depth + 1);
        lemma_group_close_bounds(t, i + 1, depth - 1);
        lemma_group_close_bounds(t, i + 1, depth);
    }
}

pub proof fn lemma_type_end_bounds(t: Seq<Token>, i: int, depth: int, unit: bool)
    requires
        0 <= i <= t.len(),
    ensures
        type_end(t, i, depth, unit) matches Some(e) ==> i <= e <= t.len(),
    decreases t.len() - i,
{
    if i < t.len() {
        lemma_type_end_bounds(t, i + 1, depth + 1, false);
        lemma_type_end_bounds(t, i + 1, depth - 1, depth == 1);
        lemma_type_end_bounds(t, i + 1, depth, depth == 0 && ends_unit(t, i));
    }
}

pub proof fn lemma_attrs_end_bounds(t: Seq<Token>, i: int)
    requires
        0 <= i <= t.len(),
    ensures
        attrs_end(t, i) matches Ok(a) ==> i <= a <= t.len(),
    decreases t.len() - i,
{
    if is_punct(t, i, '#') {
        lemma_group_close_bounds(t, i + 1, 0);
        if let Some(e) = group_close(t, i + 1, 0) {
            if i < e <= t.len() {
                lemma_attrs_end_bounds(t, e);
            }
        }
    }
}

/// The position just past the group that opens at `start`.
pub fn skip_group(t: &Vec<Token>, start: usize) -> (r: Option<usize>)
    requires
        is_open(t@, start as int),
    ensures
        match r {
            Some(e) => group_close(t@, start as int, 0) == Some(e as int),
            None => group_close(t@, start as int, 0) is None,
        },
{
    let mut i: usize = start;
    let mut depth: usize = 0;
    while i < t.len()
        invariant
            start <= i <= t.len(),
            depth <= i,
            group_close(t@, i as int, depth as int) == group_close(t@, start as int, 0),
        decreases t.len() - i,
    {
        if open_at(t, i) {
            depth = depth + 1;
        } else if close_at(t, i) {
            if depth <= 1 {
                return Some(i + 1);
            }
            depth = depth - 1;
        }
        i = i + 1;
    }
    None
}

/// Token `i` is an identifier that completes a type unit.
pub fn ends_unit_at(t: &Vec<Token>, i: usize) -> (r: bool)
    ensures
        r == ends_unit(t@, i as int),
{
    if i >= t.len() {
        return false;
    }
    match &t[i] {
        Token::Ident(s) => {
            let s = s.as_str();
            let prefix = str_eq(s, "dyn") || str_eq(s, "impl") || str_eq(s, "mut")
                || str_eq(s, "const") || str_eq(s, "unsafe") || str_eq(s, "extern")
                || str_eq(s, "fn") || str_eq(s, "for");
            let lifetime = i > 0 && joint_punct_at(t, i - 1, '\'');
            !prefix && !lifetime
        },
        _ => false,
    }
}

/// The position where the type that starts at `start` ends.
pub fn skip_type(t: &Vec<Token>, start: usize) -> (r: Option<usize>)
    ensures
        match r {
            Some(e) => type_end(t@, start as int, 0, false) == Some(e as int),
            None => type_end(t@, start as int, 0, false) is None,
        },
{
    let mut i: usize = start;
    let mut depth: usize = 0;
    let mut unit = false;
    while i < t.len()
        invariant
            start <= i,
            depth <= i,
            type_end(t@, i as int, depth as int, unit) == type_end(t@, start as int, 0, false),
        decreases t.len() - i,
    {
        let opens = open_at(t, i) || punct_at(t, i, '<');
        let closes = close_at(t, i) || (punct_at(t, i, '>') && !arrow_head_at(t, i));
        assert(opens == opens_type_level(t@, i as int));
        assert(closes == closes_type_level(t@, i as int));
        if depth == 0 && (punct_at(t, i, ',') || close_at(t, i) || lone_colon_at(t, i)
            || (unit && any_ident_at(t, i))) {
            return Some(i);
        } else if opens {
            depth = depth + 1;
            unit = false;
        } else if closes {
            if depth == 0 {
                return None;
            }
            depth = depth - 1;
            unit = depth == 0;
        } else {
            unit = depth == 0 && ends_unit_at(t, i);
        }
        i = i + 1;
    }
    if depth == 0 {
        Some(t.len())
    } else {
        None
    }
}

/// The type that starts at `start`, as a range of tokens.
pub fn read_type(t: &Vec<Token>, start: usize) -> (r: Result<TokenRange, ParseError>)
    ensures
        r == parse_type(t@, start as int),
{
    match skip_type(t, start) {
        Some(s) => {
            let e = if lone_colon_at(t, s) && s > 0 { s - 1 } else { s };
            if e > start {
                Ok(TokenRange { start, end: e })
            } else {
                Err(ParseError { kind: ErrorKind::Expected(Expected::Type), at: start })
            }
        },
        None => Err(ParseError { kind: ErrorKind::Expected(Expected::Type), at: start }),
    }
}

/// The position after the run of outer attributes that starts at `start`.
pub fn skip_attrs(t: &Vec<Token>, start: usize) -> (r: Result<usize, ParseError>)
    requires
        start <= t.len(),
    ensures
        same_pos(r, attrs_end(t@, start as int)),
{
    let mut i: usize = start;
    while punct_at(t, i, '#')
        invariant
            start <= i <= t.len(),
            attrs_end(t@, i as int) == attrs_end(t@, start as int),
        decreases t.len() - i,
    {
        if !bracket_open_at(t, i + 1) {
            return Err(ParseError { kind: ErrorKind::Expected(Expected::OpenBracket), at: i + 1 });
        }
        proof { lemma_group_close_bounds(t@, i + 1, 0); }
        match skip_group(t, i + 1) {
            None => {
                return Err(ParseError { kind: ErrorKind::UnbalancedGroup, at: i + 1 });
            },
            Some(e) => {
                i = e;
            },
        }
    }
    Ok(i)
}

pub proof fn lemma_field_bounds(t: Seq<Token>, i: int)
    requires
        0 <= i <= t.len() <= usize::MAX,
    ensures
        parse_field(t, i) matches Ok(f) ==> i < f.ty.end <= t.len() && f.name < f.ty.start,
{
    lemma_attrs_end_bounds(t, i);
    if let Ok(a) = attrs_end(t, i) {
        if is_open_of(t, a + 1, Delim::Paren) {
            lemma_group_close_bounds(t, a + 1, 0);
        }
        if let Ok(n) = vis_end(t, a) {
            if is_any_ident(t, n) && is_punct(t, n + 1, ':') {
                lemma_type_end_bounds(t, n + 2, 0, false);
            }
        }
    }
}

/// The position after the visibility, if any, that starts at `a`.
pub fn read_vis(t: &Vec<Token>, a: usize) -> (r: Result<usize, ParseError>)
    requires
        a <= t.len(),
    ensures
        same_pos(r, vis_end(t@, a as int)),
        r matches Ok(n) ==> a <= n <= t.len(),
{
    if !ident_at(t, a, "pub") {
        return Ok(a);
    }
    if !paren_open_at(t, a + 1) {
        return Ok(a + 1);
    }
    proof { lemma_group_close_bounds(t@, a as int + 1, 0); }
    match skip_group(t, a + 1) {
        None => Err(ParseError { kind: ErrorKind::UnbalancedGroup, at: a + 1 }),
        Some(e) => Ok(e),
    }
}

/// The named field that starts at `start`.
pub fn read_field(t: &Vec<Token>, start: usize) -> (r: Result<Field, ParseError>)
    requires
        start <= t.len(),
    ensures
        r == parse_field(t@, start as int),
{
    let a = match skip_attrs(t, start) {
        Err(e) => {
            return Err(e);
        },
        Ok(a) => a,
    };
    proof { lemma_attrs_end_bounds(t@, start as int); }
    let n = match read_vis(t, a) {
        Err(e) => {
            return Err(e);
        },
        Ok(n) => n,
    };
    if !any_ident_at(t, n) {
        return Err(ParseError { kind: ErrorKind::Expected(Expected::Identifier), at: n });
    }
    if !punct_at(t, n + 1, ':') {
        return Err(ParseError { kind: ErrorKind::Expected(Expected::Colon), at: n + 1 });
    }
    match read_type(t, n + 2) {
        Err(e) => Err(e),
        Ok(ty) => Ok(Field { attributes: TokenRange { start, end: a }, name: n, ty }),
    }
}

/// Tokens `i` and `j` are identifiers with the same text.
pub fn same_ident_at(t: &Vec<Token>, i: usize, j: usize) -> (r: bool)
    ensures
        r == same_ident(t@, i as int, j as int),
{
    if i >= t.len() || j >= t.len() {
        return false;
    }
    match (&t[i], &t[j]) {
        (Token::Ident(a), Token::Ident(b)) => str_eq(a.as_str(), b.as_str()),
        _ => false,
    }
}

/// Some field of `fields` is named like the identifier at `n`.
pub fn name_is_taken(t: &Vec<Token>, fields: &Vec<Field>, n: usize) -> (r: bool)
    ensures
        r == name_taken(t@, fields@, n as int),
{
    let mut k: usize = 0;
    while k < fields.len()
        invariant
            k <= fields.len(),
            forall|m: int| 0 <= m < k ==> !same_ident(t@, #[trigger] fields@[m].name as int, n as int),
        decreases fields.len() - k,
    {
        if same_ident_at(t, fields[k].name, n) {
            return true;
        }
        k = k + 1;
    }
    false
}

/// The fields from `start` up to the closing brace, and the position after
/// that brace.
pub fn read_fields(t: &Vec<Token>, start: usize) -> (r: Result<(Vec<Field>, usize), ParseError>)
    requires
        start <= t.len(),
    ensures
        match r {
            Ok((fs, e)) => parse_fields(t@, start as int, Seq::empty()) == Ok::<(Seq<Field>, int), ParseError>((fs@, e as int)),
            Err(x) => parse_fields(t@, start as int, Seq::empty()) == Err::<(Seq<Field>, int), ParseError>(x),
        },
{
    let mut acc: Vec<Field> = Vec::new();
    let mut i: usize = start;
    while !brace_close_at(t, i)
        invariant
            start <= i <= t.len(),
            parse_fields(t@, i as int, acc@) == parse_fields(t@, start as int, Seq::empty()),
        decreases t.len() - i,
    {
        proof { lemma_field_bounds(t@, i as int); }
        let f = match read_field(t, i) {
            Err(e) => {
                return Err(e);
            },
            Ok(f) => f,
        };
        if name_is_taken(t, &acc, f.name) {
            return Err(ParseError { kind: ErrorKind::DuplicateField, at: f.name });
        }
        let j = f.ty.end;
        if brace_close_at(t, j) {
            acc.push(f);
            return Ok((acc, j + 1));
        }
        if !punct_at(t, j, ',') {
            return Err(ParseError { kind: ErrorKind::Expected(Expected::Comma), at: j });
        }
        acc.push(f);
        i = j + 1;
    }
    Ok((acc, i + 1))
}

/// A request or response section.
pub struct Section {
    /// The position of the section's keyword.
    pub keyword: usize,
    /// The attributes written before the section.
    pub attributes: TokenRange,
    /// The section's fields, in order.
    pub fields: Vec<Field>,
}

impl View for Section {
    type V = SectionView;

    open spec fn view(&self) -> SectionView {
        SectionView { keyword: self.keyword, attributes: self.attributes, fields: self.fields@ }
    }
}

/// The section whose keyword is at `kw`, and the position after it.
pub fn read_section(t: &Vec<Token>, kw: usize, attributes: TokenRange) -> (r: Result<(Section, usize), ParseError>)
    requires
        kw < t.len(),
    ensures
        match r {
            Ok((s, e)) => parse_section(t@, kw as int, attributes) == Ok::<(SectionView, int), ParseError>((s@, e as int)),
            Err(x) => parse_section(t@, kw as int, attributes) == Err::<(SectionView, int), ParseError>(x),
        },
{
    if !punct_at(t, kw + 1, ':') {
        return Err(ParseError { kind: ErrorKind::Expected(Expected::Colon), at: kw + 1 });
    }
    if !brace_open_at(t, kw + 2) {
        return Err(ParseError { kind: ErrorKind::Expected(Expected::OpenBrace), at: kw + 2 });
    }
    match read_fields(t, kw + 3) {
        Err(e) => Err(e),
        Ok((fields, e)) => Ok((Section { keyword: kw, attributes, fields }, e)),
    }
}

/// The metadata field named by token `i`, if it is an identifier.
pub fn key_at_pos(t: &Vec<Token>, i: usize) -> (r: Option<MetaField>)
    ensures
        r == key_at(t@, i as int),
{
    if i >= t.len() {
        return None;
    }
    match &t[i] {
        Token::Ident(s) => {
            let s = s.as_str();
            if str_eq(s, "description") {
                Some(MetaField::Description)
            } else if str_eq(s, "method") {
                Some(MetaField::Method)
            } else if str_eq(s, "name") {
                Some(MetaField::Name)
            } else if str_eq(s, "unstable_path") {
                Some(MetaField::UnstablePath)
            } else if str_eq(s, "r0_path") {
                Some(MetaField::R0Path)
            } else if str_eq(s, "stable_path") {
                Some(MetaField::StablePath)
            } else if str_eq(s, "added") {
                Some(MetaField::Added)
            } else if str_eq(s, "deprecated") {
                Some(MetaField::Deprecated)
            } else if str_eq(s, "removed") {
                Some(MetaField::Removed)
            } else if str_eq(s, "rate_limited") {
                Some(MetaField::RateLimited)
            } else if str_eq(s, "authentication") {
                Some(MetaField::Authentication)
            } else {
                None
            }
        },
        _ => None,
    }
}

/// The field `k` has been given in `d`.
pub fn has_field(d: &Draft, k: MetaField) -> (r: bool)
    ensures
        r == draft_has(*d, k),
{
    match k {
        MetaField::Description => d.description.is_some(),
        MetaField::Method => d.method.is_some(),
        MetaField::Name => d.name.is_some(),
        MetaField::UnstablePath => d.unstable_path.is_some(),
        MetaField::R0Path => d.r0_path.is_some(),
        MetaField::StablePath => d.stable_path.is_some(),
        MetaField::Added => d.added.is_some(),
        MetaField::Deprecated => d.deprecated.is_some(),
        MetaField::Removed => d.removed.is_some(),
        MetaField::RateLimited => d.rate_limited.is_some(),
        MetaField::Authentication => d.authentication.is_some(),
    }
}

/// Gives the field `k` by the token at `at`.
pub fn set_field(d: &mut Draft, k: MetaField, at: usize)
    ensures
        *final(d) == draft_set(*old(d), k, at),
{
    match k {
        MetaField::Description => d.description = Some(at),
        MetaField::Method => d.method = Some(at),
        MetaField::Name => d.name = Some(at),
        MetaField::UnstablePath => d.unstable_path = Some(at),
        MetaField::R0Path => d.r0_path = Some(at),
        MetaField::StablePath => d.stable_path = Some(at),
        MetaField::Added => d.added = Some(at),
        MetaField::Deprecated => d.deprecated = Some(at),
        MetaField::Removed => d.removed = Some(at),
        MetaField::RateLimited => d.rate_limited = Some(at),
        MetaField::Authentication => d.authentication = Some(at),
    }
}

/// What the value of field `k` must be; `None` when the token at `i` is one.
pub fn check_value(t: &Vec<Token>, i: usize, k: MetaField) -> (r: Option<Expected>)
    ensures
        r == value_error(t@, i as int, k),
{
    match k {
        MetaField::Method | MetaField::Authentication => {
            if any_ident_at(t, i) { None } else { Some(Expected::Identifier) }
        },
        MetaField::RateLimited => {
            if ident_at(t, i, "true") || ident_at(t, i, "false") { None } else { Some(Expected::Bool) }
        },
        MetaField::Added | MetaField::Deprecated | MetaField::Removed => {
            if i < t.len() && matches!(&t[i], Token::Lit(_)) { None } else { Some(Expected::Literal) }
        },
        _ => {
            if i < t.len() && matches!(&t[i], Token::Str(_)) { None } else { Some(Expected::StringLiteral) }
        },
    }
}

/// The metadata entries from `start` up to the closing brace, and the
/// position after that brace.
pub fn read_entries(t: &Vec<Token>, start: usize) -> (r: Result<(Draft, usize), ParseError>)
    requires
        start <= t.len(),
    ensures
        match r {
            Ok((d, e)) => parse_entries(t@, start as int, empty_draft()) == Ok::<(Draft, int), ParseError>((d, e as int)),
            Err(x) => parse_entries(t@, start as int, empty_draft()) == Err::<(Draft, int), ParseError>(x),
        },
{
    let mut d = Draft {
        description: None,
        method: None,
        name: None,
        unstable_path: None,
        r0_path: None,
        stable_path: None,
        added: None,
        deprecated: None,
        removed: None,
        rate_limited: None,
        authentication: None,
    };
    let mut i: usize = start;
    loop
        invariant
            i <= t.len(),
            parse_entries(t@, i as int, d) == parse_entries(t@, start as int, empty_draft()),
        decreases t.len() - i,
    {
        if i >= t.len() || !any_ident_at(t, i) && !brace_close_at(t, i) {
            return Err(ParseError { kind: ErrorKind::Expected(Expected::Identifier), at: i });
        }
        if brace_close_at(t, i) {
            return Ok((d, i + 1));
        }
        let k = match key_at_pos(t, i) {
            None => {
                return Err(ParseError { kind: ErrorKind::UnknownField, at: i });
            },
            Some(k) => k,
        };
        if has_field(&d, k) {
            return Err(ParseError { kind: ErrorKind::DuplicateField, at: i });
        }
        if !punct_at(t, i + 1, ':') {
            return Err(ParseError { kind: ErrorKind::Expected(Expected::Colon), at: i + 1 });
        }
        if let Some(x) = check_value(t, i + 2, k) {
            return Err(ParseError { kind: ErrorKind::Expected(x), at: i + 2 });
        }
        set_field(&mut d, k, i + 2);
        if brace_close_at(t, i + 3) {
            return Ok((d, i + 4));
        }
        if !punct_at(t, i + 3, ',') {
            return Err(ParseError { kind: ErrorKind::Expected(Expected::Comma), at: i + 3 });
        }
        i = i + 4;
    }
}

/// The metadata of a complete draft read from `t`; the first missing
/// mandatory field otherwise.
pub fn finish(t: &Vec<Token>, d: Draft) -> (r: Result<Metadata, MetaField>)
    ensures
        r == finish_draft(t@, d),
{
    let description = match d.description {
        None => {
            return Err(MetaField::Description);
        },
        Some(v) => v,
    };
    let method = match d.method {
        None => {
            return Err(MetaField::Method);
        },
        Some(v) => v,
    };
    let name = match d.name {
        None => {
            return Err(MetaField::Name);
        },
        Some(v) => v,
    };
    let rate_limited = match d.rate_limited {
        None => {
            return Err(MetaField::RateLimited);
        },
        Some(v) => ident_at(t, v, "true"),
    };
    let authentication = match d.authentication {
        None => {
            return Err(MetaField::Authentication);
        },
        Some(v) => v,
    };
    Ok(Metadata {
        description,
        method,
        name,
        unstable_path: d.unstable_path,
        r0_path: d.r0_path,
        stable_path: d.stable_path,
        added: d.added,
        deprecated: d.deprecated,
        removed: d.removed,
        rate_limited,
        authentication,
    })
}

/// The metadata section at the start of `t`, and the position after it.
pub fn read_metadata(t: &Vec<Token>) -> (r: Result<(Metadata, usize), ParseError>)
    ensures
        match r {
            Ok((m, e)) => parse_metadata(t@) == Ok::<(Metadata, int), ParseError>((m, e as int)),
            Err(x) => parse_metadata(t@) == Err::<(Metadata, int), ParseError>(x),
        },
{
    if !ident_at(t, 0, "metadata") {
        return Err(ParseError { kind: ErrorKind::Expected(Expected::MetadataKeyword), at: 0 });
    }
    if !punct_at(t, 1, ':') {
        return Err(ParseError { kind: ErrorKind::Expected(Expected::Colon), at: 1 });
    }
    if !brace_open_at(t, 2) {
        return Err(ParseError { kind: ErrorKind::Expected(Expected::OpenBrace), at: 2 });
    }
    match read_entries(t, 3) {
        Err(e) => Err(e),
        Ok((d, i)) => match finish(t, d) {
            Err(k) => Err(ParseError { kind: ErrorKind::MissingField(k), at: 0 }),
            Ok(m) => Ok((m, i)),
        },
    }
}

pub proof fn lemma_fields_bounds(t: Seq<Token>, i: int, acc: Seq<Field>)
    requires
        0 <= i <= t.len() <= usize::MAX,
    ensures
        parse_fields(t, i, acc) matches Ok((_, e)) ==> i < e <= t.len(),
    decreases t.len() - i,
{
    if !is_close_of(t, i, Delim::Brace) {
        lemma_field_bounds(t, i);
        if let Ok(f) = parse_field(t, i) {
            let j = f.ty.end as int;
            if i < j + 1 <= t.len() {
                lemma_fields_bounds(t, j + 1, acc.push(f));
            }
        }
    }
}

pub proof fn lemma_section_bounds(t: Seq<Token>, i: int, attrs: TokenRange)
    requires
        0 <= i < t.len() <= usize::MAX,
    ensures
        parse_section(t, i, attrs) matches Ok((_, e)) ==> i < e <= t.len(),
{
    if is_punct(t, i + 1, ':') && is_open_of(t, i + 2, Delim::Brace) {
        lemma_fields_bounds(t, i + 3, Seq::empty());
    }
}

pub proof fn lemma_entries_bounds(t: Seq<Token>, i: int, d: Draft)
    requires
        0 <= i <= t.len(),
    ensures
        parse_entries(t, i, d) matches Ok((_, e)) ==> i < e <= t.len(),
    decreases t.len() - i,
{
    if 0 <= i < t.len() && !is_close_of(t, i, Delim::Brace) && is_any_ident(t, i) {
        if let Some(k) = key_at(t, i) {
            let d2 = draft_set(d, k, (i + 2) as usize);
            if i + 4 <= t.len() {
                lemma_entries_bounds(t, i + 4, d2);
            }
        }
    }
}

pub proof fn lemma_metadata_bounds(t: Seq<Token>)
    ensures
        parse_metadata(t) matches Ok((_, e)) ==> 0 <= e <= t.len(),
{
    if t.len() >= 3 {
        lemma_entries_bounds(t, 3, empty_draft());
    }
}

} // verus!
