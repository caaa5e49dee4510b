use ruma_api_spec::api::Api;
use ruma_api_spec::capability::{check_capabilities, CapabilityCache, CapabilityError, ManifestRead};
use ruma_api_spec::descriptor::build_descriptor;
use ruma_api_spec::expand::ErrorType;
use ruma_api_spec::grammar::{ErrorKind, Expected, MetaField, ParseError, TokenRange};
use ruma_api_spec::token::{str_eq, Delim, Spacing, Token};

fn id(s: &str) -> Token {
    Token::Ident(s.to_string())
}

fn p(c: char) -> Token {
    Token::Punct(c, Spacing::Alone)
}

fn pj(c: char) -> Token {
    Token::Punct(c, Spacing::Joint)
}

fn st(s: &str) -> Token {
    Token::Str(format!("\"{}\"", s))
}

fn lit(s: &str) -> Token {
    Token::Lit(s.to_string())
}

fn open(d: Delim) -> Token {
    Token::Open(d)
}

fn close(d: Delim) -> Token {
    Token::Close(d)
}

fn entry(t: &mut Vec<Token>, key: &str, value: Token) {
    t.push(id(key));
    t.push(p(':'));
    t.push(value);
    t.push(p(','));
}

/// `metadata: { description: "Foo", method: GET, name: "foo", stable_path: "/foo",
/// rate_limited: false, authentication: None, }`
fn scenario_metadata() -> Vec<Token> {
    let mut t = vec![id("metadata"), p(':'), open(Delim::Brace)];
    entry(&mut t, "description", st("Foo"));
    entry(&mut t, "method", id("GET"));
    entry(&mut t, "name", st("foo"));
    entry(&mut t, "stable_path", st("/foo"));
    entry(&mut t, "rate_limited", id("false"));
    entry(&mut t, "authentication", id("None"));
    t.push(close(Delim::Brace));
    t
}

/// `#[doc = "x"]`
fn attribute(t: &mut Vec<Token>) {
    t.push(p('#'));
    t.push(open(Delim::Bracket));
    t.push(id("doc"));
    t.push(p('='));
    t.push(st("x"));
    t.push(close(Delim::Bracket));
}

/// `<kw>: { body: String }`
fn section(t: &mut Vec<Token>, kw: &str) {
    t.push(id(kw));
    t.push(p(':'));
    t.push(open(Delim::Brace));
    t.push(id("body"));
    t.push(p(':'));
    t.push(id("String"));
    t.push(close(Delim::Brace));
}

fn parse_err(t: &Vec<Token>) -> ParseError {
    match Api::parse(t) {
        Err(e) => e,
        Ok(_) => panic!("expected a parse error"),
    }
}

#[test]
fn scenario_a_metadata_only() {
    let t = scenario_metadata();
    let api = Api::parse(&t).unwrap();
    assert!(api.request.is_none());
    assert!(api.response.is_none());
    assert!(api.error_ty.is_none());
    let x = api.expand_all(&t, Ok(()));
    assert_eq!(x.diagnostic, None);
    assert_eq!(x.error_type, ErrorType::Default);
    assert!(x.request.is_none());
    assert!(x.response.is_none());
    let d = x.descriptor;
    assert_eq!(d.description, "\"Foo\"");
    assert_eq!(d.method, "GET");
    assert_eq!(d.name, "\"foo\"");
    assert_eq!(d.stable_path, Some("\"/foo\"".to_string()));
    assert_eq!(d.unstable_path, None);
    assert_eq!(d.r0_path, None);
    assert_eq!(d.added, None);
    assert_eq!(d.deprecated, None);
    assert_eq!(d.removed, None);
    assert!(!d.rate_limited);
    assert_eq!(d.authentication, "None");
}

#[test]
fn scenario_b_request_without_response() {
    let mut t = scenario_metadata();
    let kw = t.len();
    section(&mut t, "request");
    let api = Api::parse(&t).unwrap();
    let request = api.request.as_ref().unwrap();
    assert_eq!(request.keyword, kw);
    assert_eq!(request.fields.len(), 1);
    assert_eq!(request.fields[0].name, kw + 3);
    assert_eq!(request.fields[0].ty, TokenRange { start: kw + 5, end: kw + 6 });
    assert!(api.response.is_none());
    let x = api.expand_all(&t, Ok(()));
    assert!(x.request.is_some());
    assert!(x.response.is_none());
}

#[test]
fn scenario_c_attributes_without_response() {
    let mut t = scenario_metadata();
    let first = t.len();
    attribute(&mut t);
    attribute(&mut t);
    let e = parse_err(&t);
    assert_eq!(e, ParseError { kind: ErrorKind::AttributesWithoutResponse, at: first });
}

#[test]
fn attributes_after_request_without_response() {
    let mut t = scenario_metadata();
    section(&mut t, "request");
    let first = t.len();
    attribute(&mut t);
    t.push(id("error"));
    t.push(p(':'));
    t.push(id("MyError"));
    let e = parse_err(&t);
    assert_eq!(e, ParseError { kind: ErrorKind::AttributesWithoutResponse, at: first });
}

#[test]
fn attributes_belong_to_response() {
    let mut t = scenario_metadata();
    let first = t.len();
    attribute(&mut t);
    let kw = t.len();
    section(&mut t, "response");
    let api = Api::parse(&t).unwrap();
    let response = api.response.unwrap();
    assert_eq!(response.keyword, kw);
    assert_eq!(response.attributes, TokenRange { start: first, end: kw });
    assert!(api.request.is_none());
}

#[test]
fn scenario_d_missing_server_capability() {
    let m = ManifestRead::Features { client: true, server: false };
    assert_eq!(check_capabilities(m), Err(CapabilityError::MissingServer));
    let t = scenario_metadata();
    let api = Api::parse(&t).unwrap();
    let x = api.expand_all(&t, check_capabilities(m));
    assert_eq!(x.diagnostic, Some(CapabilityError::MissingServer));
}

#[test]
fn capability_outcomes() {
    assert_eq!(check_capabilities(ManifestRead::NoProjectRoot), Err(CapabilityError::UnknownProjectRoot));
    assert_eq!(check_capabilities(ManifestRead::Unreadable), Err(CapabilityError::Io));
    assert_eq!(check_capabilities(ManifestRead::Malformed), Err(CapabilityError::Format));
    assert_eq!(
        check_capabilities(ManifestRead::Features { client: false, server: true }),
        Err(CapabilityError::MissingClient)
    );
    assert_eq!(
        check_capabilities(ManifestRead::Features { client: false, server: false }),
        Err(CapabilityError::MissingClient)
    );
    assert_eq!(check_capabilities(ManifestRead::Features { client: true, server: true }), Ok(()));
}

#[test]
fn capability_memo_keeps_first_result() {
    let mut cache = CapabilityCache::new();
    assert_eq!(cache.cached(), None);
    let first = cache.check(ManifestRead::Features { client: true, server: true });
    assert_eq!(first, Ok(()));
    let second = cache.check(ManifestRead::Features { client: true, server: false });
    assert_eq!(second, first);
    assert_eq!(cache.cached(), Some(Ok(())));
}

#[test]
fn parsing_is_deterministic() {
    let mut t = scenario_metadata();
    section(&mut t, "request");
    let a = Api::parse(&t).unwrap();
    let b = Api::parse(&t.clone()).unwrap();
    assert_eq!(a.metadata, b.metadata);
    assert_eq!(a.request.unwrap().fields, b.request.unwrap().fields);
    assert_eq!(a.error_ty, b.error_ty);
}

#[test]
fn request_then_error_section() {
    let mut t = scenario_metadata();
    section(&mut t, "request");
    t.push(id("error"));
    t.push(p(':'));
    let start = t.len();
    t.push(id("MyError"));
    t.push(p('<'));
    t.push(id("A"));
    t.push(p(','));
    t.push(id("B"));
    t.push(p('>'));
    let api = Api::parse(&t).unwrap();
    assert!(api.response.is_none());
    assert_eq!(api.error_ty, Some(TokenRange { start, end: t.len() }));
    let x = api.expand_all(&t, Ok(()));
    assert_eq!(x.error_type, ErrorType::Custom(TokenRange { start, end: t.len() }));
}

#[test]
fn all_metadata_fields_round_trip() {
    let mut t = vec![id("metadata"), p(':'), open(Delim::Brace)];
    entry(&mut t, "description", st("Get a thing"));
    entry(&mut t, "method", id("POST"));
    entry(&mut t, "name", st("thing"));
    entry(&mut t, "unstable_path", st("/unstable/thing"));
    entry(&mut t, "r0_path", st("/r0/thing"));
    entry(&mut t, "stable_path", st("/v3/thing"));
    entry(&mut t, "added", lit("1.0"));
    entry(&mut t, "deprecated", lit("1.1"));
    entry(&mut t, "removed", lit("1.2"));
    entry(&mut t, "rate_limited", id("true"));
    t.push(id("authentication"));
    t.push(p(':'));
    t.push(id("AccessToken"));
    t.push(close(Delim::Brace));
    let api = Api::parse(&t).unwrap();
    let d = build_descriptor(&t, &api.metadata);
    assert_eq!(d.description, "\"Get a thing\"");
    assert_eq!(d.method, "POST");
    assert_eq!(d.name, "\"thing\"");
    assert_eq!(d.unstable_path, Some("\"/unstable/thing\"".to_string()));
    assert_eq!(d.r0_path, Some("\"/r0/thing\"".to_string()));
    assert_eq!(d.stable_path, Some("\"/v3/thing\"".to_string()));
    assert_eq!(d.added, Some("1.0".to_string()));
    assert_eq!(d.deprecated, Some("1.1".to_string()));
    assert_eq!(d.removed, Some("1.2".to_string()));
    assert!(d.rate_limited);
    assert_eq!(d.authentication, "AccessToken");
}

#[test]
fn empty_path_is_present_not_absent() {
    let mut t = vec![id("metadata"), p(':'), open(Delim::Brace)];
    entry(&mut t, "description", st("Foo"));
    entry(&mut t, "method", id("GET"));
    entry(&mut t, "name", st("foo"));
    entry(&mut t, "unstable_path", st(""));
    entry(&mut t, "rate_limited", id("false"));
    entry(&mut t, "authentication", id("None"));
    t.push(close(Delim::Brace));
    let api = Api::parse(&t).unwrap();
    let d = build_descriptor(&t, &api.metadata);
    assert_eq!(d.unstable_path, Some("\"\"".to_string()));
    assert_eq!(d.stable_path, None);
}

#[test]
fn missing_mandatory_field() {
    let mut t = vec![id("metadata"), p(':'), open(Delim::Brace)];
    entry(&mut t, "description", st("Foo"));
    entry(&mut t, "method", id("GET"));
    entry(&mut t, "rate_limited", id("false"));
    entry(&mut t, "authentication", id("None"));
    t.push(close(Delim::Brace));
    assert_eq!(parse_err(&t), ParseError { kind: ErrorKind::MissingField(MetaField::Name), at: 0 });
}

#[test]
fn unknown_and_duplicate_metadata_fields() {
    let mut t = vec![id("metadata"), p(':'), open(Delim::Brace)];
    entry(&mut t, "description", st("Foo"));
    let at = t.len();
    entry(&mut t, "colour", st("blue"));
    t.push(close(Delim::Brace));
    assert_eq!(parse_err(&t), ParseError { kind: ErrorKind::UnknownField, at });

    let mut t = vec![id("metadata"), p(':'), open(Delim::Brace)];
    entry(&mut t, "description", st("Foo"));
    let at = t.len();
    entry(&mut t, "description", st("Bar"));
    t.push(close(Delim::Brace));
    assert_eq!(parse_err(&t), ParseError { kind: ErrorKind::DuplicateField, at });
}

#[test]
fn wrong_value_kinds() {
    let mut t = vec![id("metadata"), p(':'), open(Delim::Brace)];
    entry(&mut t, "description", id("Foo"));
    t.push(close(Delim::Brace));
    assert_eq!(parse_err(&t), ParseError { kind: ErrorKind::Expected(Expected::StringLiteral), at: 5 });

    let mut t = vec![id("metadata"), p(':'), open(Delim::Brace)];
    entry(&mut t, "rate_limited", id("maybe"));
    t.push(close(Delim::Brace));
    assert_eq!(parse_err(&t), ParseError { kind: ErrorKind::Expected(Expected::Bool), at: 5 });

    let mut t = vec![id("metadata"), p(':'), open(Delim::Brace)];
    entry(&mut t, "added", st("1.0"));
    t.push(close(Delim::Brace));
    assert_eq!(parse_err(&t), ParseError { kind: ErrorKind::Expected(Expected::Literal), at: 5 });

    let mut t = vec![id("metadata"), p(':'), open(Delim::Brace)];
    entry(&mut t, "method", st("GET"));
    t.push(close(Delim::Brace));
    assert_eq!(parse_err(&t), ParseError { kind: ErrorKind::Expected(Expected::Identifier), at: 5 });
}

#[test]
fn malformed_openings() {
    assert_eq!(parse_err(&vec![]), ParseError { kind: ErrorKind::Expected(Expected::MetadataKeyword), at: 0 });
    let t = vec![id("metadata"), open(Delim::Brace)];
    assert_eq!(parse_err(&t), ParseError { kind: ErrorKind::Expected(Expected::Colon), at: 1 });
    let t = vec![id("metadata"), p(':'), open(Delim::Paren)];
    assert_eq!(parse_err(&t), ParseError { kind: ErrorKind::Expected(Expected::OpenBrace), at: 2 });
    let t = vec![id("metadata"), p(':'), open(Delim::Brace), id("name"), p(':'), st("x"), id("method")];
    assert_eq!(parse_err(&t), ParseError { kind: ErrorKind::Expected(Expected::Comma), at: 6 });
}

#[test]
fn duplicate_field_in_section() {
    let mut t = scenario_metadata();
    t.push(id("request"));
    t.push(p(':'));
    t.push(open(Delim::Brace));
    t.push(id("body"));
    t.push(p(':'));
    t.push(id("String"));
    t.push(p(','));
    let second = t.len();
    t.push(id("pub"));
    t.push(id("body"));
    t.push(p(':'));
    t.push(id("u8"));
    t.push(close(Delim::Brace));
    assert_eq!(parse_err(&t), ParseError { kind: ErrorKind::DuplicateField, at: second + 1 });
}

#[test]
fn field_attributes_and_generic_types() {
    let mut t = scenario_metadata();
    let kw = t.len();
    t.push(id("response"));
    t.push(p(':'));
    t.push(open(Delim::Brace));
    let fa = t.len();
    attribute(&mut t);
    let name = t.len();
    t.push(id("map"));
    t.push(p(':'));
    let ty = t.len();
    t.push(id("BTreeMap"));
    t.push(p('<'));
    t.push(id("String"));
    t.push(p(','));
    t.push(id("u32"));
    t.push(p('>'));
    let ty_end = t.len();
    t.push(p(','));
    t.push(close(Delim::Brace));
    let api = Api::parse(&t).unwrap();
    let response = api.response.unwrap();
    assert_eq!(response.keyword, kw);
    assert_eq!(response.fields.len(), 1);
    let f = response.fields[0];
    assert_eq!(f.attributes, TokenRange { start: fa, end: name });
    assert_eq!(f.name, name);
    assert_eq!(f.ty, TokenRange { start: ty, end: ty_end });
}

#[test]
fn unbalanced_and_bad_attributes() {
    let mut t = scenario_metadata();
    let at = t.len();
    t.push(p('#'));
    t.push(id("doc"));
    assert_eq!(parse_err(&t), ParseError { kind: ErrorKind::Expected(Expected::OpenBracket), at: at + 1 });

    let mut t = scenario_metadata();
    let at = t.len();
    t.push(p('#'));
    t.push(open(Delim::Bracket));
    t.push(id("doc"));
    assert_eq!(parse_err(&t), ParseError { kind: ErrorKind::UnbalancedGroup, at: at + 1 });
}

#[test]
fn missing_type_and_trailing_tokens() {
    let mut t = scenario_metadata();
    t.push(id("error"));
    t.push(p(':'));
    let at = t.len();
    assert_eq!(parse_err(&t), ParseError { kind: ErrorKind::Expected(Expected::Type), at });

    let mut t = scenario_metadata();
    let at = t.len();
    t.push(id("extra"));
    assert_eq!(parse_err(&t), ParseError { kind: ErrorKind::Expected(Expected::EndOfInput), at });

    let mut t = scenario_metadata();
    t.push(id("error"));
    t.push(p(':'));
    t.push(id("E"));
    let at = t.len();
    t.push(p(','));
    assert_eq!(parse_err(&t), ParseError { kind: ErrorKind::Expected(Expected::EndOfInput), at });
}

#[test]
fn string_equality() {
    assert!(str_eq("abc", "abc"));
    assert!(!str_eq("abc", "abd"));
    assert!(!str_eq("abc", "ab"));
    assert!(str_eq("", ""));
}

#[test]
fn attributes_belong_to_request() {
    let mut t = scenario_metadata();
    let first = t.len();
    attribute(&mut t);
    let kw = t.len();
    section(&mut t, "request");
    let api = Api::parse(&t).unwrap();
    let request = api.request.unwrap();
    assert_eq!(request.keyword, kw);
    assert_eq!(request.attributes, TokenRange { start: first, end: kw });
    assert!(api.response.is_none());
}

#[test]
fn request_and_response_sections() {
    let mut t = scenario_metadata();
    section(&mut t, "request");
    let rs = t.len();
    section(&mut t, "response");
    let api = Api::parse(&t).unwrap();
    assert!(api.request.is_some());
    assert_eq!(api.response.as_ref().unwrap().keyword, rs);
    assert_eq!(api.response.as_ref().unwrap().attributes, TokenRange { start: rs, end: rs });
}

#[test]
fn lifecycle_order_is_not_checked() {
    let mut t = vec![id("metadata"), p(':'), open(Delim::Brace)];
    entry(&mut t, "description", st("Foo"));
    entry(&mut t, "method", id("GET"));
    entry(&mut t, "name", st("foo"));
    entry(&mut t, "added", lit("1.3"));
    entry(&mut t, "removed", lit("1.1"));
    entry(&mut t, "rate_limited", id("false"));
    entry(&mut t, "authentication", id("None"));
    t.push(close(Delim::Brace));
    let api = Api::parse(&t).unwrap();
    let d = build_descriptor(&t, &api.metadata);
    assert_eq!(d.added, Some("1.3".to_string()));
    assert_eq!(d.deprecated, None);
    assert_eq!(d.removed, Some("1.1".to_string()));
}

fn open_section(t: &mut Vec<Token>, kw: &str) {
    t.push(id(kw));
    t.push(p(':'));
    t.push(open(Delim::Brace));
}

#[test]
fn missing_comma_in_request() {
    let mut t = scenario_metadata();
    open_section(&mut t, "request");
    t.push(id("x"));
    t.push(p(':'));
    t.push(id("String"));
    let second = t.len();
    t.push(id("y"));
    t.push(p(':'));
    t.push(id("u32"));
    t.push(close(Delim::Brace));
    assert_eq!(parse_err(&t), ParseError { kind: ErrorKind::Expected(Expected::Comma), at: second });
}

#[test]
fn missing_comma_in_response() {
    let mut t = scenario_metadata();
    open_section(&mut t, "response");
    t.push(id("x"));
    t.push(p(':'));
    t.push(id("Vec"));
    t.push(p('<'));
    t.push(id("u8"));
    t.push(p('>'));
    let second = t.len();
    t.push(id("y"));
    t.push(p(':'));
    t.push(id("u32"));
    t.push(close(Delim::Brace));
    assert_eq!(parse_err(&t), ParseError { kind: ErrorKind::Expected(Expected::Comma), at: second });
}

#[test]
fn second_error_section_rejected() {
    let mut t = scenario_metadata();
    t.push(id("error"));
    t.push(p(':'));
    t.push(id("A"));
    let second = t.len();
    t.push(id("error"));
    t.push(p(':'));
    t.push(id("B"));
    assert_eq!(parse_err(&t), ParseError { kind: ErrorKind::Expected(Expected::EndOfInput), at: second });
}

#[test]
fn path_types_keep_double_colons() {
    let mut t = scenario_metadata();
    t.push(id("error"));
    t.push(p(':'));
    let start = t.len();
    t.push(id("crate"));
    t.push(pj(':'));
    t.push(p(':'));
    t.push(id("Error"));
    let api = Api::parse(&t).unwrap();
    assert_eq!(api.error_ty, Some(TokenRange { start, end: t.len() }));
}

#[test]
fn restricted_visibility_on_fields() {
    for kw in ["request", "response"] {
        let mut t = scenario_metadata();
        open_section(&mut t, kw);
        t.push(id("pub"));
        t.push(open(Delim::Paren));
        t.push(id("crate"));
        t.push(close(Delim::Paren));
        let name = t.len();
        t.push(id("x"));
        t.push(p(':'));
        t.push(id("u32"));
        t.push(close(Delim::Brace));
        let api = Api::parse(&t).unwrap();
        let section = if kw == "request" { api.request.unwrap() } else { api.response.unwrap() };
        assert_eq!(section.fields.len(), 1);
        assert_eq!(section.fields[0].name, name);
        assert_eq!(section.fields[0].ty, TokenRange { start: name + 2, end: name + 3 });
    }
}

#[test]
fn arrow_in_field_types() {
    let mut t = scenario_metadata();
    open_section(&mut t, "request");
    t.push(id("f"));
    t.push(p(':'));
    let ty = t.len();
    t.push(id("Box"));
    t.push(p('<'));
    t.push(id("dyn"));
    t.push(id("Fn"));
    t.push(open(Delim::Paren));
    t.push(id("u8"));
    t.push(close(Delim::Paren));
    t.push(pj('-'));
    t.push(p('>'));
    t.push(id("u32"));
    t.push(p('>'));
    let ty_end = t.len();
    t.push(p(','));
    t.push(id("g"));
    t.push(p(':'));
    let ty2 = t.len();
    t.push(id("fn"));
    t.push(open(Delim::Paren));
    t.push(id("u8"));
    t.push(close(Delim::Paren));
    t.push(pj('-'));
    t.push(p('>'));
    t.push(id("u8"));
    let ty2_end = t.len();
    t.push(close(Delim::Brace));
    let api = Api::parse(&t).unwrap();
    let fields = api.request.unwrap().fields;
    assert_eq!(fields.len(), 2);
    assert_eq!(fields[0].ty, TokenRange { start: ty, end: ty_end });
    assert_eq!(fields[1].ty, TokenRange { start: ty2, end: ty2_end });
}

#[test]
fn two_types_without_comma_in_request() {
    let mut t = scenario_metadata();
    open_section(&mut t, "request");
    t.push(id("body"));
    t.push(p(':'));
    t.push(id("String"));
    let second = t.len();
    t.push(id("String"));
    t.push(close(Delim::Brace));
    assert_eq!(parse_err(&t), ParseError { kind: ErrorKind::Expected(Expected::Comma), at: second });
}

#[test]
fn two_types_without_comma_in_response() {
    let mut t = scenario_metadata();
    open_section(&mut t, "response");
    t.push(id("body"));
    t.push(p(':'));
    t.push(id("Option"));
    t.push(p('<'));
    t.push(id("u8"));
    t.push(p('>'));
    let second = t.len();
    t.push(id("String"));
    t.push(close(Delim::Brace));
    assert_eq!(parse_err(&t), ParseError { kind: ErrorKind::Expected(Expected::Comma), at: second });
}

#[test]
fn two_error_types_rejected() {
    let mut t = scenario_metadata();
    t.push(id("error"));
    t.push(p(':'));
    t.push(id("Foo"));
    let second = t.len();
    t.push(id("Bar"));
    assert_eq!(parse_err(&t), ParseError { kind: ErrorKind::Expected(Expected::EndOfInput), at: second });
}

#[test]
fn prefixed_and_lifetime_types_accepted() {
    // `&'static mut dyn Trait + Send`
    let mut t = scenario_metadata();
    open_section(&mut t, "request");
    t.push(id("x"));
    t.push(p(':'));
    let ty = t.len();
    t.push(p('&'));
    t.push(pj('\''));
    t.push(id("static"));
    t.push(id("mut"));
    t.push(id("dyn"));
    t.push(id("Trait"));
    t.push(p('+'));
    t.push(id("Send"));
    let ty_end = t.len();
    t.push(close(Delim::Brace));
    let api = Api::parse(&t).unwrap();
    let fields = api.request.unwrap().fields;
    assert_eq!(fields.len(), 1);
    assert_eq!(fields[0].ty, TokenRange { start: ty, end: ty_end });
}
