//! The token model that endpoint specifications are written in.
use vstd::prelude::*;
use vstd::string::*;

verus! {

/// The kind of bracket that opens or closes a group.
#[derive(Clone, Copy, Debug, PartialEq, Eq, Structural)]
pub enum Delim {
    Paren,
    Bracket,
    Brace,
}

/// Whether a punctuation character is joined to the one after it, as the
/// two characters of `::` or `->` are.
#[derive(Clone, Copy, Debug, PartialEq, Eq, Structural)]
pub enum Spacing {
    Alone,
    Joint,
}

/// One token of an endpoint specification, with groups flattened into
/// matching `Open` / `Close` tokens.
#[derive(Clone, Debug, PartialEq, Eq)]
pub enum Token {
    /// An identifier or keyword, by its text.
    Ident(String),
    /// A single punctuation character, and whether it is joined to the
    /// next one.
    Punct(char, Spacing),
    /// A string literal, by its source text (quotes included).
    Str(String),
    /// Any other literal (a number, a version), by its source text.
    Lit(String),
    /// The opening bracket of a group.
    Open(Delim),
    /// The closing bracket of a group.
    Close(Delim),
}

/// Token `i` exists and is the punctuation character `c`.
pub open spec fn is_punct(t: Seq<Token>, i: int, c: char) -> bool {
    0 <= i < t.len() && match t[i] {
        Token::Punct(p, _) => p == c,
        _ => false,
    }
}

/// Token `i` exists and is the punctuation character `c`, joined to the
/// next token.
pub open spec fn is_joint_punct(t: Seq<Token>, i: int, c: char) -> bool {
    0 <= i < t.len() && t[i] == Token::Punct(c, Spacing::Joint)
}

/// Token `i` is a `:` that is not one half of a `::`.
pub open spec fn is_lone_colon(t: Seq<Token>, i: int) -> bool {
    is_punct(t, i, ':') && !(is_joint_punct(t, i, ':') && is_punct(t, i + 1, ':'))
        && !is_joint_punct(t, i - 1, ':')
}

/// Token `i` is the `>` of an arrow `->`.
pub open spec fn is_arrow_head(t: Seq<Token>, i: int) -> bool {
    is_punct(t, i, '>') && is_joint_punct(t, i - 1, '-')
}

/// Token `i` exists and is the identifier `name`.
pub open spec fn is_ident(t: Seq<Token>, i: int, name: Seq<char>) -> bool {
    0 <= i < t.len() && match t[i] {
        Token::Ident(s) => s@ == name,
        _ => false,
    }
}

/// Token `i` exists and is some identifier.
pub open spec fn is_any_ident(t: Seq<Token>, i: int) -> bool {
    0 <= i < t.len() && t[i] is Ident
}

/// Token `i` exists and opens a group.
pub open spec fn is_open(t: Seq<Token>, i: int) -> bool {
    0 <= i < t.len() && t[i] is Open
}

/// Token `i` exists and closes a group.
pub open spec fn is_close(t: Seq<Token>, i: int) -> bool {
    0 <= i < t.len() && t[i] is Close
}

/// Token `i` exists and opens a group with the delimiter `d`.
pub open spec fn is_open_of(t: Seq<Token>, i: int, d: Delim) -> bool {
    0 <= i < t.len() && t[i] == Token::Open(d)
}

/// Token `i` exists and closes a group with the delimiter `d`.
pub open spec fn is_close_of(t: Seq<Token>, i: int, d: Delim) -> bool {
    0 <= i < t.len() && t[i] == Token::Close(d)
}

/// Character-wise equality of two strings.
pub fn str_eq(a: &str, b: &str) -> (r: bool)
    ensures
        r == (a@ == b@),
{
    let n = a.unicode_len();
    if n != b.unicode_len() {
        return false;
    }
    let mut i: usize = 0;
    while i < n
        invariant
            n == a@.len(),
            n == b@.len(),
            i <= n,
            forall|j: int| 0 <= j < i ==> a@[j] == b@[j],
        decreases n - i,
    {
        if a.get_char(i) != b.get_char(i) {
            return false;
        }
        i = i + 1;
    }
    assert(a@ =~= b@);
    true
}

/// Token `i` exists and is the punctuation character `c`.
pub fn punct_at(t: &Vec<Token>, i: usize, c: char) -> (r: bool)
    ensures
        r == is_punct(t@, i as int, c),
{
    if i >= t.len() {
        return false;
    }
    match &t[i] {
        Token::Punct(p, _) => *p == c,
        _ => false,
    }
}

/// Token `i` exists and is the punctuation character `c`, joined to the
/// next token.
pub fn joint_punct_at(t: &Vec<Token>, i: usize, c: char) -> (r: bool)
    ensures
        r == is_joint_punct(t@, i as int, c),
{
    if i >= t.len() {
        return false;
    }
    match &t[i] {
        Token::Punct(p, Spacing::Joint) => *p == c,
        _ => false,
    }
}

/// Token `i` is a `:` that is not one half of a `::`.
pub fn lone_colon_at(t: &Vec<Token>, i: usize) -> (r: bool)
    ensures
        r == is_lone_colon(t@, i as int),
{
    let first_half = i < t.len() && joint_punct_at(t, i, ':') && punct_at(t, i + 1, ':');
    let second_half = i > 0 && joint_punct_at(t, i - 1, ':');
    punct_at(t, i, ':') && !first_half && !second_half
}

/// Token `i` is the `>` of an arrow `->`.
pub fn arrow_head_at(t: &Vec<Token>, i: usize) -> (r: bool)
    ensures
        r == is_arrow_head(t@, i as int),
{
    punct_at(t, i, '>') && i > 0 && joint_punct_at(t, i - 1, '-')
}

/// Token `i` exists and is the identifier `name`.
pub fn ident_at(t: &Vec<Token>, i: usize, name: &str) -> (r: bool)
    ensures
        r == is_ident(t@, i as int, name@),
{
    if i >= t.len() {
        return false;
    }
    match &t[i] {
        Token::Ident(s) => str_eq(s.as_str(), name),
        _ => false,
    }
}

/// Token `i` exists and is some identifier.
pub fn any_ident_at(t: &Vec<Token>, i: usize) -> (r: bool)
    ensures
        r == is_any_ident(t@, i as int),
{
    i < t.len() && match &t[i] {
        Token::Ident(_) => true,
        _ => false,
    }
}

/// Token `i` exists and opens a group.
pub fn open_at(t: &Vec<Token>, i: usize) -> (r: bool)
    ensures
        r == is_open(t@, i as int),
{
    i < t.len() && match &t[i] {
        Token::Open(_) => true,
        _ => false,
    }
}

/// Token `i` exists and closes a group.
pub fn close_at(t: &Vec<Token>, i: usize) -> (r: bool)
    ensures
        r == is_close(t@, i as int),
{
    i < t.len() && match &t[i] {
        Token::Close(_) => true,
        _ => false,
    }
}

/// Token `i` exists and is `{`.
pub fn brace_open_at(t: &Vec<Token>, i: usize) -> (r: bool)
    ensures
        r == is_open_of(t@, i as int, Delim::Brace),
{
    i < t.len() && match &t[i] {
        Token::Open(Delim::Brace) => true,
        _ => false,
    }
}

/// Token `i` exists and is `}`.
pub fn brace_close_at(t: &Vec<Token>, i: usize) -> (r: bool)
    ensures
        r == is_close_of(t@, i as int, Delim::Brace),
{
    i < t.len() && match &t[i] {
        Token::Close(Delim::Brace) => true,
        _ => false,
    }
}

/// Token `i` exists and is `(`.
pub fn paren_open_at(t: &Vec<Token>, i: usize) -> (r: bool)
    ensures
        r == is_open_of(t@, i as int, Delim::Paren),
{
    i < t.len() && match &t[i] {
        Token::Open(Delim::Paren) => true,
        _ => false,
    }
}

/// Token `i` exists and is `[`.
pub fn bracket_open_at(t: &Vec<Token>, i: usize) -> (r: bool)
    ensures
        r == is_open_of(t@, i as int, Delim::Bracket),
{
    i < t.len() && match &t[i] {
        Token::Open(Delim::Bracket) => true,
        _ => false,
    }
}

} // verus!
