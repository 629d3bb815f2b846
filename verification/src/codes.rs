//! Character classification: the fixed, ASCII-oriented classes that the
//! scanner's dispatch table routes on.

use vstd::prelude::*;

verus! {

/// Whitespace characters, consumed and dropped by the scanner.
pub open spec fn is_space(c: char) -> bool {
    c == ' ' || c == '\t' || c == '\n' || c == '\r'
}

/// Decimal digits.
pub open spec fn is_digit(c: char) -> bool {
    '0' <= c && c <= '9'
}

/// Leading characters of identifiers.
pub open spec fn is_alpha(c: char) -> bool {
    ('a' <= c && c <= 'z') || ('A' <= c && c <= 'Z') || c == '_' || c == '$'
}

/// Continuation characters of identifiers.
pub open spec fn is_alphanumeric(c: char) -> bool {
    is_alpha(c) || is_digit(c)
}

/// Bracket characters, each a one-character token.
pub open spec fn is_bracket(c: char) -> bool {
    c == '(' || c == ')' || c == '[' || c == ']' || c == '{' || c == '}'
}

/// Characters that start a comparison operator, possibly extended by `=`.
pub open spec fn is_cmp_operator(c: char) -> bool {
    c == '<' || c == '>' || c == '!' || c == '='
}

/// Characters that form a one-character generic operator.
pub open spec fn is_operator(c: char) -> bool {
    c == '+' || c == '-' || c == '*' || c == '/' || c == '%' || c == '^' || c == ','
}

/// The question mark, possibly extended to `??`.
pub open spec fn is_question_mark(c: char) -> bool {
    c == '?'
}

pub fn is_space_char(c: char) -> (r: bool)
    ensures
        r == is_space(c),
{
    c == ' ' || c == '\t' || c == '\n' || c == '\r'
}

pub fn is_digit_char(c: char) -> (r: bool)
    ensures
        r == is_digit(c),
{
    '0' <= c && c <= '9'
}

pub fn is_alpha_char(c: char) -> (r: bool)
    ensures
        r == is_alpha(c),
{
    ('a' <= c && c <= 'z') || ('A' <= c && c <= 'Z') || c == '_' || c == '$'
}

pub fn is_alphanumeric_char(c: char) -> (r: bool)
    ensures
        r == is_alphanumeric(c),
{
    is_alpha_char(c) || is_digit_char(c)
}

pub fn is_bracket_char(c: char) -> (r: bool)
    ensures
        r == is_bracket(c),
{
    c == '(' || c == ')' || c == '[' || c == ']' || c == '{' || c == '}'
}

pub fn is_cmp_operator_char(c: char) -> (r: bool)
    ensures
        r == is_cmp_operator(c),
{
    c == '<' || c == '>' || c == '!' || c == '='
}

pub fn is_operator_char(c: char) -> (r: bool)
    ensures
        r == is_operator(c),
{
    c == '+' || c == '-' || c == '*' || c == '/' || c == '%' || c == '^' || c == ','
}

pub fn is_question_mark_char(c: char) -> (r: bool)
    ensures
        r == is_question_mark(c),
{
    c == '?'
}

} // verus!
