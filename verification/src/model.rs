//! The mathematical model of the scan: a recursive interpretation of the
//! scanner's character-class dispatch. The executable scanner is proved to
//! produce exactly the token sequence this model prescribes.

use vstd::prelude::*;

use crate::codes::{
    is_alpha, is_alphanumeric, is_bracket, is_cmp_operator, is_digit, is_operator,
    is_question_mark, is_space,
};
use crate::cursor::has_prefix_at;
use crate::error::LexerError;
use crate::token::{
    ArithmeticOperator, Bracket, ComparisonOperator, LogicalOperator, Operator, QuotationMark,
    SpecToken, SpecTokenKind, TemplateString,
};

verus! {

/// The error reported when a routine needs another character at the end of
/// the input: the last consumed character and its position, or a space at
/// position zero if the source is empty.
pub open spec fn eof_error(s: Seq<char>) -> LexerError {
    if s.len() > 0 {
        LexerError::UnexpectedEof { symbol: s[s.len() - 1], position: (s.len() - 1) as usize }
    } else {
        LexerError::UnexpectedEof { symbol: ' ', position: 0 }
    }
}

/// A token whose text is the source slice its span covers.
pub open spec fn sub_tok(s: Seq<char>, kind: SpecTokenKind, start: int, end: int) -> SpecToken {
    SpecToken { kind, start, end, value: s.subrange(start, end) }
}

/// The quotation-mark kind of a quote character.
pub open spec fn quote_mark_of(c: char) -> QuotationMark {
    if c == '\'' {
        QuotationMark::SingleQuote
    } else {
        QuotationMark::DoubleQuote
    }
}

/// The first position `j >= i` with `s[j] == q`.
pub open spec fn find_close(s: Seq<char>, i: int, q: char) -> Option<int>
    decreases s.len() - i,
{
    if i < 0 || i >= s.len() {
        None
    } else if s[i] == q {
        Some(i)
    } else {
        find_close(s, i + 1, q)
    }
}

/// Where a number that has consumed up to position `i` ends. `fractal`
/// records whether a fractional dot was already consumed. A dot stops the
/// number when one was already seen, or when a second dot follows (a
/// range); otherwise it joins the number.
pub open spec fn num_end(s: Seq<char>, i: int, fractal: bool) -> int
    decreases s.len() - i,
{
    if i < 0 || i >= s.len() {
        i
    } else if !(is_digit(s[i]) || s[i] == '_' || s[i] == '.') {
        i
    } else if s[i] == '.' {
        if fractal {
            i
        } else if i + 1 < s.len() && s[i + 1] == '.' {
            i
        } else if i + 1 >= s.len() {
            num_end(s, i + 1, fractal)
        } else {
            num_end(s, i + 1, true)
        }
    } else {
        num_end(s, i + 1, fractal)
    }
}

/// Where an identifier that starts before position `i` ends.
pub open spec fn ident_end(s: Seq<char>, i: int) -> int
    decreases s.len() - i,
{
    if i < 0 || i >= s.len() {
        i
    } else if is_alphanumeric(s[i]) {
        ident_end(s, i + 1)
    } else {
        i
    }
}

/// The typed operator for a matched operator text, if any.
pub open spec fn operator_from(v: Seq<char>) -> Option<Operator> {
    if v == seq!['.'] {
        Some(Operator::Dot)
    } else if v == seq!['.', '.'] {
        Some(Operator::Range)
    } else if v == seq!['<'] {
        Some(Operator::Comparison(ComparisonOperator::LessThan))
    } else if v == seq!['>'] {
        Some(Operator::Comparison(ComparisonOperator::GreaterThan))
    } else if v == seq!['<', '='] {
        Some(Operator::Comparison(ComparisonOperator::LessThanOrEqual))
    } else if v == seq!['>', '='] {
        Some(Operator::Comparison(ComparisonOperator::GreaterThanOrEqual))
    } else if v == seq!['='] || v == seq!['=', '='] {
        Some(Operator::Comparison(ComparisonOperator::Equal))
    } else if v == seq!['!', '='] {
        Some(Operator::Comparison(ComparisonOperator::NotEqual))
    } else if v == seq!['!'] {
        Some(Operator::Logical(LogicalOperator::Not))
    } else if v == seq!['+'] {
        Some(Operator::Arithmetic(ArithmeticOperator::Add))
    } else if v == seq!['-'] {
        Some(Operator::Arithmetic(ArithmeticOperator::Subtract))
    } else if v == seq!['*'] {
        Some(Operator::Arithmetic(ArithmeticOperator::Multiply))
    } else if v == seq!['/'] {
        Some(Operator::Arithmetic(ArithmeticOperator::Divide))
    } else if v == seq!['%'] {
        Some(Operator::Arithmetic(ArithmeticOperator::Modulus))
    } else if v == seq!['^'] {
        Some(Operator::Arithmetic(ArithmeticOperator::Power))
    } else if v == seq![','] {
        Some(Operator::Comma)
    } else {
        None
    }
}

/// The bracket kind of a bracket character, if any.
pub open spec fn bracket_from(c: char) -> Option<Bracket> {
    if c == '(' {
        Some(Bracket::LeftParenthesis)
    } else if c == ')' {
        Some(Bracket::RightParenthesis)
    } else if c == '[' {
        Some(Bracket::LeftSquareBracket)
    } else if c == ']' {
        Some(Bracket::RightSquareBracket)
    } else if c == '{' {
        Some(Bracket::LeftCurlyBracket)
    } else if c == '}' {
        Some(Bracket::RightCurlyBracket)
    } else {
        None
    }
}

/// The tokens of a quoted string starting at `i`, or the end-of-input
/// error when the closing quote never comes: opening mark, literal body
/// (possibly empty), closing mark.
pub open spec fn spec_string(s: Seq<char>, i: int) -> Result<(Seq<SpecToken>, int), LexerError> {
    let q = s[i];
    match find_close(s, i + 1, q) {
        None => Err(eof_error(s)),
        Some(j) => Ok(
            (
                seq![
                    sub_tok(s, SpecTokenKind::QuotationMark(quote_mark_of(q)), i, i + 1),
                    sub_tok(s, SpecTokenKind::Literal, i + 1, j),
                    sub_tok(s, SpecTokenKind::QuotationMark(quote_mark_of(q)), j, j + 1),
                ],
                j + 1,
            ),
        ),
    }
}

/// The single number token starting at `i`.
pub open spec fn spec_number(s: Seq<char>, i: int) -> (Seq<SpecToken>, int) {
    let e = num_end(s, i + 1, false);
    (seq![sub_tok(s, SpecTokenKind::Number, i, e)], e)
}

/// The single bracket token at `i`.
pub open spec fn spec_bracket(s: Seq<char>, i: int) -> (Seq<SpecToken>, int) {
    (seq![sub_tok(s, SpecTokenKind::Bracket(bracket_from(s[i])->Some_0), i, i + 1)], i + 1)
}

/// The comparison-operator token at `i`, extended by a trailing `=` when
/// one follows.
pub open spec fn spec_cmp_operator(s: Seq<char>, i: int) -> (Seq<SpecToken>, int) {
    let e = if i + 1 < s.len() && s[i + 1] == '=' {
        i + 2
    } else {
        i + 1
    };
    (seq![sub_tok(s, SpecTokenKind::Operator(operator_from(s.subrange(i, e))->Some_0), i, e)], e)
}

/// The one-character generic operator token at `i`.
pub open spec fn spec_operator(s: Seq<char>, i: int) -> (Seq<SpecToken>, int) {
    (seq![sub_tok(s, SpecTokenKind::Operator(operator_from(s.subrange(i, i + 1))->Some_0), i, i + 1)], i + 1)
}

/// The question-mark token at `i`, or nullish coalescing when `??`.
pub open spec fn spec_question_mark(s: Seq<char>, i: int) -> (Seq<SpecToken>, int) {
    if i + 1 < s.len() && s[i + 1] == '?' {
        (
            seq![
                sub_tok(
                    s,
                    SpecTokenKind::Operator(Operator::Logical(LogicalOperator::NullishCoalescing)),
                    i,
                    i + 2,
                ),
            ],
            i + 2,
        )
    } else {
        (seq![sub_tok(s, SpecTokenKind::Operator(Operator::QuestionMark), i, i + 1)], i + 1)
    }
}

/// The dot token at `i`, extended to a range operator when `..`.
pub open spec fn spec_dot(s: Seq<char>, i: int) -> (Seq<SpecToken>, int) {
    let e = if i + 1 < s.len() && s[i + 1] == '.' {
        i + 2
    } else {
        i + 1
    };
    (seq![sub_tok(s, SpecTokenKind::Operator(operator_from(s.subrange(i, e))->Some_0), i, e)], e)
}

/// The tokens of the keyword `not` spanning `[start, end)`: collapsed with
/// a following `" in "` into a single membership operator, else a
/// standalone logical negation.
pub open spec fn spec_not(s: Seq<char>, start: int, end: int) -> (Seq<SpecToken>, int) {
    if has_prefix_at(s, end, seq![' ', 'i', 'n', ' ']) {
        (
            seq![
                sub_tok(
                    s,
                    SpecTokenKind::Operator(Operator::Comparison(ComparisonOperator::NotIn)),
                    start,
                    end + 3,
                ),
            ],
            end + 4,
        )
    } else {
        (
            seq![
                sub_tok(s, SpecTokenKind::Operator(Operator::Logical(LogicalOperator::Not)), start, end),
            ],
            end,
        )
    }
}

/// The token of the identifier or keyword starting at `i`.
pub open spec fn spec_identifier(s: Seq<char>, i: int) -> (Seq<SpecToken>, int) {
    let e = ident_end(s, i + 1);
    let v = s.subrange(i, e);
    if v == seq!['a', 'n', 'd'] {
        (seq![sub_tok(s, SpecTokenKind::Operator(Operator::Logical(LogicalOperator::And)), i, e)], e)
    } else if v == seq!['o', 'r'] {
        (seq![sub_tok(s, SpecTokenKind::Operator(Operator::Logical(LogicalOperator::Or)), i, e)], e)
    } else if v == seq!['i', 'n'] {
        (
            seq![
                sub_tok(s, SpecTokenKind::Operator(Operator::Comparison(ComparisonOperator::In)), i, e),
            ],
            e,
        )
    } else if v == seq!['t', 'r', 'u', 'e'] {
        (seq![sub_tok(s, SpecTokenKind::Boolean(true), i, e)], e)
    } else if v == seq!['f', 'a', 'l', 's', 'e'] {
        (seq![sub_tok(s, SpecTokenKind::Boolean(false), i, e)], e)
    } else if v == seq!['n', 'o', 't'] {
        spec_not(s, i, e)
    } else {
        (seq![SpecToken { kind: SpecTokenKind::Identifier(v), start: i, end: e, value: v }], e)
    }
}

/// Clamps a routine's reported next position so that the interpretation
/// always advances; the positions the routines actually report are proved
/// to lie in `(i, len]`, where the clamp is the identity.
pub open spec fn advance(i: int, j: int, len: int) -> int {
    if i < j && j <= len {
        j
    } else {
        i + 1
    }
}

/// One dispatch step at position `i`: the tokens the routine for the class
/// of `s[i]` emits and the position it leaves the cursor at, or the error
/// it fails with.
pub open spec fn spec_item(s: Seq<char>, i: int) -> Result<(Seq<SpecToken>, int), LexerError>
    decreases s.len() - i, 2int,
{
    let c = s[i];
    if is_space(c) {
        Ok((Seq::empty(), i + 1))
    } else if c == '\'' || c == '"' {
        spec_string(s, i)
    } else if is_digit(c) {
        Ok(spec_number(s, i))
    } else if is_bracket(c) {
        Ok(spec_bracket(s, i))
    } else if is_cmp_operator(c) {
        Ok(spec_cmp_operator(s, i))
    } else if is_operator(c) {
        Ok(spec_operator(s, i))
    } else if is_question_mark(c) {
        Ok(spec_question_mark(s, i))
    } else if c == '`' {
        spec_template(s, i)
    } else if c == '.' {
        Ok(spec_dot(s, i))
    } else if is_alpha(c) {
        Ok(spec_identifier(s, i))
    } else {
        Err(LexerError::UnmatchedSymbol { symbol: c, position: i as usize })
    }
}

/// The tokens of the template string opening at `i`: the opening backtick,
/// then the alternation of literal text and interpolated expressions.
pub open spec fn spec_template(s: Seq<char>, i: int) -> Result<(Seq<SpecToken>, int), LexerError>
    decreases s.len() - i, 1int,
{
    if i < 0 || i >= s.len() {
        Err(eof_error(s))
    } else {
        match spec_template_body(s, i + 1, i + 1, false) {
        Ok((ts, j)) => Ok(
            (
                seq![sub_tok(s, SpecTokenKind::QuotationMark(QuotationMark::Backtick), i, i + 1)]
                    + ts,
                    j,
                ),
            ),
            Err(e) => Err(e),
        }
    }
}

/// The template-string alternation from position `pos` on. `str_start`
/// marks where the pending literal text (literal mode) or the interpolated
/// region (expression mode) began; `in_expression` selects the mode.
///
/// In literal mode a backtick flushes the pending literal (only when
/// non-empty) and closes the template; `${` flushes the pending literal
/// (even when empty) and opens an expression. In expression mode `}`
/// closes the expression with a marker token spanning the interpolated
/// region, and any other character is interpreted by the ordinary dispatch,
/// so the expression's own tokens interleave in source order.
pub open spec fn spec_template_body(
    s: Seq<char>,
    pos: int,
    str_start: int,
    in_expression: bool,
) -> Result<(Seq<SpecToken>, int), LexerError>
    decreases s.len() - pos, 3int,
{
    if pos < 0 || pos >= s.len() {
        Err(eof_error(s))
    } else {
        let c = s[pos];
        if c == '`' && !in_expression {
            let close = sub_tok(s, SpecTokenKind::QuotationMark(QuotationMark::Backtick), pos, pos + 1);
            if str_start < pos {
                Ok((seq![sub_tok(s, SpecTokenKind::Literal, str_start, pos), close], pos + 1))
            } else {
                Ok((seq![close], pos + 1))
            }
        } else if c == '$' && !in_expression && pos + 1 < s.len() && s[pos + 1] == '{' {
            let opened = seq![
                sub_tok(s, SpecTokenKind::Literal, str_start, pos),
                sub_tok(s, SpecTokenKind::TemplateString(TemplateString::ExpressionStart), pos, pos + 2),
            ];
            match spec_template_body(s, pos + 2, pos + 2, true) {
                Ok((ts, j)) => Ok((opened + ts, j)),
                Err(e) => Err(e),
            }
        } else if c == '}' && in_expression {
            let end_tok = SpecToken {
                kind: SpecTokenKind::TemplateString(TemplateString::ExpressionEnd),
                start: str_start,
                end: pos,
                value: seq!['}'],
            };
            match spec_template_body(s, pos + 1, pos + 1, false) {
                Ok((ts, j)) => Ok((seq![end_tok] + ts, j)),
                Err(e) => Err(e),
            }
        } else if !in_expression {
            spec_template_body(s, pos + 1, str_start, in_expression)
        } else {
            match spec_item(s, pos) {
                Ok((ts, j)) => match spec_template_body(
                    s,
                    advance(pos, j, s.len() as int),
                    str_start,
                    in_expression,
                ) {
                    Ok((ts2, j2)) => Ok((ts + ts2, j2)),
                    Err(e) => Err(e),
                },
                Err(e) => Err(e),
            }
        }
    }
}

/// The whole scan from position `i` to the end of the source.
pub open spec fn spec_scan(s: Seq<char>, i: int) -> Result<Seq<SpecToken>, LexerError>
    decreases s.len() - i, 4int,
{
    if i < 0 || i >= s.len() {
        Ok(Seq::empty())
    } else {
        match spec_item(s, i) {
            Ok((ts, j)) => match spec_scan(s, advance(i, j, s.len() as int)) {
                Ok(rest) => Ok(ts + rest),
                Err(e) => Err(e),
            },
            Err(e) => Err(e),
        }
    }
}

/// Prepends already-emitted tokens to a later routine outcome.
pub open spec fn tb_result(
    acc: Seq<SpecToken>,
    r: Result<(Seq<SpecToken>, int), LexerError>,
) -> Result<(Seq<SpecToken>, int), LexerError> {
    match r {
        Ok((ts, j)) => Ok((acc + ts, j)),
        Err(e) => Err(e),
    }
}

/// Prepends already-emitted tokens to a later scan outcome.
pub open spec fn sc_result(
    acc: Seq<SpecToken>,
    r: Result<Seq<SpecToken>, LexerError>,
) -> Result<Seq<SpecToken>, LexerError> {
    match r {
        Ok(ts) => Ok(acc + ts),
        Err(e) => Err(e),
    }
}

/// Every routine leaves the cursor strictly beyond where it began and
/// within the source.
pub proof fn lemma_item_bounds(s: Seq<char>, i: int)
    requires
        0 <= i < s.len(),
    ensures
        spec_item(s, i) matches Ok((ts, j)) ==> i < j <= s.len(),
    decreases s.len() - i, 2int,
{
    let c = s[i];
    if is_space(c) {
    } else if c == '\'' || c == '"' {
        lemma_find_close_bounds(s, i + 1, c);
    } else if is_digit(c) {
        lemma_num_end_bounds(s, i + 1, false);
    } else if is_bracket(c) {
    } else if is_cmp_operator(c) {
    } else if is_operator(c) {
    } else if is_question_mark(c) {
    } else if c == '`' {
        lemma_template_bounds(s, i);
    } else if c == '.' {
    } else if is_alpha(c) {
        lemma_ident_end_bounds(s, i + 1);
    } else {
    }
}

pub proof fn lemma_template_bounds(s: Seq<char>, i: int)
    requires
        0 <= i < s.len(),
    ensures
        spec_template(s, i) matches Ok((ts, j)) ==> i < j <= s.len(),
    decreases s.len() - i, 1int,
{
    lemma_template_body_bounds(s, i + 1, i + 1, false);
}

pub proof fn lemma_template_body_bounds(s: Seq<char>, pos: int, str_start: int, in_expression: bool)
    requires
        0 <= pos,
    ensures
        spec_template_body(s, pos, str_start, in_expression) matches Ok((ts, j)) ==> pos < j
            <= s.len(),
    decreases s.len() - pos, 3int,
{
    if pos >= s.len() {
    } else {
        let c = s[pos];
        if c == '`' && !in_expression {
        } else if c == '$' && !in_expression && pos + 1 < s.len() && s[pos + 1] == '{' {
            lemma_template_body_bounds(s, pos + 2, pos + 2, true);
        } else if c == '}' && in_expression {
            lemma_template_body_bounds(s, pos + 1, pos + 1, false);
        } else if !in_expression {
            lemma_template_body_bounds(s, pos + 1, str_start, in_expression);
        } else {
            lemma_item_bounds(s, pos);
            if spec_item(s, pos) is Ok {
                let j = spec_item(s, pos)->Ok_0.1;
                lemma_template_body_bounds(s, advance(pos, j, s.len() as int), str_start, in_expression);
            }
        }
    }
}

pub proof fn lemma_find_close_bounds(s: Seq<char>, i: int, q: char)
    requires
        0 <= i,
    ensures
        find_close(s, i, q) matches Some(j) ==> i <= j < s.len() && s[j] == q,
    decreases s.len() - i,
{
    if i < s.len() && s[i] != q {
        lemma_find_close_bounds(s, i + 1, q);
    }
}

pub proof fn lemma_num_end_bounds(s: Seq<char>, i: int, fractal: bool)
    requires
        0 <= i <= s.len(),
    ensures
        i <= num_end(s, i, fractal) <= s.len(),
    decreases s.len() - i,
{
    if i < s.len() && (is_digit(s[i]) || s[i] == '_' || s[i] == '.') {
        if s[i] == '.' {
            if fractal {
            } else if i + 1 < s.len() && s[i + 1] == '.' {
            } else if i + 1 >= s.len() {
                lemma_num_end_bounds(s, i + 1, fractal);
            } else {
                lemma_num_end_bounds(s, i + 1, true);
            }
        } else {
            lemma_num_end_bounds(s, i + 1, fractal);
        }
    }
}

pub proof fn lemma_ident_end_bounds(s: Seq<char>, i: int)
    requires
        0 <= i <= s.len(),
    ensures
        i <= ident_end(s, i) <= s.len(),
    decreases s.len() - i,
{
    if i < s.len() && is_alphanumeric(s[i]) {
        lemma_ident_end_bounds(s, i + 1);
    }
}

/// Unfolds the template interpretation at its opening backtick.
pub proof fn lemma_template_wraps(s: Seq<char>, i: int)
    requires
        0 <= i < s.len(),
    ensures
        spec_template(s, i) == (match spec_template_body(s, i + 1, i + 1, false) {
            Ok((ts, j)) => Ok::<(Seq<SpecToken>, int), LexerError>(
                (
                    seq![sub_tok(s, SpecTokenKind::QuotationMark(QuotationMark::Backtick), i, i + 1)]
                        + ts,
                    j,
                ),
            ),
            Err(e) => Err::<(Seq<SpecToken>, int), LexerError>(e),
        }),
{
}

} // verus!
