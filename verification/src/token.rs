//! Tokens: classified, positioned units of lexical output, together with
//! their ghost-level counterparts used in contracts.

use vstd::prelude::*;

verus! {

/// The three quotation marks the scanner recognizes.
#[derive(Clone, Copy, PartialEq, Eq, Structural, Debug)]
pub enum QuotationMark {
    SingleQuote,
    DoubleQuote,
    Backtick,
}

/// Markers delimiting an interpolated `${...}` region of a template string.
#[derive(Clone, Copy, PartialEq, Eq, Structural, Debug)]
pub enum TemplateString {
    ExpressionStart,
    ExpressionEnd,
}

/// Bracket kinds, one character each.
#[derive(Clone, Copy, PartialEq, Eq, Structural, Debug)]
pub enum Bracket {
    LeftParenthesis,
    RightParenthesis,
    LeftSquareBracket,
    RightSquareBracket,
    LeftCurlyBracket,
    RightCurlyBracket,
}

#[derive(Clone, Copy, PartialEq, Eq, Structural, Debug)]
pub enum ArithmeticOperator {
    Add,
    Subtract,
    Multiply,
    Divide,
    Modulus,
    Power,
}

#[derive(Clone, Copy, PartialEq, Eq, Structural, Debug)]
pub enum LogicalOperator {
    And,
    Or,
    Not,
    NullishCoalescing,
}

#[derive(Clone, Copy, PartialEq, Eq, Structural, Debug)]
pub enum ComparisonOperator {
    Equal,
    NotEqual,
    LessThan,
    GreaterThan,
    LessThanOrEqual,
    GreaterThanOrEqual,
    In,
    NotIn,
}

/// The closed set of operator tokens.
#[derive(Clone, Copy, PartialEq, Eq, Structural, Debug)]
pub enum Operator {
    Arithmetic(ArithmeticOperator),
    Logical(LogicalOperator),
    Comparison(ComparisonOperator),
    Dot,
    Range,
    Comma,
    QuestionMark,
}

/// The closed variant set of token classifications.
#[derive(PartialEq, Debug)]
pub enum TokenKind {
    QuotationMark(QuotationMark),
    Literal,
    Number,
    Boolean(bool),
    Bracket(Bracket),
    Operator(Operator),
    Identifier(Vec<char>),
    TemplateString(TemplateString),
}

/// A token: a classification, a half-open `[start, end)` span of source
/// positions, and the text the token stands for. The text equals the
/// spanned source characters for every kind except the expression-end
/// marker of template strings, whose span describes the interpolated
/// region rather than its own character.
#[derive(PartialEq, Debug)]
pub struct Token {
    pub kind: TokenKind,
    pub span: (usize, usize),
    pub value: Vec<char>,
}

/// Ghost-level counterpart of [`TokenKind`].
#[verifier::ext_equal]
pub enum SpecTokenKind {
    QuotationMark(QuotationMark),
    Literal,
    Number,
    Boolean(bool),
    Bracket(Bracket),
    Operator(Operator),
    Identifier(Seq<char>),
    TemplateString(TemplateString),
}

/// Ghost-level counterpart of [`Token`].
#[verifier::ext_equal]
pub struct SpecToken {
    pub kind: SpecTokenKind,
    pub start: int,
    pub end: int,
    pub value: Seq<char>,
}

impl View for TokenKind {
    type V = SpecTokenKind;

    open spec fn view(&self) -> SpecTokenKind {
        match self {
            TokenKind::QuotationMark(q) => SpecTokenKind::QuotationMark(*q),
            TokenKind::Literal => SpecTokenKind::Literal,
            TokenKind::Number => SpecTokenKind::Number,
            TokenKind::Boolean(b) => SpecTokenKind::Boolean(*b),
            TokenKind::Bracket(b) => SpecTokenKind::Bracket(*b),
            TokenKind::Operator(o) => SpecTokenKind::Operator(*o),
            TokenKind::Identifier(name) => SpecTokenKind::Identifier(name@),
            TokenKind::TemplateString(t) => SpecTokenKind::TemplateString(*t),
        }
    }
}

impl View for Token {
    type V = SpecToken;

    open spec fn view(&self) -> SpecToken {
        SpecToken {
            kind: self.kind@,
            start: self.span.0 as int,
            end: self.span.1 as int,
            value: self.value@,
        }
    }
}

/// The ghost view of a token sequence.
pub open spec fn token_views(ts: Seq<Token>) -> Seq<SpecToken> {
    ts.map_values(|t: Token| t@)
}

pub proof fn lemma_token_views_push(ts: Seq<Token>, t: Token)
    ensures
        token_views(ts.push(t)) == token_views(ts).push(t@),
{
    assert(token_views(ts.push(t)) =~= token_views(ts).push(t@));
}

pub proof fn lemma_token_views_empty(ts: Seq<Token>)
    requires
        ts.len() == 0,
    ensures
        token_views(ts) == Seq::<SpecToken>::empty(),
{
    assert(token_views(ts) =~= Seq::<SpecToken>::empty());
}

} // verus!
