use expression_lexer::error::LexerError;
use expression_lexer::lexer::Lexer;
use expression_lexer::token::{
    ArithmeticOperator, Bracket, ComparisonOperator, LogicalOperator, Operator, QuotationMark,
    TemplateString, Token, TokenKind,
};

fn chars(s: &str) -> Vec<char> {
    s.chars().collect()
}

fn tokenize(s: &str) -> Result<Vec<Token>, LexerError> {
    let mut lexer = Lexer::new();
    lexer.tokenize(&chars(s))
}

fn tok(kind: TokenKind, start: usize, end: usize, value: &str) -> Token {
    Token {
        kind,
        span: (start, end),
        value: value.chars().collect(),
    }
}

fn ident(name: &str, start: usize, end: usize) -> Token {
    tok(TokenKind::Identifier(name.chars().collect()), start, end, name)
}

#[test]
fn whitespace_only_scans_to_nothing() {
    assert_eq!(tokenize("  \t\n\r "), Ok(vec![]));
}

#[test]
fn empty_source_scans_to_nothing() {
    assert_eq!(tokenize(""), Ok(vec![]));
}

#[test]
fn single_quoted_string_three_tokens() {
    assert_eq!(
        tokenize("'abc'"),
        Ok(vec![
            tok(TokenKind::QuotationMark(QuotationMark::SingleQuote), 0, 1, "'"),
            tok(TokenKind::Literal, 1, 4, "abc"),
            tok(TokenKind::QuotationMark(QuotationMark::SingleQuote), 4, 5, "'"),
        ])
    );
}

#[test]
fn double_quoted_string_three_tokens() {
    assert_eq!(
        tokenize("\"x\""),
        Ok(vec![
            tok(TokenKind::QuotationMark(QuotationMark::DoubleQuote), 0, 1, "\""),
            tok(TokenKind::Literal, 1, 2, "x"),
            tok(TokenKind::QuotationMark(QuotationMark::DoubleQuote), 2, 3, "\""),
        ])
    );
}

#[test]
fn empty_string_literal_is_kept() {
    assert_eq!(
        tokenize("''"),
        Ok(vec![
            tok(TokenKind::QuotationMark(QuotationMark::SingleQuote), 0, 1, "'"),
            tok(TokenKind::Literal, 1, 1, ""),
            tok(TokenKind::QuotationMark(QuotationMark::SingleQuote), 1, 2, "'"),
        ])
    );
}

#[test]
fn template_with_interpolation() {
    assert_eq!(
        tokenize("`a${1+2}b`"),
        Ok(vec![
            tok(TokenKind::QuotationMark(QuotationMark::Backtick), 0, 1, "`"),
            tok(TokenKind::Literal, 1, 2, "a"),
            tok(TokenKind::TemplateString(TemplateString::ExpressionStart), 2, 4, "${"),
            tok(TokenKind::Number, 4, 5, "1"),
            tok(TokenKind::Operator(Operator::Arithmetic(ArithmeticOperator::Add)), 5, 6, "+"),
            tok(TokenKind::Number, 6, 7, "2"),
            tok(TokenKind::TemplateString(TemplateString::ExpressionEnd), 4, 7, "}"),
            tok(TokenKind::Literal, 8, 9, "b"),
            tok(TokenKind::QuotationMark(QuotationMark::Backtick), 9, 10, "`"),
        ])
    );
}

#[test]
fn number_with_fraction() {
    assert_eq!(tokenize("12.34"), Ok(vec![tok(TokenKind::Number, 0, 5, "12.34")]));
}

#[test]
fn number_then_range_operator() {
    assert_eq!(
        tokenize("1..2"),
        Ok(vec![
            tok(TokenKind::Number, 0, 1, "1"),
            tok(TokenKind::Operator(Operator::Range), 1, 3, ".."),
            tok(TokenKind::Number, 3, 4, "2"),
        ])
    );
}

#[test]
fn number_stops_at_second_fraction_dot() {
    assert_eq!(
        tokenize("1.2.3"),
        Ok(vec![
            tok(TokenKind::Number, 0, 3, "1.2"),
            tok(TokenKind::Operator(Operator::Dot), 3, 4, "."),
            tok(TokenKind::Number, 4, 5, "3"),
        ])
    );
}

#[test]
fn number_with_underscores() {
    assert_eq!(tokenize("1_000"), Ok(vec![tok(TokenKind::Number, 0, 5, "1_000")]));
}

#[test]
fn number_keeps_trailing_dot_at_end_of_input() {
    assert_eq!(tokenize("1."), Ok(vec![tok(TokenKind::Number, 0, 2, "1.")]));
}

#[test]
fn not_in_collapses_to_one_token() {
    assert_eq!(
        tokenize("not in x"),
        Ok(vec![
            tok(
                TokenKind::Operator(Operator::Comparison(ComparisonOperator::NotIn)),
                0,
                6,
                "not in",
            ),
            ident("x", 7, 8),
        ])
    );
}

#[test]
fn not_in_with_trailing_space_is_single_token() {
    assert_eq!(
        tokenize("not in "),
        Ok(vec![tok(
            TokenKind::Operator(Operator::Comparison(ComparisonOperator::NotIn)),
            0,
            6,
            "not in",
        )])
    );
}

#[test]
fn not_standalone_then_identifier() {
    assert_eq!(
        tokenize("not x"),
        Ok(vec![
            tok(TokenKind::Operator(Operator::Logical(LogicalOperator::Not)), 0, 3, "not"),
            ident("x", 4, 5),
        ])
    );
}

#[test]
fn not_needs_trailing_space_to_collapse() {
    // The collapsing lookahead matches the literal text " in " in full, so
    // at the very end of the input `not` and `in` stay separate tokens.
    assert_eq!(
        tokenize("not in"),
        Ok(vec![
            tok(TokenKind::Operator(Operator::Logical(LogicalOperator::Not)), 0, 3, "not"),
            tok(TokenKind::Operator(Operator::Comparison(ComparisonOperator::In)), 4, 6, "in"),
        ])
    );
}

#[test]
fn keywords_and_identifiers() {
    assert_eq!(
        tokenize("true and false or a in b"),
        Ok(vec![
            tok(TokenKind::Boolean(true), 0, 4, "true"),
            tok(TokenKind::Operator(Operator::Logical(LogicalOperator::And)), 5, 8, "and"),
            tok(TokenKind::Boolean(false), 9, 14, "false"),
            tok(TokenKind::Operator(Operator::Logical(LogicalOperator::Or)), 15, 17, "or"),
            ident("a", 18, 19),
            tok(TokenKind::Operator(Operator::Comparison(ComparisonOperator::In)), 20, 22, "in"),
            ident("b", 23, 24),
        ])
    );
}

#[test]
fn comparison_operators_extend_with_equals() {
    assert_eq!(
        tokenize("a <= b != c"),
        Ok(vec![
            ident("a", 0, 1),
            tok(
                TokenKind::Operator(Operator::Comparison(ComparisonOperator::LessThanOrEqual)),
                2,
                4,
                "<=",
            ),
            ident("b", 5, 6),
            tok(
                TokenKind::Operator(Operator::Comparison(ComparisonOperator::NotEqual)),
                7,
                9,
                "!=",
            ),
            ident("c", 10, 11),
        ])
    );
}

#[test]
fn single_and_double_equals_both_compare_equal() {
    assert_eq!(
        tokenize("x = y == z"),
        Ok(vec![
            ident("x", 0, 1),
            tok(TokenKind::Operator(Operator::Comparison(ComparisonOperator::Equal)), 2, 3, "="),
            ident("y", 4, 5),
            tok(TokenKind::Operator(Operator::Comparison(ComparisonOperator::Equal)), 6, 8, "=="),
            ident("z", 9, 10),
        ])
    );
}

#[test]
fn question_marks_and_nullish_coalescing() {
    assert_eq!(
        tokenize("a ?? b ? c"),
        Ok(vec![
            ident("a", 0, 1),
            tok(
                TokenKind::Operator(Operator::Logical(LogicalOperator::NullishCoalescing)),
                2,
                4,
                "??",
            ),
            ident("b", 5, 6),
            tok(TokenKind::Operator(Operator::QuestionMark), 7, 8, "?"),
            ident("c", 9, 10),
        ])
    );
}

#[test]
fn brackets_scan_one_character_each() {
    assert_eq!(
        tokenize("([{}])"),
        Ok(vec![
            tok(TokenKind::Bracket(Bracket::LeftParenthesis), 0, 1, "("),
            tok(TokenKind::Bracket(Bracket::LeftSquareBracket), 1, 2, "["),
            tok(TokenKind::Bracket(Bracket::LeftCurlyBracket), 2, 3, "{"),
            tok(TokenKind::Bracket(Bracket::RightCurlyBracket), 3, 4, "}"),
            tok(TokenKind::Bracket(Bracket::RightSquareBracket), 4, 5, "]"),
            tok(TokenKind::Bracket(Bracket::RightParenthesis), 5, 6, ")"),
        ])
    );
}

#[test]
fn arithmetic_operators_and_comma() {
    assert_eq!(
        tokenize("f(1+2*3%4^5,-6/7)"),
        Ok(vec![
            ident("f", 0, 1),
            tok(TokenKind::Bracket(Bracket::LeftParenthesis), 1, 2, "("),
            tok(TokenKind::Number, 2, 3, "1"),
            tok(TokenKind::Operator(Operator::Arithmetic(ArithmeticOperator::Add)), 3, 4, "+"),
            tok(TokenKind::Number, 4, 5, "2"),
            tok(
                TokenKind::Operator(Operator::Arithmetic(ArithmeticOperator::Multiply)),
                5,
                6,
                "*",
            ),
            tok(TokenKind::Number, 6, 7, "3"),
            tok(
                TokenKind::Operator(Operator::Arithmetic(ArithmeticOperator::Modulus)),
                7,
                8,
                "%",
            ),
            tok(TokenKind::Number, 8, 9, "4"),
            tok(TokenKind::Operator(Operator::Arithmetic(ArithmeticOperator::Power)), 9, 10, "^"),
            tok(TokenKind::Number, 10, 11, "5"),
            tok(TokenKind::Operator(Operator::Comma), 11, 12, ","),
            tok(
                TokenKind::Operator(Operator::Arithmetic(ArithmeticOperator::Subtract)),
                12,
                13,
                "-",
            ),
            tok(TokenKind::Number, 13, 14, "6"),
            tok(
                TokenKind::Operator(Operator::Arithmetic(ArithmeticOperator::Divide)),
                14,
                15,
                "/",
            ),
            tok(TokenKind::Number, 15, 16, "7"),
            tok(TokenKind::Bracket(Bracket::RightParenthesis), 16, 17, ")"),
        ])
    );
}

#[test]
fn unterminated_string_fails_at_end_of_input() {
    assert_eq!(
        tokenize("\"abc"),
        Err(LexerError::UnexpectedEof { symbol: 'c', position: 3 })
    );
}

#[test]
fn unmatched_symbol_fails_at_its_position() {
    assert_eq!(
        tokenize("#"),
        Err(LexerError::UnmatchedSymbol { symbol: '#', position: 0 })
    );
    assert_eq!(
        tokenize("a # b"),
        Err(LexerError::UnmatchedSymbol { symbol: '#', position: 2 })
    );
}

#[test]
fn unterminated_template_fails_at_end_of_input() {
    assert_eq!(
        tokenize("`ab"),
        Err(LexerError::UnexpectedEof { symbol: 'b', position: 2 })
    );
}

#[test]
fn unterminated_template_expression_fails() {
    assert_eq!(
        tokenize("`${1"),
        Err(LexerError::UnexpectedEof { symbol: '1', position: 3 })
    );
}

#[test]
fn empty_template_has_no_literal() {
    assert_eq!(
        tokenize("``"),
        Ok(vec![
            tok(TokenKind::QuotationMark(QuotationMark::Backtick), 0, 1, "`"),
            tok(TokenKind::QuotationMark(QuotationMark::Backtick), 1, 2, "`"),
        ])
    );
}

#[test]
fn empty_literal_before_interpolation_is_kept() {
    assert_eq!(
        tokenize("`${}`"),
        Ok(vec![
            tok(TokenKind::QuotationMark(QuotationMark::Backtick), 0, 1, "`"),
            tok(TokenKind::Literal, 1, 1, ""),
            tok(TokenKind::TemplateString(TemplateString::ExpressionStart), 1, 3, "${"),
            tok(TokenKind::TemplateString(TemplateString::ExpressionEnd), 3, 3, "}"),
            tok(TokenKind::QuotationMark(QuotationMark::Backtick), 4, 5, "`"),
        ])
    );
}

#[test]
fn lone_dollar_in_template_is_literal_text() {
    assert_eq!(
        tokenize("`a$b`"),
        Ok(vec![
            tok(TokenKind::QuotationMark(QuotationMark::Backtick), 0, 1, "`"),
            tok(TokenKind::Literal, 1, 4, "a$b"),
            tok(TokenKind::QuotationMark(QuotationMark::Backtick), 4, 5, "`"),
        ])
    );
}

#[test]
fn quoted_string_nested_in_template_expression() {
    assert_eq!(
        tokenize("`x${'y'}z`"),
        Ok(vec![
            tok(TokenKind::QuotationMark(QuotationMark::Backtick), 0, 1, "`"),
            tok(TokenKind::Literal, 1, 2, "x"),
            tok(TokenKind::TemplateString(TemplateString::ExpressionStart), 2, 4, "${"),
            tok(TokenKind::QuotationMark(QuotationMark::SingleQuote), 4, 5, "'"),
            tok(TokenKind::Literal, 5, 6, "y"),
            tok(TokenKind::QuotationMark(QuotationMark::SingleQuote), 6, 7, "'"),
            tok(TokenKind::TemplateString(TemplateString::ExpressionEnd), 4, 7, "}"),
            tok(TokenKind::Literal, 8, 9, "z"),
            tok(TokenKind::QuotationMark(QuotationMark::Backtick), 9, 10, "`"),
        ])
    );
}

#[test]
fn tokenize_twice_yields_identical_sequences() {
    let source = chars("`a${1+2}b` not in xs");
    let mut lexer = Lexer::new();
    let first = lexer.tokenize(&source);
    let second = lexer.tokenize(&source);
    assert!(first.is_ok());
    assert_eq!(first, second);
}

#[test]
fn identifiers_may_start_with_dollar_or_underscore() {
    assert_eq!(
        tokenize("$a _b"),
        Ok(vec![ident("$a", 0, 2), ident("_b", 3, 5)])
    );
}

#[test]
fn dot_is_member_access_between_identifiers() {
    assert_eq!(
        tokenize("a.b"),
        Ok(vec![
            ident("a", 0, 1),
            tok(TokenKind::Operator(Operator::Dot), 1, 2, "."),
            ident("b", 2, 3),
        ])
    );
}
