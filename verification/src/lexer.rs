//! The lexer: an executable scanner over the source characters, proved to
//! emit exactly the token sequence the model in [`crate::model`] prescribes.

use vstd::prelude::*;

use crate::codes::{
    is_alpha, is_alpha_char, is_alphanumeric, is_alphanumeric_char, is_bracket, is_bracket_char,
    is_cmp_operator, is_cmp_operator_char, is_digit, is_digit_char, is_operator, is_operator_char,
    is_question_mark, is_question_mark_char, is_space, is_space_char,
};
use crate::cursor::Cursor;
use crate::error::{LexerError, LexerResult};
use crate::model::{
    advance, bracket_from, eof_error, find_close, ident_end, num_end, operator_from,
    sc_result, spec_bracket, spec_cmp_operator, spec_dot, spec_identifier,
    spec_item, spec_not, spec_number, spec_operator, spec_question_mark, spec_scan, spec_string,
    spec_template, spec_template_body, sub_tok, tb_result, lemma_item_bounds,
    lemma_template_wraps,
};
use crate::text::{copy_chars, text_is};
use crate::token::{
    token_views, ArithmeticOperator, Bracket, ComparisonOperator, LogicalOperator, Operator,
    QuotationMark, SpecToken, SpecTokenKind, TemplateString, Token, TokenKind,
    lemma_token_views_push, lemma_token_views_empty,
};

verus! {

/// The quote character a quotation-mark kind stands for.
pub open spec fn quote_char(q: QuotationMark) -> char {
    match q {
        QuotationMark::SingleQuote => '\'',
        QuotationMark::DoubleQuote => '"',
        QuotationMark::Backtick => '`',
    }
}

/// The typed bracket for a bracket character, if any.
fn bracket_kind(c: char) -> (r: Option<Bracket>)
    ensures
        r == bracket_from(c),
{
    if c == '(' {
        Some(Bracket::LeftParenthesis)
    } else if c == ')' {
        Some(Bracket::RightParenthesis)
    } else if c == '[' {
        Some(Bracket::LeftSquareBracket)
    } else if c == ']' {
        Some(Bracket::RightSquareBracket)
    } else if c == '{' {
        Some(Bracket::LeftCurlyBracket)
    } else if c == '}' {
        Some(Bracket::RightCurlyBracket)
    } else {
        None
    }
}

/// The typed operator for a matched operator text, if any.
fn operator_kind(v: &Vec<char>) -> (r: Option<Operator>)
    ensures
        r == operator_from(v@),
{
    if v.len() == 1 {
        let c = v[0];
        proof {
            assert(v@ =~= seq![v@[0]]);
        }
        if c == '.' {
            Some(Operator::Dot)
        } else if c == '<' {
            Some(Operator::Comparison(ComparisonOperator::LessThan))
        } else if c == '>' {
            Some(Operator::Comparison(ComparisonOperator::GreaterThan))
        } else if c == '=' {
            Some(Operator::Comparison(ComparisonOperator::Equal))
        } else if c == '!' {
            Some(Operator::Logical(LogicalOperator::Not))
        } else if c == '+' {
            Some(Operator::Arithmetic(ArithmeticOperator::Add))
        } else if c == '-' {
            Some(Operator::Arithmetic(ArithmeticOperator::Subtract))
        } else if c == '*' {
            Some(Operator::Arithmetic(ArithmeticOperator::Multiply))
        } else if c == '/' {
            Some(Operator::Arithmetic(ArithmeticOperator::Divide))
        } else if c == '%' {
            Some(Operator::Arithmetic(ArithmeticOperator::Modulus))
        } else if c == '^' {
            Some(Operator::Arithmetic(ArithmeticOperator::Power))
        } else if c == ',' {
            Some(Operator::Comma)
        } else {
            None
        }
    } else if v.len() == 2 {
        let a = v[0];
        let b = v[1];
        proof {
            assert(v@ =~= seq![v@[0], v@[1]]);
        }
        if a == '.' && b == '.' {
            Some(Operator::Range)
        } else if a == '<' && b == '=' {
            Some(Operator::Comparison(ComparisonOperator::LessThanOrEqual))
        } else if a == '>' && b == '=' {
            Some(Operator::Comparison(ComparisonOperator::GreaterThanOrEqual))
        } else if a == '=' && b == '=' {
            Some(Operator::Comparison(ComparisonOperator::Equal))
        } else if a == '!' && b == '=' {
            Some(Operator::Comparison(ComparisonOperator::NotEqual))
        } else {
            None
        }
    } else {
        None
    }
}

/// The scanner: a cursor over the source and the token list grown so far.
pub struct Scanner {
    pub cursor: Cursor,
    pub tokens: Vec<Token>,
}

/// What every scan routine guarantees: the source is untouched, and on
/// success the tokens and the cursor position are exactly what the model
/// step `d` prescribes, while on failure the error is the model's.
pub open spec fn routine_post(
    pre: Scanner,
    post: Scanner,
    r: Result<(), LexerError>,
    d: Result<(Seq<SpecToken>, int), LexerError>,
) -> bool {
    &&& post.wf()
    &&& post.src() == pre.src()
    &&& match r {
        Ok(_) => d matches Ok((ts, j)) && post.toks() == pre.toks() + ts && post.pos() == j,
        Err(e) => d == Err::<(Seq<SpecToken>, int), LexerError>(e),
    }
}

impl Scanner {
    pub open spec fn wf(self) -> bool {
        self.cursor.wf()
    }

    /// The source characters under scan.
    pub open spec fn src(self) -> Seq<char> {
        self.cursor.chars@
    }

    /// The cursor offset.
    pub open spec fn pos(self) -> int {
        self.cursor.pos as int
    }

    /// The ghost view of the tokens emitted so far.
    pub open spec fn toks(self) -> Seq<SpecToken> {
        token_views(self.tokens@)
    }

    pub fn new(source: &Vec<char>) -> (r: Scanner)
        ensures
            r.wf(),
            r.src() == source@,
            r.pos() == 0,
            r.tokens@.len() == 0,
            r.toks() == Seq::<SpecToken>::empty(),
    {
        let scanner = Scanner { cursor: Cursor::new(source), tokens: Vec::new() };
        proof {
            lemma_token_views_empty(scanner.tokens@);
        }
        scanner
    }

    /// Consumes the next character, or reports the end-of-input error
    /// carrying the last consumed character and position.
    fn next(&mut self) -> (r: LexerResult<(usize, char)>)
        requires
            old(self).wf(),
        ensures
            final(self).wf(),
            final(self).src() == old(self).src(),
            final(self).tokens == old(self).tokens,
            match r {
                Ok((p, c)) => old(self).pos() < old(self).src().len() && p == old(self).pos() && c
                    == old(self).src()[old(self).pos()] && final(self).pos() == old(self).pos()
                    + 1,
                Err(e) => old(self).pos() >= old(self).src().len() && e == eof_error(
                    old(self).src(),
                ) && final(self).pos() == old(self).pos(),
            },
    {
        match self.cursor.next() {
            Some(item) => Ok(item),
            None => {
                let e = match self.cursor.peek_back() {
                    Some((a, b)) => LexerError::UnexpectedEof { symbol: b, position: a },
                    None => LexerError::UnexpectedEof { symbol: ' ', position: 0 },
                };
                Err(e)
            },
        }
    }

    /// Appends one token to the output list.
    fn push(&mut self, token: Token)
        ensures
            final(self).cursor == old(self).cursor,
            final(self).tokens@ == old(self).tokens@.push(token),
            final(self).toks() == old(self).toks().push(token@),
    {
        proof {
            lemma_token_views_push(self.tokens@, token);
        }
        self.tokens.push(token);
    }

    /// Scans a one-character bracket token.
    fn bracket(&mut self) -> (r: LexerResult<()>)
        requires
            old(self).wf(),
            old(self).pos() < old(self).src().len(),
            is_bracket(old(self).src()[old(self).pos()]),
        ensures
            routine_post(
                *old(self),
                *final(self),
                r,
                Ok(spec_bracket(old(self).src(), old(self).pos())),
            ),
    {
        let ghost s = old(self).src();
        let ghost i0 = old(self).pos();
        let (start, c) = match self.next() {
            Ok(v) => v,
            Err(e) => return Err(e),
        };
        let value = copy_chars(&self.cursor.chars, start, start + 1);
        let kind = match bracket_kind(c) {
            Some(k) => k,
            None => return Err(LexerError::UnmatchedSymbol { symbol: c, position: start }),
        };
        let token = Token { kind: TokenKind::Bracket(kind), span: (start, start + 1), value };
        proof {
            assert(token@ == sub_tok(s, SpecTokenKind::Bracket(bracket_from(s[i0])->Some_0), i0, i0 + 1));
        }
        self.push(token);
        proof {
            assert(self.toks() =~= old(self).toks() + spec_bracket(s, i0).0);
        }
        Ok(())
    }

    /// Scans a dot, extended to the range operator on `..`.
    fn dot(&mut self) -> (r: LexerResult<()>)
        requires
            old(self).wf(),
            old(self).pos() < old(self).src().len(),
            old(self).src()[old(self).pos()] == '.',
        ensures
            routine_post(
                *old(self),
                *final(self),
                r,
                Ok(spec_dot(old(self).src(), old(self).pos())),
            ),
    {
        let ghost s = old(self).src();
        let ghost i0 = old(self).pos();
        let (start, c) = match self.next() {
            Ok(v) => v,
            Err(e) => return Err(e),
        };
        let mut end: usize = start;
        if self.cursor.next_if_eq('.').is_some() {
            end = end + 1;
        }
        let value = copy_chars(&self.cursor.chars, start, end + 1);
        proof {
            if end == start {
                assert(s.subrange(i0, i0 + 1) =~= seq![s[i0]]);
            } else {
                assert(s.subrange(i0, i0 + 2) =~= seq![s[i0], s[i0 + 1]]);
            }
        }
        let op = match operator_kind(&value) {
            Some(op) => op,
            None => return Err(LexerError::UnmatchedSymbol { symbol: c, position: start }),
        };
        let token = Token { kind: TokenKind::Operator(op), span: (start, end + 1), value };
        self.push(token);
        proof {
            assert(self.toks() =~= old(self).toks() + spec_dot(s, i0).0);
        }
        Ok(())
    }

    /// Scans a comparison operator, extended by a trailing `=` when one
    /// follows.
    fn cmp_operator(&mut self) -> (r: LexerResult<()>)
        requires
            old(self).wf(),
            old(self).pos() < old(self).src().len(),
            is_cmp_operator(old(self).src()[old(self).pos()]),
        ensures
            routine_post(
                *old(self),
                *final(self),
                r,
                Ok(spec_cmp_operator(old(self).src(), old(self).pos())),
            ),
    {
        let ghost s = old(self).src();
        let ghost i0 = old(self).pos();
        let (start, c) = match self.next() {
            Ok(v) => v,
            Err(e) => return Err(e),
        };
        let mut end: usize = start;
        if self.cursor.next_if_eq('=').is_some() {
            end = end + 1;
        }
        let value = copy_chars(&self.cursor.chars, start, end + 1);
        proof {
            if end == start {
                assert(s.subrange(i0, i0 + 1) =~= seq![s[i0]]);
            } else {
                assert(s.subrange(i0, i0 + 2) =~= seq![s[i0], s[i0 + 1]]);
            }
        }
        let op = match operator_kind(&value) {
            Some(op) => op,
            None => return Err(LexerError::UnmatchedSymbol { symbol: c, position: start }),
        };
        let token = Token { kind: TokenKind::Operator(op), span: (start, end + 1), value };
        self.push(token);
        proof {
            assert(self.toks() =~= old(self).toks() + spec_cmp_operator(s, i0).0);
        }
        Ok(())
    }

    /// Scans a one-character generic operator.
    fn operator(&mut self) -> (r: LexerResult<()>)
        requires
            old(self).wf(),
            old(self).pos() < old(self).src().len(),
            is_operator(old(self).src()[old(self).pos()]),
        ensures
            routine_post(
                *old(self),
                *final(self),
                r,
                Ok(spec_operator(old(self).src(), old(self).pos())),
            ),
    {
        let ghost s = old(self).src();
        let ghost i0 = old(self).pos();
        let (start, c) = match self.next() {
            Ok(v) => v,
            Err(e) => return Err(e),
        };
        let value = copy_chars(&self.cursor.chars, start, start + 1);
        proof {
            assert(s.subrange(i0, i0 + 1) =~= seq![s[i0]]);
        }
        let op = match operator_kind(&value) {
            Some(op) => op,
            None => return Err(LexerError::UnmatchedSymbol { symbol: c, position: start }),
        };
        let token = Token { kind: TokenKind::Operator(op), span: (start, start + 1), value };
        self.push(token);
        proof {
            assert(self.toks() =~= old(self).toks() + spec_operator(s, i0).0);
        }
        Ok(())
    }

    /// Scans a question mark, extended to nullish coalescing on `??`.
    fn question_mark(&mut self) -> (r: LexerResult<()>)
        requires
            old(self).wf(),
            old(self).pos() < old(self).src().len(),
            is_question_mark(old(self).src()[old(self).pos()]),
        ensures
            routine_post(
                *old(self),
                *final(self),
                r,
                Ok(spec_question_mark(old(self).src(), old(self).pos())),
            ),
    {
        let ghost s = old(self).src();
        let ghost i0 = old(self).pos();
        let (start, _) = match self.next() {
            Ok(v) => v,
            Err(e) => return Err(e),
        };
        let mut kind = TokenKind::Operator(Operator::QuestionMark);
        let mut end: usize = start;
        if self.cursor.next_if_eq('?').is_some() {
            kind = TokenKind::Operator(Operator::Logical(LogicalOperator::NullishCoalescing));
            end = end + 1;
        }
        let value = copy_chars(&self.cursor.chars, start, end + 1);
        let token = Token { kind, span: (start, end + 1), value };
        self.push(token);
        proof {
            assert(self.toks() =~= old(self).toks() + spec_question_mark(s, i0).0);
        }
        Ok(())
    }

    /// Scans a quoted string: opening mark, literal body, closing mark.
    /// The body runs to the next occurrence of the same quote character;
    /// reaching the end of the input first is an error.
    fn string(&mut self, quote_kind: QuotationMark) -> (r: LexerResult<()>)
        requires
            old(self).wf(),
            old(self).pos() < old(self).src().len(),
            old(self).src()[old(self).pos()] == quote_char(quote_kind),
            quote_kind == QuotationMark::SingleQuote || quote_kind == QuotationMark::DoubleQuote,
        ensures
            routine_post(
                *old(self),
                *final(self),
                r,
                spec_string(old(self).src(), old(self).pos()),
            ),
    {
        let ghost s = old(self).src();
        let ghost i0 = old(self).pos();
        let (start, opener) = match self.next() {
            Ok(v) => v,
            Err(e) => return Err(e),
        };
        loop
            invariant
                self.wf(),
                s == old(self).src(),
                i0 == old(self).pos(),
                self.src() == s,
                self.tokens == old(self).tokens,
                start as int == i0,
                opener == s[i0],
                i0 + 1 <= self.pos() <= s.len(),
                quote_char(quote_kind) == opener,
                quote_kind == QuotationMark::SingleQuote || quote_kind
                    == QuotationMark::DoubleQuote,
                find_close(s, i0 + 1, opener) == find_close(s, self.pos(), opener),
            decreases s.len() - self.pos(),
        {
            let (e, c) = match self.next() {
                Ok(v) => v,
                Err(err) => {
                    proof {
                        assert(find_close(s, self.pos(), opener) == None::<int>);
                    }
                    return Err(err);
                },
            };
            if c == opener {
                proof {
                    assert(find_close(s, e as int, opener) == Some(e as int));
                }
                let open_value = copy_chars(&self.cursor.chars, start, start + 1);
                self.push(
                    Token {
                        kind: TokenKind::QuotationMark(quote_kind),
                        span: (start, start + 1),
                        value: open_value,
                    },
                );
                let body_value = copy_chars(&self.cursor.chars, start + 1, e);
                self.push(
                    Token { kind: TokenKind::Literal, span: (start + 1, e), value: body_value },
                );
                let close_value = copy_chars(&self.cursor.chars, e, e + 1);
                self.push(
                    Token {
                        kind: TokenKind::QuotationMark(quote_kind),
                        span: (e, e + 1),
                        value: close_value,
                    },
                );
                proof {
                    assert(self.toks() =~= old(self).toks() + spec_string(s, i0)->Ok_0.0);
                }
                return Ok(());
            }
        }
    }

    /// Scans a number: digits, underscores, and at most one fractional
    /// dot; a dot followed by a second dot (a range) stops the number.
    fn number(&mut self) -> (r: LexerResult<()>)
        requires
            old(self).wf(),
            old(self).pos() < old(self).src().len(),
            is_digit(old(self).src()[old(self).pos()]),
        ensures
            routine_post(
                *old(self),
                *final(self),
                r,
                Ok(spec_number(old(self).src(), old(self).pos())),
            ),
    {
        let ghost s = old(self).src();
        let ghost i0 = old(self).pos();
        let (start, _) = match self.next() {
            Ok(v) => v,
            Err(e) => return Err(e),
        };
        let mut end: usize = start;
        let mut fractal = false;
        loop
            invariant
                self.wf(),
                self.src() == s,
                self.tokens == old(self).tokens,
                start as int == i0,
                i0 + 1 <= self.pos() <= s.len(),
                end as int + 1 == self.pos(),
                num_end(s, i0 + 1, false) == num_end(s, self.pos(), fractal),
            ensures
                self.wf(),
                self.src() == s,
                self.tokens == old(self).tokens,
                start as int == i0,
                i0 + 1 <= self.pos() <= s.len(),
                end as int + 1 == self.pos(),
                self.pos() == num_end(s, i0 + 1, false),
            decreases s.len() - self.pos(),
        {
            let next_char = self.cursor.peek();
            match next_char {
                Some(pair) => {
                    let (e, c) = pair;
                    if is_digit_char(c) || c == '_' || c == '.' {
                        self.cursor.next();
                        if fractal && c == '.' {
                            self.cursor.back();
                            break;
                        }
                        if c == '.' {
                            match self.cursor.peek() {
                                Some(ahead) => {
                                    let (_, p) = ahead;
                                    if p == '.' {
                                        self.cursor.back();
                                        break;
                                    }
                                    fractal = true;
                                },
                                None => {},
                            }
                        }
                        end = e;
                    } else {
                        break;
                    }
                },
                None => {
                    break;
                },
            }
        }
        let value = copy_chars(&self.cursor.chars, start, end + 1);
        let token = Token { kind: TokenKind::Number, span: (start, end + 1), value };
        self.push(token);
        proof {
            assert(self.toks() =~= old(self).toks() + spec_number(s, i0).0);
        }
        Ok(())
    }

    /// Scans the lookahead after the keyword `not`: a following `" in "`
    /// collapses the two words into one membership operator; otherwise a
    /// standalone logical negation is emitted.
    fn not(&mut self, start: usize) -> (r: LexerResult<()>)
        requires
            old(self).wf(),
            start as int <= old(self).pos(),
            old(self).pos() <= old(self).src().len(),
        ensures
            routine_post(
                *old(self),
                *final(self),
                r,
                Ok(spec_not(old(self).src(), start as int, old(self).pos())),
            ),
    {
        let ghost s = old(self).src();
        let ghost e0 = old(self).pos();
        let space_in = vec![' ', 'i', 'n', ' '];
        proof {
            assert(space_in@ =~= seq![' ', 'i', 'n', ' ']);
        }
        if self.cursor.next_if_is(&space_in) {
            let end = self.cursor.position();
            let value = copy_chars(&self.cursor.chars, start, end - 1);
            self.push(
                Token {
                    kind: TokenKind::Operator(Operator::Comparison(ComparisonOperator::NotIn)),
                    span: (start, end - 1),
                    value,
                },
            );
            proof {
                assert(self.toks() =~= old(self).toks() + spec_not(s, start as int, e0).0);
            }
        } else {
            let end = self.cursor.position();
            let value = copy_chars(&self.cursor.chars, start, end);
            self.push(
                Token {
                    kind: TokenKind::Operator(Operator::Logical(LogicalOperator::Not)),
                    span: (start, end),
                    value,
                },
            );
            proof {
                assert(self.toks() =~= old(self).toks() + spec_not(s, start as int, e0).0);
            }
        }
        Ok(())
    }

    /// Scans an identifier or keyword: a leading alphabetic character and
    /// its alphanumeric continuation, matched against the fixed keyword
    /// set.
    fn identifier(&mut self) -> (r: LexerResult<()>)
        requires
            old(self).wf(),
            old(self).pos() < old(self).src().len(),
            is_alpha(old(self).src()[old(self).pos()]),
        ensures
            routine_post(
                *old(self),
                *final(self),
                r,
                Ok(spec_identifier(old(self).src(), old(self).pos())),
            ),
    {
        let ghost s = old(self).src();
        let ghost i0 = old(self).pos();
        let (start, _) = match self.next() {
            Ok(v) => v,
            Err(e) => return Err(e),
        };
        let mut end: usize = start;
        loop
            invariant
                self.wf(),
                self.src() == s,
                self.tokens == old(self).tokens,
                start as int == i0,
                i0 + 1 <= self.pos() <= s.len(),
                end as int + 1 == self.pos(),
                ident_end(s, i0 + 1) == ident_end(s, self.pos()),
            ensures
                self.wf(),
                self.src() == s,
                self.tokens == old(self).tokens,
                start as int == i0,
                i0 + 1 <= self.pos() <= s.len(),
                end as int + 1 == self.pos(),
                self.pos() == ident_end(s, i0 + 1),
            decreases s.len() - self.pos(),
        {
            match self.cursor.peek() {
                Some(pair) => {
                    let (e, c) = pair;
                    if is_alphanumeric_char(c) {
                        self.cursor.next();
                        end = e;
                    } else {
                        break;
                    }
                },
                None => {
                    break;
                },
            }
        }
        let value = copy_chars(&self.cursor.chars, start, end + 1);
        let ghost v = s.subrange(i0, ident_end(s, i0 + 1));
        let kw_and = vec!['a', 'n', 'd'];
        let kw_or = vec!['o', 'r'];
        let kw_in = vec!['i', 'n'];
        let kw_true = vec!['t', 'r', 'u', 'e'];
        let kw_false = vec!['f', 'a', 'l', 's', 'e'];
        let kw_not = vec!['n', 'o', 't'];
        proof {
            assert(kw_and@ =~= seq!['a', 'n', 'd']);
            assert(kw_or@ =~= seq!['o', 'r']);
            assert(kw_in@ =~= seq!['i', 'n']);
            assert(kw_true@ =~= seq!['t', 'r', 'u', 'e']);
            assert(kw_false@ =~= seq!['f', 'a', 'l', 's', 'e']);
            assert(kw_not@ =~= seq!['n', 'o', 't']);
        }
        if text_is(&value, &kw_and) {
            self.push(
                Token {
                    kind: TokenKind::Operator(Operator::Logical(LogicalOperator::And)),
                    span: (start, end + 1),
                    value,
                },
            );
        } else if text_is(&value, &kw_or) {
            self.push(
                Token {
                    kind: TokenKind::Operator(Operator::Logical(LogicalOperator::Or)),
                    span: (start, end + 1),
                    value,
                },
            );
        } else if text_is(&value, &kw_in) {
            self.push(
                Token {
                    kind: TokenKind::Operator(Operator::Comparison(ComparisonOperator::In)),
                    span: (start, end + 1),
                    value,
                },
            );
        } else if text_is(&value, &kw_true) {
            self.push(Token { kind: TokenKind::Boolean(true), span: (start, end + 1), value });
        } else if text_is(&value, &kw_false) {
            self.push(Token { kind: TokenKind::Boolean(false), span: (start, end + 1), value });
        } else if text_is(&value, &kw_not) {
            let res = self.not(start);
            proof {
                assert(self.toks() =~= old(self).toks() + spec_identifier(s, i0).0);
            }
            return res;
        } else {
            let name = copy_chars(&self.cursor.chars, start, end + 1);
            self.push(
                Token { kind: TokenKind::Identifier(name), span: (start, end + 1), value },
            );
        }
        proof {
            assert(self.toks() =~= old(self).toks() + spec_identifier(s, i0).0);
        }
        Ok(())
    }

    /// Scans a template string: an opening backtick, then an alternation
    /// of literal text and `${...}` expression interpolations, closed by a
    /// backtick. Characters inside an interpolation are handed back to the
    /// ordinary dispatch, so the expression's own tokens interleave in
    /// source order between the two marker tokens.
    fn template_string(&mut self) -> (r: LexerResult<()>)
        requires
            old(self).wf(),
            old(self).pos() < old(self).src().len(),
            old(self).src()[old(self).pos()] == '`',
        ensures
            routine_post(
                *old(self),
                *final(self),
                r,
                spec_template(old(self).src(), old(self).pos()),
            ),
        decreases old(self).src().len() - old(self).pos(), 0int,
    {
        let ghost s = old(self).src();
        let ghost i0 = old(self).pos();
        let (start, _) = match self.next() {
            Ok(v) => v,
            Err(e) => return Err(e),
        };
        let open_value = copy_chars(&self.cursor.chars, start, start + 1);
        let open_token = Token {
            kind: TokenKind::QuotationMark(QuotationMark::Backtick),
            span: (start, start + 1),
            value: open_value,
        };
        let ghost bt = sub_tok(s, SpecTokenKind::QuotationMark(QuotationMark::Backtick), i0, i0 + 1);
        proof {
            assert(open_token@ == bt);
        }
        self.push(open_token);
        let mut in_expression = false;
        let mut str_start: usize = start + 1;
        let ghost mut made: Seq<SpecToken> = Seq::empty();
        proof {
            assert(self.toks() =~= old(self).toks().push(bt) + made);
        }
        loop
            invariant
                self.wf(),
                s == old(self).src(),
                i0 == old(self).pos(),
                self.src() == s,
                start as int == i0,
                bt == sub_tok(s, SpecTokenKind::QuotationMark(QuotationMark::Backtick), i0, i0 + 1),
                i0 < self.pos() <= s.len(),
                i0 + 1 <= str_start as int <= self.pos(),
                self.toks() == old(self).toks().push(bt) + made,
                tb_result(made, spec_template_body(s, self.pos(), str_start as int, in_expression))
                    == spec_template_body(s, i0 + 1, i0 + 1, false),
            decreases s.len() - self.pos(),
        {
            let ghost made_pre = made;
            let ghost ss = str_start as int;
            let (e, c) = match self.next() {
                Ok(v) => v,
                Err(err) => {
                    proof {
                        assert(spec_template_body(s, self.pos(), ss, in_expression)
                            == Err::<(Seq<SpecToken>, int), LexerError>(eof_error(s)));
                    }
                    return Err(err);
                },
            };
            if c == '`' && !in_expression {
                let ghost emitted = spec_template_body(s, e as int, ss, false)->Ok_0.0;
                if str_start < e {
                    let lit_value = copy_chars(&self.cursor.chars, str_start, e);
                    let lit_token = Token {
                        kind: TokenKind::Literal,
                        span: (str_start, e),
                        value: lit_value,
                    };
                    proof {
                        assert(lit_token@ == sub_tok(s, SpecTokenKind::Literal, ss, e as int));
                    }
                    self.push(lit_token);
                }
                let close_value = copy_chars(&self.cursor.chars, e, e + 1);
                let close_token = Token {
                    kind: TokenKind::QuotationMark(QuotationMark::Backtick),
                    span: (e, e + 1),
                    value: close_value,
                };
                self.push(close_token);
                proof {
                    let body_here = spec_template_body(s, e as int, ss, false);
                    let close = sub_tok(
                        s,
                        SpecTokenKind::QuotationMark(QuotationMark::Backtick),
                        e as int,
                        e as int + 1,
                    );
                    assert(s[e as int] == '`');
                    if ss < e as int {
                        assert(body_here == Ok::<(Seq<SpecToken>, int), LexerError>(
                            (seq![sub_tok(s, SpecTokenKind::Literal, ss, e as int), close], e as int + 1),
                        ));
                    } else {
                        assert(body_here == Ok::<(Seq<SpecToken>, int), LexerError>(
                            (seq![close], e as int + 1),
                        ));
                    }
                    assert(spec_template_body(s, i0 + 1, i0 + 1, false)
                        == Ok::<(Seq<SpecToken>, int), LexerError>((made + emitted, e as int + 1)));
                    lemma_template_wraps(s, i0);
                    assert(spec_template(s, i0)->Ok_0.0 == seq![bt] + (made + emitted));
                    assert(self.toks() =~= old(self).toks() + spec_template(s, i0)->Ok_0.0);
                }
                return Ok(());
            } else if c == '$' && !in_expression {
                let brace = vec!['{'];
                proof {
                    assert(brace@ =~= seq!['{']);
                }
                if self.cursor.next_if_is(&brace) {
                    proof {
                        assert(s.subrange(e as int + 1, e as int + 2)[0] == s[e as int + 1]);
                    }
                    let lit_value = copy_chars(&self.cursor.chars, str_start, e);
                    let lit_token = Token {
                        kind: TokenKind::Literal,
                        span: (str_start, e),
                        value: lit_value,
                    };
                    proof {
                        assert(lit_token@ == sub_tok(s, SpecTokenKind::Literal, ss, e as int));
                    }
                    self.push(lit_token);
                    let marker_value = copy_chars(&self.cursor.chars, e, e + 2);
                    let marker_token = Token {
                        kind: TokenKind::TemplateString(TemplateString::ExpressionStart),
                        span: (e, e + 2),
                        value: marker_value,
                    };
                    self.push(marker_token);
                    in_expression = true;
                    str_start = e + 2;
                    proof {
                        let opened = seq![
                            sub_tok(s, SpecTokenKind::Literal, ss, e as int),
                            sub_tok(
                                s,
                                SpecTokenKind::TemplateString(TemplateString::ExpressionStart),
                                e as int,
                                e as int + 2,
                            ),
                        ];
                        made = made + opened;
                        assert(self.toks() =~= old(self).toks().push(bt) + made);
                        let inner = spec_template_body(s, e as int + 2, e as int + 2, true);
                        if inner is Ok {
                            assert(made_pre + (opened + inner->Ok_0.0) =~= made + inner->Ok_0.0);
                        }
                    }
                } else {
                    proof {
                        if e as int + 1 < s.len() && s[e as int + 1] == '{' {
                            assert(s.subrange(e as int + 1, e as int + 2) =~= seq!['{']);
                        }
                        assert(spec_template_body(s, e as int, ss, false)
                            == spec_template_body(s, e as int + 1, ss, false));
                    }
                }
            } else if c == '}' && in_expression {
                let marker_value = vec!['}'];
                proof {
                    assert(marker_value@ =~= seq!['}']);
                }
                let end_token = Token {
                    kind: TokenKind::TemplateString(TemplateString::ExpressionEnd),
                    span: (str_start, e),
                    value: marker_value,
                };
                let ghost end_tok = SpecToken {
                    kind: SpecTokenKind::TemplateString(TemplateString::ExpressionEnd),
                    start: ss,
                    end: e as int,
                    value: seq!['}'],
                };
                proof {
                    assert(end_token@ == end_tok);
                }
                self.push(end_token);
                str_start = e + 1;
                in_expression = false;
                proof {
                    made = made + seq![end_tok];
                    assert(self.toks() =~= old(self).toks().push(bt) + made);
                    let inner = spec_template_body(s, e as int + 1, e as int + 1, false);
                    if inner is Ok {
                        assert(made_pre + (seq![end_tok] + inner->Ok_0.0) =~= made + inner->Ok_0.0);
                    }
                }
            } else if !in_expression {
                proof {
                    assert(spec_template_body(s, e as int, ss, false)
                        == spec_template_body(s, e as int + 1, ss, false));
                }
            } else {
                self.cursor.back();
                match self.scan_cursor_item((e, c)) {
                    Ok(()) => {
                        proof {
                            lemma_item_bounds(s, e as int);
                            let d_i = spec_item(s, e as int);
                            let ts_i = d_i->Ok_0.0;
                            let j_i = d_i->Ok_0.1;
                            assert(advance(e as int, j_i, s.len() as int) == j_i);
                            made = made + ts_i;
                            assert(self.toks() =~= old(self).toks().push(bt) + made);
                            let inner = spec_template_body(s, j_i, ss, true);
                            if inner is Ok {
                                assert(made_pre + (ts_i + inner->Ok_0.0) =~= made + inner->Ok_0.0);
                            }
                        }
                    },
                    Err(err) => {
                        proof {
                            assert(spec_template_body(s, e as int, ss, true)
                                == Err::<(Seq<SpecToken>, int), LexerError>(err));
                        }
                        return Err(err);
                    },
                }
            }
        }
    }

    /// Routes one peeked character to the scan routine of its class, or
    /// fails on a character outside every class.
    pub(crate) fn scan_cursor_item(&mut self, cursor_item: (usize, char)) -> (r: LexerResult<()>)
        requires
            old(self).wf(),
            old(self).pos() < old(self).src().len(),
            cursor_item.0 as int == old(self).pos(),
            cursor_item.1 == old(self).src()[old(self).pos()],
        ensures
            routine_post(
                *old(self),
                *final(self),
                r,
                spec_item(old(self).src(), old(self).pos()),
            ),
        decreases old(self).src().len() - old(self).pos(), 1int,
    {
        let (i, c) = cursor_item;
        if is_space_char(c) {
            self.cursor.next();
            proof {
                assert(self.toks() =~= old(self).toks() + Seq::<SpecToken>::empty());
            }
            Ok(())
        } else if c == '\'' {
            self.string(QuotationMark::SingleQuote)
        } else if c == '"' {
            self.string(QuotationMark::DoubleQuote)
        } else if is_digit_char(c) {
            self.number()
        } else if is_bracket_char(c) {
            self.bracket()
        } else if is_cmp_operator_char(c) {
            self.cmp_operator()
        } else if is_operator_char(c) {
            self.operator()
        } else if is_question_mark_char(c) {
            self.question_mark()
        } else if c == '`' {
            self.template_string()
        } else if c == '.' {
            self.dot()
        } else if is_alpha_char(c) {
            self.identifier()
        } else {
            Err(LexerError::UnmatchedSymbol { symbol: c, position: i })
        }
    }

    /// Scans the whole remaining source: repeatedly peeks the next
    /// character and dispatches it, until the input is exhausted or a
    /// routine fails.
    pub fn scan(&mut self) -> (r: LexerResult<()>)
        requires
            old(self).wf(),
        ensures
            final(self).wf(),
            final(self).src() == old(self).src(),
            match r {
                Ok(_) => spec_scan(old(self).src(), old(self).pos()) matches Ok(ts)
                    && final(self).toks() == old(self).toks() + ts,
                Err(e) => spec_scan(old(self).src(), old(self).pos()) == Err::<
                    Seq<SpecToken>,
                    LexerError,
                >(e),
            },
    {
        let ghost s = old(self).src();
        let ghost i0 = old(self).pos();
        let ghost mut made: Seq<SpecToken> = Seq::empty();
        proof {
            assert(self.toks() =~= old(self).toks() + made);
        }
        loop
            invariant
                self.wf(),
                s == old(self).src(),
                i0 == old(self).pos(),
                self.src() == s,
                i0 <= self.pos() <= s.len(),
                self.toks() == old(self).toks() + made,
                sc_result(made, spec_scan(s, self.pos())) == spec_scan(s, i0),
            decreases s.len() - self.pos(),
        {
            let ghost made_pre = made;
            match self.cursor.peek() {
                Some(pair) => {
                    let ghost p = self.pos();
                    match self.scan_cursor_item(pair) {
                        Ok(()) => {
                            proof {
                                lemma_item_bounds(s, p);
                                let d = spec_item(s, p);
                                let ts_i = d->Ok_0.0;
                                let j_i = d->Ok_0.1;
                                assert(advance(p, j_i, s.len() as int) == j_i);
                                made = made + ts_i;
                                assert(self.toks() =~= old(self).toks() + made);
                                let rest = spec_scan(s, j_i);
                                if rest is Ok {
                                    assert(made_pre + (ts_i + rest->Ok_0) =~= made + rest->Ok_0);
                                }
                            }
                        },
                        Err(err) => {
                            proof {
                                assert(spec_scan(s, p) == Err::<Seq<SpecToken>, LexerError>(err));
                            }
                            return Err(err);
                        },
                    }
                },
                None => {
                    proof {
                        assert(spec_scan(s, self.pos()) == Ok::<Seq<SpecToken>, LexerError>(
                            Seq::<SpecToken>::empty(),
                        ));
                        assert(made + Seq::<SpecToken>::empty() =~= made);
                    }
                    return Ok(());
                },
            }
        }
    }
}

/// What a finished `tokenize` call guarantees: its outcome — the token
/// sequence on success, the error on failure — is exactly the model's
/// scan of the source, and so a pure function of the source text alone.
pub open spec fn tokenize_post(r: Result<Vec<Token>, LexerError>, s: Seq<char>) -> bool {
    match r {
        Ok(toks) => spec_scan(s, 0) matches Ok(ts) && token_views(toks@) == ts,
        Err(e) => spec_scan(s, 0) == Err::<Seq<SpecToken>, LexerError>(e),
    }
}

/// The lexer's public face. It keeps no state that a scan could observe:
/// every `tokenize` call scans its source independently.
pub struct Lexer {}

impl Lexer {
    pub fn new() -> (r: Lexer) {
        Lexer {}
    }

    /// Scans `source` into its ordered token sequence, or reports the
    /// first error. The outcome is a pure function of `source`: repeated
    /// calls on the same text return identical results.
    pub fn tokenize(&mut self, source: &Vec<char>) -> (r: Result<Vec<Token>, LexerError>)
        ensures
            tokenize_post(r, source@),
    {
        let mut scanner = Scanner::new(source);
        match scanner.scan() {
            Ok(()) => {
                proof {
                    if spec_scan(source@, 0) is Ok {
                        assert(Seq::<SpecToken>::empty() + spec_scan(source@, 0)->Ok_0 =~= spec_scan(
                            source@,
                            0,
                        )->Ok_0);
                    }
                }
                Ok(scanner.tokens)
            },
            Err(e) => Err(e),
        }
    }
}

} // verus!
