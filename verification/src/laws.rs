//! Laws of the scan, stated and proved over the model that the scanner's
//! contracts are phrased in.

use vstd::prelude::*;

use crate::codes::is_space;
use crate::error::LexerError;
use crate::lexer::tokenize_post;
use crate::model::{find_close, quote_mark_of, spec_scan, sub_tok};
use crate::token::{token_views, SpecToken, SpecTokenKind, Token};

verus! {

proof fn lemma_spaces_scan_empty(s: Seq<char>, i: int)
    requires
        0 <= i,
        forall|k: int| i <= k < s.len() ==> is_space(s[k]),
    ensures
        spec_scan(s, i) == Ok::<Seq<SpecToken>, LexerError>(Seq::<SpecToken>::empty()),
    decreases s.len() - i,
{
    if i < s.len() {
        assert(is_space(s[i]));
        lemma_spaces_scan_empty(s, i + 1);
        assert(Seq::<SpecToken>::empty() + Seq::<SpecToken>::empty() =~= Seq::<
            SpecToken,
        >::empty());
    }
}

/// A source consisting solely of whitespace scans to the empty token
/// sequence, and no error occurs.
pub proof fn lemma_whitespace_yields_no_tokens(s: Seq<char>)
    requires
        forall|k: int| 0 <= k < s.len() ==> is_space(s[k]),
    ensures
        spec_scan(s, 0) == Ok::<Seq<SpecToken>, LexerError>(Seq::<SpecToken>::empty()),
{
    lemma_spaces_scan_empty(s, 0);
}

proof fn lemma_find_close_at(s: Seq<char>, i: int, j: int, q: char)
    requires
        0 <= i <= j < s.len(),
        s[j] == q,
        forall|k: int| i <= k < j ==> s[k] != q,
    ensures
        find_close(s, i, q) == Some(j),
    decreases j - i,
{
    if i < j {
        lemma_find_close_at(s, i + 1, j, q);
    }
}

/// A quoted string whose body holds no matching quote character scans to
/// exactly three tokens — opening mark, literal body, closing mark —
/// whose spans are contiguous and whose values concatenate back to the
/// scanned text.
pub proof fn lemma_quoted_string_three_tokens(q: char, body: Seq<char>)
    requires
        q == '\'' || q == '"',
        forall|k: int| 0 <= k < body.len() ==> body[k] != q,
    ensures
        ({
            let s = seq![q] + body + seq![q];
            let n = body.len() as int;
            let open = SpecToken {
                kind: SpecTokenKind::QuotationMark(quote_mark_of(q)),
                start: 0,
                end: 1,
                value: seq![q],
            };
            let lit = SpecToken { kind: SpecTokenKind::Literal, start: 1, end: n + 1, value: body };
            let close = SpecToken {
                kind: SpecTokenKind::QuotationMark(quote_mark_of(q)),
                start: n + 1,
                end: n + 2,
                value: seq![q],
            };
            &&& spec_scan(s, 0) == Ok::<Seq<SpecToken>, LexerError>(seq![open, lit, close])
            &&& open.value + lit.value + close.value == s
        }),
{
    let s = seq![q] + body + seq![q];
    let n = body.len() as int;
    assert(s.len() == n + 2);
    assert(s[0] == q);
    assert(s[n + 1] == q);
    assert forall|k: int| 1 <= k < n + 1 implies s[k] == body[k - 1] by {
        assert(s[k] == (seq![q] + body)[k]);
    }
    assert(forall|k: int| 1 <= k < n + 1 ==> s[k] != q);
    lemma_find_close_at(s, 1, n + 1, q);
    assert(s.subrange(0, 1) =~= seq![q]);
    assert(s.subrange(1, n + 1) =~= body);
    assert(s.subrange(n + 1, n + 2) =~= seq![q]);
    let toks = seq![
        sub_tok(s, SpecTokenKind::QuotationMark(quote_mark_of(q)), 0, 1),
        sub_tok(s, SpecTokenKind::Literal, 1, n + 1),
        sub_tok(s, SpecTokenKind::QuotationMark(quote_mark_of(q)), n + 1, n + 2),
    ];
    assert(toks + Seq::<SpecToken>::empty() =~= toks);
    let open = SpecToken {
        kind: SpecTokenKind::QuotationMark(quote_mark_of(q)),
        start: 0,
        end: 1,
        value: seq![q],
    };
    let lit = SpecToken { kind: SpecTokenKind::Literal, start: 1, end: n + 1, value: body };
    let close = SpecToken {
        kind: SpecTokenKind::QuotationMark(quote_mark_of(q)),
        start: n + 1,
        end: n + 2,
        value: seq![q],
    };
    assert(toks =~= seq![open, lit, close]);
    assert(!is_space(q));
    assert(crate::model::spec_item(s, 0) == crate::model::spec_string(s, 0));
    assert(crate::model::spec_string(s, 0) == Ok::<(Seq<SpecToken>, int), LexerError>(
        (toks, n + 2),
    ));
    assert(crate::model::advance(0, n + 2, s.len() as int) == n + 2);
    assert(spec_scan(s, n + 2) == Ok::<Seq<SpecToken>, LexerError>(Seq::<SpecToken>::empty()));
    assert(spec_scan(s, 0) == Ok::<Seq<SpecToken>, LexerError>(toks));
    assert(open.value + lit.value + close.value =~= s);
}

/// Scanning is deterministic in the source text alone: any two finished
/// `tokenize` outcomes for the same source are the same — equal token
/// sequences on success, equal errors on failure. No state carries over
/// between calls.
pub proof fn lemma_tokenize_deterministic(
    r1: Result<Vec<Token>, LexerError>,
    r2: Result<Vec<Token>, LexerError>,
    s: Seq<char>,
)
    requires
        tokenize_post(r1, s),
        tokenize_post(r2, s),
    ensures
        match (r1, r2) {
            (Ok(a), Ok(b)) => token_views(a@) == token_views(b@),
            (Err(e1), Err(e2)) => e1 == e2,
            _ => false,
        },
{
}

} // verus!
