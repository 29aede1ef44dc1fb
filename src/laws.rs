//! General facts about tokenizing, proved over the scanner model.
use vstd::prelude::*;

use crate::lexer::LexerError;
use crate::scan::{
    is_number_char, is_word_char, lemma_number_stop_bounds, lemma_word_end, lex_token, number_stop,
    skip_whitespace, tokenize, until_stop, word_end,
};
use crate::text::{is_ascii_digit, is_ascii_letter, is_white_space};
use crate::token::{keyword_of, keyword_text, TokenKeyword, TokenView};

verus! {

/// Whether the character at `m` is escaped, for a body whose scan started at
/// `from`: it directly follows a backslash that is not itself escaped.
pub open spec fn escaped_at(s: Seq<char>, from: int, m: int) -> bool
    decreases m - from,
{
    if m <= from {
        false
    } else {
        !escaped_at(s, from, m - 1) && s[m - 1] == '\\'
    }
}

/// The two-character operators, by their two characters.
pub open spec fn two_char_token(a: char, b: char) -> Option<TokenView> {
    if a == '+' && b == '+' {
        Some(TokenView::PlusPlus)
    } else if a == '-' && b == '-' {
        Some(TokenView::MinusMinus)
    } else if a == '-' && b == '>' {
        Some(TokenView::Arrow)
    } else if a == '!' && b == '=' {
        Some(TokenView::BangEqual)
    } else if a == '=' && b == '=' {
        Some(TokenView::EqualEqual)
    } else if a == '>' && b == '=' {
        Some(TokenView::GreaterEqual)
    } else if a == '<' && b == '=' {
        Some(TokenView::LessEqual)
    } else if a == '/' && b == '*' {
        Some(TokenView::SlashStar(Seq::empty()))
    } else {
        None
    }
}

proof fn lemma_skip_all_whitespace(s: Seq<char>, i: int)
    requires
        0 <= i <= s.len(),
        forall|m: int| i <= m < s.len() ==> is_white_space(#[trigger] s[m]),
    ensures
        skip_whitespace(s, i) == s.len(),
    decreases s.len() - i,
{
    if i < s.len() {
        lemma_skip_all_whitespace(s, i + 1);
    }
}

proof fn lemma_skip_whitespace_bounds(s: Seq<char>, i: int)
    requires
        0 <= i <= s.len(),
    ensures
        i <= skip_whitespace(s, i) <= s.len(),
    decreases s.len() - i,
{
    if i < s.len() && is_white_space(s[i]) {
        lemma_skip_whitespace_bounds(s, i + 1);
    }
}

proof fn lemma_until_stop(s: Seq<char>, from: int, i: int, goal: char)
    requires
        0 <= from <= i <= s.len(),
    ensures
        ({
            let e = until_stop(s, i, goal, escaped_at(s, from, i));
            &&& i <= e <= s.len()
            &&& forall|m: int| i <= m < e ==> !(#[trigger] s[m] == goal && !escaped_at(s, from, m))
            &&& e < s.len() ==> s[e] == goal && !escaped_at(s, from, e)
        }),
    decreases s.len() - i,
{
    if i < s.len() {
        let esc = escaped_at(s, from, i);
        if !(!esc && s[i] == goal) {
            assert(escaped_at(s, from, i + 1) == (!esc && s[i] == '\\'));
            lemma_until_stop(s, from, i + 1, goal);
        }
    }
}

proof fn lemma_number_stop(s: Seq<char>, from: int, i: int, seen: bool)
    requires
        0 <= from <= i <= s.len(),
        seen <==> exists|m: int| from <= m < i && #[trigger] s[m] == '.',
        forall|a: int, b: int| from <= a < b < i ==> !(#[trigger] s[a] == '.' && #[trigger] s[b] == '.'),
    ensures
        ({
            let e = number_stop(s, i, seen);
            &&& i <= e <= s.len()
            &&& forall|m: int| i <= m < e ==> #[trigger] s[m] == '.' || is_number_char(s[m])
            &&& forall|a: int, b: int|
                from <= a < b < e ==> !(#[trigger] s[a] == '.' && #[trigger] s[b] == '.')
            &&& e < s.len() && s[e] == '.' ==> exists|m: int| from <= m < e && #[trigger] s[m] == '.'
        }),
    decreases s.len() - i,
{
    if i < s.len() {
        if s[i] == '.' {
            if !seen {
                assert(exists|m: int| from <= m < i + 1 && #[trigger] s[m] == '.') by {
                    assert(s[i] == '.');
                }
                assert forall|a: int, b: int| from <= a < b < i + 1 implies !(#[trigger] s[a] == '.'
                    && #[trigger] s[b] == '.') by {
                    if b == i && s[a] == '.' {
                        assert(from <= a < i && s[a] == '.');
                    }
                }
                lemma_number_stop(s, from, i + 1, true);
            }
        } else if is_number_char(s[i]) {
            assert(seen <==> exists|m: int| from <= m < i + 1 && #[trigger] s[m] == '.');
            lemma_number_stop(s, from, i + 1, seen);
        }
    }
}

proof fn lemma_keyword_of_spells(w: Seq<char>, k: TokenKeyword)
    requires
        keyword_of(w) == Some(k),
    ensures
        keyword_text(k) == w,
{
}

/// A text made only of whitespace has no tokens.
pub proof fn lemma_whitespace_only_is_empty(s: Seq<char>)
    requires
        forall|m: int| 0 <= m < s.len() ==> is_white_space(#[trigger] s[m]),
    ensures
        tokenize(s) == Ok::<Seq<TokenView>, LexerError>(Seq::empty()),
{
    lemma_skip_all_whitespace(s, 0);
}

/// Maximal munch on operators: where the two characters after the
/// whitespace form a two-character operator, that one token is produced
/// and both characters are read.
pub proof fn lemma_two_char_operator_wins(s: Seq<char>, i: int)
    requires
        0 <= i <= s.len(),
        skip_whitespace(s, i) + 1 < s.len(),
        two_char_token(s[skip_whitespace(s, i)], s[skip_whitespace(s, i) + 1]) is Some,
    ensures
        ({
            let k = skip_whitespace(s, i);
            lex_token(s, i) == (
                Ok::<TokenView, LexerError>(two_char_token(s[k], s[k + 1])->Some_0),
                k + 2,
            )
        }),
{
    lemma_skip_whitespace_bounds(s, i);
}

/// Words: the whole maximal run of letters, digits and underscores is read
/// as one token. It is the keyword it spells, wherever it stands, and an
/// identifier when it spells none.
pub proof fn lemma_word_classification(s: Seq<char>, i: int)
    requires
        0 <= i <= s.len(),
        skip_whitespace(s, i) < s.len(),
        is_ascii_letter(s[skip_whitespace(s, i)]) || s[skip_whitespace(s, i)] == '_',
    ensures
        ({
            let k = skip_whitespace(s, i);
            let (r, j) = lex_token(s, i);
            let w = s.subrange(k, j);
            &&& k < j <= s.len()
            &&& j == word_end(s, k)
            &&& forall|m: int| k <= m < j ==> is_word_char(#[trigger] s[m])
            &&& j == s.len() || !is_word_char(s[j])
            &&& forall|kw: TokenKeyword|
                w == keyword_text(kw) ==> r == Ok::<TokenView, LexerError>(TokenView::Keyword(kw))
            &&& (forall|kw: TokenKeyword| w != keyword_text(kw)) ==> r == Ok::<
                TokenView,
                LexerError,
            >(TokenView::Identifier(w))
        }),
{
    let k = skip_whitespace(s, i);
    lemma_skip_whitespace_bounds(s, i);
    lemma_word_end(s, k);
    lemma_word_end(s, k + 1);
    let w = s.subrange(k, word_end(s, k));
    assert forall|kw: TokenKeyword| w == keyword_text(kw) implies keyword_of(w) == Some(kw) by {
        crate::token::lemma_keyword_round_trip(kw);
    }
    if keyword_of(w) is Some {
        lemma_keyword_of_spells(w, keyword_of(w)->Some_0);
    }
}

/// String literals: the body runs up to the first quote that no unescaped
/// backslash precedes, escapes kept as they stand. A literal that the text
/// never closes is not an error: its body is the rest of the text.
pub proof fn lemma_string_literal(s: Seq<char>, i: int)
    requires
        0 <= i <= s.len(),
        skip_whitespace(s, i) < s.len(),
        s[skip_whitespace(s, i)] == '"',
    ensures
        ({
            let k = skip_whitespace(s, i);
            let (r, j) = lex_token(s, i);
            let e = until_stop(s, k + 1, '"', false);
            &&& k + 1 <= e <= s.len()
            &&& r == Ok::<TokenView, LexerError>(TokenView::Str(s.subrange(k + 1, e)))
            &&& forall|m: int|
                k + 1 <= m < e ==> !(#[trigger] s[m] == '"' && !escaped_at(s, k + 1, m))
            &&& e < s.len() ==> s[e] == '"' && !escaped_at(s, k + 1, e) && j == e + 1
            &&& e == s.len() ==> j == s.len()
        }),
{
    let k = skip_whitespace(s, i);
    lemma_skip_whitespace_bounds(s, i);
    lemma_until_stop(s, k + 1, k + 1, '"');
}

/// Number literals: the token's text is exactly the digits and the decimal
/// point read, with nothing rounded or dropped. A literal holds at most one
/// decimal point; a second one is an error.
pub proof fn lemma_number_literal(s: Seq<char>, i: int)
    requires
        0 <= i <= s.len(),
        skip_whitespace(s, i) < s.len(),
        is_ascii_digit(s[skip_whitespace(s, i)]),
    ensures
        ({
            let k = skip_whitespace(s, i);
            let (r, j) = lex_token(s, i);
            let e = number_stop(s, k, false);
            &&& k < e <= s.len()
            &&& j == e
            &&& forall|m: int| k <= m < e ==> #[trigger] s[m] == '.' || is_number_char(s[m])
            &&& forall|a: int, b: int|
                k <= a < b < e ==> !(#[trigger] s[a] == '.' && #[trigger] s[b] == '.')
            &&& if e < s.len() && s[e] == '.' {
                &&& r == Err::<TokenView, LexerError>(LexerError::InvalidNumber)
                &&& exists|m: int| k <= m < e && #[trigger] s[m] == '.'
            } else {
                r == Ok::<TokenView, LexerError>(TokenView::Number(s.subrange(k, e)))
            }
        }),
{
    let k = skip_whitespace(s, i);
    lemma_skip_whitespace_bounds(s, i);
    lemma_number_stop(s, k, k, false);
    lemma_number_stop_bounds(s, k + 1, false);
}

} // verus!
