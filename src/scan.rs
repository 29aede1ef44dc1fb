//! The tokenizer's behaviour, stated over the source as a sequence of
//! characters and a cursor position.
use vstd::prelude::*;

use crate::direction::Direction;
use crate::lexer::LexerError;
use crate::text::{alphanumeric_of, is_ascii_digit, is_ascii_letter, is_white_space, numeric_of};
use crate::token::{keyword_of, TokenView};

verus! {

/// A character that may stand in an identifier or keyword: an underscore,
/// or a character that `char::is_alphanumeric` accepts, which among ASCII
/// characters are the letters and digits.
pub open spec fn is_word_char(c: char) -> bool {
    c == '_' || if c <= '\u{7f}' {
        is_ascii_letter(c) || is_ascii_digit(c)
    } else {
        alphanumeric_of(c)
    }
}

/// A character that `char::is_numeric` accepts: among ASCII characters, the digits.
pub open spec fn is_number_char(c: char) -> bool {
    if c <= '\u{7f}' {
        is_ascii_digit(c)
    } else {
        numeric_of(c)
    }
}

/// The first position at or after `i` that does not hold whitespace.
pub open spec fn skip_whitespace(s: Seq<char>, i: int) -> int
    decreases s.len() - i,
{
    if 0 <= i < s.len() && is_white_space(s[i]) {
        skip_whitespace(s, i + 1)
    } else {
        i
    }
}

/// The position of the first `goal` at or after `i` that no unescaped
/// backslash precedes, or the end of the source if there is none.
/// `escaped` says whether the character at `i` is escaped.
pub open spec fn until_stop(s: Seq<char>, i: int, goal: char, escaped: bool) -> int
    decreases s.len() - i,
{
    if 0 <= i < s.len() {
        if !escaped && s[i] == goal {
            i
        } else {
            until_stop(s, i + 1, goal, !escaped && s[i] == '\\')
        }
    } else {
        i
    }
}

/// Where scanning from `i` resumes after a delimited body that ends at `e`:
/// past the closing character if there is one.
pub open spec fn after_stop(s: Seq<char>, e: int) -> int {
    if e < s.len() {
        e + 1
    } else {
        e
    }
}

/// The end of a run of numeric characters with at most one decimal point,
/// starting at `i`; `seen_dot` says whether the run already holds its decimal point. A run
/// that stops at a `.` stops at a second decimal point.
pub open spec fn number_stop(s: Seq<char>, i: int, seen_dot: bool) -> int
    decreases s.len() - i,
{
    if 0 <= i < s.len() {
        if s[i] == '.' {
            if seen_dot {
                i
            } else {
                number_stop(s, i + 1, true)
            }
        } else if is_number_char(s[i]) {
            number_stop(s, i + 1, seen_dot)
        } else {
            i
        }
    } else {
        i
    }
}

/// The end of the maximal run of word characters starting at `i`.
pub open spec fn word_end(s: Seq<char>, i: int) -> int
    decreases s.len() - i,
{
    if 0 <= i < s.len() && is_word_char(s[i]) {
        word_end(s, i + 1)
    } else {
        i
    }
}

pub proof fn lemma_word_end(s: Seq<char>, i: int)
    requires
        0 <= i <= s.len(),
    ensures
        i <= word_end(s, i) <= s.len(),
        word_end(s, i) == s.len() || !is_word_char(s[word_end(s, i)]),
        forall|m: int| i <= m < word_end(s, i) ==> is_word_char(#[trigger] s[m]),
    decreases s.len() - i,
{
    if i < s.len() && is_word_char(s[i]) {
        lemma_word_end(s, i + 1);
    }
}

pub proof fn lemma_number_stop_bounds(s: Seq<char>, i: int, seen_dot: bool)
    requires
        0 <= i <= s.len(),
    ensures
        i <= number_stop(s, i, seen_dot) <= s.len(),
    decreases s.len() - i,
{
    if i < s.len() {
        if s[i] == '.' {
            if !seen_dot {
                lemma_number_stop_bounds(s, i + 1, true);
            }
        } else if is_number_char(s[i]) {
            lemma_number_stop_bounds(s, i + 1, seen_dot);
        }
    }
}

/// A one-character token at `k`, or the two-character one when `second` follows.
pub open spec fn one_or_two(s: Seq<char>, k: int, second: char, two: TokenView, one: TokenView) -> (
    Result<TokenView, LexerError>,
    int,
) {
    if k + 1 < s.len() && s[k + 1] == second {
        (Ok(two), k + 2)
    } else {
        (Ok(one), k + 1)
    }
}

/// How a word is classified: a keyword when it spells one exactly, else an identifier.
pub open spec fn classify_word(w: Seq<char>) -> TokenView {
    match keyword_of(w) {
        Some(k) => TokenView::Keyword(k),
        None => TokenView::Identifier(w),
    }
}

/// The token that a token starting with `c` at `k` makes, for the
/// characters that form a token on their own or with one more.
pub open spec fn lex_symbol(s: Seq<char>, k: int, c: char) -> (Result<TokenView, LexerError>, int) {
    if c == '+' {
        one_or_two(s, k, '+', TokenView::PlusPlus, TokenView::Plus)
    } else if c == '-' {
        if k + 1 < s.len() && s[k + 1] == '-' {
            (Ok(TokenView::MinusMinus), k + 2)
        } else {
            one_or_two(s, k, '>', TokenView::Arrow, TokenView::Minus)
        }
    } else if c == '*' {
        (Ok(TokenView::Star), k + 1)
    } else if c == '/' {
        if k + 1 < s.len() && s[k + 1] == '/' {
            let e = until_stop(s, k + 2, '\n', false);
            (Ok(TokenView::SlashSlash(s.subrange(k + 2, e))), after_stop(s, e))
        } else {
            // A block comment's body is not captured: its token is always empty.
            one_or_two(s, k, '*', TokenView::SlashStar(Seq::empty()), TokenView::Slash)
        }
    } else if c == '!' {
        one_or_two(s, k, '=', TokenView::BangEqual, TokenView::Bang)
    } else if c == '~' {
        (Ok(TokenView::Tilde), k + 1)
    } else if c == '^' {
        (Ok(TokenView::Caret), k + 1)
    } else if c == '=' {
        one_or_two(s, k, '=', TokenView::EqualEqual, TokenView::Equal)
    } else if c == '>' {
        one_or_two(s, k, '=', TokenView::GreaterEqual, TokenView::Greater)
    } else if c == '<' {
        one_or_two(s, k, '=', TokenView::LessEqual, TokenView::Less)
    } else if c == '(' {
        (Ok(TokenView::Parenthesis(Direction::Left)), k + 1)
    } else if c == ')' {
        (Ok(TokenView::Parenthesis(Direction::Right)), k + 1)
    } else if c == '{' {
        (Ok(TokenView::Brace(Direction::Left)), k + 1)
    } else if c == '}' {
        (Ok(TokenView::Brace(Direction::Right)), k + 1)
    } else if c == '[' {
        (Ok(TokenView::Bracket(Direction::Left)), k + 1)
    } else if c == ']' {
        (Ok(TokenView::Bracket(Direction::Right)), k + 1)
    } else if c == ';' {
        (Ok(TokenView::Semicolon), k + 1)
    } else if c == '&' {
        (Ok(TokenView::Ampersand), k + 1)
    } else if c == ',' {
        (Ok(TokenView::Comma), k + 1)
    } else {
        (Ok(TokenView::Dot), k + 1)
    }
}

/// Characters that `lex_symbol` handles.
pub open spec fn is_symbol_start(c: char) -> bool {
    c == '+' || c == '-' || c == '*' || c == '/' || c == '!' || c == '~' || c == '^' || c == '='
        || c == '>' || c == '<' || c == '(' || c == ')' || c == '{' || c == '}' || c == '['
        || c == ']' || c == ';' || c == '&' || c == ',' || c == '.'
}

/// The next token after position `i`, or the error met, together with the
/// position where the cursor stands afterwards.
pub open spec fn lex_token(s: Seq<char>, i: int) -> (Result<TokenView, LexerError>, int) {
    let k = skip_whitespace(s, i);
    if k >= s.len() {
        (Err(LexerError::EndOfFileReached), k)
    } else {
        let c = s[k];
        if is_symbol_start(c) {
            lex_symbol(s, k, c)
        } else if c == '"' {
            let e = until_stop(s, k + 1, '"', false);
            (Ok(TokenView::Str(s.subrange(k + 1, e))), after_stop(s, e))
        } else if is_ascii_digit(c) {
            let e = number_stop(s, k, false);
            if e < s.len() && s[e] == '.' {
                (Err(LexerError::InvalidNumber), e)
            } else {
                (Ok(TokenView::Number(s.subrange(k, e))), e)
            }
        } else if is_ascii_letter(c) || c == '_' {
            let e = word_end(s, k);
            (Ok(classify_word(s.subrange(k, e))), e)
        } else {
            (Err(LexerError::UnknownCharacter), k)
        }
    }
}

/// One pull of the token sequence: nothing once the source is used up.
pub open spec fn lex_next(s: Seq<char>, i: int) -> (Option<Result<TokenView, LexerError>>, int) {
    let (r, j) = lex_token(s, i);
    if r == Err::<TokenView, LexerError>(LexerError::EndOfFileReached) && j == s.len() {
        (None, j)
    } else {
        (Some(r), j)
    }
}

/// `p` put in front of the tokens of `r`, or the error of `r`.
pub open spec fn prefixed(p: Seq<TokenView>, r: Result<Seq<TokenView>, LexerError>) -> Result<
    Seq<TokenView>,
    LexerError,
> {
    match r {
        Ok(ts) => Ok(p + ts),
        Err(e) => Err(e),
    }
}

/// All tokens from position `i` to the end of the source, or the first error met.
pub open spec fn lex_all(s: Seq<char>, i: int) -> Result<Seq<TokenView>, LexerError>
    decreases s.len() - i,
{
    let (r, j) = lex_next(s, i);
    match r {
        None => Ok(Seq::empty()),
        Some(Ok(t)) => if i < j <= s.len() {
            prefixed(seq![t], lex_all(s, j))
        } else {
            Ok(seq![t])
        },
        Some(Err(e)) => Err(e),
    }
}

/// All tokens of a whole source text, or the first error met.
pub open spec fn tokenize(s: Seq<char>) -> Result<Seq<TokenView>, LexerError> {
    lex_all(s, 0)
}

} // verus!
