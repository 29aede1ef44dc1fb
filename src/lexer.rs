use vstd::prelude::*;

use vstd::std_specs::iter::IteratorSpec;

use crate::direction::Direction;
use crate::scan::{
    after_stop, lemma_number_stop_bounds, lemma_word_end, lex_all, lex_next, lex_token, number_stop,
    one_or_two, prefixed, skip_whitespace, until_stop, word_end,
};
use crate::text::{is_alphanumeric, is_numeric, is_whitespace, push_char};
use crate::token::{Token, TokenKeyword, TokenView};

verus! {

broadcast use vstd::string::group_string_axioms;

/// What can stop the lexer from producing a token.
#[derive(Clone, Copy, Debug, PartialEq, Eq, Structural)]
pub enum LexerError {
    /// The lexer was asked for a token, but no characters are left.
    EndOfFileReached,
    /// A character expected at the cursor was not there.
    CharacterMismatch,
    /// A number literal holds a second decimal point.
    InvalidNumber,
    /// No token starts with the character at the cursor.
    UnknownCharacter,
}

/// A lexer over one source text. It reads the text once, front to back.
#[derive(Debug)]
pub struct Lexer {
    /// The characters of the source text.
    source: Vec<char>,
    /// The position of the next character to read.
    index: usize,
}

/// A token result as its mathematical value.
pub open spec fn result_view(r: Result<Token, LexerError>) -> Result<TokenView, LexerError> {
    match r {
        Ok(t) => Ok(t@),
        Err(e) => Err(e),
    }
}

/// A pulled item as its mathematical value.
pub open spec fn item_view(r: Option<Result<Token, LexerError>>) -> Option<
    Result<TokenView, LexerError>,
> {
    match r {
        Some(x) => Some(result_view(x)),
        None => None,
    }
}

/// A list of tokens as a sequence of their values.
pub open spec fn tokens_view(v: Seq<Token>) -> Seq<TokenView> {
    v.map_values(|t: Token| t@)
}

/// A collected result as its mathematical value.
pub open spec fn collected_view(r: Result<Vec<Token>, LexerError>) -> Result<
    Seq<TokenView>,
    LexerError,
> {
    match r {
        Ok(v) => Ok(tokens_view(v@)),
        Err(e) => Err(e),
    }
}

impl Lexer {
    /// The source text.
    pub closed spec fn text(&self) -> Seq<char> {
        self.source@
    }

    /// The cursor: how many characters have been read.
    pub closed spec fn position(&self) -> int {
        self.index as int
    }

    /// The cursor lies within the text.
    pub closed spec fn wf(&self) -> bool {
        self.index <= self.source@.len() <= usize::MAX
    }

    /// Create a lexer for a source text, with the cursor at its start.
    pub fn new(source: String) -> (r: Lexer)
        ensures
            r.wf(),
            r.text() == source@,
            r.position() == 0,
            0 <= r.position() <= r.text().len(),
    {
        let mut chars = source.as_str().chars();
        let mut v: Vec<char> = Vec::new();
        loop
            invariant
                chars.obeys_prophetic_iter_laws(),
                chars.decrease() is Some,
                v@ + chars.remaining() == source@,
            ensures
                v@ == source@,
            decreases chars.decrease()->0,
        {
            match chars.next() {
                Some(c) => {
                    v.push(c);
                },
                None => {
                    assert(v@ + chars.remaining() =~= v@);
                    break;
                },
            }
        }
        let n = v.len();
        assert(v@.len() == n);
        Lexer { source: v, index: 0 }
    }

    /// The character at the cursor, without moving it.
    fn peek(&self) -> (r: Result<char, LexerError>)
        requires
            self.wf(),
        ensures
            self.index < self.source@.len() ==> r == Ok::<char, LexerError>(
                self.source@[self.index as int],
            ),
            self.index >= self.source@.len() ==> r == Err::<char, LexerError>(
                LexerError::EndOfFileReached,
            ),
    {
        if self.index < self.source.len() {
            Ok(self.source[self.index])
        } else {
            Err(LexerError::EndOfFileReached)
        }
    }

    /// Whether the whole text has been read.
    fn finished(&self) -> (r: bool)
        ensures
            r == (self.source@.len() == self.index),
    {
        self.source.len() == self.index
    }

    /// Move the cursor past the whitespace in front of it.
    fn trim_leading_whitespace(&mut self)
        requires
            old(self).wf(),
        ensures
            final(self).wf(),
            final(self).source == old(self).source,
            final(self).index == skip_whitespace(old(self).source@, old(self).index as int),
            old(self).index <= final(self).index,
    {
        let ghost start = self.index as int;
        while self.index < self.source.len() && is_whitespace(self.source[self.index])
            invariant
                self.wf(),
                self.source == old(self).source,
                start <= self.index,
                skip_whitespace(self.source@, start) == skip_whitespace(
                    self.source@,
                    self.index as int,
                ),
            decreases self.source@.len() - self.index,
        {
            self.index = self.index + 1;
        }
    }

    /// Move the cursor past `c` if `c` is the character at the cursor.
    fn eat(&mut self, c: char) -> (r: Result<(), LexerError>)
        requires
            old(self).wf(),
        ensures
            final(self).wf(),
            final(self).source == old(self).source,
            ({
                let s = old(self).source@;
                let i = old(self).index as int;
                if i < s.len() && s[i] == c {
                    r is Ok && final(self).index == i + 1
                } else {
                    final(self).index == i && r == Err::<(), LexerError>(
                        if i < s.len() {
                            LexerError::CharacterMismatch
                        } else {
                            LexerError::EndOfFileReached
                        },
                    )
                }
            }),
    {
        match self.peek() {
            Ok(d) => {
                if d == c {
                    self.index = self.index + 1;
                    Ok(())
                } else {
                    Err(LexerError::CharacterMismatch)
                }
            },
            Err(e) => Err(e),
        }
    }

    /// Read the rest of the current line, for a line comment.
    fn eat_line(&mut self) -> (r: String)
        requires
            old(self).wf(),
        ensures
            final(self).wf(),
            final(self).source == old(self).source,
            old(self).index <= final(self).index,
            ({
                let s = old(self).source@;
                let e = until_stop(s, old(self).index as int, '\n', false);
                r@ == s.subrange(old(self).index as int, e) && final(self).index == after_stop(s, e)
            }),
    {
        self.eat_until('\n')
    }

    /// Read a string literal: its opening quote, which must be at the
    /// cursor, then its body. Without that quote nothing is read.
    fn eat_string_literal(&mut self) -> (r: Result<String, LexerError>)
        requires
            old(self).wf(),
        ensures
            final(self).wf(),
            final(self).source == old(self).source,
            ({
                let s = old(self).source@;
                let i = old(self).index as int;
                let e = until_stop(s, i + 1, '"', false);
                if i < s.len() && s[i] == '"' {
                    &&& r is Ok
                    &&& r->Ok_0@ == s.subrange(i + 1, e)
                    &&& final(self).index == after_stop(s, e)
                    &&& i < final(self).index
                } else {
                    final(self).index == i && r == Err::<String, LexerError>(
                        if i < s.len() {
                            LexerError::CharacterMismatch
                        } else {
                            LexerError::EndOfFileReached
                        },
                    )
                }
            }),
    {
        match self.eat('"') {
            Ok(()) => Ok(self.eat_until('"')),
            Err(e) => Err(e),
        }
    }

    /// Read up to the first `goal` that no unescaped backslash precedes, and
    /// past it. The text read is returned without that `goal`; escapes are
    /// kept as they stand. Running out of text ends the read too.
    fn eat_until(&mut self, goal: char) -> (r: String)
        requires
            old(self).wf(),
        ensures
            final(self).wf(),
            final(self).source == old(self).source,
            old(self).index <= final(self).index,
            ({
                let s = old(self).source@;
                let e = until_stop(s, old(self).index as int, goal, false);
                r@ == s.subrange(old(self).index as int, e) && final(self).index == after_stop(s, e)
            }),
    {
        let ghost s = self.source@;
        let ghost start = self.index as int;
        let mut result = String::new();
        let mut escaped = false;
        while self.index < self.source.len()
            invariant
                self.wf(),
                self.source == old(self).source,
                s == self.source@,
                0 <= start <= self.index,
                start == old(self).index,
                result@ == s.subrange(start, self.index as int),
                until_stop(s, start, goal, false) == until_stop(s, self.index as int, goal, escaped),
            decreases s.len() - self.index,
        {
            let c = self.source[self.index];
            if !escaped && c == goal {
                self.index = self.index + 1;
                return result;
            }
            escaped = !escaped && c == '\\';
            push_char(&mut result, c);
            self.index = self.index + 1;
            assert(result@ =~= s.subrange(start, self.index as int));
        }
        result
    }

    /// Read a number literal: numeric characters with at most one decimal
    /// point. A second decimal point is an error, and the cursor stops on it.
    fn eat_number_literal(&mut self) -> (r: Result<String, LexerError>)
        requires
            old(self).wf(),
        ensures
            final(self).wf(),
            final(self).source == old(self).source,
            ({
                let s = old(self).source@;
                let e = number_stop(s, old(self).index as int, false);
                &&& final(self).index == e
                &&& if e < s.len() && s[e] == '.' {
                    r == Err::<String, LexerError>(LexerError::InvalidNumber)
                } else {
                    r is Ok && r->Ok_0@ == s.subrange(old(self).index as int, e)
                }
            }),
    {
        let ghost s = self.source@;
        let ghost start = self.index as int;
        let mut result = String::new();
        let mut period_passed = false;
        while self.index < self.source.len() && (self.source[self.index] == '.' || is_numeric(
            self.source[self.index],
        ))
            invariant
                self.wf(),
                self.source == old(self).source,
                s == self.source@,
                0 <= start <= self.index,
                start == old(self).index,
                result@ == s.subrange(start, self.index as int),
                number_stop(s, start, false) == number_stop(s, self.index as int, period_passed),
            decreases s.len() - self.index,
        {
            let c = self.source[self.index];
            if c == '.' {
                if period_passed {
                    return Err(LexerError::InvalidNumber);
                }
                period_passed = true;
            }
            push_char(&mut result, c);
            self.index = self.index + 1;
            assert(result@ =~= s.subrange(start, self.index as int));
        }
        Ok(result)
    }

    /// Read the longest run of letters, digits and underscores at the cursor.
    fn eat_alphanumeric(&mut self) -> (r: String)
        requires
            old(self).wf(),
        ensures
            final(self).wf(),
            final(self).source == old(self).source,
            ({
                let s = old(self).source@;
                let e = word_end(s, old(self).index as int);
                final(self).index == e && r@ == s.subrange(old(self).index as int, e)
            }),
    {
        let ghost s = self.source@;
        let ghost start = self.index as int;
        let mut result = String::new();
        while self.index < self.source.len() && (self.source[self.index] == '_' || is_alphanumeric(
            self.source[self.index],
        ))
            invariant
                self.wf(),
                self.source == old(self).source,
                s == self.source@,
                0 <= start <= self.index,
                start == old(self).index,
                result@ == s.subrange(start, self.index as int),
                word_end(s, start) == word_end(s, self.index as int),
            decreases s.len() - self.index,
        {
            push_char(&mut result, self.source[self.index]);
            self.index = self.index + 1;
            assert(result@ =~= s.subrange(start, self.index as int));
        }
        result
    }

    /// Read the character at the cursor, then return `two` if `second` follows it, else `one`.
    fn one_or_two(&mut self, second: char, two: Token, one: Token) -> (r: Token)
        requires
            old(self).wf(),
            old(self).index < old(self).source@.len(),
        ensures
            final(self).wf(),
            final(self).source == old(self).source,
            old(self).index < final(self).index,
            ({
                let s = old(self).source@;
                let k = old(self).index as int;
                (Ok::<TokenView, LexerError>(r@), final(self).index as int) == one_or_two(
                    s,
                    k,
                    second,
                    two@,
                    one@,
                )
            }),
    {
        self.index = self.index + 1;
        match self.eat(second) {
            Ok(()) => two,
            Err(_) => one,
        }
    }
    /// Skip whitespace, then read the next token. The longest token that can
    /// start at the cursor is taken.
    #[verifier::rlimit(50)]
    fn next_token(&mut self) -> (r: Result<Token, LexerError>)
        requires
            old(self).wf(),
        ensures
            final(self).wf(),
            final(self).source == old(self).source,
            (result_view(r), final(self).index as int) == lex_token(
                old(self).source@,
                old(self).index as int,
            ),
            r is Ok ==> old(self).index < final(self).index,
    {
        self.trim_leading_whitespace();
        let c = match self.peek() {
            Ok(c) => c,
            Err(e) => {
                return Err(e);
            },
        };
        match c {
            '+' => Ok(self.one_or_two('+', Token::PlusPlus, Token::Plus)),
            '-' => {
                if self.index + 1 < self.source.len() && self.source[self.index + 1] == '-' {
                    self.index = self.index + 2;
                    Ok(Token::MinusMinus)
                } else {
                    Ok(self.one_or_two('>', Token::Arrow, Token::Minus))
                }
            },
            '/' => {
                if self.index + 1 < self.source.len() && self.source[self.index + 1] == '/' {
                    self.index = self.index + 2;
                    Ok(Token::SlashSlash(self.eat_line()))
                } else {
                    Ok(self.one_or_two('*', Token::SlashStar(String::new()), Token::Slash))
                }
            },
            '!' => Ok(self.one_or_two('=', Token::BangEqual, Token::Bang)),
            '=' => Ok(self.one_or_two('=', Token::EqualEqual, Token::Equal)),
            '>' => Ok(self.one_or_two('=', Token::GreaterEqual, Token::Greater)),
            '<' => Ok(self.one_or_two('=', Token::LessEqual, Token::Less)),
            '*' => {
                self.index = self.index + 1;
                Ok(Token::Star)
            },
            '~' => {
                self.index = self.index + 1;
                Ok(Token::Tilde)
            },
            '^' => {
                self.index = self.index + 1;
                Ok(Token::Caret)
            },
            '(' => {
                self.index = self.index + 1;
                Ok(Token::Parenthesis(Direction::Left))
            },
            ')' => {
                self.index = self.index + 1;
                Ok(Token::Parenthesis(Direction::Right))
            },
            '{' => {
                self.index = self.index + 1;
                Ok(Token::Brace(Direction::Left))
            },
            '}' => {
                self.index = self.index + 1;
                Ok(Token::Brace(Direction::Right))
            },
            '[' => {
                self.index = self.index + 1;
                Ok(Token::Bracket(Direction::Left))
            },
            ']' => {
                self.index = self.index + 1;
                Ok(Token::Bracket(Direction::Right))
            },
            ';' => {
                self.index = self.index + 1;
                Ok(Token::Semicolon)
            },
            '&' => {
                self.index = self.index + 1;
                Ok(Token::Ampersand)
            },
            ',' => {
                self.index = self.index + 1;
                Ok(Token::Comma)
            },
            '.' => {
                self.index = self.index + 1;
                Ok(Token::Dot)
            },
            '"' => match self.eat_string_literal() {
                Ok(text) => Ok(Token::Str(text)),
                Err(e) => Err(e),
            },
            '0'..='9' => {
                proof {
                    lemma_number_stop_bounds(self.source@, self.index + 1, false);
                }
                match self.eat_number_literal() {
                    Ok(text) => Ok(Token::Number(text)),
                    Err(e) => Err(e),
                }
            },
            'a'..='z' | 'A'..='Z' | '_' => {
                proof {
                    lemma_word_end(self.source@, self.index + 1);
                }
                let word = self.eat_alphanumeric();
                match TokenKeyword::from(word.as_str()) {
                    Some(k) => Ok(Token::Keyword(k)),
                    None => Ok(Token::Identifier(word)),
                }
            },
            _ => Err(LexerError::UnknownCharacter),
        }
    }

    /// Pull the next item of the token sequence: a token, an error, or
    /// nothing once the text is used up.
    pub fn next(&mut self) -> (r: Option<Result<Token, LexerError>>)
        requires
            old(self).wf(),
        ensures
            final(self).wf(),
            final(self).text() == old(self).text(),
            0 <= final(self).position() <= final(self).text().len(),
            (item_view(r), final(self).position()) == lex_next(old(self).text(), old(self).position()),
            r matches Some(Ok(_)) ==> old(self).position() < final(self).position(),
    {
        match self.next_token() {
            Ok(token) => Some(Ok(token)),
            Err(LexerError::EndOfFileReached) => {
                if self.finished() {
                    None
                } else {
                    Some(Err(LexerError::EndOfFileReached))
                }
            },
            Err(e) => Some(Err(e)),
        }
    }

    /// Pull every remaining token, stopping at the first error.
    pub fn collect_tokens(self) -> (r: Result<Vec<Token>, LexerError>)
        requires
            self.wf(),
        ensures
            collected_view(r) == lex_all(self.text(), self.position()),
    {
        let ghost s = self.text();
        let ghost start = self.position();
        let mut lexer = self;
        let mut out: Vec<Token> = Vec::new();
        assert(tokens_view(out@) =~= Seq::<TokenView>::empty());
        loop
            invariant
                lexer.wf(),
                lexer.text() == s,
                s == self.text(),
                start == self.position(),
                prefixed(tokens_view(out@), lex_all(s, lexer.position())) == lex_all(s, start),
            decreases s.len() - lexer.position(),
        {
            let ghost i = lexer.position();
            let ghost before = tokens_view(out@);
            match lexer.next() {
                Some(Ok(t)) => {
                    out.push(t);
                    proof {
                        assert(tokens_view(out@) =~= before + seq![t@]);
                        let rest = lex_all(s, lexer.position());
                        assert(lex_all(s, i) == prefixed(seq![t@], rest));
                        match rest {
                            Ok(ts) => {
                                assert(before + (seq![t@] + ts) =~= (before + seq![t@]) + ts);
                            },
                            Err(_) => {},
                        }
                    }
                },
                Some(Err(e)) => {
                    return Err(e);
                },
                None => {
                    assert(before + Seq::<TokenView>::empty() =~= before);
                    return Ok(out);
                },
            }
        }
    }
}

} // verus!
