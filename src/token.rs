use vstd::prelude::*;
use vstd::string::*;

use crate::direction::Direction;

verus! {

/// The reserved words of the language.
#[derive(Clone, Copy, Debug, PartialEq, Eq, Structural)]
pub enum TokenKeyword {
    If,
    Else,
    Return,
    Unsigned,
    For,
    Do,
    While,
    Goto,
    Switch,
    Case,
    Const,
    Volatile,
    External,
    Static,
    Auto,
    Struct,
    Union,
}

/// The spelling of each reserved word.
pub open spec fn keyword_text(k: TokenKeyword) -> Seq<char> {
    match k {
        TokenKeyword::If => "if"@,
        TokenKeyword::Else => "else"@,
        TokenKeyword::Return => "return"@,
        TokenKeyword::Unsigned => "unsigned"@,
        TokenKeyword::For => "for"@,
        TokenKeyword::Do => "do"@,
        TokenKeyword::While => "while"@,
        TokenKeyword::Goto => "goto"@,
        TokenKeyword::Switch => "switch"@,
        TokenKeyword::Case => "case"@,
        TokenKeyword::Const => "const"@,
        TokenKeyword::Volatile => "volatile"@,
        TokenKeyword::External => "external"@,
        TokenKeyword::Static => "static"@,
        TokenKeyword::Auto => "auto"@,
        TokenKeyword::Struct => "struct"@,
        TokenKeyword::Union => "union"@,
    }
}

/// The keyword spelled exactly `w`, if there is one.
pub open spec fn keyword_of(w: Seq<char>) -> Option<TokenKeyword> {
    if w == "if"@ {
        Some(TokenKeyword::If)
    } else if w == "else"@ {
        Some(TokenKeyword::Else)
    } else if w == "return"@ {
        Some(TokenKeyword::Return)
    } else if w == "unsigned"@ {
        Some(TokenKeyword::Unsigned)
    } else if w == "for"@ {
        Some(TokenKeyword::For)
    } else if w == "while"@ {
        Some(TokenKeyword::While)
    } else if w == "do"@ {
        Some(TokenKeyword::Do)
    } else if w == "goto"@ {
        Some(TokenKeyword::Goto)
    } else if w == "switch"@ {
        Some(TokenKeyword::Switch)
    } else if w == "case"@ {
        Some(TokenKeyword::Case)
    } else if w == "const"@ {
        Some(TokenKeyword::Const)
    } else if w == "volatile"@ {
        Some(TokenKeyword::Volatile)
    } else if w == "external"@ {
        Some(TokenKeyword::External)
    } else if w == "static"@ {
        Some(TokenKeyword::Static)
    } else if w == "auto"@ {
        Some(TokenKeyword::Auto)
    } else if w == "struct"@ {
        Some(TokenKeyword::Struct)
    } else if w == "union"@ {
        Some(TokenKeyword::Union)
    } else {
        None
    }
}

/// Whether two string slices hold the same characters.
fn same_text(a: &str, b: &str) -> (r: bool)
    ensures
        r == (a@ == b@),
{
    let n = a.unicode_len();
    if n != b.unicode_len() {
        return false;
    }
    let mut i: usize = 0;
    while i < n
        invariant
            n == a@.len(),
            n == b@.len(),
            i <= n,
            forall|j: int| 0 <= j < i ==> a@[j] == b@[j],
        decreases n - i,
    {
        if a.get_char(i) != b.get_char(i) {
            return false;
        }
        i = i + 1;
    }
    assert(a@ =~= b@);
    true
}

impl TokenKeyword {
    /// Match a word against the keyword table, as a whole and case-sensitively.
    pub fn from(keyword: &str) -> (r: Option<TokenKeyword>)
        ensures
            r == keyword_of(keyword@),
    {
        if same_text(keyword, "if") {
            Some(TokenKeyword::If)
        } else if same_text(keyword, "else") {
            Some(TokenKeyword::Else)
        } else if same_text(keyword, "return") {
            Some(TokenKeyword::Return)
        } else if same_text(keyword, "unsigned") {
            Some(TokenKeyword::Unsigned)
        } else if same_text(keyword, "for") {
            Some(TokenKeyword::For)
        } else if same_text(keyword, "while") {
            Some(TokenKeyword::While)
        } else if same_text(keyword, "do") {
            Some(TokenKeyword::Do)
        } else if same_text(keyword, "goto") {
            Some(TokenKeyword::Goto)
        } else if same_text(keyword, "switch") {
            Some(TokenKeyword::Switch)
        } else if same_text(keyword, "case") {
            Some(TokenKeyword::Case)
        } else if same_text(keyword, "const") {
            Some(TokenKeyword::Const)
        } else if same_text(keyword, "volatile") {
            Some(TokenKeyword::Volatile)
        } else if same_text(keyword, "external") {
            Some(TokenKeyword::External)
        } else if same_text(keyword, "static") {
            Some(TokenKeyword::Static)
        } else if same_text(keyword, "auto") {
            Some(TokenKeyword::Auto)
        } else if same_text(keyword, "struct") {
            Some(TokenKeyword::Struct)
        } else if same_text(keyword, "union") {
            Some(TokenKeyword::Union)
        } else {
            None
        }
    }
}

/// Each reserved word's spelling is looked up as that very keyword.
pub proof fn lemma_keyword_round_trip(k: TokenKeyword)
    ensures
        keyword_of(keyword_text(k)) == Some(k),
{
    reveal_strlit("if");
    reveal_strlit("else");
    reveal_strlit("return");
    reveal_strlit("unsigned");
    reveal_strlit("for");
    reveal_strlit("while");
    reveal_strlit("do");
    reveal_strlit("goto");
    reveal_strlit("switch");
    reveal_strlit("case");
    reveal_strlit("const");
    reveal_strlit("volatile");
    reveal_strlit("external");
    reveal_strlit("static");
    reveal_strlit("auto");
    reveal_strlit("struct");
    reveal_strlit("union");
    match k {
        TokenKeyword::If => {},
        TokenKeyword::Else => {
            assert("else"@.len() != "if"@.len());
        },
        TokenKeyword::Return => {
            assert("return"@.len() != "if"@.len());
            assert("return"@.len() != "else"@.len());
        },
        TokenKeyword::Unsigned => {
            assert("unsigned"@.len() != "if"@.len());
            assert("unsigned"@.len() != "else"@.len());
            assert("unsigned"@.len() != "return"@.len());
        },
        TokenKeyword::For => {
            assert("for"@.len() != "if"@.len());
            assert("for"@.len() != "else"@.len());
            assert("for"@.len() != "return"@.len());
            assert("for"@.len() != "unsigned"@.len());
        },
        TokenKeyword::While => {
            assert("while"@.len() != "if"@.len());
            assert("while"@.len() != "else"@.len());
            assert("while"@.len() != "return"@.len());
            assert("while"@.len() != "unsigned"@.len());
            assert("while"@.len() != "for"@.len());
        },
        TokenKeyword::Do => {
            assert("do"@[0] != "if"@[0]);
            assert("do"@.len() != "else"@.len());
            assert("do"@.len() != "return"@.len());
            assert("do"@.len() != "unsigned"@.len());
            assert("do"@.len() != "for"@.len());
            assert("do"@.len() != "while"@.len());
        },
        TokenKeyword::Goto => {
            assert("goto"@.len() != "if"@.len());
            assert("goto"@[0] != "else"@[0]);
            assert("goto"@.len() != "return"@.len());
            assert("goto"@.len() != "unsigned"@.len());
            assert("goto"@.len() != "for"@.len());
            assert("goto"@.len() != "while"@.len());
            assert("goto"@.len() != "do"@.len());
        },
        TokenKeyword::Switch => {
            assert("switch"@.len() != "if"@.len());
            assert("switch"@.len() != "else"@.len());
            assert("switch"@[0] != "return"@[0]);
            assert("switch"@.len() != "unsigned"@.len());
            assert("switch"@.len() != "for"@.len());
            assert("switch"@.len() != "while"@.len());
            assert("switch"@.len() != "do"@.len());
            assert("switch"@.len() != "goto"@.len());
        },
        TokenKeyword::Case => {
            assert("case"@.len() != "if"@.len());
            assert("case"@[0] != "else"@[0]);
            assert("case"@.len() != "return"@.len());
            assert("case"@.len() != "unsigned"@.len());
            assert("case"@.len() != "for"@.len());
            assert("case"@.len() != "while"@.len());
            assert("case"@.len() != "do"@.len());
            assert("case"@[0] != "goto"@[0]);
            assert("case"@.len() != "switch"@.len());
        },
        TokenKeyword::Const => {
            assert("const"@.len() != "if"@.len());
            assert("const"@.len() != "else"@.len());
            assert("const"@.len() != "return"@.len());
            assert("const"@.len() != "unsigned"@.len());
            assert("const"@.len() != "for"@.len());
            assert("const"@[0] != "while"@[0]);
            assert("const"@.len() != "do"@.len());
            assert("const"@.len() != "goto"@.len());
            assert("const"@.len() != "switch"@.len());
            assert("const"@.len() != "case"@.len());
        },
        TokenKeyword::Volatile => {
            assert("volatile"@.len() != "if"@.len());
            assert("volatile"@.len() != "else"@.len());
            assert("volatile"@.len() != "return"@.len());
            assert("volatile"@[0] != "unsigned"@[0]);
            assert("volatile"@.len() != "for"@.len());
            assert("volatile"@.len() != "while"@.len());
            assert("volatile"@.len() != "do"@.len());
            assert("volatile"@.len() != "goto"@.len());
            assert("volatile"@.len() != "switch"@.len());
            assert("volatile"@.len() != "case"@.len());
            assert("volatile"@.len() != "const"@.len());
        },
        TokenKeyword::External => {
            assert("external"@.len() != "if"@.len());
            assert("external"@.len() != "else"@.len());
            assert("external"@.len() != "return"@.len());
            assert("external"@[0] != "unsigned"@[0]);
            assert("external"@.len() != "for"@.len());
            assert("external"@.len() != "while"@.len());
            assert("external"@.len() != "do"@.len());
            assert("external"@.len() != "goto"@.len());
            assert("external"@.len() != "switch"@.len());
            assert("external"@.len() != "case"@.len());
            assert("external"@.len() != "const"@.len());
            assert("external"@[0] != "volatile"@[0]);
        },
        TokenKeyword::Static => {
            assert("static"@.len() != "if"@.len());
            assert("static"@.len() != "else"@.len());
            assert("static"@[0] != "return"@[0]);
            assert("static"@.len() != "unsigned"@.len());
            assert("static"@.len() != "for"@.len());
            assert("static"@.len() != "while"@.len());
            assert("static"@.len() != "do"@.len());
            assert("static"@.len() != "goto"@.len());
            assert("static"@[1] != "switch"@[1]);
            assert("static"@.len() != "case"@.len());
            assert("static"@.len() != "const"@.len());
            assert("static"@.len() != "volatile"@.len());
            assert("static"@.len() != "external"@.len());
        },
        TokenKeyword::Auto => {
            assert("auto"@.len() != "if"@.len());
            assert("auto"@[0] != "else"@[0]);
            assert("auto"@.len() != "return"@.len());
            assert("auto"@.len() != "unsigned"@.len());
            assert("auto"@.len() != "for"@.len());
            assert("auto"@.len() != "while"@.len());
            assert("auto"@.len() != "do"@.len());
            assert("auto"@[0] != "goto"@[0]);
            assert("auto"@.len() != "switch"@.len());
            assert("auto"@[0] != "case"@[0]);
            assert("auto"@.len() != "const"@.len());
            assert("auto"@.len() != "volatile"@.len());
            assert("auto"@.len() != "external"@.len());
            assert("auto"@.len() != "static"@.len());
        },
        TokenKeyword::Struct => {
            assert("struct"@.len() != "if"@.len());
            assert("struct"@.len() != "else"@.len());
            assert("struct"@[0] != "return"@[0]);
            assert("struct"@.len() != "unsigned"@.len());
            assert("struct"@.len() != "for"@.len());
            assert("struct"@.len() != "while"@.len());
            assert("struct"@.len() != "do"@.len());
            assert("struct"@.len() != "goto"@.len());
            assert("struct"@[1] != "switch"@[1]);
            assert("struct"@.len() != "case"@.len());
            assert("struct"@.len() != "const"@.len());
            assert("struct"@.len() != "volatile"@.len());
            assert("struct"@.len() != "external"@.len());
            assert("struct"@[2] != "static"@[2]);
            assert("struct"@.len() != "auto"@.len());
        },
        TokenKeyword::Union => {
            assert("union"@.len() != "if"@.len());
            assert("union"@.len() != "else"@.len());
            assert("union"@.len() != "return"@.len());
            assert("union"@.len() != "unsigned"@.len());
            assert("union"@.len() != "for"@.len());
            assert("union"@[0] != "while"@[0]);
            assert("union"@.len() != "do"@.len());
            assert("union"@.len() != "goto"@.len());
            assert("union"@.len() != "switch"@.len());
            assert("union"@.len() != "case"@.len());
            assert("union"@[0] != "const"@[0]);
            assert("union"@.len() != "volatile"@.len());
            assert("union"@.len() != "external"@.len());
            assert("union"@.len() != "static"@.len());
            assert("union"@.len() != "auto"@.len());
            assert("union"@.len() != "struct"@.len());
        },
    }
}

/// A lexical token. Text payloads are kept exactly as they stood in the
/// source, but for block comments, whose body is not captured.
#[derive(Clone, Debug, PartialEq, Eq)]
pub enum Token {
    Plus,
    PlusPlus,
    Minus,
    MinusMinus,
    Star,
    Slash,
    SlashSlash(String),
    /// A block comment; its body is not captured, so the text is always empty.
    SlashStar(String),
    Bang,
    BangEqual,
    Tilde,
    Caret,
    Equal,
    EqualEqual,
    Greater,
    GreaterEqual,
    Less,
    LessEqual,
    Brace(Direction),
    Parenthesis(Direction),
    Bracket(Direction),
    Semicolon,
    Ampersand,
    Comma,
    Dot,
    Arrow,
    Identifier(String),
    Number(String),
    Str(String),
    Keyword(TokenKeyword),
}

/// The mathematical value of a token: text payloads as character sequences.
pub ghost enum TokenView {
    Plus,
    PlusPlus,
    Minus,
    MinusMinus,
    Star,
    Slash,
    SlashSlash(Seq<char>),
    SlashStar(Seq<char>),
    Bang,
    BangEqual,
    Tilde,
    Caret,
    Equal,
    EqualEqual,
    Greater,
    GreaterEqual,
    Less,
    LessEqual,
    Brace(Direction),
    Parenthesis(Direction),
    Bracket(Direction),
    Semicolon,
    Ampersand,
    Comma,
    Dot,
    Arrow,
    Identifier(Seq<char>),
    Number(Seq<char>),
    Str(Seq<char>),
    Keyword(TokenKeyword),
}

impl View for Token {
    type V = TokenView;

    open spec fn view(&self) -> TokenView {
        match self {
            Token::Plus => TokenView::Plus,
            Token::PlusPlus => TokenView::PlusPlus,
            Token::Minus => TokenView::Minus,
            Token::MinusMinus => TokenView::MinusMinus,
            Token::Star => TokenView::Star,
            Token::Slash => TokenView::Slash,
            Token::SlashSlash(t) => TokenView::SlashSlash(t@),
            Token::SlashStar(t) => TokenView::SlashStar(t@),
            Token::Bang => TokenView::Bang,
            Token::BangEqual => TokenView::BangEqual,
            Token::Tilde => TokenView::Tilde,
            Token::Caret => TokenView::Caret,
            Token::Equal => TokenView::Equal,
            Token::EqualEqual => TokenView::EqualEqual,
            Token::Greater => TokenView::Greater,
            Token::GreaterEqual => TokenView::GreaterEqual,
            Token::Less => TokenView::Less,
            Token::LessEqual => TokenView::LessEqual,
            Token::Brace(x) => TokenView::Brace(*x),
            Token::Parenthesis(x) => TokenView::Parenthesis(*x),
            Token::Bracket(x) => TokenView::Bracket(*x),
            Token::Semicolon => TokenView::Semicolon,
            Token::Ampersand => TokenView::Ampersand,
            Token::Comma => TokenView::Comma,
            Token::Dot => TokenView::Dot,
            Token::Arrow => TokenView::Arrow,
            Token::Identifier(t) => TokenView::Identifier(t@),
            Token::Number(t) => TokenView::Number(t@),
            Token::Str(t) => TokenView::Str(t@),
            Token::Keyword(x) => TokenView::Keyword(*x),
        }
    }
}

} // verus!
