//! The closed vocabulary of lexical tokens, and the keyword-lookup rule that
//! reclassifies identifier-shaped text as a reserved word.

use vstd::prelude::*;
use vstd::string::StringExecFns;

verus! {

/// The mathematical shape of a token: the same variants as [`Token`], with the
/// identifier text abstracted to a sequence of characters. Contracts speak of
/// this type through [`Token`]'s view.
pub enum TokenView {
    Illegal(char),
    Eof,
    Ident(Seq<char>),
    Int(usize),
    Bool(bool),
    Assign,
    If,
    Else,
    Plus,
    Minus,
    Slash,
    Asterisk,
    LessThan,
    GreaterThan,
    Bang,
    Equal,
    NotEqual,
    Comma,
    Semicolon,
    LeftParen,
    RightParen,
    LeftBrace,
    RightBrace,
    Func,
    Let,
    Return,
}

/// One lexical unit of the language.
#[derive(Debug, PartialEq, Eq)]
pub enum Token {
    /// A single character that matches no lexical rule.
    Illegal(char),
    /// The end-of-input sentinel; returned again and again once input is spent.
    Eof,
    // identifiers, literals
    Ident(String),
    Int(usize),
    Bool(bool),
    // statements
    Assign,
    If,
    Else,
    // operators
    Plus,
    Minus,
    Slash,
    Asterisk,
    LessThan,
    GreaterThan,
    Bang,
    Equal,
    NotEqual,
    // delimiters
    Comma,
    Semicolon,
    LeftParen,
    RightParen,
    LeftBrace,
    RightBrace,
    // keywords
    Func,
    Let,
    Return,
}

impl View for Token {
    type V = TokenView;

    open spec fn view(&self) -> TokenView {
        match self {
            Token::Illegal(c) => TokenView::Illegal(*c),
            Token::Eof => TokenView::Eof,
            Token::Ident(s) => TokenView::Ident(s@),
            Token::Int(n) => TokenView::Int(*n),
            Token::Bool(b) => TokenView::Bool(*b),
            Token::Assign => TokenView::Assign,
            Token::If => TokenView::If,
            Token::Else => TokenView::Else,
            Token::Plus => TokenView::Plus,
            Token::Minus => TokenView::Minus,
            Token::Slash => TokenView::Slash,
            Token::Asterisk => TokenView::Asterisk,
            Token::LessThan => TokenView::LessThan,
            Token::GreaterThan => TokenView::GreaterThan,
            Token::Bang => TokenView::Bang,
            Token::Equal => TokenView::Equal,
            Token::NotEqual => TokenView::NotEqual,
            Token::Comma => TokenView::Comma,
            Token::Semicolon => TokenView::Semicolon,
            Token::LeftParen => TokenView::LeftParen,
            Token::RightParen => TokenView::RightParen,
            Token::LeftBrace => TokenView::LeftBrace,
            Token::RightBrace => TokenView::RightBrace,
            Token::Func => TokenView::Func,
            Token::Let => TokenView::Let,
            Token::Return => TokenView::Return,
        }
    }
}

/// The keyword-lookup rule: text equal to one of the seven reserved spellings
/// becomes the matching keyword or boolean token; anything else is an
/// identifier carrying exactly that text.
pub open spec fn spec_look_up_ident(text: Seq<char>) -> TokenView {
    if text == "fn"@ {
        TokenView::Func
    } else if text == "let"@ {
        TokenView::Let
    } else if text == "if"@ {
        TokenView::If
    } else if text == "else"@ {
        TokenView::Else
    } else if text == "true"@ {
        TokenView::Bool(true)
    } else if text == "false"@ {
        TokenView::Bool(false)
    } else if text == "return"@ {
        TokenView::Return
    } else {
        TokenView::Ident(text)
    }
}

impl Token {
    /// Classifies a maximal identifier-shaped run: reserved spellings map to
    /// their keyword token, everything else stays an identifier.
    pub fn look_up_ident(ident: String) -> (t: Token)
        ensures
            t@ == spec_look_up_ident(ident@),
    {
        if ident == String::from_str("fn") {
            Token::Func
        } else if ident == String::from_str("let") {
            Token::Let
        } else if ident == String::from_str("if") {
            Token::If
        } else if ident == String::from_str("else") {
            Token::Else
        } else if ident == String::from_str("true") {
            Token::Bool(true)
        } else if ident == String::from_str("false") {
            Token::Bool(false)
        } else if ident == String::from_str("return") {
            Token::Return
        } else {
            Token::Ident(ident)
        }
    }
}

} // verus!
