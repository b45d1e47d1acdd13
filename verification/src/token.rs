//! The atomic lexical unit produced by the scanner, together with its
//! source-position metadata, and the fixed keyword table.

use vstd::prelude::*;
use vstd::string::StringExecFns;

verus! {

/// A lexical token. A number literal carries the numeral exactly as it was
/// spelled in the source (digits with at most one decimal point); consumers
/// that need its numeric value convert the text themselves.
#[derive(Clone, Debug, PartialEq)]
pub enum Token {
    // delimiters
    LeftParen,
    RightParen,
    LeftBrace,
    RightBrace,
    Comma,
    Dot,
    Semicolon,
    Slash,
    Star,
    // operators
    Bang,
    BangEqual,
    Equal,
    EqualEqual,
    Greater,
    GreaterEqual,
    Less,
    LessEqual,
    Minus,
    Plus,
    // keywords
    And,
    Class,
    Else,
    False,
    Fun,
    For,
    If,
    Nil,
    Or,
    Print,
    Return,
    Super,
    This,
    True,
    Var,
    While,
    // identifiers
    Identifier(String),
    // literals
    StringLiteral(String),
    NumberLiteral(String),
    End,
}

/// Mathematical model of a token: the same tags, with text as `Seq<char>`.
pub enum TokenV {
    LeftParen,
    RightParen,
    LeftBrace,
    RightBrace,
    Comma,
    Dot,
    Semicolon,
    Slash,
    Star,
    Bang,
    BangEqual,
    Equal,
    EqualEqual,
    Greater,
    GreaterEqual,
    Less,
    LessEqual,
    Minus,
    Plus,
    And,
    Class,
    Else,
    False,
    Fun,
    For,
    If,
    Nil,
    Or,
    Print,
    Return,
    Super,
    This,
    True,
    Var,
    While,
    Identifier(Seq<char>),
    StringLiteral(Seq<char>),
    NumberLiteral(Seq<char>),
    End,
}

impl View for Token {
    type V = TokenV;

    open spec fn view(&self) -> TokenV {
        match self {
            Token::LeftParen => TokenV::LeftParen,
            Token::RightParen => TokenV::RightParen,
            Token::LeftBrace => TokenV::LeftBrace,
            Token::RightBrace => TokenV::RightBrace,
            Token::Comma => TokenV::Comma,
            Token::Dot => TokenV::Dot,
            Token::Semicolon => TokenV::Semicolon,
            Token::Slash => TokenV::Slash,
            Token::Star => TokenV::Star,
            Token::Bang => TokenV::Bang,
            Token::BangEqual => TokenV::BangEqual,
            Token::Equal => TokenV::Equal,
            Token::EqualEqual => TokenV::EqualEqual,
            Token::Greater => TokenV::Greater,
            Token::GreaterEqual => TokenV::GreaterEqual,
            Token::Less => TokenV::Less,
            Token::LessEqual => TokenV::LessEqual,
            Token::Minus => TokenV::Minus,
            Token::Plus => TokenV::Plus,
            Token::And => TokenV::And,
            Token::Class => TokenV::Class,
            Token::Else => TokenV::Else,
            Token::False => TokenV::False,
            Token::Fun => TokenV::Fun,
            Token::For => TokenV::For,
            Token::If => TokenV::If,
            Token::Nil => TokenV::Nil,
            Token::Or => TokenV::Or,
            Token::Print => TokenV::Print,
            Token::Return => TokenV::Return,
            Token::Super => TokenV::Super,
            Token::This => TokenV::This,
            Token::True => TokenV::True,
            Token::Var => TokenV::Var,
            Token::While => TokenV::While,
            Token::Identifier(s) => TokenV::Identifier(s@),
            Token::StringLiteral(s) => TokenV::StringLiteral(s@),
            Token::NumberLiteral(s) => TokenV::NumberLiteral(s@),
            Token::End => TokenV::End,
        }
    }
}

/// A token together with the exact source substring that produced it and
/// the 1-based line on which it began.
#[derive(Clone, Debug, PartialEq)]
pub struct SpannedToken {
    pub token: Token,
    pub lexeme: String,
    pub line: usize,
}

/// Mathematical model of a spanned token.
pub struct SpannedTokenV {
    pub token: TokenV,
    pub lexeme: Seq<char>,
    pub line: nat,
}

impl View for SpannedToken {
    type V = SpannedTokenV;

    open spec fn view(&self) -> SpannedTokenV {
        SpannedTokenV { token: self.token@, lexeme: self.lexeme@, line: self.line as nat }
    }
}

/// The keyword table as a function of the identifier's spelling.
pub open spec fn spec_keyword(s: Seq<char>) -> Option<TokenV> {
    if s == "and"@ {
        Some(TokenV::And)
    } else if s == "class"@ {
        Some(TokenV::Class)
    } else if s == "else"@ {
        Some(TokenV::Else)
    } else if s == "false"@ {
        Some(TokenV::False)
    } else if s == "for"@ {
        Some(TokenV::For)
    } else if s == "fun"@ {
        Some(TokenV::Fun)
    } else if s == "if"@ {
        Some(TokenV::If)
    } else if s == "nil"@ {
        Some(TokenV::Nil)
    } else if s == "or"@ {
        Some(TokenV::Or)
    } else if s == "print"@ {
        Some(TokenV::Print)
    } else if s == "return"@ {
        Some(TokenV::Return)
    } else if s == "super"@ {
        Some(TokenV::Super)
    } else if s == "this"@ {
        Some(TokenV::This)
    } else if s == "true"@ {
        Some(TokenV::True)
    } else if s == "var"@ {
        Some(TokenV::Var)
    } else if s == "while"@ {
        Some(TokenV::While)
    } else {
        None
    }
}

/// Looks an identifier spelling up in the fixed keyword table: the reserved
/// words map to their keyword tokens, every other spelling is a plain
/// identifier.
pub fn keyword(identifier: &str) -> (t: Option<Token>)
    ensures
        match t {
            Some(tok) => spec_keyword(identifier@) == Some(tok@),
            None => spec_keyword(identifier@) is None,
        },
{
    let id = String::from_str(identifier);
    if id == String::from_str("and") {
        Some(Token::And)
    } else if id == String::from_str("class") {
        Some(Token::Class)
    } else if id == String::from_str("else") {
        Some(Token::Else)
    } else if id == String::from_str("false") {
        Some(Token::False)
    } else if id == String::from_str("for") {
        Some(Token::For)
    } else if id == String::from_str("fun") {
        Some(Token::Fun)
    } else if id == String::from_str("if") {
        Some(Token::If)
    } else if id == String::from_str("nil") {
        Some(Token::Nil)
    } else if id == String::from_str("or") {
        Some(Token::Or)
    } else if id == String::from_str("print") {
        Some(Token::Print)
    } else if id == String::from_str("return") {
        Some(Token::Return)
    } else if id == String::from_str("super") {
        Some(Token::Super)
    } else if id == String::from_str("this") {
        Some(Token::This)
    } else if id == String::from_str("true") {
        Some(Token::True)
    } else if id == String::from_str("var") {
        Some(Token::Var)
    } else if id == String::from_str("while") {
        Some(Token::While)
    } else {
        None
    }
}

} // verus!
