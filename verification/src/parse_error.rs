//! Structured parse diagnostics and the span wrapper that ties a diagnostic
//! to its source position.

use vstd::prelude::*;
use vstd::string::StringExecFns;

use crate::token::{Token, TokenV};

verus! {

/// What the parser can report: which token (or set of tokens) it expected
/// and which it actually found, a token that cannot begin any expression,
/// or input that ended while a token was still required. `None` in the
/// "found" position means end of input.
#[derive(Debug, PartialEq)]
pub enum ParseError {
    ExpectedToken(Token, Option<Token>),
    ExpectedOneOf(Vec<Token>, Option<Token>),
    InvalidExpressionStart(Token),
    UnexpectedEOF(Option<Token>),
}

/// Mathematical model of a parse diagnostic.
pub enum ParseErrorV {
    ExpectedToken(TokenV, Option<TokenV>),
    ExpectedOneOf(Seq<TokenV>, Option<TokenV>),
    InvalidExpressionStart(TokenV),
    UnexpectedEOF(Option<TokenV>),
}

impl View for ParseError {
    type V = ParseErrorV;

    open spec fn view(&self) -> ParseErrorV {
        match self {
            ParseError::ExpectedToken(expected, found) => ParseErrorV::ExpectedToken(
                expected@,
                match found {
                    Some(t) => Some(t@),
                    None => None,
                },
            ),
            ParseError::ExpectedOneOf(expected, found) => ParseErrorV::ExpectedOneOf(
                expected@.map_values(|t: Token| t@),
                match found {
                    Some(t) => Some(t@),
                    None => None,
                },
            ),
            ParseError::InvalidExpressionStart(found) => ParseErrorV::InvalidExpressionStart(
                found@,
            ),
            ParseError::UnexpectedEOF(expected) => ParseErrorV::UnexpectedEOF(
                match expected {
                    Some(t) => Some(t@),
                    None => None,
                },
            ),
        }
    }
}

/// The name a token is reported under in a diagnostic's text: the variant's
/// name, with the text of an identifier or literal quoted inside it.
pub open spec fn token_text(t: TokenV) -> Seq<char> {
    match t {
        TokenV::LeftParen => "LeftParen"@,
        TokenV::RightParen => "RightParen"@,
        TokenV::LeftBrace => "LeftBrace"@,
        TokenV::RightBrace => "RightBrace"@,
        TokenV::Comma => "Comma"@,
        TokenV::Dot => "Dot"@,
        TokenV::Semicolon => "Semicolon"@,
        TokenV::Slash => "Slash"@,
        TokenV::Star => "Star"@,
        TokenV::Bang => "Bang"@,
        TokenV::BangEqual => "BangEqual"@,
        TokenV::Equal => "Equal"@,
        TokenV::EqualEqual => "EqualEqual"@,
        TokenV::Greater => "Greater"@,
        TokenV::GreaterEqual => "GreaterEqual"@,
        TokenV::Less => "Less"@,
        TokenV::LessEqual => "LessEqual"@,
        TokenV::Minus => "Minus"@,
        TokenV::Plus => "Plus"@,
        TokenV::And => "And"@,
        TokenV::Class => "Class"@,
        TokenV::Else => "Else"@,
        TokenV::False => "False"@,
        TokenV::Fun => "Fun"@,
        TokenV::For => "For"@,
        TokenV::If => "If"@,
        TokenV::Nil => "Nil"@,
        TokenV::Or => "Or"@,
        TokenV::Print => "Print"@,
        TokenV::Return => "Return"@,
        TokenV::Super => "Super"@,
        TokenV::This => "This"@,
        TokenV::True => "True"@,
        TokenV::Var => "Var"@,
        TokenV::While => "While"@,
        TokenV::Identifier(s) => "Identifier(\""@ + s + "\")"@,
        TokenV::StringLiteral(s) => "StringLiteral(\""@ + s + "\")"@,
        TokenV::NumberLiteral(s) => "NumberLiteral(\""@ + s + "\")"@,
        TokenV::End => "End"@,
    }
}

/// The names of a token set, comma-separated, in order.
pub open spec fn tokens_text(ts: Seq<TokenV>) -> Seq<char>
    decreases ts.len(),
{
    if ts.len() == 0 {
        Seq::empty()
    } else if ts.len() == 1 {
        token_text(ts[0])
    } else {
        tokens_text(ts.drop_last()) + ", "@ + token_text(ts.last())
    }
}

/// The text a parse diagnostic is reported with: what was expected and what
/// was actually found.
pub open spec fn error_text(e: ParseErrorV) -> Seq<char> {
    match e {
        ParseErrorV::ExpectedToken(expected, found) => match found {
            Some(t) => "expected "@ + token_text(expected) + ", got "@ + token_text(t),
            None => "expected "@ + token_text(expected) + ", got none"@,
        },
        ParseErrorV::ExpectedOneOf(expected, found) => match found {
            Some(t) => "expected one of "@ + tokens_text(expected) + ", got "@ + token_text(t),
            None => "expected one of "@ + tokens_text(expected) + ", got none"@,
        },
        ParseErrorV::InvalidExpressionStart(t) => "token "@ + token_text(t)
            + " cannot start an expression"@,
        ParseErrorV::UnexpectedEOF(expected) => match expected {
            Some(t) => "unexpected EOF while searching for "@ + token_text(t),
            None => "unexpected EOF"@,
        },
    }
}

/// The name a token is reported under in a diagnostic's text.
fn token_name(t: &Token) -> (r: String)
    ensures
        r@ == token_text(t@),
{
    match t {
        Token::LeftParen => String::from_str("LeftParen"),
        Token::RightParen => String::from_str("RightParen"),
        Token::LeftBrace => String::from_str("LeftBrace"),
        Token::RightBrace => String::from_str("RightBrace"),
        Token::Comma => String::from_str("Comma"),
        Token::Dot => String::from_str("Dot"),
        Token::Semicolon => String::from_str("Semicolon"),
        Token::Slash => String::from_str("Slash"),
        Token::Star => String::from_str("Star"),
        Token::Bang => String::from_str("Bang"),
        Token::BangEqual => String::from_str("BangEqual"),
        Token::Equal => String::from_str("Equal"),
        Token::EqualEqual => String::from_str("EqualEqual"),
        Token::Greater => String::from_str("Greater"),
        Token::GreaterEqual => String::from_str("GreaterEqual"),
        Token::Less => String::from_str("Less"),
        Token::LessEqual => String::from_str("LessEqual"),
        Token::Minus => String::from_str("Minus"),
        Token::Plus => String::from_str("Plus"),
        Token::And => String::from_str("And"),
        Token::Class => String::from_str("Class"),
        Token::Else => String::from_str("Else"),
        Token::False => String::from_str("False"),
        Token::Fun => String::from_str("Fun"),
        Token::For => String::from_str("For"),
        Token::If => String::from_str("If"),
        Token::Nil => String::from_str("Nil"),
        Token::Or => String::from_str("Or"),
        Token::Print => String::from_str("Print"),
        Token::Return => String::from_str("Return"),
        Token::Super => String::from_str("Super"),
        Token::This => String::from_str("This"),
        Token::True => String::from_str("True"),
        Token::Var => String::from_str("Var"),
        Token::While => String::from_str("While"),
        Token::Identifier(s) => {
            let mut r = String::from_str("Identifier(\"");
            r.append(s.as_str());
            r.append("\")");
            r
        },
        Token::StringLiteral(s) => {
            let mut r = String::from_str("StringLiteral(\"");
            r.append(s.as_str());
            r.append("\")");
            r
        },
        Token::NumberLiteral(s) => {
            let mut r = String::from_str("NumberLiteral(\"");
            r.append(s.as_str());
            r.append("\")");
            r
        },
        Token::End => String::from_str("End"),
    }
}

/// The comma-separated names of a token set.
fn token_names(ts: &Vec<Token>) -> (r: String)
    ensures
        r@ == tokens_text(ts@.map_values(|t: Token| t@)),
{
    let ghost tsv = ts@.map_values(|t: Token| t@);
    let mut r = String::new();
    let mut i: usize = 0;
    proof {
        assert(tsv.take(0) =~= Seq::<TokenV>::empty());
    }
    while i < ts.len()
        invariant
            i <= ts.len(),
            tsv == ts@.map_values(|t: Token| t@),
            r@ == tokens_text(tsv.take(i as int)),
        decreases ts.len() - i,
    {
        let name = token_name(&ts[i]);
        if i > 0 {
            r.append(", ");
        }
        r.append(name.as_str());
        proof {
            let pre = tsv.take(i + 1);
            assert(pre.drop_last() =~= tsv.take(i as int));
            assert(pre.last() == tsv[i as int]);
            assert(tsv[i as int] == ts@[i as int]@);
        }
        i = i + 1;
    }
    proof {
        assert(tsv.take(ts@.len() as int) =~= tsv);
    }
    r
}

impl ParseError {
    /// The text this diagnostic is reported with: what was expected and
    /// what was actually found.
    pub fn message(&self) -> (s: String)
        ensures
            s@ == error_text(self@),
    {
        match self {
            ParseError::ExpectedToken(expected, found) => {
                let mut s = String::from_str("expected ");
                let en = token_name(expected);
                s.append(en.as_str());
                match found {
                    Some(t) => {
                        s.append(", got ");
                        let tn = token_name(t);
                        s.append(tn.as_str());
                    },
                    None => {
                        s.append(", got none");
                    },
                }
                s
            },
            ParseError::ExpectedOneOf(expected, found) => {
                let mut s = String::from_str("expected one of ");
                let en = token_names(expected);
                s.append(en.as_str());
                match found {
                    Some(t) => {
                        s.append(", got ");
                        let tn = token_name(t);
                        s.append(tn.as_str());
                    },
                    None => {
                        s.append(", got none");
                    },
                }
                s
            },
            ParseError::InvalidExpressionStart(t) => {
                let mut s = String::from_str("token ");
                let tn = token_name(t);
                s.append(tn.as_str());
                s.append(" cannot start an expression");
                s
            },
            ParseError::UnexpectedEOF(expected) => {
                match expected {
                    Some(t) => {
                        let mut s = String::from_str("unexpected EOF while searching for ");
                        let tn = token_name(t);
                        s.append(tn.as_str());
                        s
                    },
                    None => String::from_str("unexpected EOF"),
                }
            },
        }
    }
}

/// A value together with its source position: a 1-based line and column.
#[derive(Debug, PartialEq)]
pub struct Spanned<T> {
    pub item: T,
    pub line: usize,
    pub column: usize,
}

/// Mathematical model of a spanned value.
pub struct SpannedV<U> {
    pub item: U,
    pub line: nat,
    pub column: nat,
}

impl<T: View> View for Spanned<T> {
    type V = SpannedV<T::V>;

    open spec fn view(&self) -> SpannedV<T::V> {
        SpannedV { item: self.item@, line: self.line as nat, column: self.column as nat }
    }
}

} // verus!
