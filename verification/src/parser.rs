//! The recursive-descent expression parser: single pass, one token of
//! lookahead, precedence climbing through one shared left-associative
//! binary-operator combinator. Its behaviour is pinned down by the
//! mathematical parse (`spec_expression` and friends), which the executable
//! parser is proved to implement exactly.
//!
//! Grammar, highest binding last, all binary operators left-associative:
//! equality over comparison over term over factor over unary over primary.

use vstd::prelude::*;

use crate::ast::{BinaryOp, Expr, ExprV, UnaryOp};
use crate::parse_error::{ParseError, ParseErrorV, Spanned, SpannedV};
use crate::token::{SpannedToken, SpannedTokenV, Token, TokenV};

verus! {

/// What one production of the mathematical parse yields: the expression or
/// the diagnostic, how many tokens it consumed, and the line counter after
/// it (the line of the last token it consumed).
pub struct PRes {
    pub result: Result<ExprV, SpannedV<ParseErrorV>>,
    pub consumed: int,
    pub line: nat,
}

/// The accepted operator set of each precedence level of the shared binary
/// combinator, and the tag each operator token maps to. Level 0 is
/// equality, 1 is comparison, 2 is term, 3 is factor.
pub open spec fn binary_op_for(level: int, t: TokenV) -> Option<BinaryOp> {
    if level == 0 {
        match t {
            TokenV::EqualEqual => Some(BinaryOp::Equal),
            TokenV::BangEqual => Some(BinaryOp::NotEqual),
            _ => None,
        }
    } else if level == 1 {
        match t {
            TokenV::Greater => Some(BinaryOp::Greater),
            TokenV::GreaterEqual => Some(BinaryOp::GreaterEqual),
            TokenV::Less => Some(BinaryOp::Less),
            TokenV::LessEqual => Some(BinaryOp::LessEqual),
            _ => None,
        }
    } else if level == 2 {
        match t {
            TokenV::Minus => Some(BinaryOp::Subtract),
            TokenV::Plus => Some(BinaryOp::Add),
            _ => None,
        }
    } else if level >= 3 {
        match t {
            TokenV::Slash => Some(BinaryOp::Divide),
            TokenV::Star => Some(BinaryOp::Multiply),
            _ => None,
        }
    } else {
        None
    }
}

/// A primary expression: a literal, or a parenthesized expression whose
/// closing parenthesis is required — a missing one is a diagnostic, not a
/// silent accept. A token that cannot begin any primary expression is an
/// `InvalidExpressionStart` diagnostic; the token is consumed either way.
pub open spec fn spec_primary(ts: Seq<SpannedTokenV>, line: nat) -> PRes
    decreases ts.len(), 0int, 0int,
{
    if ts.len() == 0 {
        PRes {
            result: Err(SpannedV { item: ParseErrorV::UnexpectedEOF(None), line, column: 1 }),
            consumed: 0,
            line,
        }
    } else {
        let head = ts[0];
        match head.token {
            TokenV::False => PRes {
                result: Ok(ExprV::BooleanLiteral(false)),
                consumed: 1,
                line: head.line,
            },
            TokenV::True => PRes {
                result: Ok(ExprV::BooleanLiteral(true)),
                consumed: 1,
                line: head.line,
            },
            TokenV::Nil => PRes { result: Ok(ExprV::NilLiteral), consumed: 1, line: head.line },
            TokenV::NumberLiteral(s) => PRes {
                result: Ok(ExprV::NumberLiteral(s)),
                consumed: 1,
                line: head.line,
            },
            TokenV::StringLiteral(s) => PRes {
                result: Ok(ExprV::StringLiteral(s)),
                consumed: 1,
                line: head.line,
            },
            TokenV::LeftParen => {
                let inner = spec_binary(ts.skip(1), head.line, 0);
                match inner.result {
                    Err(e) => PRes {
                        result: Err(e),
                        consumed: 1 + inner.consumed,
                        line: inner.line,
                    },
                    Ok(e) => {
                        let c = if 0 <= inner.consumed && inner.consumed <= ts.len() - 1 {
                            inner.consumed
                        } else {
                            0
                        };
                        let ts2 = ts.skip(1 + c);
                        if ts2.len() == 0 {
                            PRes {
                                result: Err(
                                    SpannedV {
                                        item: ParseErrorV::UnexpectedEOF(
                                            Some(TokenV::RightParen),
                                        ),
                                        line: inner.line,
                                        column: 1,
                                    },
                                ),
                                consumed: 1 + c,
                                line: inner.line,
                            }
                        } else if ts2[0].token == TokenV::RightParen {
                            PRes {
                                result: Ok(ExprV::Grouping(Box::new(e))),
                                consumed: 2 + c,
                                line: ts2[0].line,
                            }
                        } else {
                            PRes {
                                result: Err(
                                    SpannedV {
                                        item: ParseErrorV::ExpectedToken(
                                            TokenV::RightParen,
                                            Some(ts2[0].token),
                                        ),
                                        line: ts2[0].line,
                                        column: 1,
                                    },
                                ),
                                consumed: 2 + c,
                                line: ts2[0].line,
                            }
                        }
                    },
                }
            },
            _ => PRes {
                result: Err(
                    SpannedV {
                        item: ParseErrorV::InvalidExpressionStart(head.token),
                        line: head.line,
                        column: 1,
                    },
                ),
                consumed: 1,
                line: head.line,
            },
        }
    }
}

/// A unary expression: `!` or `-` applied to a unary expression, or a
/// primary expression.
pub open spec fn spec_unary(ts: Seq<SpannedTokenV>, line: nat) -> PRes
    decreases ts.len(), 1int, 0int,
{
    if ts.len() > 0 && (ts[0].token == TokenV::Bang || ts[0].token == TokenV::Minus) {
        let op = if ts[0].token == TokenV::Bang {
            UnaryOp::Not
        } else {
            UnaryOp::Negation
        };
        let r = spec_unary(ts.skip(1), ts[0].line);
        match r.result {
            Ok(e) => PRes {
                result: Ok(ExprV::Unary(op, Box::new(e))),
                consumed: 1 + r.consumed,
                line: r.line,
            },
            Err(e) => PRes { result: Err(e), consumed: 1 + r.consumed, line: r.line },
        }
    } else {
        spec_primary(ts, line)
    }
}

/// The iterated half of the left-associative binary combinator: with the
/// expression `acc` already parsed, as long as the next token is an
/// operator of this level, consume it, parse one operand of the next
/// tighter level and fold it onto `acc` from the left.
pub open spec fn spec_binary_rest(
    ts: Seq<SpannedTokenV>,
    line: nat,
    level: int,
    acc: ExprV,
) -> PRes
    recommends
        0 <= level <= 3,
    decreases ts.len(), (if 0 <= level && level < 3 { 12 - level } else { 9int }), 0int,
{
    if ts.len() == 0 {
        PRes { result: Ok(acc), consumed: 0, line }
    } else {
        match binary_op_for(level, ts[0].token) {
            None => PRes { result: Ok(acc), consumed: 0, line },
            Some(op) => {
                let r = if !(0 <= level && level < 3) {
                    spec_unary(ts.skip(1), ts[0].line)
                } else {
                    spec_binary(ts.skip(1), ts[0].line, level + 1)
                };
                match r.result {
                    Err(e) => PRes { result: Err(e), consumed: 1 + r.consumed, line: r.line },
                    Ok(right) => {
                        let c = if 0 <= r.consumed && r.consumed <= ts.len() - 1 {
                            r.consumed
                        } else {
                            0
                        };
                        let folded = ExprV::Binary(Box::new(acc), op, Box::new(right));
                        let rest = spec_binary_rest(ts.skip(1 + c), r.line, level, folded);
                        PRes {
                            result: rest.result,
                            consumed: 1 + c + rest.consumed,
                            line: rest.line,
                        }
                    },
                }
            },
        }
    }
}

/// One precedence level of the shared binary combinator: parse a left
/// operand one level tighter, then fold in operator-operand pairs of this
/// level, left-associatively.
pub open spec fn spec_binary(ts: Seq<SpannedTokenV>, line: nat, level: int) -> PRes
    recommends
        0 <= level <= 3,
    decreases ts.len(), (if 0 <= level && level < 3 { 12 - level } else { 9int }), 1int,
{
    let left = if !(0 <= level && level < 3) {
        spec_unary(ts, line)
    } else {
        spec_binary(ts, line, level + 1)
    };
    match left.result {
        Err(e) => left,
        Ok(e) => {
            let c = if 0 <= left.consumed && left.consumed <= ts.len() {
                left.consumed
            } else {
                0
            };
            let rest = spec_binary_rest(ts.skip(c), left.line, level, e);
            PRes { result: rest.result, consumed: c + rest.consumed, line: rest.line }
        },
    }
}

/// A whole expression: the lowest-precedence level, equality.
pub open spec fn spec_expression(ts: Seq<SpannedTokenV>, line: nat) -> PRes {
    spec_binary(ts, line, 0)
}

/// Every production consumes at most the tokens that remain, and a
/// successful primary, unary or binary production consumes at least one.
pub proof fn lemma_primary_bounds(ts: Seq<SpannedTokenV>, line: nat)
    ensures
        0 <= spec_primary(ts, line).consumed <= ts.len(),
        spec_primary(ts, line).result is Ok ==> 1 <= spec_primary(ts, line).consumed,
    decreases ts.len(), 0int, 0int,
{
    if ts.len() > 0 {
        if ts[0].token is LeftParen {
            lemma_binary_bounds(ts.skip(1), ts[0].line, 0);
        }
    }
}

pub proof fn lemma_unary_bounds(ts: Seq<SpannedTokenV>, line: nat)
    ensures
        0 <= spec_unary(ts, line).consumed <= ts.len(),
        spec_unary(ts, line).result is Ok ==> 1 <= spec_unary(ts, line).consumed,
    decreases ts.len(), 1int, 0int,
{
    if ts.len() > 0 && (ts[0].token == TokenV::Bang || ts[0].token == TokenV::Minus) {
        lemma_unary_bounds(ts.skip(1), ts[0].line);
    } else {
        lemma_primary_bounds(ts, line);
    }
}

pub proof fn lemma_binary_rest_bounds(ts: Seq<SpannedTokenV>, line: nat, level: int, acc: ExprV)
    requires
        0 <= level <= 3,
    ensures
        0 <= spec_binary_rest(ts, line, level, acc).consumed <= ts.len(),
    decreases ts.len(), 12 - level, 0int,
{
    if ts.len() > 0 {
        match binary_op_for(level, ts[0].token) {
            None => {
            },
            Some(op) => {
                if level >= 3 {
                    lemma_unary_bounds(ts.skip(1), ts[0].line);
                } else {
                    lemma_binary_bounds(ts.skip(1), ts[0].line, level + 1);
                }
                let r = if level >= 3 {
                    spec_unary(ts.skip(1), ts[0].line)
                } else {
                    spec_binary(ts.skip(1), ts[0].line, level + 1)
                };
                if r.result is Ok {
                    let c = r.consumed;
                    let folded = ExprV::Binary(
                        Box::new(acc),
                        op,
                        Box::new(r.result->Ok_0),
                    );
                    lemma_binary_rest_bounds(ts.skip(1 + c), r.line, level, folded);
                }
            },
        }
    }
}

pub proof fn lemma_binary_bounds(ts: Seq<SpannedTokenV>, line: nat, level: int)
    requires
        0 <= level <= 3,
    ensures
        0 <= spec_binary(ts, line, level).consumed <= ts.len(),
        spec_binary(ts, line, level).result is Ok ==> 1 <= spec_binary(ts, line, level).consumed,
    decreases ts.len(), 12 - level, 1int,
{
    if level >= 3 {
        lemma_unary_bounds(ts, line);
    } else {
        lemma_binary_bounds(ts, line, level + 1);
    }
    let left = if level >= 3 {
        spec_unary(ts, line)
    } else {
        spec_binary(ts, line, level + 1)
    };
    if left.result is Ok {
        lemma_binary_rest_bounds(ts.skip(left.consumed), left.line, level, left.result->Ok_0);
    }
}

/// A number literal alone, or followed by anything that is not an operator
/// of this or any tighter level, parses at this level to exactly that
/// literal, consuming one token.
proof fn lemma_number_atom(ts: Seq<SpannedTokenV>, line: nat, level: int)
    requires
        0 <= level <= 3,
        ts.len() >= 1,
        ts[0].token is NumberLiteral,
        ts.len() >= 2 ==> (forall|k: int|
            level <= k <= 3 ==> binary_op_for(k, ts[1].token) is None),
    ensures
        spec_binary(ts, line, level) == (PRes {
            result: Ok::<ExprV, SpannedV<ParseErrorV>>(
                ExprV::NumberLiteral(ts[0].token->NumberLiteral_0),
            ),
            consumed: 1int,
            line: ts[0].line,
        }),
    decreases 3 - level,
{
    assert(spec_primary(ts, line).result == Ok::<ExprV, SpannedV<ParseErrorV>>(
        ExprV::NumberLiteral(ts[0].token->NumberLiteral_0),
    ));
    assert(spec_unary(ts, line) == spec_primary(ts, line));
    let num = ExprV::NumberLiteral(ts[0].token->NumberLiteral_0);
    if level < 3 {
        lemma_number_atom(ts, line, level + 1);
    }
    let rest = spec_binary_rest(ts.skip(1), ts[0].line, level, num);
    if ts.len() == 1 {
        assert(ts.skip(1).len() == 0);
        assert(rest.consumed == 0 && rest.result == Ok::<ExprV, SpannedV<ParseErrorV>>(num)
            && rest.line == ts[0].line);
    } else {
        assert(ts.skip(1)[0] == ts[1]);
        assert(binary_op_for(level, ts[1].token) is None);
        assert(rest.consumed == 0 && rest.result == Ok::<ExprV, SpannedV<ParseErrorV>>(num)
            && rest.line == ts[0].line);
    }
}

/// Every binary operator is left-associative at its own precedence level:
/// a token sequence `a op1 b op2 c`, with both operators in one level's
/// accepted set and `a`, `b`, `c` number literals, parses to the tree
/// `(a op1 b) op2 c` — never to `a op1 (b op2 c)`.
pub proof fn lemma_same_level_operators_left_associative(
    ts: Seq<SpannedTokenV>,
    line: nat,
    level: int,
    op1: BinaryOp,
    op2: BinaryOp,
)
    requires
        0 <= level <= 3,
        ts.len() == 5,
        ts[0].token is NumberLiteral,
        binary_op_for(level, ts[1].token) == Some(op1),
        ts[2].token is NumberLiteral,
        binary_op_for(level, ts[3].token) == Some(op2),
        ts[4].token is NumberLiteral,
    ensures
        spec_binary(ts, line, level).result == Ok::<ExprV, SpannedV<ParseErrorV>>(
            ExprV::Binary(
                Box::new(
                    ExprV::Binary(
                        Box::new(ExprV::NumberLiteral(ts[0].token->NumberLiteral_0)),
                        op1,
                        Box::new(ExprV::NumberLiteral(ts[2].token->NumberLiteral_0)),
                    ),
                ),
                op2,
                Box::new(ExprV::NumberLiteral(ts[4].token->NumberLiteral_0)),
            ),
        ),
        spec_binary(ts, line, level).consumed == 5,
{
    let a = ExprV::NumberLiteral(ts[0].token->NumberLiteral_0);
    let b = ExprV::NumberLiteral(ts[2].token->NumberLiteral_0);
    let c = ExprV::NumberLiteral(ts[4].token->NumberLiteral_0);

    // operator sets of distinct levels are disjoint
    assert(forall|k: int|
        level < k <= 3 ==> binary_op_for(k, ts[1].token) is None);
    assert(forall|k: int|
        level < k <= 3 ==> binary_op_for(k, ts[3].token) is None);

    // the left operand is `a` alone
    if level < 3 {
        lemma_number_atom(ts, line, level + 1);
    } else {
        assert(spec_unary(ts, line) == spec_primary(ts, line));
    }
    let left = if !(0 <= level && level < 3) {
        spec_unary(ts, line)
    } else {
        spec_binary(ts, line, level + 1)
    };
    assert(left.result == Ok::<ExprV, SpannedV<ParseErrorV>>(a) && left.consumed == 1
        && left.line == ts[0].line);

    // first fold: consume op1, parse `b`
    let ts1 = ts.skip(1);
    assert(ts1[0] == ts[1]);
    let ts2 = ts.skip(2);
    assert(ts1.skip(1) =~= ts2);
    assert(ts2[0] == ts[2] && ts2[1] == ts[3]);
    if level < 3 {
        lemma_number_atom(ts2, ts[1].line, level + 1);
    } else {
        assert(spec_unary(ts2, ts[1].line) == spec_primary(ts2, ts[1].line));
    }
    let ab = ExprV::Binary(Box::new(a), op1, Box::new(b));

    // second fold: consume op2, parse `c`
    let ts3 = ts.skip(3);
    assert(ts2.skip(1) =~= ts3);
    assert(ts3[0] == ts[3]);
    let ts4 = ts.skip(4);
    assert(ts3.skip(1) =~= ts4);
    assert(ts4[0] == ts[4] && ts4.len() == 1);
    if level < 3 {
        lemma_number_atom(ts4, ts[3].line, level + 1);
    } else {
        assert(spec_unary(ts4, ts[3].line) == spec_primary(ts4, ts[3].line));
    }
    let abc = ExprV::Binary(Box::new(ab), op2, Box::new(c));

    // the folds end at end of input
    let ts5 = ts.skip(5);
    assert(ts4.skip(1) =~= ts5);
    assert(ts3.skip(2) =~= ts5);
    assert(ts1.skip(2) =~= ts3);
    assert(ts5.len() == 0);
    assert(spec_binary_rest(ts5, ts[4].line, level, abc).result
        == Ok::<ExprV, SpannedV<ParseErrorV>>(abc));
    assert(spec_binary_rest(ts3, ts[2].line, level, ab).result
        == Ok::<ExprV, SpannedV<ParseErrorV>>(abc));
    assert(spec_binary_rest(ts1, ts[0].line, level, a).result
        == Ok::<ExprV, SpannedV<ParseErrorV>>(abc));
}

/// Where error synchronization lands: how many tokens are discarded (a
/// statement-terminating semicolon is discarded too; a token that can begin
/// a new top-level construct is kept) and the line counter after it.
pub struct SyncRes {
    pub consumed: int,
    pub line: nat,
}

/// A token that can start a new top-level construct: a safe restart point
/// for error synchronization.
pub open spec fn is_sync_boundary(t: TokenV) -> bool {
    t == TokenV::Class || t == TokenV::For || t == TokenV::Fun || t == TokenV::If
        || t == TokenV::Print || t == TokenV::Return || t == TokenV::Var || t == TokenV::While
}

/// Error synchronization: discard tokens up to and including the next
/// semicolon, or up to (excluding) the next token that can start a new
/// top-level construct, or to end of input.
pub open spec fn spec_sync(ts: Seq<SpannedTokenV>, line: nat) -> SyncRes
    decreases ts.len(),
{
    if ts.len() == 0 {
        SyncRes { consumed: 0, line }
    } else if ts[0].token == TokenV::Semicolon {
        SyncRes { consumed: 1, line: ts[0].line }
    } else if is_sync_boundary(ts[0].token) {
        SyncRes { consumed: 0, line }
    } else {
        let r = spec_sync(ts.skip(1), ts[0].line);
        SyncRes { consumed: 1 + r.consumed, line: r.line }
    }
}

/// A copy of the token whose model is the same.
fn token_clone(t: &Token) -> (r: Token)
    ensures
        r@ == t@,
{
    match t {
        Token::LeftParen => Token::LeftParen,
        Token::RightParen => Token::RightParen,
        Token::LeftBrace => Token::LeftBrace,
        Token::RightBrace => Token::RightBrace,
        Token::Comma => Token::Comma,
        Token::Dot => Token::Dot,
        Token::Semicolon => Token::Semicolon,
        Token::Slash => Token::Slash,
        Token::Star => Token::Star,
        Token::Bang => Token::Bang,
        Token::BangEqual => Token::BangEqual,
        Token::Equal => Token::Equal,
        Token::EqualEqual => Token::EqualEqual,
        Token::Greater => Token::Greater,
        Token::GreaterEqual => Token::GreaterEqual,
        Token::Less => Token::Less,
        Token::LessEqual => Token::LessEqual,
        Token::Minus => Token::Minus,
        Token::Plus => Token::Plus,
        Token::And => Token::And,
        Token::Class => Token::Class,
        Token::Else => Token::Else,
        Token::False => Token::False,
        Token::Fun => Token::Fun,
        Token::For => Token::For,
        Token::If => Token::If,
        Token::Nil => Token::Nil,
        Token::Or => Token::Or,
        Token::Print => Token::Print,
        Token::Return => Token::Return,
        Token::Super => Token::Super,
        Token::This => Token::This,
        Token::True => Token::True,
        Token::Var => Token::Var,
        Token::While => Token::While,
        Token::Identifier(s) => Token::Identifier(s.clone()),
        Token::StringLiteral(s) => Token::StringLiteral(s.clone()),
        Token::NumberLiteral(s) => Token::NumberLiteral(s.clone()),
        Token::End => Token::End,
    }
}

/// Maps an operator token of the given precedence level to its tag;
/// exhaustive over the accepted set, `None` outside it.
fn binary_op_of(t: &Token, level: u8) -> (r: Option<BinaryOp>)
    ensures
        r == binary_op_for(level as int, t@),
{
    if level == 0 {
        match t {
            Token::EqualEqual => Some(BinaryOp::Equal),
            Token::BangEqual => Some(BinaryOp::NotEqual),
            _ => None,
        }
    } else if level == 1 {
        match t {
            Token::Greater => Some(BinaryOp::Greater),
            Token::GreaterEqual => Some(BinaryOp::GreaterEqual),
            Token::Less => Some(BinaryOp::Less),
            Token::LessEqual => Some(BinaryOp::LessEqual),
            _ => None,
        }
    } else if level == 2 {
        match t {
            Token::Minus => Some(BinaryOp::Subtract),
            Token::Plus => Some(BinaryOp::Add),
            _ => None,
        }
    } else if level >= 3 {
        match t {
            Token::Slash => Some(BinaryOp::Divide),
            Token::Star => Some(BinaryOp::Multiply),
            _ => None,
        }
    } else {
        None
    }
}

/// A numeric tag distinguishing the token variants.
pub open spec fn token_tag(t: TokenV) -> int {
    match t {
        TokenV::LeftParen => 0,
        TokenV::RightParen => 1,
        TokenV::LeftBrace => 2,
        TokenV::RightBrace => 3,
        TokenV::Comma => 4,
        TokenV::Dot => 5,
        TokenV::Semicolon => 6,
        TokenV::Slash => 7,
        TokenV::Star => 8,
        TokenV::Bang => 9,
        TokenV::BangEqual => 10,
        TokenV::Equal => 11,
        TokenV::EqualEqual => 12,
        TokenV::Greater => 13,
        TokenV::GreaterEqual => 14,
        TokenV::Less => 15,
        TokenV::LessEqual => 16,
        TokenV::Minus => 17,
        TokenV::Plus => 18,
        TokenV::And => 19,
        TokenV::Class => 20,
        TokenV::Else => 21,
        TokenV::False => 22,
        TokenV::Fun => 23,
        TokenV::For => 24,
        TokenV::If => 25,
        TokenV::Nil => 26,
        TokenV::Or => 27,
        TokenV::Print => 28,
        TokenV::Return => 29,
        TokenV::Super => 30,
        TokenV::This => 31,
        TokenV::True => 32,
        TokenV::Var => 33,
        TokenV::While => 34,
        TokenV::Identifier(s) => 35,
        TokenV::StringLiteral(s) => 36,
        TokenV::NumberLiteral(s) => 37,
        TokenV::End => 38,
    }
}

/// Two tokens with the same tag are equal, unless both carry text, in which
/// case they are at least built by the same constructor.
proof fn lemma_token_eq_by_tag(x: TokenV, y: TokenV)
    requires
        token_tag(x) == token_tag(y),
    ensures
        x == y || (x is Identifier && y is Identifier) || (x is StringLiteral
            && y is StringLiteral) || (x is NumberLiteral && y is NumberLiteral),
{
}

/// The tag of the token's model.
fn tag_of(t: &Token) -> (n: u8)
    ensures
        n as int == token_tag(t@),
{
    match t {
        Token::LeftParen => 0,
        Token::RightParen => 1,
        Token::LeftBrace => 2,
        Token::RightBrace => 3,
        Token::Comma => 4,
        Token::Dot => 5,
        Token::Semicolon => 6,
        Token::Slash => 7,
        Token::Star => 8,
        Token::Bang => 9,
        Token::BangEqual => 10,
        Token::Equal => 11,
        Token::EqualEqual => 12,
        Token::Greater => 13,
        Token::GreaterEqual => 14,
        Token::Less => 15,
        Token::LessEqual => 16,
        Token::Minus => 17,
        Token::Plus => 18,
        Token::And => 19,
        Token::Class => 20,
        Token::Else => 21,
        Token::False => 22,
        Token::Fun => 23,
        Token::For => 24,
        Token::If => 25,
        Token::Nil => 26,
        Token::Or => 27,
        Token::Print => 28,
        Token::Return => 29,
        Token::Super => 30,
        Token::This => 31,
        Token::True => 32,
        Token::Var => 33,
        Token::While => 34,
        Token::Identifier(s) => 35,
        Token::StringLiteral(s) => 36,
        Token::NumberLiteral(s) => 37,
        Token::End => 38,
    }
}

/// Whether the two tokens have the same model: same tag and, for
/// identifiers and literals, the same text.
fn token_eq(a: &Token, b: &Token) -> (r: bool)
    ensures
        r == (a@ == b@),
{
    let ta = tag_of(a);
    let tb = tag_of(b);
    if ta != tb {
        return false;
    }
    proof {
        lemma_token_eq_by_tag(a@, b@);
    }
    match (a, b) {
        (Token::Identifier(x), Token::Identifier(y)) => x.eq(y),
        (Token::StringLiteral(x), Token::StringLiteral(y)) => x.eq(y),
        (Token::NumberLiteral(x), Token::NumberLiteral(y)) => x.eq(y),
        _ => {
            proof {
                assert(a is Identifier <==> a@ is Identifier);
                assert(b is Identifier <==> b@ is Identifier);
                assert(a is StringLiteral <==> a@ is StringLiteral);
                assert(b is StringLiteral <==> b@ is StringLiteral);
                assert(a is NumberLiteral <==> a@ is NumberLiteral);
                assert(b is NumberLiteral <==> b@ is NumberLiteral);
            }
            true
        },
    }
}

/// Consumes the token sequence the scanner produced and builds a typed
/// expression tree, or reports the first diagnostic of the broken
/// expression.
pub struct Parser {
    pub tokens: Vec<SpannedToken>,
    pub pos: usize,
    pub line: usize,
}

impl Parser {
    /// The cursor stays inside the token sequence.
    pub open spec fn wf(&self) -> bool {
        self.pos <= self.tokens@.len()
    }

    /// The models of the tokens.
    pub open spec fn toks(&self) -> Seq<SpannedTokenV> {
        self.tokens@.map_values(|t: SpannedToken| t@)
    }

    /// The models of the tokens not yet consumed.
    pub open spec fn rest(&self) -> Seq<SpannedTokenV> {
        self.toks().skip(self.pos as int)
    }

    pub fn new(tokens: Vec<SpannedToken>) -> (p: Parser)
        ensures
            p.wf(),
            p.tokens@ == tokens@,
            p.pos == 0,
            p.line == 1,
    {
        Parser { tokens, pos: 0, line: 1 }
    }

    /// Consumes one token, remembering the line it stood on.
    fn advance(&mut self)
        requires
            old(self).wf(),
            old(self).pos < old(self).tokens@.len(),
        ensures
            final(self).wf(),
            final(self).tokens == old(self).tokens,
            final(self).pos == old(self).pos + 1,
            final(self).line == old(self).rest()[0].line,
    {
        proof {
            assert(old(self).rest()[0] == old(self).toks()[old(self).pos as int]);
        }
        let n = self.tokens.len();
        let l = self.tokens[self.pos].line;
        self.line = l;
        self.pos = self.pos + 1;
    }

    /// Wraps a diagnostic in the current source position.
    fn spanned_error(&self, error: ParseError) -> (r: Spanned<ParseError>)
        ensures
            r@ == (SpannedV { item: error@, line: self.line as nat, column: 1nat }),
    {
        Spanned { item: error, line: self.line, column: 1 }
    }

    /// Consumes the next token, which must be `expected`: a mismatch is an
    /// `ExpectedToken` diagnostic (the offender is still consumed), end of
    /// input an `UnexpectedEOF` one.
    fn eat(&mut self, expected: Token) -> (r: Result<(), Spanned<ParseError>>)
        requires
            old(self).wf(),
        ensures
            final(self).wf(),
            final(self).tokens == old(self).tokens,
            ({
                let ts = old(self).rest();
                if ts.len() == 0 {
                    &&& final(self).pos == old(self).pos
                    &&& final(self).line == old(self).line
                    &&& (match r {
                        Ok(u) => false,
                        Err(e) => e@ == (SpannedV {
                            item: ParseErrorV::UnexpectedEOF(Some(expected@)),
                            line: old(self).line as nat,
                            column: 1nat,
                        }),
                    })
                } else {
                    &&& final(self).pos == old(self).pos + 1
                    &&& final(self).line == ts[0].line
                    &&& (match r {
                        Ok(u) => ts[0].token == expected@,
                        Err(e) => ts[0].token != expected@ && e@ == (SpannedV {
                            item: ParseErrorV::ExpectedToken(expected@, Some(ts[0].token)),
                            line: ts[0].line,
                            column: 1nat,
                        }),
                    })
                }
            }),
    {
        if self.pos == self.tokens.len() {
            return Err(self.spanned_error(ParseError::UnexpectedEOF(Some(expected))));
        }
        proof {
            assert(old(self).rest()[0] == old(self).toks()[old(self).pos as int]);
        }
        let received = token_clone(&self.tokens[self.pos].token);
        self.advance();
        if token_eq(&received, &expected) {
            Ok(())
        } else {
            Err(self.spanned_error(ParseError::ExpectedToken(expected, Some(received))))
        }
    }

    /// A primary expression: a literal, or a parenthesized expression whose
    /// closing parenthesis is required.
    fn primary(&mut self) -> (r: Result<Expr, Spanned<ParseError>>)
        requires
            old(self).wf(),
        ensures
            follows(*old(self), *final(self), r, spec_primary(
                old(self).rest(),
                old(self).line as nat,
            )),
        decreases old(self).tokens@.len() - old(self).pos, 0int, 0int,
    {
        let ghost ts = old(self).rest();
        if self.pos == self.tokens.len() {
            return Err(self.spanned_error(ParseError::UnexpectedEOF(None)));
        }
        proof {
            assert(ts[0] == old(self).toks()[old(self).pos as int]);
        }
        let head = token_clone(&self.tokens[self.pos].token);
        self.advance();
        match head {
            Token::False => Ok(Expr::BooleanLiteral(false)),
            Token::True => Ok(Expr::BooleanLiteral(true)),
            Token::Nil => Ok(Expr::NilLiteral),
            Token::NumberLiteral(s) => Ok(Expr::NumberLiteral(s)),
            Token::StringLiteral(s) => Ok(Expr::StringLiteral(s)),
            Token::LeftParen => {
                proof {
                    assert(self.rest() =~= ts.skip(1));
                    lemma_binary_bounds(ts.skip(1), ts[0].line, 0);
                }
                match self.parse_binary_left(0) {
                    Err(e) => Err(e),
                    Ok(e) => {
                        let ghost inner = spec_binary(ts.skip(1), ts[0].line, 0);
                        proof {
                            assert(self.rest() =~= ts.skip(1 + inner.consumed));
                        }
                        match self.eat(Token::RightParen) {
                            Ok(u) => Ok(Expr::Grouping(Box::new(e))),
                            Err(err) => Err(err),
                        }
                    },
                }
            },
            other => Err(self.spanned_error(ParseError::InvalidExpressionStart(other))),
        }
    }

    /// A unary expression: `!` or `-` applied to a unary expression, or a
    /// primary expression. The operator token is mapped to its tag by
    /// exhaustive matching before it is consumed.
    fn unary(&mut self) -> (r: Result<Expr, Spanned<ParseError>>)
        requires
            old(self).wf(),
        ensures
            follows(*old(self), *final(self), r, spec_unary(
                old(self).rest(),
                old(self).line as nat,
            )),
        decreases old(self).tokens@.len() - old(self).pos, 1int, 0int,
    {
        let ghost ts = old(self).rest();
        if self.pos == self.tokens.len() {
            return self.primary();
        }
        proof {
            assert(ts[0] == old(self).toks()[old(self).pos as int]);
        }
        let op = match &self.tokens[self.pos].token {
            Token::Bang => Some(UnaryOp::Not),
            Token::Minus => Some(UnaryOp::Negation),
            _ => None,
        };
        proof {
            assert(op is Some <==> (ts[0].token == TokenV::Bang || ts[0].token
                == TokenV::Minus));
        }
        match op {
            Some(op) => {
                self.advance();
                proof {
                    assert(self.rest() =~= ts.skip(1));
                }
                match self.unary() {
                    Ok(e) => Ok(Expr::Unary(op, Box::new(e))),
                    Err(e) => Err(e),
                }
            },
            None => self.primary(),
        }
    }

    /// The shared left-associative binary combinator, implemented once and
    /// reused by all binary precedence levels: parse a left operand one
    /// level tighter, then, as long as the next token is in this level's
    /// accepted operator set, consume it, parse a right operand and fold it
    /// onto the left operand.
    fn parse_binary_left(&mut self, level: u8) -> (r: Result<Expr, Spanned<ParseError>>)
        requires
            old(self).wf(),
            level <= 3,
        ensures
            follows(*old(self), *final(self), r, spec_binary(
                old(self).rest(),
                old(self).line as nat,
                level as int,
            )),
        decreases old(self).tokens@.len() - old(self).pos, 12 - level, 1int,
    {
        let ghost ts0 = old(self).rest();
        let ghost line0 = old(self).line as nat;
        proof {
            if level == 3 {
                lemma_unary_bounds(ts0, line0);
            } else {
                lemma_binary_bounds(ts0, line0, level as int + 1);
            }
        }
        let left_r = if level == 3 {
            self.unary()
        } else {
            self.parse_binary_left(level + 1)
        };
        let mut left = match left_r {
            Ok(e) => e,
            Err(e) => {
                return Err(e);
            },
        };
        proof {
            let spl = if level == 3 {
                spec_unary(ts0, line0)
            } else {
                spec_binary(ts0, line0, level as int + 1)
            };
            assert(self.rest() =~= ts0.skip(spl.consumed));
        }
        loop
            invariant
                self.wf(),
                level <= 3,
                self.tokens == old(self).tokens,
                ts0 == old(self).rest(),
                line0 == old(self).line as nat,
                old(self).pos < self.pos <= self.tokens@.len(),
                spec_binary(ts0, line0, level as int).result == spec_binary_rest(
                    self.rest(),
                    self.line as nat,
                    level as int,
                    left@,
                ).result,
                spec_binary(ts0, line0, level as int).consumed == (self.pos - old(self).pos)
                    + spec_binary_rest(
                    self.rest(),
                    self.line as nat,
                    level as int,
                    left@,
                ).consumed,
                spec_binary(ts0, line0, level as int).line == spec_binary_rest(
                    self.rest(),
                    self.line as nat,
                    level as int,
                    left@,
                ).line,
            decreases self.tokens@.len() - self.pos,
        {
            if self.pos == self.tokens.len() {
                proof {
                    assert(self.rest().len() == 0);
                }
                return Ok(left);
            }
            proof {
                assert(self.rest()[0] == self.toks()[self.pos as int]);
            }
            let op = match binary_op_of(&self.tokens[self.pos].token, level) {
                Some(op) => op,
                None => {
                    return Ok(left);
                },
            };
            let ghost rest_here = self.rest();
            let ghost line_here = self.line as nat;
            let ghost acc = left@;
            let ghost brest = spec_binary_rest(rest_here, line_here, level as int, acc);
            self.advance();
            proof {
                assert(self.rest() =~= rest_here.skip(1));
                if level == 3 {
                    lemma_unary_bounds(rest_here.skip(1), rest_here[0].line);
                } else {
                    lemma_binary_bounds(rest_here.skip(1), rest_here[0].line, level as int + 1);
                }
            }
            let right_r = if level == 3 {
                self.unary()
            } else {
                self.parse_binary_left(level + 1)
            };
            let right = match right_r {
                Ok(e) => e,
                Err(e) => {
                    return Err(e);
                },
            };
            left = Expr::Binary(Box::new(left), op, Box::new(right));
            proof {
                let spr = if level == 3 {
                    spec_unary(rest_here.skip(1), rest_here[0].line)
                } else {
                    spec_binary(rest_here.skip(1), rest_here[0].line, level as int + 1)
                };
                assert(self.rest() =~= rest_here.skip(1 + spr.consumed));
            }
        }
    }

    /// A whole expression: the lowest-precedence level, equality.
    fn expression(&mut self) -> (r: Result<Expr, Spanned<ParseError>>)
        requires
            old(self).wf(),
        ensures
            follows(*old(self), *final(self), r, spec_expression(
                old(self).rest(),
                old(self).line as nat,
            )),
        decreases old(self).tokens@.len() - old(self).pos, 13int, 0int,
    {
        self.parse_binary_left(0)
    }

    /// Parses the token sequence as one expression: either a completed,
    /// well-formed tree, or the ordered, non-empty sequence of diagnostics —
    /// in this expression-only core, the first diagnostic terminates the
    /// parse and is the list's one element. Tokens after the expression are
    /// left unconsumed.
    pub fn parse(&mut self) -> (r: Result<Expr, Vec<Spanned<ParseError>>>)
        requires
            old(self).wf(),
        ensures
            final(self).wf(),
            final(self).tokens == old(self).tokens,
            ({
                let sp = spec_expression(old(self).rest(), old(self).line as nat);
                match (r, sp.result) {
                    (Ok(e), Ok(ev)) => e@ == ev,
                    (Err(errs), Err(ev)) => errs@.len() == 1 && errs@[0]@ == ev,
                    _ => false,
                }
            }),
    {
        match self.expression() {
            Ok(e) => Ok(e),
            Err(e) => {
                let mut errs: Vec<Spanned<ParseError>> = Vec::new();
                errs.push(e);
                Err(errs)
            },
        }
    }

    /// Error synchronization: discards tokens until after a statement
    /// boundary (`;`) or until a token that can start a new top-level
    /// construct, bounding error cascades to one diagnostic per broken
    /// statement once statement-level grammar exists.
    pub fn synchronize(&mut self)
        requires
            old(self).wf(),
        ensures
            final(self).wf(),
            final(self).tokens == old(self).tokens,
            final(self).pos == old(self).pos + spec_sync(
                old(self).rest(),
                old(self).line as nat,
            ).consumed,
            final(self).line == spec_sync(old(self).rest(), old(self).line as nat).line,
    {
        loop
            invariant
                self.wf(),
                self.tokens == old(self).tokens,
                old(self).pos <= self.pos <= self.tokens@.len(),
                spec_sync(old(self).rest(), old(self).line as nat).consumed == (self.pos - old(
                    self,
                ).pos) + spec_sync(self.rest(), self.line as nat).consumed,
                spec_sync(old(self).rest(), old(self).line as nat).line == spec_sync(
                    self.rest(),
                    self.line as nat,
                ).line,
            decreases self.tokens@.len() - self.pos,
        {
            if self.pos == self.tokens.len() {
                return ;
            }
            let ghost rest_here = self.rest();
            proof {
                assert(rest_here[0] == self.toks()[self.pos as int]);
            }
            match &self.tokens[self.pos].token {
                Token::Semicolon => {
                    self.advance();
                    return ;
                },
                Token::Class | Token::For | Token::Fun | Token::If | Token::Print
                    | Token::Return | Token::Var | Token::While => {
                    proof {
                        assert(is_sync_boundary(rest_here[0].token));
                    }
                    return ;
                },
                _ => {
                    proof {
                        assert(rest_here[0].token != TokenV::Semicolon);
                        assert(!is_sync_boundary(rest_here[0].token));
                    }
                    self.advance();
                    proof {
                        assert(self.rest() =~= rest_here.skip(1));
                    }
                },
            }
        }
    }
}

/// The executable parser state change and result match what the
/// mathematical parse prescribes for the tokens that remained.
pub open spec fn follows(
    pre: Parser,
    post: Parser,
    r: Result<Expr, Spanned<ParseError>>,
    sp: PRes,
) -> bool {
    &&& post.wf()
    &&& post.tokens == pre.tokens
    &&& post.pos == pre.pos + sp.consumed
    &&& post.line == sp.line
    &&& (match (r, sp.result) {
        (Ok(e), Ok(ev)) => e@ == ev,
        (Err(e), Err(ev)) => e@ == ev,
        _ => false,
    })
}

} // verus!
