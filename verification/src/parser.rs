//! Recursive-descent parser.
//!
//! The grammar is mirrored by a family of spec functions over token images;
//! each executable method returns exactly what its spec twin describes, so
//! the parser's behaviour — which tree an input yields, and which error is
//! reported on which input — is pinned down completely.

use vstd::prelude::*;

use crate::ast::{
    exprs_view_from, lemma_exprs_view_from, lemma_stmts_view_from, stmts_view_from, ExprSpec,
    Expression, Literal, LiteralSpec, Statement, StmtSpec,
};
use crate::lexer::{spec_lex, Lexer};
use crate::token::{Token, TokenKind, TokenSpec};

verus! {

/// A parse failure: the shapes of error the parser reports.
#[derive(Debug)]
pub enum ParserError {
    Message(String),
    UnexpectedEof { line: usize },
    UnexpectedToken { line: usize, token: String },
    InvalidAssignmentTarget { line: usize, token: String },
}

/// The mathematical image of a parse failure.
pub enum ParserErrorSpec {
    Message(Seq<char>),
    UnexpectedEof { line: nat },
    UnexpectedToken { line: nat, token: Seq<char> },
    InvalidAssignmentTarget { line: nat, token: Seq<char> },
}

impl DeepView for ParserError {
    type V = ParserErrorSpec;

    open spec fn deep_view(&self) -> ParserErrorSpec {
        match self {
            ParserError::Message(s) => ParserErrorSpec::Message(s@),
            ParserError::UnexpectedEof { line } => ParserErrorSpec::UnexpectedEof {
                line: *line as nat,
            },
            ParserError::UnexpectedToken { line, token } => ParserErrorSpec::UnexpectedToken {
                line: *line as nat,
                token: token@,
            },
            ParserError::InvalidAssignmentTarget { line, token } => {
                ParserErrorSpec::InvalidAssignmentTarget { line: *line as nat, token: token@ }
            },
        }
    }
}

/// A sub-parse result: the parsed value and the index of the next token.
pub type Parsed<T> = Result<(T, int), ParserErrorSpec>;

/// Holds a returned position inside `(p, n]` so that every recursion measure
/// stays well-founded.  Each sub-parse really does advance and stay within
/// the input, so on every path the parser takes this is the identity.
pub open spec fn held(q: int, p: int, n: int) -> int {
    if p + 1 <= q && q <= n {
        q
    } else if p + 1 <= n {
        p + 1
    } else {
        n
    }
}

/// Consuming one expected token: the token itself on a match, the error the
/// parser reports otherwise.  A mismatched token is still consumed.
pub open spec fn sp_consume(t: Seq<TokenSpec>, p: int, k: TokenKind) -> Parsed<TokenSpec> {
    if p < 0 || p >= t.len() {
        Err(ParserErrorSpec::UnexpectedEof { line: 1 })
    } else if t[p].kind == k {
        Ok((t[p], p + 1))
    } else {
        Err(ParserErrorSpec::UnexpectedToken { line: t[p].line, token: t[p].literal })
    }
}

/// primary → NUMBER | STRING | "true" | "false" | "nil" | "this"
///         | "super" "." IDENT | IDENT | "(" expression ")"
#[verifier::opaque]
pub open spec fn sp_primary(t: Seq<TokenSpec>, p: int) -> Parsed<ExprSpec>
    decreases t.len() - p, 0int,
{
    let n = t.len() as int;
    if p < 0 || p >= n {
        Err(ParserErrorSpec::UnexpectedEof { line: 1 })
    } else {
        let tok = t[p];
        match tok.kind {
            TokenKind::Number(bits) => Ok(
                (ExprSpec::Literal(LiteralSpec::Number(bits)), held(p + 1, p, n)),
            ),
            TokenKind::String => Ok(
                (ExprSpec::Literal(LiteralSpec::String(tok.literal)), held(p + 1, p, n)),
            ),
            TokenKind::True => Ok(
                (ExprSpec::Literal(LiteralSpec::Boolean(true)), held(p + 1, p, n)),
            ),
            TokenKind::False => Ok(
                (ExprSpec::Literal(LiteralSpec::Boolean(false)), held(p + 1, p, n)),
            ),
            TokenKind::Nil => Ok((ExprSpec::Literal(LiteralSpec::Nil), held(p + 1, p, n))),
            TokenKind::Identifier => Ok(
                (ExprSpec::Variable { name: tok.literal, resolved: None }, held(p + 1, p, n)),
            ),
            TokenKind::This => Ok((ExprSpec::This { resolved: None }, held(p + 1, p, n))),
            TokenKind::Super => match sp_consume(t, p + 1, TokenKind::Dot) {
                Ok((_, p1)) => match sp_consume(t, p1, TokenKind::Identifier) {
                    Ok((m, p2)) => Ok(
                        (
                            ExprSpec::Super { method: m.literal, resolved: None },
                            held(p2, p, n),
                        ),
                    ),
                    Err(e) => Err(e),
                },
                Err(e) => Err(e),
            },
            TokenKind::LeftParen => match sp_expression(t, p + 1) {
                Ok((inner, p1)) => match sp_consume(t, p1, TokenKind::RightParen) {
                    Ok((_, p2)) => Ok((ExprSpec::Group(Box::new(inner)), held(p2, p, n))),
                    Err(e) => Err(e),
                },
                Err(e) => Err(e),
            },
            _ => Err(ParserErrorSpec::UnexpectedToken { line: tok.line, token: tok.literal }),
        }
    }
}

/// The arguments of a call after its opening parenthesis, at most 255 of
/// them, and the closing parenthesis.
#[verifier::opaque]
pub open spec fn sp_args(t: Seq<TokenSpec>, p: int, acc: Seq<ExprSpec>) -> Parsed<Seq<ExprSpec>>
    decreases t.len() - p, 22int,
{
    let n = t.len() as int;
    if acc.len() >= 255 {
        Err(ParserErrorSpec::Message("Cannot have more than 255 arguments."@))
    } else if p >= n {
        Err(ParserErrorSpec::UnexpectedEof { line: 1 })
    } else {
        match sp_expression(t, p) {
            Ok((e, p1)) => {
                if p1 < n && t[p1].kind == TokenKind::Comma {
                    sp_args(t, held(p1 + 1, p, n), acc.push(e))
                } else {
                    match sp_consume(t, p1, TokenKind::RightParen) {
                        Ok((_, p2)) => Ok((acc.push(e), held(p2, p, n))),
                        Err(e2) => Err(e2),
                    }
                }
            },
            Err(e) => Err(e),
        }
    }
}

/// The chain of call suffixes: `(` args? `)` applications and `.` property
/// accesses, applied to an already-parsed callee.
#[verifier::opaque]
pub open spec fn sp_call_rest(t: Seq<TokenSpec>, p: int, callee: ExprSpec) -> Parsed<ExprSpec>
    decreases t.len() - p, 1int,
{
    let n = t.len() as int;
    if p < 0 || p >= n {
        Ok((callee, p))
    } else if t[p].kind == TokenKind::LeftParen {
        if p + 1 < n && t[p + 1].kind == TokenKind::RightParen {
            let e = ExprSpec::Call { callee: Box::new(callee), args: seq![] };
            sp_call_rest(t, held(p + 2, p, n), e)
        } else {
            match sp_args(t, held(p + 1, p, n), seq![]) {
                Ok((args, p1)) => sp_call_rest(
                    t,
                    held(p1, p, n),
                    ExprSpec::Call { callee: Box::new(callee), args },
                ),
                Err(e) => Err(e),
            }
        }
    } else if t[p].kind == TokenKind::Dot {
        match sp_consume(t, p + 1, TokenKind::Identifier) {
            Ok((name, p1)) => sp_call_rest(
                t,
                held(p1, p, n),
                ExprSpec::Get { object: Box::new(callee), name: name.literal },
            ),
            Err(e) => Err(e),
        }
    } else {
        Ok((callee, p))
    }
}

/// call → primary ( "(" args? ")" | "." IDENT )*
#[verifier::opaque]
pub open spec fn sp_call(t: Seq<TokenSpec>, p: int) -> Parsed<ExprSpec>
    decreases t.len() - p, 2int,
{
    if p >= t.len() {
        Err(ParserErrorSpec::UnexpectedEof { line: 1 })
    } else {
        match sp_primary(t, p) {
            Ok((e, p1)) => sp_call_rest(t, held(p1, p, t.len() as int), e),
            Err(e) => Err(e),
        }
    }
}

/// unary → ("!"|"-") unary | call
#[verifier::opaque]
pub open spec fn sp_unary(t: Seq<TokenSpec>, p: int) -> Parsed<ExprSpec>
    decreases t.len() - p, 4int,
{
    let n = t.len() as int;
    if 0 <= p < n && (t[p].kind == TokenKind::Bang || t[p].kind == TokenKind::Minus) {
        match sp_unary(t, p + 1) {
            Ok((e, p1)) => Ok(
                (
                    ExprSpec::Unary { operator: t[p].kind, expression: Box::new(e) },
                    held(p1, p, n),
                ),
            ),
            Err(e) => Err(e),
        }
    } else {
        sp_call(t, p)
    }
}

/// Whether a token kind is one of the factor operators.
pub open spec fn is_factor_op(k: TokenKind) -> bool {
    k == TokenKind::Star || k == TokenKind::Slash
}

/// The left-associative run of factor operators after a first operand.
#[verifier::opaque]
pub open spec fn sp_factor_rest(t: Seq<TokenSpec>, p: int, left: ExprSpec) -> Parsed<ExprSpec>
    decreases t.len() - p, 5int,
{
    let n = t.len() as int;
    if 0 <= p < n && is_factor_op(t[p].kind) {
        match sp_unary(t, p + 1) {
            Ok((right, p1)) => sp_factor_rest(
                t,
                held(p1, p, n),
                ExprSpec::Binary {
                    left: Box::new(left),
                    operator: t[p].kind,
                    right: Box::new(right),
                },
            ),
            Err(e) => Err(e),
        }
    } else {
        Ok((left, p))
    }
}

/// factor → unary ( ("*"|"/") unary )*
#[verifier::opaque]
pub open spec fn sp_factor(t: Seq<TokenSpec>, p: int) -> Parsed<ExprSpec>
    decreases t.len() - p, 6int,
{
    if p >= t.len() {
        Err(ParserErrorSpec::UnexpectedEof { line: 1 })
    } else {
        match sp_unary(t, p) {
            Ok((e, p1)) => sp_factor_rest(t, held(p1, p, t.len() as int), e),
            Err(e) => Err(e),
        }
    }
}

/// Whether a token kind is one of the term operators.
pub open spec fn is_term_op(k: TokenKind) -> bool {
    k == TokenKind::Plus || k == TokenKind::Minus
}

/// The left-associative run of term operators after a first operand.
#[verifier::opaque]
pub open spec fn sp_term_rest(t: Seq<TokenSpec>, p: int, left: ExprSpec) -> Parsed<ExprSpec>
    decreases t.len() - p, 7int,
{
    let n = t.len() as int;
    if 0 <= p < n && is_term_op(t[p].kind) {
        match sp_factor(t, p + 1) {
            Ok((right, p1)) => sp_term_rest(
                t,
                held(p1, p, n),
                ExprSpec::Binary {
                    left: Box::new(left),
                    operator: t[p].kind,
                    right: Box::new(right),
                },
            ),
            Err(e) => Err(e),
        }
    } else {
        Ok((left, p))
    }
}

/// term → factor ( ("+"|"-") factor )*
#[verifier::opaque]
pub open spec fn sp_term(t: Seq<TokenSpec>, p: int) -> Parsed<ExprSpec>
    decreases t.len() - p, 8int,
{
    if p >= t.len() {
        Err(ParserErrorSpec::UnexpectedEof { line: 1 })
    } else {
        match sp_factor(t, p) {
            Ok((e, p1)) => sp_term_rest(t, held(p1, p, t.len() as int), e),
            Err(e) => Err(e),
        }
    }
}

/// Whether a token kind is one of the comparison operators.
pub open spec fn is_comparison_op(k: TokenKind) -> bool {
    k == TokenKind::Greater || k == TokenKind::GreaterEqual || k == TokenKind::Less || k
        == TokenKind::LessEqual
}

/// The left-associative run of comparison operators after a first operand.
#[verifier::opaque]
pub open spec fn sp_comparison_rest(t: Seq<TokenSpec>, p: int, left: ExprSpec) -> Parsed<ExprSpec>
    decreases t.len() - p, 9int,
{
    let n = t.len() as int;
    if 0 <= p < n && is_comparison_op(t[p].kind) {
        match sp_term(t, p + 1) {
            Ok((right, p1)) => sp_comparison_rest(
                t,
                held(p1, p, n),
                ExprSpec::Binary {
                    left: Box::new(left),
                    operator: t[p].kind,
                    right: Box::new(right),
                },
            ),
            Err(e) => Err(e),
        }
    } else {
        Ok((left, p))
    }
}

/// comparison → term ( ("<"|"<="|">"|">=") term )*
#[verifier::opaque]
pub open spec fn sp_comparison(t: Seq<TokenSpec>, p: int) -> Parsed<ExprSpec>
    decreases t.len() - p, 10int,
{
    if p >= t.len() {
        Err(ParserErrorSpec::UnexpectedEof { line: 1 })
    } else {
        match sp_term(t, p) {
            Ok((e, p1)) => sp_comparison_rest(t, held(p1, p, t.len() as int), e),
            Err(e) => Err(e),
        }
    }
}

/// Whether a token kind is one of the equality operators.
pub open spec fn is_equality_op(k: TokenKind) -> bool {
    k == TokenKind::EqualEqual || k == TokenKind::BangEqual
}

/// The left-associative run of equality operators after a first operand.
#[verifier::opaque]
pub open spec fn sp_equality_rest(t: Seq<TokenSpec>, p: int, left: ExprSpec) -> Parsed<ExprSpec>
    decreases t.len() - p, 11int,
{
    let n = t.len() as int;
    if 0 <= p < n && is_equality_op(t[p].kind) {
        match sp_comparison(t, p + 1) {
            Ok((right, p1)) => sp_equality_rest(
                t,
                held(p1, p, n),
                ExprSpec::Binary {
                    left: Box::new(left),
                    operator: t[p].kind,
                    right: Box::new(right),
                },
            ),
            Err(e) => Err(e),
        }
    } else {
        Ok((left, p))
    }
}

/// equality → comparison ( ("==" | "!=") comparison )*
#[verifier::opaque]
pub open spec fn sp_equality(t: Seq<TokenSpec>, p: int) -> Parsed<ExprSpec>
    decreases t.len() - p, 12int,
{
    if p >= t.len() {
        Err(ParserErrorSpec::UnexpectedEof { line: 1 })
    } else {
        match sp_comparison(t, p) {
            Ok((e, p1)) => sp_equality_rest(t, held(p1, p, t.len() as int), e),
            Err(e) => Err(e),
        }
    }
}

/// The left-associative run of `and` operators after a first operand.
#[verifier::opaque]
pub open spec fn sp_and_rest(t: Seq<TokenSpec>, p: int, left: ExprSpec) -> Parsed<ExprSpec>
    decreases t.len() - p, 13int,
{
    let n = t.len() as int;
    if 0 <= p < n && t[p].kind == TokenKind::And {
        match sp_equality(t, p + 1) {
            Ok((right, p1)) => sp_and_rest(
                t,
                held(p1, p, n),
                ExprSpec::Logical {
                    left: Box::new(left),
                    operator: TokenKind::And,
                    right: Box::new(right),
                },
            ),
            Err(e) => Err(e),
        }
    } else {
        Ok((left, p))
    }
}

/// logic_and → equality ( "and" equality )*
#[verifier::opaque]
pub open spec fn sp_and(t: Seq<TokenSpec>, p: int) -> Parsed<ExprSpec>
    decreases t.len() - p, 14int,
{
    if p >= t.len() {
        Err(ParserErrorSpec::UnexpectedEof { line: 1 })
    } else {
        match sp_equality(t, p) {
            Ok((e, p1)) => sp_and_rest(t, held(p1, p, t.len() as int), e),
            Err(e) => Err(e),
        }
    }
}

/// The left-associative run of `or` operators after a first operand.
#[verifier::opaque]
pub open spec fn sp_or_rest(t: Seq<TokenSpec>, p: int, left: ExprSpec) -> Parsed<ExprSpec>
    decreases t.len() - p, 15int,
{
    let n = t.len() as int;
    if 0 <= p < n && t[p].kind == TokenKind::Or {
        match sp_and(t, p + 1) {
            Ok((right, p1)) => sp_or_rest(
                t,
                held(p1, p, n),
                ExprSpec::Logical {
                    left: Box::new(left),
                    operator: TokenKind::Or,
                    right: Box::new(right),
                },
            ),
            Err(e) => Err(e),
        }
    } else {
        Ok((left, p))
    }
}

/// logic_or → logic_and ( "or" logic_and )*
#[verifier::opaque]
pub open spec fn sp_or(t: Seq<TokenSpec>, p: int) -> Parsed<ExprSpec>
    decreases t.len() - p, 16int,
{
    if p >= t.len() {
        Err(ParserErrorSpec::UnexpectedEof { line: 1 })
    } else {
        match sp_and(t, p) {
            Ok((e, p1)) => sp_or_rest(t, held(p1, p, t.len() as int), e),
            Err(e) => Err(e),
        }
    }
}

/// assignment → ( call "." )? IDENT "=" assignment | logic_or.  A variable
/// becomes an assignment, a property access becomes a property write; any
/// other target is an error at the `=` sign.
#[verifier::opaque]
pub open spec fn sp_assignment(t: Seq<TokenSpec>, p: int) -> Parsed<ExprSpec>
    decreases t.len() - p, 18int,
{
    let n = t.len() as int;
    if p >= n {
        Err(ParserErrorSpec::UnexpectedEof { line: 1 })
    } else { match sp_or(t, p) {
        Ok((e, p1)) => {
            if 0 <= p1 < n && t[p1].kind == TokenKind::Equal {
                match sp_assignment(t, held(p1 + 1, p, n)) {
                    Ok((v, p2)) => match e {
                        ExprSpec::Variable { name, resolved } => Ok(
                            (
                                ExprSpec::Assign {
                                    name,
                                    value: Box::new(v),
                                    resolved: None,
                                },
                                held(p2, p, n),
                            ),
                        ),
                        ExprSpec::Get { object, name } => Ok(
                            (
                                ExprSpec::SetProp {
                                    object,
                                    property: name,
                                    value: Box::new(v),
                                },
                                held(p2, p, n),
                            ),
                        ),
                        _ => Err(
                            ParserErrorSpec::InvalidAssignmentTarget {
                                line: t[p1].line,
                                token: t[p1].literal,
                            },
                        ),
                    },
                    Err(e2) => Err(e2),
                }
            } else {
                Ok((e, p1))
            }
        },
        Err(e) => Err(e),
    } }
}

/// expression → assignment
#[verifier::opaque]
pub open spec fn sp_expression(t: Seq<TokenSpec>, p: int) -> Parsed<ExprSpec>
    decreases t.len() - p, 20int,
{
    sp_assignment(t, p)
}

/// Whether a token begins a statement: the synchronisation points of
/// panic-mode error recovery.
pub open spec fn is_stmt_start(k: TokenKind) -> bool {
    k == TokenKind::Print || k == TokenKind::Var || k == TokenKind::Fun || k == TokenKind::Class
        || k == TokenKind::For || k == TokenKind::If || k == TokenKind::While || k
        == TokenKind::Return || k == TokenKind::LeftBrace
}

/// var_decl → "var" IDENT ( "=" expression )? ";"
#[verifier::opaque]
pub open spec fn sp_var_decl(t: Seq<TokenSpec>, p: int) -> Parsed<StmtSpec>
    decreases t.len() - p, 28int,
{
    let n = t.len() as int;
    match sp_consume(t, p, TokenKind::Var) {
        Ok((_, q)) => match sp_consume(t, q, TokenKind::Identifier) {
            Ok((name, q1)) => {
                if q1 < n && t[q1].kind == TokenKind::Equal {
                    match sp_expression(t, q1 + 1) {
                        Ok((init, q2)) => match sp_consume(t, q2, TokenKind::Semi) {
                            Ok((_, q3)) => Ok(
                                (
                                    StmtSpec::Var {
                                        name: name.literal,
                                        initializer: Some(init),
                                    },
                                    held(q3, p, n),
                                ),
                            ),
                            Err(e) => Err(e),
                        },
                        Err(e) => Err(e),
                    }
                } else {
                    match sp_consume(t, q1, TokenKind::Semi) {
                        Ok((_, q3)) => Ok(
                            (
                                StmtSpec::Var { name: name.literal, initializer: None },
                                held(q3, p, n),
                            ),
                        ),
                        Err(e) => Err(e),
                    }
                }
            },
            Err(e) => Err(e),
        },
        Err(e) => Err(e),
    }
}

/// print → "print" expression ";"
#[verifier::opaque]
pub open spec fn sp_print(t: Seq<TokenSpec>, p: int) -> Parsed<StmtSpec>
    decreases t.len() - p, 28int,
{
    let n = t.len() as int;
    match sp_consume(t, p, TokenKind::Print) {
        Ok((_, q)) => match sp_expression(t, q) {
            Ok((e, q1)) => match sp_consume(t, q1, TokenKind::Semi) {
                Ok((_, q2)) => Ok((StmtSpec::Print(e), held(q2, p, n))),
                Err(e2) => Err(e2),
            },
            Err(e2) => Err(e2),
        },
        Err(e) => Err(e),
    }
}

/// expr_stmt → expression ";"
#[verifier::opaque]
pub open spec fn sp_expr_stmt(t: Seq<TokenSpec>, p: int) -> Parsed<StmtSpec>
    decreases t.len() - p, 28int,
{
    let n = t.len() as int;
    match sp_expression(t, p) {
        Ok((e, q)) => match sp_consume(t, q, TokenKind::Semi) {
            Ok((_, q1)) => Ok((StmtSpec::Expr(e), held(q1, p, n))),
            Err(e2) => Err(e2),
        },
        Err(e2) => Err(e2),
    }
}

/// return → "return" expression? ";"
#[verifier::opaque]
pub open spec fn sp_return(t: Seq<TokenSpec>, p: int) -> Parsed<StmtSpec>
    decreases t.len() - p, 28int,
{
    let n = t.len() as int;
    match sp_consume(t, p, TokenKind::Return) {
        Ok((_, q)) => {
            if q < n && t[q].kind != TokenKind::Semi {
                match sp_expression(t, q) {
                    Ok((e, q1)) => match sp_consume(t, q1, TokenKind::Semi) {
                        Ok((_, q2)) => Ok(
                            (StmtSpec::Return { value: Some(e) }, held(q2, p, n)),
                        ),
                        Err(e2) => Err(e2),
                    },
                    Err(e2) => Err(e2),
                }
            } else {
                match sp_consume(t, q, TokenKind::Semi) {
                    Ok((_, q2)) => Ok((StmtSpec::Return { value: None }, held(q2, p, n))),
                    Err(e2) => Err(e2),
                }
            }
        },
        Err(e) => Err(e),
    }
}

/// The statements of a block, up to the closing brace or the end of input.
#[verifier::opaque]
pub open spec fn sp_block_items(t: Seq<TokenSpec>, p: int, acc: Seq<StmtSpec>) -> Parsed<
    Seq<StmtSpec>,
>
    decreases t.len() - p, 35int,
{
    let n = t.len() as int;
    if p < 0 || p >= n || t[p].kind == TokenKind::RightBrace {
        Ok((acc, p))
    } else {
        match sp_statement(t, p) {
            Ok((st, q)) => sp_block_items(t, held(q, p, n), acc.push(st)),
            Err(e) => Err(e),
        }
    }
}

/// block → "{" statement* "}", as the list of inner statements.
#[verifier::opaque]
pub open spec fn sp_block(t: Seq<TokenSpec>, p: int) -> Parsed<Seq<StmtSpec>>
    decreases t.len() - p, 32int,
{
    let n = t.len() as int;
    match sp_consume(t, p, TokenKind::LeftBrace) {
        Ok((_, q)) => match sp_block_items(t, q, seq![]) {
            Ok((items, q1)) => match sp_consume(t, q1, TokenKind::RightBrace) {
                Ok((_, q2)) => Ok((items, held(q2, p, n))),
                Err(e) => Err(e),
            },
            Err(e) => Err(e),
        },
        Err(e) => Err(e),
    }
}

/// if → "if" "(" expression ")" statement ( "else" statement )?
#[verifier::opaque]
pub open spec fn sp_if(t: Seq<TokenSpec>, p: int) -> Parsed<StmtSpec>
    decreases t.len() - p, 33int,
{
    let n = t.len() as int;
    match sp_consume(t, p, TokenKind::If) {
        Ok((_, q)) => match sp_consume(t, q, TokenKind::LeftParen) {
            Ok((_, q1)) => match sp_expression(t, q1) {
                Ok((cond, q2)) => match sp_consume(t, q2, TokenKind::RightParen) {
                    Ok((_, q3)) => match sp_statement(t, held(q3, p, n)) {
                        Ok((then_branch, q4)) => {
                            if q4 < n && t[q4].kind == TokenKind::Else {
                                match sp_statement(t, held(q4 + 1, p, n)) {
                                    Ok((else_branch, q5)) => Ok(
                                        (
                                            StmtSpec::If {
                                                condition: cond,
                                                then_branch: Box::new(then_branch),
                                                else_branch: Some(Box::new(else_branch)),
                                            },
                                            held(q5, p, n),
                                        ),
                                    ),
                                    Err(e) => Err(e),
                                }
                            } else {
                                Ok(
                                    (
                                        StmtSpec::If {
                                            condition: cond,
                                            then_branch: Box::new(then_branch),
                                            else_branch: None,
                                        },
                                        held(q4, p, n),
                                    ),
                                )
                            }
                        },
                        Err(e) => Err(e),
                    },
                    Err(e) => Err(e),
                },
                Err(e) => Err(e),
            },
            Err(e) => Err(e),
        },
        Err(e) => Err(e),
    }
}

/// while → "while" "(" expression ")" statement
#[verifier::opaque]
pub open spec fn sp_while(t: Seq<TokenSpec>, p: int) -> Parsed<StmtSpec>
    decreases t.len() - p, 33int,
{
    let n = t.len() as int;
    match sp_consume(t, p, TokenKind::While) {
        Ok((_, q)) => match sp_consume(t, q, TokenKind::LeftParen) {
            Ok((_, q1)) => match sp_expression(t, q1) {
                Ok((cond, q2)) => match sp_consume(t, q2, TokenKind::RightParen) {
                    Ok((_, q3)) => match sp_statement(t, held(q3, p, n)) {
                        Ok((body, q4)) => Ok(
                            (
                                StmtSpec::While {
                                    condition: Box::new(cond),
                                    body: Box::new(body),
                                },
                                held(q4, p, n),
                            ),
                        ),
                        Err(e) => Err(e),
                    },
                    Err(e) => Err(e),
                },
                Err(e) => Err(e),
            },
            Err(e) => Err(e),
        },
        Err(e) => Err(e),
    }
}

/// for → "for" "(" (var_decl | expr_stmt | ";") expression? ";" expression? ")"
///       statement
#[verifier::opaque]
pub open spec fn sp_for(t: Seq<TokenSpec>, p: int) -> Parsed<StmtSpec>
    decreases t.len() - p, 33int,
{
    let n = t.len() as int;
    match sp_consume(t, p, TokenKind::For) {
        Ok((_, q0)) => match sp_consume(t, q0, TokenKind::LeftParen) {
            Ok((_, q)) => {
                let init_step: Parsed<Option<Box<StmtSpec>>> = if q < n && t[q].kind
                    == TokenKind::Semi {
                    Ok((None, q + 1))
                } else if q < n && t[q].kind == TokenKind::Var {
                    match sp_var_decl(t, q) {
                        Ok((st, q1)) => Ok((Some(Box::new(st)), q1)),
                        Err(e) => Err(e),
                    }
                } else {
                    match sp_expr_stmt(t, q) {
                        Ok((st, q1)) => Ok((Some(Box::new(st)), q1)),
                        Err(e) => Err(e),
                    }
                };
                match init_step {
                    Ok((initialize, q1)) => {
                        let cond_step: Parsed<Option<ExprSpec>> = if q1 < n && t[q1].kind
                            != TokenKind::Semi {
                            match sp_expression(t, held(q1, p, n)) {
                                Ok((c, q2)) => Ok((Some(c), q2)),
                                Err(e) => Err(e),
                            }
                        } else {
                            Ok((None, q1))
                        };
                        match cond_step {
                            Ok((condition, q2)) => match sp_consume(t, q2, TokenKind::Semi) {
                                Ok((_, q3)) => {
                                    let incr_step: Parsed<Option<ExprSpec>> = if q3 < n
                                        && t[q3].kind != TokenKind::RightParen {
                                        match sp_expression(t, held(q3, p, n)) {
                                            Ok((i, q4)) => Ok((Some(i), q4)),
                                            Err(e) => Err(e),
                                        }
                                    } else {
                                        Ok((None, q3))
                                    };
                                    match incr_step {
                                        Ok((increment, q4)) => match sp_consume(
                                            t,
                                            q4,
                                            TokenKind::RightParen,
                                        ) {
                                            Ok((_, q5)) => match sp_statement(
                                                t,
                                                held(q5, p, n),
                                            ) {
                                                Ok((body, q6)) => Ok(
                                                    (
                                                        StmtSpec::For {
                                                            initialize,
                                                            condition,
                                                            increment,
                                                            body: Box::new(body),
                                                        },
                                                        held(q6, p, n),
                                                    ),
                                                ),
                                                Err(e) => Err(e),
                                            },
                                            Err(e) => Err(e),
                                        },
                                        Err(e) => Err(e),
                                    }
                                },
                                Err(e) => Err(e),
                            },
                            Err(e) => Err(e),
                        }
                    },
                    Err(e) => Err(e),
                }
            },
            Err(e) => Err(e),
        },
        Err(e) => Err(e),
    }
}

/// The parameter list of a function after its opening parenthesis, at most
/// 255 names, and the closing parenthesis.
#[verifier::opaque]
pub open spec fn sp_params(t: Seq<TokenSpec>, p: int, acc: Seq<Seq<char>>) -> Parsed<
    Seq<Seq<char>>,
>
    decreases t.len() - p, 24int,
{
    let n = t.len() as int;
    if acc.len() >= 255 {
        Err(ParserErrorSpec::Message("Cannot have more than 255 parameters."@))
    } else {
        match sp_consume(t, p, TokenKind::Identifier) {
            Ok((prm, q)) => {
                if q < n && t[q].kind == TokenKind::Comma {
                    sp_params(t, held(q + 1, p, n), acc.push(prm.literal))
                } else {
                    match sp_consume(t, q, TokenKind::RightParen) {
                        Ok((_, q2)) => Ok((acc.push(prm.literal), held(q2, p, n))),
                        Err(e) => Err(e),
                    }
                }
            },
            Err(e) => Err(e),
        }
    }
}

/// IDENT "(" params? ")" block — a function declaration after its `fun`
/// keyword, or a method.
#[verifier::opaque]
pub open spec fn sp_function(t: Seq<TokenSpec>, p: int) -> Parsed<StmtSpec>
    decreases t.len() - p, 27int,
{
    let n = t.len() as int;
    match sp_consume(t, p, TokenKind::Identifier) {
        Ok((name, q)) => match sp_consume(t, q, TokenKind::LeftParen) {
            Ok((_, q1)) => {
                let params_step: Parsed<Seq<Seq<char>>> = if q1 < n && t[q1].kind
                    == TokenKind::RightParen {
                    Ok((seq![], q1 + 1))
                } else {
                    sp_params(t, q1, seq![])
                };
                match params_step {
                    Ok((params, q2)) => match sp_block(t, held(q2, p, n)) {
                        Ok((body, q3)) => Ok(
                            (
                                StmtSpec::Function { name: name.literal, params, body },
                                held(q3, p, n),
                            ),
                        ),
                        Err(e) => Err(e),
                    },
                    Err(e) => Err(e),
                }
            },
            Err(e) => Err(e),
        },
        Err(e) => Err(e),
    }
}

/// fun_decl → "fun" IDENT "(" params? ")" block
#[verifier::opaque]
pub open spec fn sp_fun_decl(t: Seq<TokenSpec>, p: int) -> Parsed<StmtSpec>
    decreases t.len() - p, 28int,
{
    match sp_consume(t, p, TokenKind::Fun) {
        Ok((_, q)) => sp_function(t, q),
        Err(e) => Err(e),
    }
}

/// The methods of a class, up to the closing brace or the end of input.
#[verifier::opaque]
pub open spec fn sp_class_methods(t: Seq<TokenSpec>, p: int, acc: Seq<StmtSpec>) -> Parsed<
    Seq<StmtSpec>,
>
    decreases t.len() - p, 29int,
{
    let n = t.len() as int;
    if p < 0 || p >= n || t[p].kind == TokenKind::RightBrace {
        Ok((acc, p))
    } else {
        match sp_function(t, p) {
            Ok((m, q)) => sp_class_methods(t, held(q, p, n), acc.push(m)),
            Err(e) => Err(e),
        }
    }
}

/// class_decl → "class" IDENT ( "<" IDENT )? "{" method* "}"
#[verifier::opaque]
pub open spec fn sp_class(t: Seq<TokenSpec>, p: int) -> Parsed<StmtSpec>
    decreases t.len() - p, 33int,
{
    let n = t.len() as int;
    match sp_consume(t, p, TokenKind::Class) {
        Ok((_, q)) => match sp_consume(t, q, TokenKind::Identifier) {
            Ok((name, q1)) => {
                let super_step: Parsed<Option<Seq<char>>> = if q1 < n && t[q1].kind
                    == TokenKind::Less {
                    match sp_consume(t, q1 + 1, TokenKind::Identifier) {
                        Ok((sup, q2)) => Ok((Some(sup.literal), q2)),
                        Err(e) => Err(e),
                    }
                } else {
                    Ok((None, q1))
                };
                match super_step {
                    Ok((superclass, q2)) => match sp_consume(t, q2, TokenKind::LeftBrace) {
                        Ok((_, q3)) => match sp_class_methods(t, held(q3, p, n), seq![]) {
                            Ok((methods, q4)) => match sp_consume(
                                t,
                                q4,
                                TokenKind::RightBrace,
                            ) {
                                Ok((_, q5)) => Ok(
                                    (
                                        StmtSpec::Class {
                                            name: name.literal,
                                            superclass,
                                            methods,
                                        },
                                        held(q5, p, n),
                                    ),
                                ),
                                Err(e) => Err(e),
                            },
                            Err(e) => Err(e),
                        },
                        Err(e) => Err(e),
                    },
                    Err(e) => Err(e),
                }
            },
            Err(e) => Err(e),
        },
        Err(e) => Err(e),
    }
}

/// statement → print | var_decl | fun_decl | class_decl | block | if | while
///           | for | return | expr_stmt
#[verifier::opaque]
pub open spec fn sp_statement(t: Seq<TokenSpec>, p: int) -> Parsed<StmtSpec>
    decreases t.len() - p, 34int,
{
    let n = t.len() as int;
    if p < 0 || p >= n {
        Err(ParserErrorSpec::UnexpectedEof { line: 1 })
    } else {
        match t[p].kind {
            TokenKind::Print => sp_print(t, p),
            TokenKind::Var => sp_var_decl(t, p),
            TokenKind::LeftBrace => match sp_block(t, p) {
                Ok((items, q)) => Ok((StmtSpec::Block(items), q)),
                Err(e) => Err(e),
            },
            TokenKind::If => sp_if(t, p),
            TokenKind::While => sp_while(t, p),
            TokenKind::For => sp_for(t, p),
            TokenKind::Fun => sp_fun_decl(t, p),
            TokenKind::Return => sp_return(t, p),
            TokenKind::Class => sp_class(t, p),
            _ => sp_expr_stmt(t, p),
        }
    }
}

/// program → statement*, to the end of the input; the first failing
/// statement's error when any statement fails.
#[verifier::opaque]
pub open spec fn sp_program(t: Seq<TokenSpec>, p: int) -> Result<Seq<StmtSpec>, ParserErrorSpec>
    decreases t.len() - p, 36int,
{
    let n = t.len() as int;
    if p < 0 || p >= n {
        Ok(seq![])
    } else {
        match sp_statement(t, p) {
            Ok((st, q)) => match sp_program(t, held(q, p, n)) {
                Ok(rest) => Ok(seq![st] + rest),
                Err(e) => Err(e),
            },
            Err(e) => Err(e),
        }
    }
}


/// Where panic-mode recovery lands: tokens are discarded up to and
/// including the next `;`, or up to (not including) the next token that
/// begins a statement, or to the end of the input.
pub open spec fn sp_sync(t: Seq<TokenSpec>, p: int) -> int
    decreases t.len() - p,
{
    if p < 0 || p >= t.len() {
        p
    } else if t[p].kind == TokenKind::Semi {
        p + 1
    } else if is_stmt_start(t[p].kind) {
        p
    } else {
        sp_sync(t, p + 1)
    }
}

/// Recovery never runs backwards and never leaves the input.
pub proof fn lemma_sync_range(t: Seq<TokenSpec>, p: int)
    requires
        0 <= p <= t.len(),
    ensures
        p <= sp_sync(t, p) <= t.len(),
    decreases t.len() - p,
{
    if p < t.len() && t[p].kind != TokenKind::Semi && !is_stmt_start(t[p].kind) {
        lemma_sync_range(t, p + 1);
    }
}

/// The parser: the token stream, a cursor into it, and whether any error
/// has been reported.
pub struct Parser {
    pub tokens: Vec<Token>,
    pub pos: usize,
    pub had_error: bool,
}

impl Parser {
    /// The images of the tokens being parsed.
    pub open spec fn toks(&self) -> Seq<TokenSpec> {
        self.tokens.deep_view()
    }

    /// The cursor never leaves the token stream.
    pub open spec fn wf(&self) -> bool {
        self.pos <= self.tokens@.len()
    }

    /// A parser over the token stream of the given source text.
    pub fn new(input: &str) -> (r: Parser)
        requires
            input@.len() < usize::MAX,
        ensures
            r.wf(),
            r.toks() == spec_lex(input@),
            r.pos == 0,
            !r.had_error,
    {
        let mut lexer = Lexer::new(input);
        let tokens = lexer.tokenize();
        Parser { tokens, pos: 0, had_error: false }
    }

    /// Whether any statement failed to parse.
    pub fn had_error(&self) -> (r: bool)
        ensures
            r == self.had_error,
    {
        self.had_error
    }

    /// Consumes the next token if it has the expected kind, exactly as
    /// `sp_consume` describes; a mismatched token is still consumed.
    #[verifier::rlimit(100)]
    #[verifier::spinoff_prover]
    fn consume(&mut self, expected: TokenKind) -> (r: Result<Token, ParserError>)
        requires
            old(self).wf(),
        ensures
            final(self).wf(),
            final(self).tokens == old(self).tokens,
            final(self).had_error == old(self).had_error,
            final(self).pos >= old(self).pos,
            r is Err ==> final(self).pos > old(self).pos || old(self).pos >= old(
                self,
            ).tokens@.len(),
            match sp_consume(old(self).toks(), old(self).pos as int, expected) {
                Ok((tk, q)) => r is Ok && r->Ok_0.deep_view() == tk && final(self).pos as int == q
                    && final(self).pos > old(self).pos,
                Err(pe) => r is Err && r->Err_0.deep_view() == pe,
            },
    {
        if self.pos >= self.tokens.len() {
            return Err(ParserError::UnexpectedEof { line: 1 });
        }
        let matched = self.tokens[self.pos].kind == expected;
        let tk = Token {
            kind: self.tokens[self.pos].kind,
            literal: self.tokens[self.pos].literal.clone(),
            line: self.tokens[self.pos].line,
            column: self.tokens[self.pos].column,
        };
        self.pos = self.pos + 1;
        if matched {
            Ok(tk)
        } else {
            Err(ParserError::UnexpectedToken { line: tk.line, token: tk.literal })
        }
    }

    /// primary, exactly as `sp_primary` describes it.
    #[verifier::rlimit(100)]
    #[verifier::spinoff_prover]
    fn primary(&mut self) -> (r: Result<Expression, ParserError>)
        requires
            old(self).wf(),
        ensures
            final(self).wf(),
            final(self).tokens == old(self).tokens,
            final(self).had_error == old(self).had_error,
            final(self).pos >= old(self).pos,
            match sp_primary(old(self).toks(), old(self).pos as int) {
                Ok((e, q)) => r is Ok && r->Ok_0.deep_view() == e && final(self).pos as int == q
                    && final(self).pos > old(self).pos,
                Err(pe) => r is Err && r->Err_0.deep_view() == pe,
            },
        decreases self.tokens@.len() - self.pos, 0int,
    {
        reveal(sp_primary);
        if self.pos >= self.tokens.len() {
            return Err(ParserError::UnexpectedEof { line: 1 });
        }
        let kind = self.tokens[self.pos].kind;
        match kind {
            TokenKind::Number(bits) => {
                self.pos = self.pos + 1;
                Ok(Expression::Literal(Literal::Number(bits)))
            },
            TokenKind::String => {
                let lit = self.tokens[self.pos].literal.clone();
                self.pos = self.pos + 1;
                Ok(Expression::Literal(Literal::String(lit)))
            },
            TokenKind::True => {
                self.pos = self.pos + 1;
                Ok(Expression::Literal(Literal::Boolean(true)))
            },
            TokenKind::False => {
                self.pos = self.pos + 1;
                Ok(Expression::Literal(Literal::Boolean(false)))
            },
            TokenKind::Nil => {
                self.pos = self.pos + 1;
                Ok(Expression::Literal(Literal::Nil))
            },
            TokenKind::Identifier => {
                let name = self.tokens[self.pos].literal.clone();
                self.pos = self.pos + 1;
                Ok(Expression::Variable { name, resolved: None })
            },
            TokenKind::This => {
                self.pos = self.pos + 1;
                Ok(Expression::This { resolved: None })
            },
            TokenKind::Super => {
                self.pos = self.pos + 1;
                let _dot = match self.consume(TokenKind::Dot) {
                    Ok(v) => v,
                    Err(er) => {
                        return Err(er);
                    },
                };
                let m = match self.consume(TokenKind::Identifier) {
                    Ok(v) => v,
                    Err(er) => {
                        return Err(er);
                    },
                };
                Ok(Expression::Super { method: m.literal, resolved: None })
            },
            TokenKind::LeftParen => {
                self.pos = self.pos + 1;
                let inner = match self.expression() {
                    Ok(v) => v,
                    Err(er) => {
                        return Err(er);
                    },
                };
                let _close = match self.consume(TokenKind::RightParen) {
                    Ok(v) => v,
                    Err(er) => {
                        return Err(er);
                    },
                };
                Ok(Expression::Group(Box::new(inner)))
            },
            _ => {
                let line = self.tokens[self.pos].line;
                let token = self.tokens[self.pos].literal.clone();
                Err(ParserError::UnexpectedToken { line, token })
            },
        }
    }

    /// The arguments of a call, exactly as `sp_args` describes them.
    #[verifier::rlimit(100)]
    #[verifier::spinoff_prover]
    fn arguments(&mut self, acc: Vec<Expression>) -> (r: Result<Vec<Expression>, ParserError>)
        requires
            old(self).wf(),
        ensures
            final(self).wf(),
            final(self).tokens == old(self).tokens,
            final(self).had_error == old(self).had_error,
            final(self).pos >= old(self).pos,
            match sp_args(old(self).toks(), old(self).pos as int, acc.deep_view()) {
                Ok((s, q)) => r is Ok && r->Ok_0.deep_view() == s && final(self).pos as int == q
                    && final(self).pos > old(self).pos,
                Err(pe) => r is Err && r->Err_0.deep_view() == pe,
            },
        decreases self.tokens@.len() - self.pos, 22int,
    {
        reveal(sp_args);
        if acc.len() >= 255 {
            return Err(ParserError::Message(String::from_str(
                "Cannot have more than 255 arguments.",
            )));
        }
        if self.pos >= self.tokens.len() {
            return Err(ParserError::UnexpectedEof { line: 1 });
        }
        let ghost acc0 = acc.deep_view();
        let e = match self.expression() {
            Ok(v) => v,
            Err(er) => {
                return Err(er);
            },
        };
        let ghost ev = e.deep_view();
        let mut acc2 = acc;
        acc2.push(e);
        proof {
            assert(acc2.deep_view() =~= acc0.push(ev));
        }
        if self.pos < self.tokens.len() && self.tokens[self.pos].kind == TokenKind::Comma {
            self.pos = self.pos + 1;
            self.arguments(acc2)
        } else {
            let _close = match self.consume(TokenKind::RightParen) {
                Ok(v) => v,
                Err(er) => {
                    return Err(er);
                },
            };
            Ok(acc2)
        }
    }

    /// The chain of call suffixes, exactly as `sp_call_rest` describes it.
    #[verifier::rlimit(100)]
    #[verifier::spinoff_prover]
    fn call_rest(&mut self, callee: Expression) -> (r: Result<Expression, ParserError>)
        requires
            old(self).wf(),
        ensures
            final(self).wf(),
            final(self).tokens == old(self).tokens,
            final(self).had_error == old(self).had_error,
            final(self).pos >= old(self).pos,
            match sp_call_rest(old(self).toks(), old(self).pos as int, callee.deep_view()) {
                Ok((e, q)) => r is Ok && r->Ok_0.deep_view() == e && final(self).pos as int == q,
                Err(pe) => r is Err && r->Err_0.deep_view() == pe,
            },
        decreases self.tokens@.len() - self.pos, 1int,
    {
        reveal(sp_call_rest);
        if self.pos >= self.tokens.len() {
            return Ok(callee);
        }
        let kind = self.tokens[self.pos].kind;
        if kind == TokenKind::LeftParen {
            if self.pos + 1 < self.tokens.len() && self.tokens[self.pos + 1].kind
                == TokenKind::RightParen {
                self.pos = self.pos + 2;
                let empty_args: Vec<Expression> = Vec::new();
                proof {
                    lemma_exprs_view_from(empty_args@, 0);
                    assert(exprs_view_from(empty_args@, 0) =~= Seq::<ExprSpec>::empty());
                }
                let e = Expression::Call { callee: Box::new(callee), args: empty_args };
                self.call_rest(e)
            } else {
                self.pos = self.pos + 1;
                let empty_args: Vec<Expression> = Vec::new();
                proof {
                    assert(empty_args.deep_view() =~= Seq::<ExprSpec>::empty());
                }
                let args = match self.arguments(empty_args) {
                    Ok(v) => v,
                    Err(er) => {
                        return Err(er);
                    },
                };
                proof {
                    lemma_exprs_view_from(args@, 0);
                    assert(exprs_view_from(args@, 0) =~= args.deep_view());
                }
                let e = Expression::Call { callee: Box::new(callee), args };
                self.call_rest(e)
            }
        } else if kind == TokenKind::Dot {
            self.pos = self.pos + 1;
            let name = match self.consume(TokenKind::Identifier) {
                Ok(v) => v,
                Err(er) => {
                    return Err(er);
                },
            };
            let e = Expression::Get { object: Box::new(callee), name: name.literal };
            self.call_rest(e)
        } else {
            Ok(callee)
        }
    }

    /// call, exactly as `sp_call` describes it.
    #[verifier::rlimit(100)]
    #[verifier::spinoff_prover]
    fn call(&mut self) -> (r: Result<Expression, ParserError>)
        requires
            old(self).wf(),
        ensures
            final(self).wf(),
            final(self).tokens == old(self).tokens,
            final(self).had_error == old(self).had_error,
            final(self).pos >= old(self).pos,
            match sp_call(old(self).toks(), old(self).pos as int) {
                Ok((e, q)) => r is Ok && r->Ok_0.deep_view() == e && final(self).pos as int == q
                    && final(self).pos > old(self).pos,
                Err(pe) => r is Err && r->Err_0.deep_view() == pe,
            },
        decreases self.tokens@.len() - self.pos, 2int,
    {
        reveal(sp_call);
        if self.pos >= self.tokens.len() {
            return Err(ParserError::UnexpectedEof { line: 1 });
        }
        let e = match self.primary() {
            Ok(v) => v,
            Err(er) => {
                return Err(er);
            },
        };
        self.call_rest(e)
    }

    /// unary, exactly as `sp_unary` describes it.
    #[verifier::rlimit(100)]
    #[verifier::spinoff_prover]
    fn unary(&mut self) -> (r: Result<Expression, ParserError>)
        requires
            old(self).wf(),
        ensures
            final(self).wf(),
            final(self).tokens == old(self).tokens,
            final(self).had_error == old(self).had_error,
            final(self).pos >= old(self).pos,
            match sp_unary(old(self).toks(), old(self).pos as int) {
                Ok((e, q)) => r is Ok && r->Ok_0.deep_view() == e && final(self).pos as int == q
                    && final(self).pos > old(self).pos,
                Err(pe) => r is Err && r->Err_0.deep_view() == pe,
            },
        decreases self.tokens@.len() - self.pos, 4int,
    {
        reveal(sp_unary);
        if self.pos < self.tokens.len() {
            let kind = self.tokens[self.pos].kind;
            if kind == TokenKind::Bang || kind == TokenKind::Minus {
                self.pos = self.pos + 1;
                let e = match self.unary() {
                    Ok(v) => v,
                    Err(er) => {
                        return Err(er);
                    },
                };
                return Ok(Expression::Unary { operator: kind, expression: Box::new(e) });
            }
        }
        self.call()
    }

    /// The run of factor operators, exactly as `sp_factor_rest` describes it.
    #[verifier::rlimit(100)]
    #[verifier::spinoff_prover]
    fn factor_rest(&mut self, left: Expression) -> (r: Result<Expression, ParserError>)
        requires
            old(self).wf(),
        ensures
            final(self).wf(),
            final(self).tokens == old(self).tokens,
            final(self).had_error == old(self).had_error,
            final(self).pos >= old(self).pos,
            match sp_factor_rest(old(self).toks(), old(self).pos as int, left.deep_view()) {
                Ok((e, q)) => r is Ok && r->Ok_0.deep_view() == e && final(self).pos as int == q,
                Err(pe) => r is Err && r->Err_0.deep_view() == pe,
            },
        decreases self.tokens@.len() - self.pos, 5int,
    {
        reveal(sp_factor_rest);
        if self.pos < self.tokens.len() {
            let kind = self.tokens[self.pos].kind;
            if kind == TokenKind::Star || kind == TokenKind::Slash {
                self.pos = self.pos + 1;
                let right = match self.unary() {
                    Ok(v) => v,
                    Err(er) => {
                        return Err(er);
                    },
                };
                let e = Expression::Binary {
                    left: Box::new(left),
                    operator: kind,
                    right: Box::new(right),
                };
                return self.factor_rest(e);
            }
        }
        Ok(left)
    }

    /// factor, exactly as `sp_factor` describes it.
    #[verifier::rlimit(100)]
    #[verifier::spinoff_prover]
    fn factor(&mut self) -> (r: Result<Expression, ParserError>)
        requires
            old(self).wf(),
        ensures
            final(self).wf(),
            final(self).tokens == old(self).tokens,
            final(self).had_error == old(self).had_error,
            final(self).pos >= old(self).pos,
            match sp_factor(old(self).toks(), old(self).pos as int) {
                Ok((e, q)) => r is Ok && r->Ok_0.deep_view() == e && final(self).pos as int == q
                    && final(self).pos > old(self).pos,
                Err(pe) => r is Err && r->Err_0.deep_view() == pe,
            },
        decreases self.tokens@.len() - self.pos, 6int,
    {
        reveal(sp_factor);
        if self.pos >= self.tokens.len() {
            return Err(ParserError::UnexpectedEof { line: 1 });
        }
        let e = match self.unary() {
            Ok(v) => v,
            Err(er) => {
                return Err(er);
            },
        };
        self.factor_rest(e)
    }

    /// The run of term operators, exactly as `sp_term_rest` describes it.
    #[verifier::rlimit(100)]
    #[verifier::spinoff_prover]
    fn term_rest(&mut self, left: Expression) -> (r: Result<Expression, ParserError>)
        requires
            old(self).wf(),
        ensures
            final(self).wf(),
            final(self).tokens == old(self).tokens,
            final(self).had_error == old(self).had_error,
            final(self).pos >= old(self).pos,
            match sp_term_rest(old(self).toks(), old(self).pos as int, left.deep_view()) {
                Ok((e, q)) => r is Ok && r->Ok_0.deep_view() == e && final(self).pos as int == q,
                Err(pe) => r is Err && r->Err_0.deep_view() == pe,
            },
        decreases self.tokens@.len() - self.pos, 7int,
    {
        reveal(sp_term_rest);
        if self.pos < self.tokens.len() {
            let kind = self.tokens[self.pos].kind;
            if kind == TokenKind::Plus || kind == TokenKind::Minus {
                self.pos = self.pos + 1;
                let right = match self.factor() {
                    Ok(v) => v,
                    Err(er) => {
                        return Err(er);
                    },
                };
                let e = Expression::Binary {
                    left: Box::new(left),
                    operator: kind,
                    right: Box::new(right),
                };
                return self.term_rest(e);
            }
        }
        Ok(left)
    }

    /// term, exactly as `sp_term` describes it.
    #[verifier::rlimit(100)]
    #[verifier::spinoff_prover]
    fn term(&mut self) -> (r: Result<Expression, ParserError>)
        requires
            old(self).wf(),
        ensures
            final(self).wf(),
            final(self).tokens == old(self).tokens,
            final(self).had_error == old(self).had_error,
            final(self).pos >= old(self).pos,
            match sp_term(old(self).toks(), old(self).pos as int) {
                Ok((e, q)) => r is Ok && r->Ok_0.deep_view() == e && final(self).pos as int == q
                    && final(self).pos > old(self).pos,
                Err(pe) => r is Err && r->Err_0.deep_view() == pe,
            },
        decreases self.tokens@.len() - self.pos, 8int,
    {
        reveal(sp_term);
        if self.pos >= self.tokens.len() {
            return Err(ParserError::UnexpectedEof { line: 1 });
        }
        let e = match self.factor() {
            Ok(v) => v,
            Err(er) => {
                return Err(er);
            },
        };
        self.term_rest(e)
    }

    /// The run of comparison operators, exactly as `sp_comparison_rest`
    /// describes it.
    #[verifier::rlimit(100)]
    #[verifier::spinoff_prover]
    fn comparison_rest(&mut self, left: Expression) -> (r: Result<Expression, ParserError>)
        requires
            old(self).wf(),
        ensures
            final(self).wf(),
            final(self).tokens == old(self).tokens,
            final(self).had_error == old(self).had_error,
            final(self).pos >= old(self).pos,
            match sp_comparison_rest(old(self).toks(), old(self).pos as int, left.deep_view()) {
                Ok((e, q)) => r is Ok && r->Ok_0.deep_view() == e && final(self).pos as int == q,
                Err(pe) => r is Err && r->Err_0.deep_view() == pe,
            },
        decreases self.tokens@.len() - self.pos, 9int,
    {
        reveal(sp_comparison_rest);
        if self.pos < self.tokens.len() {
            let kind = self.tokens[self.pos].kind;
            if kind == TokenKind::Greater || kind == TokenKind::GreaterEqual || kind
                == TokenKind::Less || kind == TokenKind::LessEqual {
                self.pos = self.pos + 1;
                let right = match self.term() {
                    Ok(v) => v,
                    Err(er) => {
                        return Err(er);
                    },
                };
                let e = Expression::Binary {
                    left: Box::new(left),
                    operator: kind,
                    right: Box::new(right),
                };
                return self.comparison_rest(e);
            }
        }
        Ok(left)
    }

    /// comparison, exactly as `sp_comparison` describes it.
    #[verifier::rlimit(100)]
    #[verifier::spinoff_prover]
    fn comparison(&mut self) -> (r: Result<Expression, ParserError>)
        requires
            old(self).wf(),
        ensures
            final(self).wf(),
            final(self).tokens == old(self).tokens,
            final(self).had_error == old(self).had_error,
            final(self).pos >= old(self).pos,
            match sp_comparison(old(self).toks(), old(self).pos as int) {
                Ok((e, q)) => r is Ok && r->Ok_0.deep_view() == e && final(self).pos as int == q
                    && final(self).pos > old(self).pos,
                Err(pe) => r is Err && r->Err_0.deep_view() == pe,
            },
        decreases self.tokens@.len() - self.pos, 10int,
    {
        reveal(sp_comparison);
        if self.pos >= self.tokens.len() {
            return Err(ParserError::UnexpectedEof { line: 1 });
        }
        let e = match self.term() {
            Ok(v) => v,
            Err(er) => {
                return Err(er);
            },
        };
        self.comparison_rest(e)
    }

    /// The run of equality operators, exactly as `sp_equality_rest`
    /// describes it.
    #[verifier::rlimit(100)]
    #[verifier::spinoff_prover]
    fn equality_rest(&mut self, left: Expression) -> (r: Result<Expression, ParserError>)
        requires
            old(self).wf(),
        ensures
            final(self).wf(),
            final(self).tokens == old(self).tokens,
            final(self).had_error == old(self).had_error,
            final(self).pos >= old(self).pos,
            match sp_equality_rest(old(self).toks(), old(self).pos as int, left.deep_view()) {
                Ok((e, q)) => r is Ok && r->Ok_0.deep_view() == e && final(self).pos as int == q,
                Err(pe) => r is Err && r->Err_0.deep_view() == pe,
            },
        decreases self.tokens@.len() - self.pos, 11int,
    {
        reveal(sp_equality_rest);
        if self.pos < self.tokens.len() {
            let kind = self.tokens[self.pos].kind;
            if kind == TokenKind::EqualEqual || kind == TokenKind::BangEqual {
                self.pos = self.pos + 1;
                let right = match self.comparison() {
                    Ok(v) => v,
                    Err(er) => {
                        return Err(er);
                    },
                };
                let e = Expression::Binary {
                    left: Box::new(left),
                    operator: kind,
                    right: Box::new(right),
                };
                return self.equality_rest(e);
            }
        }
        Ok(left)
    }

    /// equality, exactly as `sp_equality` describes it.
    #[verifier::rlimit(100)]
    #[verifier::spinoff_prover]
    fn equality(&mut self) -> (r: Result<Expression, ParserError>)
        requires
            old(self).wf(),
        ensures
            final(self).wf(),
            final(self).tokens == old(self).tokens,
            final(self).had_error == old(self).had_error,
            final(self).pos >= old(self).pos,
            match sp_equality(old(self).toks(), old(self).pos as int) {
                Ok((e, q)) => r is Ok && r->Ok_0.deep_view() == e && final(self).pos as int == q
                    && final(self).pos > old(self).pos,
                Err(pe) => r is Err && r->Err_0.deep_view() == pe,
            },
        decreases self.tokens@.len() - self.pos, 12int,
    {
        reveal(sp_equality);
        if self.pos >= self.tokens.len() {
            return Err(ParserError::UnexpectedEof { line: 1 });
        }
        let e = match self.comparison() {
            Ok(v) => v,
            Err(er) => {
                return Err(er);
            },
        };
        self.equality_rest(e)
    }

    /// The run of `and` operators, exactly as `sp_and_rest` describes it.
    #[verifier::rlimit(100)]
    #[verifier::spinoff_prover]
    fn and_rest(&mut self, left: Expression) -> (r: Result<Expression, ParserError>)
        requires
            old(self).wf(),
        ensures
            final(self).wf(),
            final(self).tokens == old(self).tokens,
            final(self).had_error == old(self).had_error,
            final(self).pos >= old(self).pos,
            match sp_and_rest(old(self).toks(), old(self).pos as int, left.deep_view()) {
                Ok((e, q)) => r is Ok && r->Ok_0.deep_view() == e && final(self).pos as int == q,
                Err(pe) => r is Err && r->Err_0.deep_view() == pe,
            },
        decreases self.tokens@.len() - self.pos, 13int,
    {
        reveal(sp_and_rest);
        if self.pos < self.tokens.len() && self.tokens[self.pos].kind == TokenKind::And {
            self.pos = self.pos + 1;
            let right = match self.equality() {
                Ok(v) => v,
                Err(er) => {
                    return Err(er);
                },
            };
            let e = Expression::Logical {
                left: Box::new(left),
                operator: TokenKind::And,
                right: Box::new(right),
            };
            return self.and_rest(e);
        }
        Ok(left)
    }

    /// logic_and, exactly as `sp_and` describes it.
    #[verifier::rlimit(100)]
    #[verifier::spinoff_prover]
    fn and_expression(&mut self) -> (r: Result<Expression, ParserError>)
        requires
            old(self).wf(),
        ensures
            final(self).wf(),
            final(self).tokens == old(self).tokens,
            final(self).had_error == old(self).had_error,
            final(self).pos >= old(self).pos,
            match sp_and(old(self).toks(), old(self).pos as int) {
                Ok((e, q)) => r is Ok && r->Ok_0.deep_view() == e && final(self).pos as int == q
                    && final(self).pos > old(self).pos,
                Err(pe) => r is Err && r->Err_0.deep_view() == pe,
            },
        decreases self.tokens@.len() - self.pos, 14int,
    {
        reveal(sp_and);
        if self.pos >= self.tokens.len() {
            return Err(ParserError::UnexpectedEof { line: 1 });
        }
        let e = match self.equality() {
            Ok(v) => v,
            Err(er) => {
                return Err(er);
            },
        };
        self.and_rest(e)
    }

    /// The run of `or` operators, exactly as `sp_or_rest` describes it.
    #[verifier::rlimit(100)]
    #[verifier::spinoff_prover]
    fn or_rest(&mut self, left: Expression) -> (r: Result<Expression, ParserError>)
        requires
            old(self).wf(),
        ensures
            final(self).wf(),
            final(self).tokens == old(self).tokens,
            final(self).had_error == old(self).had_error,
            final(self).pos >= old(self).pos,
            match sp_or_rest(old(self).toks(), old(self).pos as int, left.deep_view()) {
                Ok((e, q)) => r is Ok && r->Ok_0.deep_view() == e && final(self).pos as int == q,
                Err(pe) => r is Err && r->Err_0.deep_view() == pe,
            },
        decreases self.tokens@.len() - self.pos, 15int,
    {
        reveal(sp_or_rest);
        if self.pos < self.tokens.len() && self.tokens[self.pos].kind == TokenKind::Or {
            self.pos = self.pos + 1;
            let right = match self.and_expression() {
                Ok(v) => v,
                Err(er) => {
                    return Err(er);
                },
            };
            let e = Expression::Logical {
                left: Box::new(left),
                operator: TokenKind::Or,
                right: Box::new(right),
            };
            return self.or_rest(e);
        }
        Ok(left)
    }

    /// logic_or, exactly as `sp_or` describes it.
    #[verifier::rlimit(100)]
    #[verifier::spinoff_prover]
    fn or_expression(&mut self) -> (r: Result<Expression, ParserError>)
        requires
            old(self).wf(),
        ensures
            final(self).wf(),
            final(self).tokens == old(self).tokens,
            final(self).had_error == old(self).had_error,
            final(self).pos >= old(self).pos,
            match sp_or(old(self).toks(), old(self).pos as int) {
                Ok((e, q)) => r is Ok && r->Ok_0.deep_view() == e && final(self).pos as int == q
                    && final(self).pos > old(self).pos,
                Err(pe) => r is Err && r->Err_0.deep_view() == pe,
            },
        decreases self.tokens@.len() - self.pos, 16int,
    {
        reveal(sp_or);
        if self.pos >= self.tokens.len() {
            return Err(ParserError::UnexpectedEof { line: 1 });
        }
        let e = match self.and_expression() {
            Ok(v) => v,
            Err(er) => {
                return Err(er);
            },
        };
        self.or_rest(e)
    }

    /// assignment, exactly as `sp_assignment` describes it.
    #[verifier::rlimit(100)]
    #[verifier::spinoff_prover]
    fn assignment(&mut self) -> (r: Result<Expression, ParserError>)
        requires
            old(self).wf(),
        ensures
            final(self).wf(),
            final(self).tokens == old(self).tokens,
            final(self).had_error == old(self).had_error,
            final(self).pos >= old(self).pos,
            match sp_assignment(old(self).toks(), old(self).pos as int) {
                Ok((e, q)) => r is Ok && r->Ok_0.deep_view() == e && final(self).pos as int == q
                    && final(self).pos > old(self).pos,
                Err(pe) => r is Err && r->Err_0.deep_view() == pe,
            },
        decreases self.tokens@.len() - self.pos, 18int,
    {
        reveal(sp_assignment);
        if self.pos >= self.tokens.len() {
            return Err(ParserError::UnexpectedEof { line: 1 });
        }
        let e = match self.or_expression() {
            Ok(v) => v,
            Err(er) => {
                return Err(er);
            },
        };
        if self.pos < self.tokens.len() && self.tokens[self.pos].kind == TokenKind::Equal {
            let eq_line = self.tokens[self.pos].line;
            let eq_token = self.tokens[self.pos].literal.clone();
            self.pos = self.pos + 1;
            let v = match self.assignment() {
                Ok(v) => v,
                Err(er) => {
                    return Err(er);
                },
            };
            match e {
                Expression::Variable { name, resolved } => Ok(
                    Expression::Assign { name, value: Box::new(v), resolved: None },
                ),
                Expression::Get { object, name } => Ok(
                    Expression::SetProp { object, property: name, value: Box::new(v) },
                ),
                _ => Err(ParserError::InvalidAssignmentTarget { line: eq_line, token: eq_token }),
            }
        } else {
            Ok(e)
        }
    }

    /// expression, exactly as `sp_expression` describes it.
    #[verifier::rlimit(100)]
    #[verifier::spinoff_prover]
    fn expression(&mut self) -> (r: Result<Expression, ParserError>)
        requires
            old(self).wf(),
        ensures
            final(self).wf(),
            final(self).tokens == old(self).tokens,
            final(self).had_error == old(self).had_error,
            final(self).pos >= old(self).pos,
            match sp_expression(old(self).toks(), old(self).pos as int) {
                Ok((e, q)) => r is Ok && r->Ok_0.deep_view() == e && final(self).pos as int == q
                    && final(self).pos > old(self).pos,
                Err(pe) => r is Err && r->Err_0.deep_view() == pe,
            },
        decreases self.tokens@.len() - self.pos, 20int,
    {
        reveal(sp_expression);
        self.assignment()
    }


    /// Whether a token kind begins a statement, as `is_stmt_start` says.
    fn stmt_start_kind(&self, kind: TokenKind) -> (r: bool)
        ensures
            r == is_stmt_start(kind),
    {
        kind == TokenKind::Print || kind == TokenKind::Var || kind == TokenKind::Fun || kind
            == TokenKind::Class || kind == TokenKind::For || kind == TokenKind::If || kind
            == TokenKind::While || kind == TokenKind::Return || kind == TokenKind::LeftBrace
    }

    /// var_decl, exactly as `sp_var_decl` describes it.
    #[verifier::rlimit(100)]
    #[verifier::spinoff_prover]
    fn declaration(&mut self) -> (r: Result<Statement, ParserError>)
        requires
            old(self).wf(),
        ensures
            final(self).wf(),
            final(self).tokens == old(self).tokens,
            final(self).had_error == old(self).had_error,
            final(self).pos >= old(self).pos,
            r is Err ==> final(self).pos > old(self).pos || old(self).pos >= old(
                self,
            ).tokens@.len(),
            match sp_var_decl(old(self).toks(), old(self).pos as int) {
                Ok((st, q)) => r is Ok && r->Ok_0.deep_view() == st && final(self).pos as int == q
                    && final(self).pos > old(self).pos,
                Err(pe) => r is Err && r->Err_0.deep_view() == pe,
            },
        decreases self.tokens@.len() - self.pos, 28int,
    {
        reveal(sp_var_decl);
        let _kw = match self.consume(TokenKind::Var) {
            Ok(v) => v,
            Err(er) => {
                return Err(er);
            },
        };
        let name_tok = match self.consume(TokenKind::Identifier) {
            Ok(v) => v,
            Err(er) => {
                return Err(er);
            },
        };
        if self.pos < self.tokens.len() && self.tokens[self.pos].kind == TokenKind::Equal {
            self.pos = self.pos + 1;
            let init = match self.expression() {
                Ok(v) => v,
                Err(er) => {
                    return Err(er);
                },
            };
            let _semi = match self.consume(TokenKind::Semi) {
                Ok(v) => v,
                Err(er) => {
                    return Err(er);
                },
            };
            Ok(Statement::Var { name: name_tok.literal, initializer: Some(init) })
        } else {
            let _semi = match self.consume(TokenKind::Semi) {
                Ok(v) => v,
                Err(er) => {
                    return Err(er);
                },
            };
            Ok(Statement::Var { name: name_tok.literal, initializer: None })
        }
    }

    /// print, exactly as `sp_print` describes it.
    #[verifier::rlimit(100)]
    #[verifier::spinoff_prover]
    fn print_statement(&mut self) -> (r: Result<Statement, ParserError>)
        requires
            old(self).wf(),
        ensures
            final(self).wf(),
            final(self).tokens == old(self).tokens,
            final(self).had_error == old(self).had_error,
            final(self).pos >= old(self).pos,
            r is Err ==> final(self).pos > old(self).pos || old(self).pos >= old(
                self,
            ).tokens@.len(),
            match sp_print(old(self).toks(), old(self).pos as int) {
                Ok((st, q)) => r is Ok && r->Ok_0.deep_view() == st && final(self).pos as int == q
                    && final(self).pos > old(self).pos,
                Err(pe) => r is Err && r->Err_0.deep_view() == pe,
            },
        decreases self.tokens@.len() - self.pos, 28int,
    {
        reveal(sp_print);
        let _kw = match self.consume(TokenKind::Print) {
            Ok(v) => v,
            Err(er) => {
                return Err(er);
            },
        };
        let e = match self.expression() {
            Ok(v) => v,
            Err(er) => {
                return Err(er);
            },
        };
        let _semi = match self.consume(TokenKind::Semi) {
            Ok(v) => v,
            Err(er) => {
                return Err(er);
            },
        };
        Ok(Statement::Print(e))
    }

    /// expr_stmt, exactly as `sp_expr_stmt` describes it.
    #[verifier::rlimit(100)]
    #[verifier::spinoff_prover]
    fn expr_statement(&mut self) -> (r: Result<Statement, ParserError>)
        requires
            old(self).wf(),
        ensures
            final(self).wf(),
            final(self).tokens == old(self).tokens,
            final(self).had_error == old(self).had_error,
            final(self).pos >= old(self).pos,
            match sp_expr_stmt(old(self).toks(), old(self).pos as int) {
                Ok((st, q)) => r is Ok && r->Ok_0.deep_view() == st && final(self).pos as int == q
                    && final(self).pos > old(self).pos,
                Err(pe) => r is Err && r->Err_0.deep_view() == pe,
            },
        decreases self.tokens@.len() - self.pos, 28int,
    {
        reveal(sp_expr_stmt);
        let e = match self.expression() {
            Ok(v) => v,
            Err(er) => {
                return Err(er);
            },
        };
        let _semi = match self.consume(TokenKind::Semi) {
            Ok(v) => v,
            Err(er) => {
                return Err(er);
            },
        };
        Ok(Statement::Expr(e))
    }

    /// return, exactly as `sp_return` describes it.
    #[verifier::rlimit(100)]
    #[verifier::spinoff_prover]
    fn return_statement(&mut self) -> (r: Result<Statement, ParserError>)
        requires
            old(self).wf(),
        ensures
            final(self).wf(),
            final(self).tokens == old(self).tokens,
            final(self).had_error == old(self).had_error,
            final(self).pos >= old(self).pos,
            r is Err ==> final(self).pos > old(self).pos || old(self).pos >= old(
                self,
            ).tokens@.len(),
            match sp_return(old(self).toks(), old(self).pos as int) {
                Ok((st, q)) => r is Ok && r->Ok_0.deep_view() == st && final(self).pos as int == q
                    && final(self).pos > old(self).pos,
                Err(pe) => r is Err && r->Err_0.deep_view() == pe,
            },
        decreases self.tokens@.len() - self.pos, 28int,
    {
        reveal(sp_return);
        let _kw = match self.consume(TokenKind::Return) {
            Ok(v) => v,
            Err(er) => {
                return Err(er);
            },
        };
        if self.pos < self.tokens.len() && self.tokens[self.pos].kind != TokenKind::Semi {
            let e = match self.expression() {
                Ok(v) => v,
                Err(er) => {
                    return Err(er);
                },
            };
            let _semi = match self.consume(TokenKind::Semi) {
                Ok(v) => v,
                Err(er) => {
                    return Err(er);
                },
            };
            Ok(Statement::Return { value: Some(e) })
        } else {
            let _semi = match self.consume(TokenKind::Semi) {
                Ok(v) => v,
                Err(er) => {
                    return Err(er);
                },
            };
            Ok(Statement::Return { value: None })
        }
    }

    /// The statements of a block, exactly as `sp_block_items` describes them.
    #[verifier::rlimit(100)]
    #[verifier::spinoff_prover]
    fn block_items(&mut self, acc: Vec<Statement>) -> (r: Result<Vec<Statement>, ParserError>)
        requires
            old(self).wf(),
        ensures
            final(self).wf(),
            final(self).tokens == old(self).tokens,
            final(self).had_error == old(self).had_error,
            final(self).pos >= old(self).pos,
            match sp_block_items(old(self).toks(), old(self).pos as int, acc.deep_view()) {
                Ok((s, q)) => r is Ok && r->Ok_0.deep_view() == s && final(self).pos as int == q,
                Err(pe) => r is Err && r->Err_0.deep_view() == pe,
            },
        decreases self.tokens@.len() - self.pos, 35int,
    {
        reveal(sp_block_items);
        if self.pos >= self.tokens.len() || self.tokens[self.pos].kind == TokenKind::RightBrace {
            return Ok(acc);
        }
        let ghost acc0 = acc.deep_view();
        let st = match self.statement() {
            Ok(v) => v,
            Err(er) => {
                return Err(er);
            },
        };
        let ghost stv = st.deep_view();
        let mut acc2 = acc;
        acc2.push(st);
        proof {
            assert(acc2.deep_view() =~= acc0.push(stv));
        }
        self.block_items(acc2)
    }

    /// block, exactly as `sp_block` describes it: the inner statements.
    #[verifier::rlimit(100)]
    #[verifier::spinoff_prover]
    fn block(&mut self) -> (r: Result<Vec<Statement>, ParserError>)
        requires
            old(self).wf(),
        ensures
            final(self).wf(),
            final(self).tokens == old(self).tokens,
            final(self).had_error == old(self).had_error,
            final(self).pos >= old(self).pos,
            r is Err ==> final(self).pos > old(self).pos || old(self).pos >= old(
                self,
            ).tokens@.len(),
            match sp_block(old(self).toks(), old(self).pos as int) {
                Ok((s, q)) => r is Ok && r->Ok_0.deep_view() == s && final(self).pos as int == q
                    && final(self).pos > old(self).pos,
                Err(pe) => r is Err && r->Err_0.deep_view() == pe,
            },
        decreases self.tokens@.len() - self.pos, 32int,
    {
        reveal(sp_block);
        let _open = match self.consume(TokenKind::LeftBrace) {
            Ok(v) => v,
            Err(er) => {
                return Err(er);
            },
        };
        let empty_items: Vec<Statement> = Vec::new();
        proof {
            assert(empty_items.deep_view() =~= Seq::<StmtSpec>::empty());
        }
        let items = match self.block_items(empty_items) {
            Ok(v) => v,
            Err(er) => {
                return Err(er);
            },
        };
        let _close = match self.consume(TokenKind::RightBrace) {
            Ok(v) => v,
            Err(er) => {
                return Err(er);
            },
        };
        Ok(items)
    }

    /// if, exactly as `sp_if` describes it.
    #[verifier::rlimit(100)]
    #[verifier::spinoff_prover]
    fn if_statement(&mut self) -> (r: Result<Statement, ParserError>)
        requires
            old(self).wf(),
        ensures
            final(self).wf(),
            final(self).tokens == old(self).tokens,
            final(self).had_error == old(self).had_error,
            final(self).pos >= old(self).pos,
            r is Err ==> final(self).pos > old(self).pos || old(self).pos >= old(
                self,
            ).tokens@.len(),
            match sp_if(old(self).toks(), old(self).pos as int) {
                Ok((st, q)) => r is Ok && r->Ok_0.deep_view() == st && final(self).pos as int == q
                    && final(self).pos > old(self).pos,
                Err(pe) => r is Err && r->Err_0.deep_view() == pe,
            },
        decreases self.tokens@.len() - self.pos, 33int,
    {
        reveal(sp_if);
        let _kw = match self.consume(TokenKind::If) {
            Ok(v) => v,
            Err(er) => {
                return Err(er);
            },
        };
        let _open = match self.consume(TokenKind::LeftParen) {
            Ok(v) => v,
            Err(er) => {
                return Err(er);
            },
        };
        let cond = match self.expression() {
            Ok(v) => v,
            Err(er) => {
                return Err(er);
            },
        };
        let _close = match self.consume(TokenKind::RightParen) {
            Ok(v) => v,
            Err(er) => {
                return Err(er);
            },
        };
        let then_branch = match self.statement() {
            Ok(v) => v,
            Err(er) => {
                return Err(er);
            },
        };
        if self.pos < self.tokens.len() && self.tokens[self.pos].kind == TokenKind::Else {
            self.pos = self.pos + 1;
            let else_branch = match self.statement() {
                Ok(v) => v,
                Err(er) => {
                    return Err(er);
                },
            };
            Ok(
                Statement::If {
                    condition: cond,
                    then_branch: Box::new(then_branch),
                    else_branch: Some(Box::new(else_branch)),
                },
            )
        } else {
            Ok(
                Statement::If {
                    condition: cond,
                    then_branch: Box::new(then_branch),
                    else_branch: None,
                },
            )
        }
    }

    /// while, exactly as `sp_while` describes it.
    #[verifier::rlimit(100)]
    #[verifier::spinoff_prover]
    fn while_statement(&mut self) -> (r: Result<Statement, ParserError>)
        requires
            old(self).wf(),
        ensures
            final(self).wf(),
            final(self).tokens == old(self).tokens,
            final(self).had_error == old(self).had_error,
            final(self).pos >= old(self).pos,
            r is Err ==> final(self).pos > old(self).pos || old(self).pos >= old(
                self,
            ).tokens@.len(),
            match sp_while(old(self).toks(), old(self).pos as int) {
                Ok((st, q)) => r is Ok && r->Ok_0.deep_view() == st && final(self).pos as int == q
                    && final(self).pos > old(self).pos,
                Err(pe) => r is Err && r->Err_0.deep_view() == pe,
            },
        decreases self.tokens@.len() - self.pos, 33int,
    {
        reveal(sp_while);
        let _kw = match self.consume(TokenKind::While) {
            Ok(v) => v,
            Err(er) => {
                return Err(er);
            },
        };
        let _open = match self.consume(TokenKind::LeftParen) {
            Ok(v) => v,
            Err(er) => {
                return Err(er);
            },
        };
        let cond = match self.expression() {
            Ok(v) => v,
            Err(er) => {
                return Err(er);
            },
        };
        let _close = match self.consume(TokenKind::RightParen) {
            Ok(v) => v,
            Err(er) => {
                return Err(er);
            },
        };
        let body = match self.statement() {
            Ok(v) => v,
            Err(er) => {
                return Err(er);
            },
        };
        Ok(Statement::While { condition: Box::new(cond), body: Box::new(body) })
    }

    /// for, exactly as `sp_for` describes it.
    #[verifier::rlimit(100)]
    #[verifier::spinoff_prover]
    fn for_statement(&mut self) -> (r: Result<Statement, ParserError>)
        requires
            old(self).wf(),
        ensures
            final(self).wf(),
            final(self).tokens == old(self).tokens,
            final(self).had_error == old(self).had_error,
            final(self).pos >= old(self).pos,
            r is Err ==> final(self).pos > old(self).pos || old(self).pos >= old(
                self,
            ).tokens@.len(),
            match sp_for(old(self).toks(), old(self).pos as int) {
                Ok((st, q)) => r is Ok && r->Ok_0.deep_view() == st && final(self).pos as int == q
                    && final(self).pos > old(self).pos,
                Err(pe) => r is Err && r->Err_0.deep_view() == pe,
            },
        decreases self.tokens@.len() - self.pos, 33int,
    {
        reveal(sp_for);
        let _kw = match self.consume(TokenKind::For) {
            Ok(v) => v,
            Err(er) => {
                return Err(er);
            },
        };
        let _open = match self.consume(TokenKind::LeftParen) {
            Ok(v) => v,
            Err(er) => {
                return Err(er);
            },
        };
        let initialize: Option<Box<Statement>> = if self.pos < self.tokens.len()
            && self.tokens[self.pos].kind == TokenKind::Semi {
            self.pos = self.pos + 1;
            None
        } else if self.pos < self.tokens.len() && self.tokens[self.pos].kind == TokenKind::Var {
            let st = match self.declaration() {
                Ok(v) => v,
                Err(er) => {
                    return Err(er);
                },
            };
            Some(Box::new(st))
        } else {
            let st = match self.expr_statement() {
                Ok(v) => v,
                Err(er) => {
                    return Err(er);
                },
            };
            Some(Box::new(st))
        };
        let condition: Option<Expression> = if self.pos < self.tokens.len()
            && self.tokens[self.pos].kind != TokenKind::Semi {
            let c = match self.expression() {
                Ok(v) => v,
                Err(er) => {
                    return Err(er);
                },
            };
            Some(c)
        } else {
            None
        };
        let _semi = match self.consume(TokenKind::Semi) {
            Ok(v) => v,
            Err(er) => {
                return Err(er);
            },
        };
        let increment: Option<Expression> = if self.pos < self.tokens.len()
            && self.tokens[self.pos].kind != TokenKind::RightParen {
            let i = match self.expression() {
                Ok(v) => v,
                Err(er) => {
                    return Err(er);
                },
            };
            Some(i)
        } else {
            None
        };
        let _close = match self.consume(TokenKind::RightParen) {
            Ok(v) => v,
            Err(er) => {
                return Err(er);
            },
        };
        let body = match self.statement() {
            Ok(v) => v,
            Err(er) => {
                return Err(er);
            },
        };
        Ok(Statement::For { initialize, condition, increment, body: Box::new(body) })
    }

    /// The parameter list, exactly as `sp_params` describes it.
    #[verifier::rlimit(100)]
    #[verifier::spinoff_prover]
    fn parameters(&mut self, acc: Vec<String>) -> (r: Result<Vec<String>, ParserError>)
        requires
            old(self).wf(),
        ensures
            final(self).wf(),
            final(self).tokens == old(self).tokens,
            final(self).had_error == old(self).had_error,
            final(self).pos >= old(self).pos,
            match sp_params(old(self).toks(), old(self).pos as int, acc.deep_view()) {
                Ok((s, q)) => r is Ok && r->Ok_0.deep_view() == s && final(self).pos as int == q,
                Err(pe) => r is Err && r->Err_0.deep_view() == pe,
            },
        decreases self.tokens@.len() - self.pos, 24int,
    {
        reveal(sp_params);
        if acc.len() >= 255 {
            return Err(ParserError::Message(String::from_str(
                "Cannot have more than 255 parameters.",
            )));
        }
        let ghost acc0 = acc.deep_view();
        let prm = match self.consume(TokenKind::Identifier) {
            Ok(v) => v,
            Err(er) => {
                return Err(er);
            },
        };
        let ghost pv = prm.literal@;
        let mut acc2 = acc;
        acc2.push(prm.literal);
        proof {
            assert(acc2.deep_view() =~= acc0.push(pv));
        }
        if self.pos < self.tokens.len() && self.tokens[self.pos].kind == TokenKind::Comma {
            self.pos = self.pos + 1;
            self.parameters(acc2)
        } else {
            let _close = match self.consume(TokenKind::RightParen) {
                Ok(v) => v,
                Err(er) => {
                    return Err(er);
                },
            };
            Ok(acc2)
        }
    }

    /// A named function: name, parameters and body, exactly as
    /// `sp_function` describes it.
    #[verifier::rlimit(100)]
    #[verifier::spinoff_prover]
    fn method(&mut self) -> (r: Result<Statement, ParserError>)
        requires
            old(self).wf(),
        ensures
            final(self).wf(),
            final(self).tokens == old(self).tokens,
            final(self).had_error == old(self).had_error,
            final(self).pos >= old(self).pos,
            r is Err ==> final(self).pos > old(self).pos || old(self).pos >= old(
                self,
            ).tokens@.len(),
            match sp_function(old(self).toks(), old(self).pos as int) {
                Ok((st, q)) => r is Ok && r->Ok_0.deep_view() == st && final(self).pos as int == q
                    && final(self).pos > old(self).pos,
                Err(pe) => r is Err && r->Err_0.deep_view() == pe,
            },
        decreases self.tokens@.len() - self.pos, 27int,
    {
        reveal(sp_function);
        let name_tok = match self.consume(TokenKind::Identifier) {
            Ok(v) => v,
            Err(er) => {
                return Err(er);
            },
        };
        let _open = match self.consume(TokenKind::LeftParen) {
            Ok(v) => v,
            Err(er) => {
                return Err(er);
            },
        };
        let params: Vec<String> = if self.pos < self.tokens.len() && self.tokens[self.pos].kind
            == TokenKind::RightParen {
            self.pos = self.pos + 1;
            let empty_params: Vec<String> = Vec::new();
            proof {
                assert(empty_params.deep_view() =~= Seq::<Seq<char>>::empty());
            }
            empty_params
        } else {
            let empty_params: Vec<String> = Vec::new();
            proof {
                assert(empty_params.deep_view() =~= Seq::<Seq<char>>::empty());
            }
            match self.parameters(empty_params) {
                Ok(v) => v,
                Err(er) => {
                    return Err(er);
                },
            }
        };
        let body = match self.block() {
            Ok(v) => v,
            Err(er) => {
                return Err(er);
            },
        };
        proof {
            lemma_stmts_view_from(body@, 0);
            assert(stmts_view_from(body@, 0) =~= body.deep_view());
        }
        Ok(Statement::Function { name: name_tok.literal, params, body })
    }

    /// fun_decl, exactly as `sp_fun_decl` describes it.
    #[verifier::rlimit(100)]
    #[verifier::spinoff_prover]
    fn function(&mut self) -> (r: Result<Statement, ParserError>)
        requires
            old(self).wf(),
        ensures
            final(self).wf(),
            final(self).tokens == old(self).tokens,
            final(self).had_error == old(self).had_error,
            final(self).pos >= old(self).pos,
            r is Err ==> final(self).pos > old(self).pos || old(self).pos >= old(
                self,
            ).tokens@.len(),
            match sp_fun_decl(old(self).toks(), old(self).pos as int) {
                Ok((st, q)) => r is Ok && r->Ok_0.deep_view() == st && final(self).pos as int == q
                    && final(self).pos > old(self).pos,
                Err(pe) => r is Err && r->Err_0.deep_view() == pe,
            },
        decreases self.tokens@.len() - self.pos, 28int,
    {
        reveal(sp_fun_decl);
        let _kw = match self.consume(TokenKind::Fun) {
            Ok(v) => v,
            Err(er) => {
                return Err(er);
            },
        };
        self.method()
    }

    /// The methods of a class, exactly as `sp_class_methods` describes them.
    #[verifier::rlimit(100)]
    #[verifier::spinoff_prover]
    fn class_methods(&mut self, acc: Vec<Statement>) -> (r: Result<Vec<Statement>, ParserError>)
        requires
            old(self).wf(),
        ensures
            final(self).wf(),
            final(self).tokens == old(self).tokens,
            final(self).had_error == old(self).had_error,
            final(self).pos >= old(self).pos,
            match sp_class_methods(old(self).toks(), old(self).pos as int, acc.deep_view()) {
                Ok((s, q)) => r is Ok && r->Ok_0.deep_view() == s && final(self).pos as int == q,
                Err(pe) => r is Err && r->Err_0.deep_view() == pe,
            },
        decreases self.tokens@.len() - self.pos, 29int,
    {
        reveal(sp_class_methods);
        if self.pos >= self.tokens.len() || self.tokens[self.pos].kind == TokenKind::RightBrace {
            return Ok(acc);
        }
        let ghost acc0 = acc.deep_view();
        let m = match self.method() {
            Ok(v) => v,
            Err(er) => {
                return Err(er);
            },
        };
        let ghost mv = m.deep_view();
        let mut acc2 = acc;
        acc2.push(m);
        proof {
            assert(acc2.deep_view() =~= acc0.push(mv));
        }
        self.class_methods(acc2)
    }

    /// class_decl, exactly as `sp_class` describes it.
    #[verifier::rlimit(100)]
    #[verifier::spinoff_prover]
    fn class_declaration(&mut self) -> (r: Result<Statement, ParserError>)
        requires
            old(self).wf(),
        ensures
            final(self).wf(),
            final(self).tokens == old(self).tokens,
            final(self).had_error == old(self).had_error,
            final(self).pos >= old(self).pos,
            r is Err ==> final(self).pos > old(self).pos || old(self).pos >= old(
                self,
            ).tokens@.len(),
            match sp_class(old(self).toks(), old(self).pos as int) {
                Ok((st, q)) => r is Ok && r->Ok_0.deep_view() == st && final(self).pos as int == q
                    && final(self).pos > old(self).pos,
                Err(pe) => r is Err && r->Err_0.deep_view() == pe,
            },
        decreases self.tokens@.len() - self.pos, 33int,
    {
        reveal(sp_class);
        let _kw = match self.consume(TokenKind::Class) {
            Ok(v) => v,
            Err(er) => {
                return Err(er);
            },
        };
        let name_tok = match self.consume(TokenKind::Identifier) {
            Ok(v) => v,
            Err(er) => {
                return Err(er);
            },
        };
        let superclass: Option<String> = if self.pos < self.tokens.len()
            && self.tokens[self.pos].kind == TokenKind::Less {
            self.pos = self.pos + 1;
            let sup = match self.consume(TokenKind::Identifier) {
                Ok(v) => v,
                Err(er) => {
                    return Err(er);
                },
            };
            Some(sup.literal)
        } else {
            None
        };
        let _open = match self.consume(TokenKind::LeftBrace) {
            Ok(v) => v,
            Err(er) => {
                return Err(er);
            },
        };
        let empty_methods: Vec<Statement> = Vec::new();
        proof {
            assert(empty_methods.deep_view() =~= Seq::<StmtSpec>::empty());
        }
        let methods = match self.class_methods(empty_methods) {
            Ok(v) => v,
            Err(er) => {
                return Err(er);
            },
        };
        let _close = match self.consume(TokenKind::RightBrace) {
            Ok(v) => v,
            Err(er) => {
                return Err(er);
            },
        };
        proof {
            lemma_stmts_view_from(methods@, 0);
            assert(stmts_view_from(methods@, 0) =~= methods.deep_view());
        }
        Ok(Statement::Class { name: name_tok.literal, superclass, methods })
    }

    /// statement, exactly as `sp_statement` describes it.
    #[verifier::rlimit(100)]
    #[verifier::spinoff_prover]
    fn statement(&mut self) -> (r: Result<Statement, ParserError>)
        requires
            old(self).wf(),
        ensures
            final(self).wf(),
            final(self).tokens == old(self).tokens,
            final(self).had_error == old(self).had_error,
            final(self).pos >= old(self).pos,
            r is Err ==> final(self).pos > old(self).pos || old(self).pos >= old(
                self,
            ).tokens@.len() || !is_stmt_start(old(self).toks()[old(self).pos as int].kind),
            match sp_statement(old(self).toks(), old(self).pos as int) {
                Ok((st, q)) => r is Ok && r->Ok_0.deep_view() == st && final(self).pos as int == q
                    && final(self).pos > old(self).pos,
                Err(pe) => r is Err && r->Err_0.deep_view() == pe,
            },
        decreases self.tokens@.len() - self.pos, 34int,
    {
        reveal(sp_statement);
        if self.pos >= self.tokens.len() {
            return Err(ParserError::UnexpectedEof { line: 1 });
        }
        let kind = self.tokens[self.pos].kind;
        match kind {
            TokenKind::Print => self.print_statement(),
            TokenKind::Var => self.declaration(),
            TokenKind::LeftBrace => {
                let items = match self.block() {
                    Ok(v) => v,
                    Err(er) => {
                        return Err(er);
                    },
                };
                proof {
                    lemma_stmts_view_from(items@, 0);
                    assert(stmts_view_from(items@, 0) =~= items.deep_view());
                }
                Ok(Statement::Block(items))
            },
            TokenKind::If => self.if_statement(),
            TokenKind::While => self.while_statement(),
            TokenKind::For => self.for_statement(),
            TokenKind::Fun => self.function(),
            TokenKind::Return => self.return_statement(),
            TokenKind::Class => self.class_declaration(),
            _ => self.expr_statement(),
        }
    }

    /// Panic-mode recovery: discards tokens until a `;` is consumed or the
    /// next token begins a statement, exactly as `sp_sync` describes it.
    fn synchronize(&mut self)
        requires
            old(self).wf(),
        ensures
            final(self).wf(),
            final(self).tokens == old(self).tokens,
            final(self).had_error == old(self).had_error,
            final(self).pos as int == sp_sync(old(self).toks(), old(self).pos as int),
            final(self).pos >= old(self).pos,
            old(self).pos < old(self).tokens@.len() && !is_stmt_start(
                old(self).toks()[old(self).pos as int].kind,
            ) ==> final(self).pos > old(self).pos,
    {
        proof {
            lemma_sync_range(self.toks(), self.pos as int);
        }
        loop
            invariant
                self.wf(),
                self.tokens == old(self).tokens,
                self.had_error == old(self).had_error,
                self.pos >= old(self).pos,
                sp_sync(old(self).toks(), old(self).pos as int) == sp_sync(
                    self.toks(),
                    self.pos as int,
                ),
                old(self).pos < old(self).tokens@.len() && !is_stmt_start(
                    old(self).toks()[old(self).pos as int].kind,
                ) && self.pos == old(self).pos ==> !is_stmt_start(
                    self.toks()[self.pos as int].kind,
                ),
            decreases self.tokens@.len() - self.pos,
        {
            if self.pos >= self.tokens.len() {
                return ;
            }
            let kind = self.tokens[self.pos].kind;
            if kind == TokenKind::Semi {
                self.pos = self.pos + 1;
                return ;
            }
            if self.stmt_start_kind(kind) {
                return ;
            }
            self.pos = self.pos + 1;
        }
    }

    /// The program entry point: every statement of the input in order, or
    /// the first statement's error, exactly as `sp_program` describes; on
    /// failure the parser records that an error was seen and recovers to
    /// look at the rest of the input.
    #[verifier::rlimit(100)]
    #[verifier::spinoff_prover]
    pub fn parse_statements(&mut self) -> (r: Result<Vec<Statement>, ParserError>)
        requires
            old(self).wf(),
        ensures
            final(self).wf(),
            final(self).tokens == old(self).tokens,
            match sp_program(old(self).toks(), old(self).pos as int) {
                Ok(sts) => r is Ok && r->Ok_0.deep_view() == sts && final(self).had_error == old(
                    self,
                ).had_error,
                Err(pe) => r is Err && r->Err_0.deep_view() == pe && final(self).had_error,
            },
    {
        reveal(sp_program);
        let ghost t = self.toks();
        let ghost p0 = self.pos as int;
        let mut statements: Vec<Statement> = Vec::new();
        let mut first_error: Option<ParserError> = None;
        proof {
            assert(statements.deep_view() =~= Seq::<StmtSpec>::empty());
        }
        while self.pos < self.tokens.len()
            invariant
                self.wf(),
                self.tokens == old(self).tokens,
                t == self.toks(),
                p0 == old(self).pos as int,
                self.pos >= old(self).pos,
                match first_error {
                    None => self.had_error == old(self).had_error && sp_program(t, p0) == (
                    match sp_program(t, self.pos as int) {
                        Ok(rest) => Ok::<Seq<StmtSpec>, ParserErrorSpec>(
                            statements.deep_view() + rest,
                        ),
                        Err(e) => Err::<Seq<StmtSpec>, ParserErrorSpec>(e),
                    }),
                    Some(fe) => self.had_error && sp_program(t, p0) == Err::<
                        Seq<StmtSpec>,
                        ParserErrorSpec,
                    >(fe.deep_view()),
                },
            decreases self.tokens@.len() - self.pos,
        {
            proof {
                reveal(sp_program);
            }
            let ghost prepos = self.pos as int;
            let ghost stmts0 = statements.deep_view();
            match self.statement() {
                Ok(st) => {
                    let ghost stv = st.deep_view();
                    statements.push(st);
                    proof {
                        assert(statements.deep_view() =~= stmts0.push(stv));
                        if first_error is None {
                            let restr = sp_program(t, self.pos as int);
                            if restr is Ok {
                                assert(stmts0.push(stv) + restr->Ok_0 =~= stmts0 + (seq![stv]
                                    + restr->Ok_0));
                            }
                        }
                    }
                },
                Err(e) => {
                    if first_error.is_none() {
                        first_error = Some(e);
                        self.had_error = true;
                    }
                    self.synchronize();
                },
            }
        }
        proof {
            reveal(sp_program);
            if first_error is None {
                assert(statements.deep_view() + Seq::<StmtSpec>::empty() =~= statements.deep_view());
            }
        }
        match first_error {
            None => Ok(statements),
            Some(e) => Err(e),
        }
    }

    /// The expression entry point: parses one expression from the front of
    /// the input, exactly as `sp_expression` describes it.
    #[verifier::rlimit(100)]
    #[verifier::spinoff_prover]
    pub fn parse(&mut self) -> (r: Result<Expression, ParserError>)
        requires
            old(self).wf(),
        ensures
            final(self).wf(),
            match sp_expression(old(self).toks(), old(self).pos as int) {
                Ok((e, q)) => r is Ok && r->Ok_0.deep_view() == e,
                Err(pe) => r is Err && r->Err_0.deep_view() == pe,
            },
    {
        reveal(sp_expression);
        self.expression()
    }
}

} // verus!
