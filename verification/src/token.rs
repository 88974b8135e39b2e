use vstd::prelude::*;

use crate::numeric::{num_display, num_is_int, number_is_int, display_number};
use crate::text::{dec_str, dec_string};

verus! {

/// The two ways a piece of input can fail to form a token.
#[derive(Clone, Copy, Debug, PartialEq, Eq, Structural)]
pub enum IlligalType {
    Unexpected,
    UnterminatedString,
}

/// The discriminator of a token.  A number token carries the bit encoding of
/// the double-precision value its lexeme denotes.
#[derive(Clone, Copy, Debug, PartialEq, Eq, Structural)]
pub enum TokenKind {
    LeftParen,
    RightParen,
    LeftBrace,
    RightBrace,
    Star,
    Dot,
    Comma,
    Plus,
    Minus,
    Semi,
    Slash,
    Equal,
    EqualEqual,
    Bang,
    BangEqual,
    Less,
    LessEqual,
    Greater,
    GreaterEqual,
    String,
    Number(u64),
    Identifier,
    And,
    Class,
    Else,
    False,
    For,
    Fun,
    If,
    Nil,
    Or,
    Print,
    Return,
    Super,
    This,
    True,
    Var,
    While,
    Illegal(IlligalType),
}

/// A token: discriminator, source lexeme, and the position where it starts.
#[derive(Debug)]
pub struct Token {
    pub kind: TokenKind,
    pub literal: String,
    pub line: usize,
    pub column: usize,
}

/// The mathematical image of a token.
pub struct TokenSpec {
    pub kind: TokenKind,
    pub literal: Seq<char>,
    pub line: nat,
    pub column: nat,
}

impl DeepView for Token {
    type V = TokenSpec;

    open spec fn deep_view(&self) -> TokenSpec {
        TokenSpec {
            kind: self.kind,
            literal: self.literal@,
            line: self.line as nat,
            column: self.column as nat,
        }
    }
}

impl PartialEq for Token {
    fn eq(&self, other: &Token) -> (r: bool) {
        self.kind == other.kind && self.literal == other.literal && self.line == other.line
            && self.column == other.column
    }
}

impl vstd::std_specs::cmp::PartialEqSpecImpl for Token {
    open spec fn obeys_eq_spec() -> bool {
        true
    }

    open spec fn eq_spec(&self, other: &Token) -> bool {
        self.kind == other.kind && self.literal@ == other.literal@ && self.line == other.line
            && self.column == other.column
    }
}

/// The value column of a number token: the decimal rendering, with one
/// fractional digit forced when the value is integral.
pub open spec fn number_value_display(bits: u64) -> Seq<char> {
    if num_is_int(bits) {
        num_display(bits) + ".0"@
    } else {
        num_display(bits)
    }
}

/// The line a token prints as: upper-case kind, lexeme, and literal value
/// (`null` for everything but strings and numbers).  An illegal token prints
/// as the error report it stands for.
pub open spec fn token_display(t: TokenSpec) -> Seq<char> {
    match t.kind {
        TokenKind::LeftParen => "LEFT_PAREN ( null"@,
        TokenKind::RightParen => "RIGHT_PAREN ) null"@,
        TokenKind::LeftBrace => "LEFT_BRACE { null"@,
        TokenKind::RightBrace => "RIGHT_BRACE } null"@,
        TokenKind::Star => "STAR * null"@,
        TokenKind::Dot => "DOT . null"@,
        TokenKind::Comma => "COMMA , null"@,
        TokenKind::Plus => "PLUS + null"@,
        TokenKind::Minus => "MINUS - null"@,
        TokenKind::Semi => "SEMICOLON ; null"@,
        TokenKind::Slash => "SLASH / null"@,
        TokenKind::Equal => "EQUAL = null"@,
        TokenKind::EqualEqual => "EQUAL_EQUAL == null"@,
        TokenKind::Bang => "BANG ! null"@,
        TokenKind::BangEqual => "BANG_EQUAL != null"@,
        TokenKind::Less => "LESS < null"@,
        TokenKind::LessEqual => "LESS_EQUAL <= null"@,
        TokenKind::Greater => "GREATER > null"@,
        TokenKind::GreaterEqual => "GREATER_EQUAL >= null"@,
        TokenKind::String => "STRING \""@ + t.literal + "\" "@ + t.literal,
        TokenKind::Number(bits) => "NUMBER "@ + t.literal + " "@ + number_value_display(bits),
        TokenKind::Identifier => "IDENTIFIER "@ + t.literal + " null"@,
        TokenKind::And => "AND "@ + t.literal + " null"@,
        TokenKind::Class => "CLASS "@ + t.literal + " null"@,
        TokenKind::Else => "ELSE "@ + t.literal + " null"@,
        TokenKind::False => "FALSE "@ + t.literal + " null"@,
        TokenKind::For => "FOR "@ + t.literal + " null"@,
        TokenKind::Fun => "FUN "@ + t.literal + " null"@,
        TokenKind::If => "IF "@ + t.literal + " null"@,
        TokenKind::Nil => "NIL "@ + t.literal + " null"@,
        TokenKind::Or => "OR "@ + t.literal + " null"@,
        TokenKind::Print => "PRINT "@ + t.literal + " null"@,
        TokenKind::Return => "RETURN "@ + t.literal + " null"@,
        TokenKind::Super => "SUPER "@ + t.literal + " null"@,
        TokenKind::This => "THIS "@ + t.literal + " null"@,
        TokenKind::True => "TRUE "@ + t.literal + " null"@,
        TokenKind::Var => "VAR "@ + t.literal + " null"@,
        TokenKind::While => "WHILE "@ + t.literal + " null"@,
        TokenKind::Illegal(ty) => match ty {
            IlligalType::UnterminatedString => "[line "@ + dec_str(t.line)
                + "] Error: Unterminated string."@,
            IlligalType::Unexpected => "[line "@ + dec_str(t.line)
                + "] Error: Unexpected character: "@ + t.literal,
        },
    }
}

impl Token {
    /// The token's display line, exactly as `token_display` describes it.
    pub fn display_string(&self) -> (r: String)
        ensures
            r@ == token_display(self.deep_view()),
    {
        match self.kind {
            TokenKind::LeftParen => String::from_str("LEFT_PAREN ( null"),
            TokenKind::RightParen => String::from_str("RIGHT_PAREN ) null"),
            TokenKind::LeftBrace => String::from_str("LEFT_BRACE { null"),
            TokenKind::RightBrace => String::from_str("RIGHT_BRACE } null"),
            TokenKind::Star => String::from_str("STAR * null"),
            TokenKind::Dot => String::from_str("DOT . null"),
            TokenKind::Comma => String::from_str("COMMA , null"),
            TokenKind::Plus => String::from_str("PLUS + null"),
            TokenKind::Minus => String::from_str("MINUS - null"),
            TokenKind::Semi => String::from_str("SEMICOLON ; null"),
            TokenKind::Slash => String::from_str("SLASH / null"),
            TokenKind::Equal => String::from_str("EQUAL = null"),
            TokenKind::EqualEqual => String::from_str("EQUAL_EQUAL == null"),
            TokenKind::Bang => String::from_str("BANG ! null"),
            TokenKind::BangEqual => String::from_str("BANG_EQUAL != null"),
            TokenKind::Less => String::from_str("LESS < null"),
            TokenKind::LessEqual => String::from_str("LESS_EQUAL <= null"),
            TokenKind::Greater => String::from_str("GREATER > null"),
            TokenKind::GreaterEqual => String::from_str("GREATER_EQUAL >= null"),
            TokenKind::String => {
                let mut s = String::from_str("STRING \"");
                s.append(self.literal.as_str());
                s.append("\" ");
                s.append(self.literal.as_str());
                s
            },
            TokenKind::Number(bits) => {
                let mut s = String::from_str("NUMBER ");
                s.append(self.literal.as_str());
                s.append(" ");
                let shown = display_number(bits);
                s.append(shown.as_str());
                if number_is_int(bits) {
                    s.append(".0");
                }
                s
            },
            TokenKind::Identifier => self.word_display("IDENTIFIER "),
            TokenKind::And => self.word_display("AND "),
            TokenKind::Class => self.word_display("CLASS "),
            TokenKind::Else => self.word_display("ELSE "),
            TokenKind::False => self.word_display("FALSE "),
            TokenKind::For => self.word_display("FOR "),
            TokenKind::Fun => self.word_display("FUN "),
            TokenKind::If => self.word_display("IF "),
            TokenKind::Nil => self.word_display("NIL "),
            TokenKind::Or => self.word_display("OR "),
            TokenKind::Print => self.word_display("PRINT "),
            TokenKind::Return => self.word_display("RETURN "),
            TokenKind::Super => self.word_display("SUPER "),
            TokenKind::This => self.word_display("THIS "),
            TokenKind::True => self.word_display("TRUE "),
            TokenKind::Var => self.word_display("VAR "),
            TokenKind::While => self.word_display("WHILE "),
            TokenKind::Illegal(ty) => {
                let mut s = String::from_str("[line ");
                let line = dec_string(self.line);
                s.append(line.as_str());
                match ty {
                    IlligalType::UnterminatedString => {
                        s.append("] Error: Unterminated string.");
                    },
                    IlligalType::Unexpected => {
                        s.append("] Error: Unexpected character: ");
                        s.append(self.literal.as_str());
                    },
                }
                s
            },
        }
    }

    /// A display line of the shape `<prefix><lexeme> null`.
    fn word_display(&self, prefix: &str) -> (r: String)
        ensures
            r@ == prefix@ + self.literal@ + " null"@,
    {
        let mut s = String::from_str(prefix);
        s.append(self.literal.as_str());
        s.append(" null");
        s
    }
}

} // verus!
