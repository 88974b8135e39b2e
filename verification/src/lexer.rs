use vstd::prelude::*;

use crate::numeric::num_of_lexeme;
use crate::numeric::parse_number;
use crate::text::{
    chars_of, is_alnum, is_alpha, is_digit, is_space, push_char, spec_is_alnum, spec_is_alpha,
    spec_is_digit, spec_is_space, str_eq,
};
use crate::token::{IlligalType, Token, TokenKind, TokenSpec};

verus! {

/// The line counter after consuming one character.
pub open spec fn adv_line(line: nat, c: char) -> nat {
    if c == '\n' {
        line + 1
    } else {
        line
    }
}

/// The column counter after consuming one character: columns restart at 1
/// after a newline.
pub open spec fn adv_col(col: nat, c: char) -> nat {
    if c == '\n' {
        1
    } else {
        col + 1
    }
}

/// The line and column after consuming `s[from..to)`, starting from
/// `(line, col)`.
pub open spec fn pos_after(s: Seq<char>, from: int, to: int, line: nat, col: nat) -> (nat, nat)
    decreases to - from,
{
    if to <= from {
        (line, col)
    } else {
        let (l, c) = pos_after(s, from, to - 1, line, col);
        (adv_line(l, s[to - 1]), adv_col(c, s[to - 1]))
    }
}

/// The first index at or after `i` that does not hold a digit.
pub open spec fn digits_end(s: Seq<char>, i: int) -> int
    decreases s.len() - i,
{
    if i < 0 || i >= s.len() || !spec_is_digit(s[i]) {
        i
    } else {
        digits_end(s, i + 1)
    }
}

/// The first index at or after `i` that cannot continue an identifier.
pub open spec fn ident_end(s: Seq<char>, i: int) -> int
    decreases s.len() - i,
{
    if i < 0 || i >= s.len() || !spec_is_alnum(s[i]) {
        i
    } else {
        ident_end(s, i + 1)
    }
}

/// The first index at or after `i` holding a closing quote, or the length.
pub open spec fn string_end(s: Seq<char>, i: int) -> int
    decreases s.len() - i,
{
    if i < 0 || i >= s.len() {
        if i < 0 {
            i
        } else {
            s.len() as int
        }
    } else if s[i] == '"' {
        i
    } else {
        string_end(s, i + 1)
    }
}

/// The first index at or after `i` holding a newline, or the length.
pub open spec fn line_end(s: Seq<char>, i: int) -> int
    decreases s.len() - i,
{
    if i < 0 || i >= s.len() {
        if i < 0 {
            i
        } else {
            s.len() as int
        }
    } else if s[i] == '\n' {
        i
    } else {
        line_end(s, i + 1)
    }
}

pub proof fn lemma_digits_end(s: Seq<char>, i: int)
    ensures
        i <= digits_end(s, i),
        i <= s.len() ==> digits_end(s, i) <= s.len(),
        forall|j: int| i <= j < digits_end(s, i) ==> spec_is_digit(s[j]),
        0 <= digits_end(s, i) < s.len() && i >= 0 ==> !spec_is_digit(s[digits_end(s, i)]),
    decreases s.len() - i,
{
    if !(i < 0 || i >= s.len() || !spec_is_digit(s[i])) {
        lemma_digits_end(s, i + 1);
    }
}

pub proof fn lemma_ident_end(s: Seq<char>, i: int)
    ensures
        i <= ident_end(s, i),
        i <= s.len() ==> ident_end(s, i) <= s.len(),
    decreases s.len() - i,
{
    if !(i < 0 || i >= s.len() || !spec_is_alnum(s[i])) {
        lemma_ident_end(s, i + 1);
    }
}

pub proof fn lemma_string_end(s: Seq<char>, i: int)
    requires
        0 <= i <= s.len(),
    ensures
        i <= string_end(s, i) <= s.len(),
    decreases s.len() - i,
{
    if i < s.len() && s[i] != '"' {
        lemma_string_end(s, i + 1);
    }
}

pub proof fn lemma_line_end(s: Seq<char>, i: int)
    requires
        0 <= i <= s.len(),
    ensures
        i <= line_end(s, i) <= s.len(),
    decreases s.len() - i,
{
    if i < s.len() && s[i] != '\n' {
        lemma_line_end(s, i + 1);
    }
}

/// Whether a line comment starts at index `i`.
pub open spec fn comment_at(s: Seq<char>, i: int) -> bool {
    i + 1 < s.len() && s[i] == '/' && s[i + 1] == '/'
}

/// The state after skipping whitespace and line comments: the index of the
/// next significant character (or the length), with the line and column
/// counters carried along.
pub open spec fn spec_skip(s: Seq<char>, i: int, line: nat, col: nat) -> (int, nat, nat)
    decreases s.len() - i,
{
    if i < 0 || i >= s.len() {
        (i, line, col)
    } else if spec_is_space(s[i]) {
        spec_skip(s, i + 1, adv_line(line, s[i]), adv_col(col, s[i]))
    } else if comment_at(s, i) {
        proof {
            lemma_line_end(s, i + 2);
        }
        let k = line_end(s, i + 2);
        spec_skip(s, k, line, (col + (k - i)) as nat)
    } else {
        (i, line, col)
    }
}

pub proof fn lemma_spec_skip(s: Seq<char>, i: int, line: nat, col: nat)
    requires
        0 <= i <= s.len(),
    ensures
        ({
            let (j, l, c) = spec_skip(s, i, line, col);
            i <= j <= s.len() && (j < s.len() ==> !spec_is_space(s[j]) && !comment_at(s, j))
        }),
    decreases s.len() - i,
{
    if i < s.len() {
        if spec_is_space(s[i]) {
            lemma_spec_skip(s, i + 1, adv_line(line, s[i]), adv_col(col, s[i]));
        } else if comment_at(s, i) {
            lemma_line_end(s, i + 2);
            let k = line_end(s, i + 2);
            lemma_spec_skip(s, k, line, (col + (k - i)) as nat);
        }
    }
}

/// The keyword a lexeme spells, if any; otherwise it is an identifier.
pub open spec fn keyword_kind(w: Seq<char>) -> TokenKind {
    if w == "and"@ {
        TokenKind::And
    } else if w == "class"@ {
        TokenKind::Class
    } else if w == "else"@ {
        TokenKind::Else
    } else if w == "false"@ {
        TokenKind::False
    } else if w == "for"@ {
        TokenKind::For
    } else if w == "fun"@ {
        TokenKind::Fun
    } else if w == "if"@ {
        TokenKind::If
    } else if w == "nil"@ {
        TokenKind::Nil
    } else if w == "or"@ {
        TokenKind::Or
    } else if w == "print"@ {
        TokenKind::Print
    } else if w == "return"@ {
        TokenKind::Return
    } else if w == "super"@ {
        TokenKind::Super
    } else if w == "this"@ {
        TokenKind::This
    } else if w == "true"@ {
        TokenKind::True
    } else if w == "var"@ {
        TokenKind::Var
    } else if w == "while"@ {
        TokenKind::While
    } else {
        TokenKind::Identifier
    }
}

/// A token whose lexeme is the single character `c`.
pub open spec fn single(kind: TokenKind, c: char, line: nat, col: nat) -> TokenSpec {
    TokenSpec { kind, literal: seq![c], line, column: col }
}

/// The next token at or after index `i`, with the state that follows it;
/// `None` when only whitespace and comments remain.
pub open spec fn spec_next_token(s: Seq<char>, i: int, line: nat, col: nat) -> Option<
    (TokenSpec, int, nat, nat),
> {
    let (j, l, c) = spec_skip(s, i, line, col);
    if j < 0 || j >= s.len() {
        None
    } else {
        let ch = s[j];
        let l1 = adv_line(l, ch);
        let c1 = adv_col(c, ch);
        if ch == '(' {
            Some((single(TokenKind::LeftParen, ch, l, c), j + 1, l1, c1))
        } else if ch == ')' {
            Some((single(TokenKind::RightParen, ch, l, c), j + 1, l1, c1))
        } else if ch == '{' {
            Some((single(TokenKind::LeftBrace, ch, l, c), j + 1, l1, c1))
        } else if ch == '}' {
            Some((single(TokenKind::RightBrace, ch, l, c), j + 1, l1, c1))
        } else if ch == '*' {
            Some((single(TokenKind::Star, ch, l, c), j + 1, l1, c1))
        } else if ch == '.' {
            Some((single(TokenKind::Dot, ch, l, c), j + 1, l1, c1))
        } else if ch == ',' {
            Some((single(TokenKind::Comma, ch, l, c), j + 1, l1, c1))
        } else if ch == '+' {
            Some((single(TokenKind::Plus, ch, l, c), j + 1, l1, c1))
        } else if ch == '-' {
            Some((single(TokenKind::Minus, ch, l, c), j + 1, l1, c1))
        } else if ch == ';' {
            Some((single(TokenKind::Semi, ch, l, c), j + 1, l1, c1))
        } else if ch == '/' {
            Some((single(TokenKind::Slash, ch, l, c), j + 1, l1, c1))
        } else if ch == '=' {
            if j + 1 < s.len() && s[j + 1] == '=' {
                Some(
                    (
                        TokenSpec { kind: TokenKind::EqualEqual, literal: seq!['=', '='], line: l, column: c },
                        j + 2,
                        l,
                        (c + 1) as nat,
                    ),
                )
            } else {
                Some((single(TokenKind::Equal, ch, l, c), j + 1, l1, c1))
            }
        } else if ch == '!' {
            if j + 1 < s.len() && s[j + 1] == '=' {
                Some(
                    (
                        TokenSpec { kind: TokenKind::BangEqual, literal: seq!['!', '='], line: l, column: c },
                        j + 2,
                        l,
                        (c + 1) as nat,
                    ),
                )
            } else {
                Some((single(TokenKind::Bang, ch, l, c), j + 1, l1, c1))
            }
        } else if ch == '<' {
            if j + 1 < s.len() && s[j + 1] == '=' {
                Some(
                    (
                        TokenSpec { kind: TokenKind::LessEqual, literal: seq!['<', '='], line: l, column: c },
                        j + 2,
                        l,
                        (c + 1) as nat,
                    ),
                )
            } else {
                Some((single(TokenKind::Less, ch, l, c), j + 1, l1, c1))
            }
        } else if ch == '>' {
            if j + 1 < s.len() && s[j + 1] == '=' {
                Some(
                    (
                        TokenSpec {
                            kind: TokenKind::GreaterEqual,
                            literal: seq!['>', '='],
                            line: l,
                            column: c,
                        },
                        j + 2,
                        l,
                        (c + 1) as nat,
                    ),
                )
            } else {
                Some((single(TokenKind::Greater, ch, l, c), j + 1, l1, c1))
            }
        } else if ch == '"' {
            let k = string_end(s, j + 1);
            if k < s.len() {
                let (l2, c2) = pos_after(s, j + 1, k + 1, l1, c1);
                Some(
                    (
                        TokenSpec {
                            kind: TokenKind::String,
                            literal: s.subrange(j + 1, k),
                            line: l,
                            column: c,
                        },
                        k + 1,
                        l2,
                        c2,
                    ),
                )
            } else {
                let (l2, c2) = pos_after(s, j + 1, s.len() as int, l1, c1);
                Some(
                    (
                        TokenSpec {
                            kind: TokenKind::Illegal(IlligalType::UnterminatedString),
                            literal: s.subrange(j + 1, s.len() as int),
                            line: l,
                            column: c,
                        },
                        s.len() as int,
                        l2,
                        c2,
                    ),
                )
            }
        } else if spec_is_digit(ch) {
            let k1 = digits_end(s, j + 1);
            if k1 + 1 < s.len() && s[k1] == '.' && spec_is_digit(s[k1 + 1]) {
                let k2 = digits_end(s, k1 + 1);
                let lexeme = s.subrange(j, k2);
                Some(
                    (
                        TokenSpec {
                            kind: TokenKind::Number(num_of_lexeme(lexeme)),
                            literal: lexeme,
                            line: l,
                            column: c,
                        },
                        k2,
                        l,
                        (c + (k2 - j)) as nat,
                    ),
                )
            } else {
                let lexeme = s.subrange(j, k1);
                Some(
                    (
                        TokenSpec {
                            kind: TokenKind::Number(num_of_lexeme(lexeme)),
                            literal: lexeme,
                            line: l,
                            column: c,
                        },
                        k1,
                        l,
                        (c + (k1 - j)) as nat,
                    ),
                )
            }
        } else if spec_is_alpha(ch) {
            let k = ident_end(s, j + 1);
            let lexeme = s.subrange(j, k);
            Some(
                (
                    TokenSpec {
                        kind: keyword_kind(lexeme),
                        literal: lexeme,
                        line: l,
                        column: c,
                    },
                    k,
                    l,
                    (c + (k - j)) as nat,
                ),
            )
        } else {
            Some(
                (
                    TokenSpec {
                        kind: TokenKind::Illegal(IlligalType::Unexpected),
                        literal: seq![ch],
                        line: l,
                        column: c,
                    },
                    j + 1,
                    l1,
                    c1,
                ),
            )
        }
    }
}

/// Each token starts after the skipped stretch and consumes at least one
/// character; the index that follows it stays within the input.
pub proof fn lemma_next_token_advances(s: Seq<char>, i: int, line: nat, col: nat)
    requires
        0 <= i <= s.len(),
    ensures
        spec_next_token(s, i, line, col) is Some ==> ({
            let (t, k, l, c) = spec_next_token(s, i, line, col)->0;
            i < k <= s.len()
        }),
        spec_next_token(s, i, line, col) is None ==> spec_skip(s, i, line, col).0 == s.len(),
{
    lemma_spec_skip(s, i, line, col);
    let (j, l, c) = spec_skip(s, i, line, col);
    if j < s.len() {
        let ch = s[j];
        lemma_digits_end(s, j + 1);
        if spec_is_digit(ch) {
            let k1 = digits_end(s, j + 1);
            lemma_digits_end(s, k1 + 1);
        }
        lemma_ident_end(s, j + 1);
        if ch == '"' {
            lemma_string_end(s, j + 1);
        }
    }
}

/// The tokens of the input from index `i` on.
pub open spec fn spec_tokens_from(s: Seq<char>, i: int, line: nat, col: nat) -> Seq<TokenSpec>
    decreases s.len() - i,
{
    if i < 0 || i > s.len() {
        seq![]
    } else {
        match spec_next_token(s, i, line, col) {
            None => seq![],
            Some((t, k, l, c)) => {
                proof {
                    lemma_next_token_advances(s, i, line, col);
                }
                seq![t] + spec_tokens_from(s, k, l, c)
            },
        }
    }
}

/// The token stream of a whole input: lexing starts at line 1, column 1.
pub open spec fn spec_lex(s: Seq<char>) -> Seq<TokenSpec> {
    spec_tokens_from(s, 0, 1, 1)
}

/// Lexing is total: every input yields a finite stream, and every token
/// consumes at least one character, so there are never more tokens than
/// characters.
pub proof fn lemma_lexing_total(s: Seq<char>)
    ensures
        spec_lex(s).len() <= s.len(),
{
    lemma_tokens_from_bounded(s, 0, 1, 1);
}

pub proof fn lemma_tokens_from_bounded(s: Seq<char>, i: int, line: nat, col: nat)
    requires
        0 <= i <= s.len(),
    ensures
        spec_tokens_from(s, i, line, col).len() <= s.len() - i,
    decreases s.len() - i,
{
    lemma_next_token_advances(s, i, line, col);
    match spec_next_token(s, i, line, col) {
        None => {},
        Some((t, k, l, c)) => {
            lemma_tokens_from_bounded(s, k, l, c);
        },
    }
}

/// Whether a character can begin a token: the punctuation and operator
/// characters, a quote, a digit, or an identifier head.
pub open spec fn starts_token(c: char) -> bool {
    c == '(' || c == ')' || c == '{' || c == '}' || c == '*' || c == '.' || c == ',' || c == '+'
        || c == '-' || c == ';' || c == '/' || c == '=' || c == '!' || c == '<' || c == '>' || c
        == '"' || spec_is_digit(c) || spec_is_alpha(c)
}

/// The second half of lexing totality: a byte that cannot begin a token is
/// not skipped and does not derail the scan — it becomes exactly one illegal
/// token covering exactly that character, and lexing resumes right after it.
pub proof fn lemma_illegal_char_one_token(s: Seq<char>, i: int, line: nat, col: nat)
    requires
        0 <= i <= s.len(),
        ({
            let (j, l, c) = spec_skip(s, i, line, col);
            j < s.len() && !starts_token(s[j])
        }),
    ensures
        ({
            let (j, l, c) = spec_skip(s, i, line, col);
            spec_tokens_from(s, i, line, col) == seq![
                TokenSpec {
                    kind: TokenKind::Illegal(IlligalType::Unexpected),
                    literal: seq![s[j]],
                    line: l,
                    column: c,
                },
            ] + spec_tokens_from(s, j + 1, adv_line(l, s[j]), adv_col(c, s[j]))
        }),
{
    lemma_spec_skip(s, i, line, col);
    lemma_next_token_advances(s, i, line, col);
}

/// A single-pass lexer over the characters of one source text.
pub struct Lexer {
    pub chars: Vec<char>,
    pub pos: usize,
    pub line: usize,
    pub column: usize,
}

impl Lexer {
    /// The state a lexer must keep: the cursor inside the input, and line
    /// and column counters that can never outrun it.
    pub open spec fn wf(&self) -> bool {
        self.pos <= self.chars@.len() && self.chars@.len() < usize::MAX && 1 <= self.line
            && self.line as int <= self.pos as int + 1 && 1 <= self.column && self.column as int
            <= self.pos as int + 1
    }

    /// The input being lexed.
    pub open spec fn input(&self) -> Seq<char> {
        self.chars@
    }

    /// The tokens still to come from the current state.
    pub open spec fn remaining_tokens(&self) -> Seq<TokenSpec> {
        spec_tokens_from(self.chars@, self.pos as int, self.line as nat, self.column as nat)
    }

    /// A fresh lexer at the start of the input, on line 1, column 1.
    pub fn new(input: &str) -> (r: Lexer)
        requires
            input@.len() < usize::MAX,
        ensures
            r.wf(),
            r.input() == input@,
            r.pos == 0,
            r.line == 1,
            r.column == 1,
    {
        Lexer { chars: chars_of(input), pos: 0, line: 1, column: 1 }
    }

    /// Consumes one character, keeping the line and column counters true.
    fn advance(&mut self) -> (c: char)
        requires
            old(self).wf(),
            old(self).pos < old(self).chars@.len(),
        ensures
            final(self).wf(),
            final(self).chars == old(self).chars,
            c == old(self).chars@[old(self).pos as int],
            final(self).pos == old(self).pos + 1,
            final(self).line as nat == adv_line(old(self).line as nat, c),
            final(self).column as nat == adv_col(old(self).column as nat, c),
    {
        let c = self.chars[self.pos];
        self.pos = self.pos + 1;
        if c == '\n' {
            self.line = self.line + 1;
            self.column = 1;
        } else {
            self.column = self.column + 1;
        }
        c
    }

    /// Skips whitespace and line comments, as `spec_skip` describes.
    fn skip_trivia(&mut self)
        requires
            old(self).wf(),
        ensures
            final(self).wf(),
            final(self).chars == old(self).chars,
            (final(self).pos as int, final(self).line as nat, final(self).column as nat) == spec_skip(
                old(self).chars@,
                old(self).pos as int,
                old(self).line as nat,
                old(self).column as nat,
            ),
            final(self).pos >= old(self).pos,
    {
        loop
            invariant
                self.wf(),
                self.chars == old(self).chars,
                self.pos >= old(self).pos,
                spec_skip(
                    old(self).chars@,
                    old(self).pos as int,
                    old(self).line as nat,
                    old(self).column as nat,
                ) == spec_skip(
                    self.chars@,
                    self.pos as int,
                    self.line as nat,
                    self.column as nat,
                ),
            decreases self.chars@.len() - self.pos,
        {
            if self.pos >= self.chars.len() {
                return ;
            }
            let c = self.chars[self.pos];
            if is_space(c) {
                self.advance();
            } else if c == '/' && self.pos + 1 < self.chars.len() && self.chars[self.pos + 1]
                == '/' {
                let ghost i0 = self.pos as int;
                let ghost col0 = self.column as nat;
                let ghost line0 = self.line as nat;
                let ghost s = self.chars@;
                proof {
                    lemma_line_end(s, i0 + 2);
                }
                self.pos = self.pos + 2;
                self.column = self.column + 2;
                while self.pos < self.chars.len() && self.chars[self.pos] != '\n'
                    invariant
                        self.chars == old(self).chars,
                        self.chars@ == s,
                        1 <= line0 <= i0 + 1,
                        1 <= col0,
                        self.line as nat == line0,
                        i0 + 2 <= self.pos as int <= s.len(),
                        s.len() < usize::MAX,
                        col0 <= i0 + 1,
                        self.column as int == col0 + (self.pos - i0),
                        line_end(s, self.pos as int) == line_end(s, i0 + 2),
                        forall|m: int| i0 + 2 <= m < self.pos as int ==> s[m] != '\n',
                    decreases self.chars@.len() - self.pos,
                {
                    proof {
                        lemma_line_end(s, self.pos as int);
                    }
                    self.pos = self.pos + 1;
                    self.column = self.column + 1;
                }
                proof {
                    lemma_line_end(s, self.pos as int);
                    lemma_line_end(s, i0 + 2);
                    assert(line_end(s, self.pos as int) == self.pos as int);
                    assert(self.pos as int == line_end(s, i0 + 2));
                }
            } else {
                return ;
            }
        }
    }

    /// Gathers the characters `chars[from..to)` into a string.
    fn gather(&self, from: usize, to: usize) -> (r: String)
        requires
            from <= to <= self.chars@.len(),
        ensures
            r@ == self.chars@.subrange(from as int, to as int),
    {
        let mut out = String::new();
        let mut i: usize = from;
        while i < to
            invariant
                from <= i <= to <= self.chars@.len(),
                out@ == self.chars@.subrange(from as int, i as int),
            decreases to - i,
        {
            push_char(&mut out, self.chars[i]);
            i = i + 1;
            proof {
                assert(out@ =~= self.chars@.subrange(from as int, i as int));
            }
        }
        proof {
            assert(out@ =~= self.chars@.subrange(from as int, to as int));
        }
        out
    }

    /// The next token of the input, or `None` when only whitespace and
    /// comments remain, exactly as `spec_next_token` describes.
    pub fn next_token(&mut self) -> (r: Option<Token>)
        requires
            old(self).wf(),
        ensures
            final(self).wf(),
            final(self).chars == old(self).chars,
            match spec_next_token(
                old(self).chars@,
                old(self).pos as int,
                old(self).line as nat,
                old(self).column as nat,
            ) {
                None => r is None && final(self).pos == final(self).chars@.len(),
                Some((t, k, l, c)) => r is Some && r->Some_0.deep_view() == t && final(self).pos as int
                    == k && final(self).line as nat == l && final(self).column as nat == c && final(self).pos > old(
                    self,
                ).pos,
            },
    {
        proof {
            lemma_next_token_advances(
                self.chars@,
                self.pos as int,
                self.line as nat,
                self.column as nat,
            );
        }
        self.skip_trivia();
        if self.pos >= self.chars.len() {
            return None;
        }
        let start_line = self.line;
        let start_column = self.column;
        let ghost j = self.pos as int;
        let ghost s = self.chars@;
        let ch = self.advance();
        if ch == '(' {
            Some(self.single_token(TokenKind::LeftParen, ch, start_line, start_column))
        } else if ch == ')' {
            Some(self.single_token(TokenKind::RightParen, ch, start_line, start_column))
        } else if ch == '{' {
            Some(self.single_token(TokenKind::LeftBrace, ch, start_line, start_column))
        } else if ch == '}' {
            Some(self.single_token(TokenKind::RightBrace, ch, start_line, start_column))
        } else if ch == '*' {
            Some(self.single_token(TokenKind::Star, ch, start_line, start_column))
        } else if ch == '.' {
            Some(self.single_token(TokenKind::Dot, ch, start_line, start_column))
        } else if ch == ',' {
            Some(self.single_token(TokenKind::Comma, ch, start_line, start_column))
        } else if ch == '+' {
            Some(self.single_token(TokenKind::Plus, ch, start_line, start_column))
        } else if ch == '-' {
            Some(self.single_token(TokenKind::Minus, ch, start_line, start_column))
        } else if ch == ';' {
            Some(self.single_token(TokenKind::Semi, ch, start_line, start_column))
        } else if ch == '/' {
            Some(self.single_token(TokenKind::Slash, ch, start_line, start_column))
        } else if ch == '=' {
            Some(self.one_or_two(TokenKind::Equal, TokenKind::EqualEqual, ch, start_line, start_column))
        } else if ch == '!' {
            Some(self.one_or_two(TokenKind::Bang, TokenKind::BangEqual, ch, start_line, start_column))
        } else if ch == '<' {
            Some(self.one_or_two(TokenKind::Less, TokenKind::LessEqual, ch, start_line, start_column))
        } else if ch == '>' {
            Some(
                self.one_or_two(
                    TokenKind::Greater,
                    TokenKind::GreaterEqual,
                    ch,
                    start_line,
                    start_column,
                ),
            )
        } else if ch == '"' {
            Some(self.string_token(start_line, start_column))
        } else if is_digit(ch) {
            Some(self.number_token(start_line, start_column))
        } else if is_alpha(ch) {
            Some(self.ident_token(start_line, start_column))
        } else {
            let mut lit = String::new();
            push_char(&mut lit, ch);
            proof {
                assert(lit@ =~= seq![ch]);
            }
            Some(
                Token {
                    kind: TokenKind::Illegal(IlligalType::Unexpected),
                    literal: lit,
                    line: start_line,
                    column: start_column,
                },
            )
        }
    }

    /// Builds a single-character token after its character was consumed.
    fn single_token(&self, kind: TokenKind, c: char, line: usize, column: usize) -> (r: Token)
        ensures
            r.deep_view() == single(kind, c, line as nat, column as nat),
    {
        let mut lit = String::new();
        push_char(&mut lit, c);
        proof {
            assert(lit@ =~= seq![c]);
        }
        Token { kind, literal: lit, line, column }
    }

    /// After one of `= ! < >` was consumed: takes a following `=` for the
    /// two-character operator, else keeps the one-character form.
    fn one_or_two(
        &mut self,
        kind1: TokenKind,
        kind2: TokenKind,
        c: char,
        line: usize,
        column: usize,
    ) -> (r: Token)
        requires
            old(self).wf(),
        ensures
            final(self).wf(),
            final(self).chars == old(self).chars,
            if old(self).pos < old(self).chars@.len() && old(self).chars@[old(self).pos as int]
                == '=' {
                r.deep_view() == TokenSpec {
                    kind: kind2,
                    literal: seq![c, '='],
                    line: line as nat,
                    column: column as nat,
                } && final(self).pos == old(self).pos + 1 && final(self).line == old(self).line && final(self).column
                    == old(self).column
            } else {
                r.deep_view() == single(kind1, c, line as nat, column as nat) && final(self).pos == old(
                    self,
                ).pos && final(self).line == old(self).line && final(self).column == old(self).column
            },
    {
        if self.pos < self.chars.len() && self.chars[self.pos] == '=' {
            // the second character comes straight off the input: the column
            // counter does not move for it
            self.pos = self.pos + 1;
            let mut lit = String::new();
            push_char(&mut lit, c);
            push_char(&mut lit, '=');
            proof {
                assert(lit@ =~= seq![c, '=']);
            }
            Token { kind: kind2, literal: lit, line, column }
        } else {
            let mut lit = String::new();
            push_char(&mut lit, c);
            proof {
                assert(lit@ =~= seq![c]);
            }
            Token { kind: kind1, literal: lit, line, column }
        }
    }

    /// After an opening quote was consumed: scans to the closing quote, or
    /// to the end of the input for an unterminated string.
    fn string_token(&mut self, line: usize, column: usize) -> (r: Token)
        requires
            old(self).wf(),
        ensures
            final(self).wf(),
            final(self).chars == old(self).chars,
            ({
                let s = old(self).chars@;
                let start = old(self).pos as int;
                let k = string_end(s, start);
                if k < s.len() {
                    r.deep_view() == TokenSpec {
                        kind: TokenKind::String,
                        literal: s.subrange(start, k),
                        line: line as nat,
                        column: column as nat,
                    } && final(self).pos as int == k + 1 && (final(self).line as nat, final(self).column as nat)
                        == pos_after(
                        s,
                        start,
                        k + 1,
                        old(self).line as nat,
                        old(self).column as nat,
                    )
                } else {
                    r.deep_view() == TokenSpec {
                        kind: TokenKind::Illegal(IlligalType::UnterminatedString),
                        literal: s.subrange(start, s.len() as int),
                        line: line as nat,
                        column: column as nat,
                    } && final(self).pos as int == s.len() && (final(self).line as nat, final(self).column as nat)
                        == pos_after(
                        s,
                        start,
                        s.len() as int,
                        old(self).line as nat,
                        old(self).column as nat,
                    )
                }
            }),
    {
        let ghost s = self.chars@;
        let ghost start = self.pos as int;
        proof {
            lemma_string_end(s, start);
        }
        let from = self.pos;
        while self.pos < self.chars.len() && self.chars[self.pos] != '"'
            invariant
                self.wf(),
                self.chars == old(self).chars,
                self.chars@ == s,
                start <= self.pos as int <= s.len(),
                from as int == start,
                string_end(s, self.pos as int) == string_end(s, start),
                (self.line as nat, self.column as nat) == pos_after(
                    s,
                    start,
                    self.pos as int,
                    old(self).line as nat,
                    old(self).column as nat,
                ),
                forall|m: int| start <= m < self.pos as int ==> s[m] != '"',
            decreases self.chars@.len() - self.pos,
        {
            self.advance();
        }
        let ghost k = string_end(s, start);
        proof {
            assert(string_end(s, self.pos as int) == self.pos as int || (self.pos as int == s.len()
                && string_end(s, self.pos as int) == s.len()));
            assert(k == self.pos as int);
        }
        if self.pos < self.chars.len() {
            let lit = self.gather(from, self.pos);
            self.advance();
            Token { kind: TokenKind::String, literal: lit, line, column }
        } else {
            let lit = self.gather(from, self.pos);
            Token {
                kind: TokenKind::Illegal(IlligalType::UnterminatedString),
                literal: lit,
                line,
                column,
            }
        }
    }

    /// Consumes a run of digits, leaving the cursor on the first non-digit.
    fn eat_digits(&mut self)
        requires
            old(self).wf(),
        ensures
            final(self).wf(),
            final(self).chars == old(self).chars,
            final(self).pos as int == digits_end(old(self).chars@, old(self).pos as int),
            final(self).line == old(self).line,
            final(self).column as int == old(self).column + (final(self).pos - old(self).pos),
    {
        let ghost s = self.chars@;
        let ghost start = self.pos as int;
        proof {
            lemma_digits_end(s, start);
        }
        while self.pos < self.chars.len() && is_digit(self.chars[self.pos])
            invariant
                self.wf(),
                self.chars == old(self).chars,
                self.chars@ == s,
                start <= self.pos as int <= s.len(),
                digits_end(s, self.pos as int) == digits_end(s, start),
                self.line == old(self).line,
                self.column as int == old(self).column + (self.pos as int - start),
                forall|m: int| start <= m < self.pos as int ==> spec_is_digit(s[m]),
            decreases self.chars@.len() - self.pos,
        {
            self.advance();
        }
        proof {
            assert(digits_end(s, self.pos as int) == self.pos as int);
        }
    }

    /// After a first digit was consumed: the rest of a number literal,
    /// including an optional fraction introduced by a dot followed by a digit.
    fn number_token(&mut self, line: usize, column: usize) -> (r: Token)
        requires
            old(self).wf(),
            old(self).pos >= 1,
        ensures
            final(self).wf(),
            final(self).chars == old(self).chars,
            ({
                let s = old(self).chars@;
                let j = old(self).pos as int - 1;
                let k1 = digits_end(s, j + 1);
                let k2 = digits_end(s, k1 + 1);
                let lexeme = if k1 + 1 < s.len() && s[k1] == '.' && spec_is_digit(s[k1 + 1]) {
                    s.subrange(j, k2)
                } else {
                    s.subrange(j, k1)
                };
                r.deep_view() == TokenSpec {
                    kind: TokenKind::Number(num_of_lexeme(lexeme)),
                    literal: lexeme,
                    line: line as nat,
                    column: column as nat,
                } && final(self).pos as int == (if k1 + 1 < s.len() && s[k1] == '.' && spec_is_digit(
                    s[k1 + 1],
                ) {
                    k2
                } else {
                    k1
                }) && final(self).line == old(self).line && final(self).column as int == old(self).column + (
                final(self).pos as int - old(self).pos as int)
            }),
    {
        let ghost s = self.chars@;
        let ghost j = self.pos as int - 1;
        let from = self.pos - 1;
        proof {
            lemma_digits_end(s, j + 1);
        }
        self.eat_digits();
        let ghost k1 = digits_end(s, j + 1);
        if self.pos + 1 < self.chars.len() && self.chars[self.pos] == '.' && is_digit(
            self.chars[self.pos + 1],
        ) {
            self.advance();
            proof {
                lemma_digits_end(s, k1 + 1);
            }
            self.eat_digits();
            let ghost k2 = digits_end(s, k1 + 1);
            proof {
                assert(digits_end(s, self.pos as int) == self.pos as int) by {
                    lemma_digits_end(s, self.pos as int);
                };
            }
            let lit = self.gather(from, self.pos);
            let bits = parse_number(lit.as_str());
            Token { kind: TokenKind::Number(bits), literal: lit, line, column }
        } else {
            let lit = self.gather(from, self.pos);
            let bits = parse_number(lit.as_str());
            Token { kind: TokenKind::Number(bits), literal: lit, line, column }
        }
    }

    /// After a leading letter or underscore was consumed: the rest of an
    /// identifier, then the keyword lookup.
    fn ident_token(&mut self, line: usize, column: usize) -> (r: Token)
        requires
            old(self).wf(),
            old(self).pos >= 1,
        ensures
            final(self).wf(),
            final(self).chars == old(self).chars,
            ({
                let s = old(self).chars@;
                let j = old(self).pos as int - 1;
                let k = ident_end(s, j + 1);
                let lexeme = s.subrange(j, k);
                r.deep_view() == TokenSpec {
                    kind: keyword_kind(lexeme),
                    literal: lexeme,
                    line: line as nat,
                    column: column as nat,
                } && final(self).pos as int == k && final(self).line == old(self).line && final(self).column as int
                    == old(self).column + (final(self).pos as int - old(self).pos as int)
            }),
    {
        let ghost s = self.chars@;
        let ghost j = self.pos as int - 1;
        let from = self.pos - 1;
        proof {
            lemma_ident_end(s, j + 1);
        }
        while self.pos < self.chars.len() && is_alnum(self.chars[self.pos])
            invariant
                self.wf(),
                self.chars == old(self).chars,
                self.chars@ == s,
                j + 1 <= self.pos as int <= s.len(),
                ident_end(s, self.pos as int) == ident_end(s, j + 1),
                self.line == old(self).line,
                self.column as int == old(self).column + (self.pos as int - (j + 1)),
            decreases self.chars@.len() - self.pos,
        {
            self.advance();
        }
        proof {
            assert(ident_end(s, self.pos as int) == self.pos as int);
        }
        let lit = self.gather(from, self.pos);
        let kind = self.keyword_of(&lit);
        Token { kind, literal: lit, line, column }
    }

    /// The keyword lookup, exactly as `keyword_kind` describes it.
    fn keyword_of(&self, w: &String) -> (r: TokenKind)
        ensures
            r == keyword_kind(w@),
    {
        if str_eq(w.as_str(), "and") {
            TokenKind::And
        } else if str_eq(w.as_str(), "class") {
            TokenKind::Class
        } else if str_eq(w.as_str(), "else") {
            TokenKind::Else
        } else if str_eq(w.as_str(), "false") {
            TokenKind::False
        } else if str_eq(w.as_str(), "for") {
            TokenKind::For
        } else if str_eq(w.as_str(), "fun") {
            TokenKind::Fun
        } else if str_eq(w.as_str(), "if") {
            TokenKind::If
        } else if str_eq(w.as_str(), "nil") {
            TokenKind::Nil
        } else if str_eq(w.as_str(), "or") {
            TokenKind::Or
        } else if str_eq(w.as_str(), "print") {
            TokenKind::Print
        } else if str_eq(w.as_str(), "return") {
            TokenKind::Return
        } else if str_eq(w.as_str(), "super") {
            TokenKind::Super
        } else if str_eq(w.as_str(), "this") {
            TokenKind::This
        } else if str_eq(w.as_str(), "true") {
            TokenKind::True
        } else if str_eq(w.as_str(), "var") {
            TokenKind::Var
        } else if str_eq(w.as_str(), "while") {
            TokenKind::While
        } else {
            TokenKind::Identifier
        }
    }

    /// All remaining tokens, in order, exactly as `spec_tokens_from`
    /// describes them; from a fresh lexer, the whole `spec_lex` stream.
    pub fn tokenize(&mut self) -> (r: Vec<Token>)
        requires
            old(self).wf(),
        ensures
            final(self).wf(),
            r.deep_view() == old(self).remaining_tokens(),
    {
        let mut out: Vec<Token> = Vec::new();
        loop
            invariant
                self.wf(),
                self.chars == old(self).chars,
                old(self).remaining_tokens() == out.deep_view() + self.remaining_tokens(),
            decreases self.chars@.len() - self.pos,
        {
            let ghost pre = *self;
            match self.next_token() {
                None => {
                    proof {
                        assert(pre.remaining_tokens() =~= Seq::<TokenSpec>::empty());
                        assert(old(self).remaining_tokens() =~= out.deep_view());
                    }
                    return out;
                },
                Some(t) => {
                    let ghost tm = t.deep_view();
                    let ghost out_pre = out.deep_view();
                    out.push(t);
                    proof {
                        assert(pre.remaining_tokens() == seq![tm] + self.remaining_tokens());
                        assert(out.deep_view() =~= out_pre.push(tm));
                        assert(old(self).remaining_tokens() =~= out.deep_view()
                            + self.remaining_tokens());
                    }
                },
            }
        }
    }
}

} // verus!
