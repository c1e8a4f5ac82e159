//! Lexical analysis: a single left-to-right scan of the source text that
//! produces the token sequence `spec_lex` describes.

use vstd::prelude::*;
use vstd::string::*;

use crate::chars::{digit, digit_val, is_alphabetic, is_digit, word_start};

verus! {

/// A lexical token.
#[derive(Debug)]
pub enum Token {
    OpenBrace,
    CloseBrace,
    OpenParens,
    CloseParens,
    Semicolon,
    Return,
    IntType,
    NumLiteral(u64),
    Identifier(String),
    Minus,
    Tilde,
    Bang,
    Plus,
    Times,
    Divide,
    And,
    Or,
    Equal,
    NotEqual,
    LessThan,
    LessThanOrEqual,
    GreaterThan,
    GreaterThanOrEqual,
}

/// The mathematical model of a token: an `Identifier`'s text is a
/// character sequence.
pub enum TokenModel {
    OpenBrace,
    CloseBrace,
    OpenParens,
    CloseParens,
    Semicolon,
    Return,
    IntType,
    NumLiteral(u64),
    Identifier(Seq<char>),
    Minus,
    Tilde,
    Bang,
    Plus,
    Times,
    Divide,
    And,
    Or,
    Equal,
    NotEqual,
    LessThan,
    LessThanOrEqual,
    GreaterThan,
    GreaterThanOrEqual,
}

impl View for Token {
    type V = TokenModel;

    open spec fn view(&self) -> TokenModel {
        match self {
            Token::OpenBrace => TokenModel::OpenBrace,
            Token::CloseBrace => TokenModel::CloseBrace,
            Token::OpenParens => TokenModel::OpenParens,
            Token::CloseParens => TokenModel::CloseParens,
            Token::Semicolon => TokenModel::Semicolon,
            Token::Return => TokenModel::Return,
            Token::IntType => TokenModel::IntType,
            Token::NumLiteral(n) => TokenModel::NumLiteral(*n),
            Token::Identifier(s) => TokenModel::Identifier(s@),
            Token::Minus => TokenModel::Minus,
            Token::Tilde => TokenModel::Tilde,
            Token::Bang => TokenModel::Bang,
            Token::Plus => TokenModel::Plus,
            Token::Times => TokenModel::Times,
            Token::Divide => TokenModel::Divide,
            Token::And => TokenModel::And,
            Token::Or => TokenModel::Or,
            Token::Equal => TokenModel::Equal,
            Token::NotEqual => TokenModel::NotEqual,
            Token::LessThan => TokenModel::LessThan,
            Token::LessThanOrEqual => TokenModel::LessThanOrEqual,
            Token::GreaterThan => TokenModel::GreaterThan,
            Token::GreaterThanOrEqual => TokenModel::GreaterThanOrEqual,
        }
    }
}

/// The models of a token sequence.
pub open spec fn tokens_view(ts: Seq<Token>) -> Seq<TokenModel> {
    ts.map_values(|t: Token| t@)
}

impl PartialEq for Token {
    /// Structural equality; identifiers compare by their text.
    fn eq(&self, other: &Token) -> bool {
        match (self, other) {
            (Token::OpenBrace, Token::OpenBrace) => true,
            (Token::CloseBrace, Token::CloseBrace) => true,
            (Token::OpenParens, Token::OpenParens) => true,
            (Token::CloseParens, Token::CloseParens) => true,
            (Token::Semicolon, Token::Semicolon) => true,
            (Token::Return, Token::Return) => true,
            (Token::IntType, Token::IntType) => true,
            (Token::NumLiteral(a), Token::NumLiteral(b)) => a == b,
            (Token::Identifier(a), Token::Identifier(b)) => a.eq(b),
            (Token::Minus, Token::Minus) => true,
            (Token::Tilde, Token::Tilde) => true,
            (Token::Bang, Token::Bang) => true,
            (Token::Plus, Token::Plus) => true,
            (Token::Times, Token::Times) => true,
            (Token::Divide, Token::Divide) => true,
            (Token::And, Token::And) => true,
            (Token::Or, Token::Or) => true,
            (Token::Equal, Token::Equal) => true,
            (Token::NotEqual, Token::NotEqual) => true,
            (Token::LessThan, Token::LessThan) => true,
            (Token::LessThanOrEqual, Token::LessThanOrEqual) => true,
            (Token::GreaterThan, Token::GreaterThan) => true,
            (Token::GreaterThanOrEqual, Token::GreaterThanOrEqual) => true,
            _ => false,
        }
    }
}

impl Token {
    /// The single-character tokens, mirroring `single_char_token`.
    fn from_char(c: char) -> (r: Option<Token>)
        ensures
            match r {
                Some(t) => single_char_token(c) == Some(t@),
                None => single_char_token(c) is None,
            },
    {
        match c {
            '{' => Some(Token::OpenBrace),
            '}' => Some(Token::CloseBrace),
            '(' => Some(Token::OpenParens),
            ')' => Some(Token::CloseParens),
            ';' => Some(Token::Semicolon),
            '-' => Some(Token::Minus),
            '~' => Some(Token::Tilde),
            '+' => Some(Token::Plus),
            '*' => Some(Token::Times),
            '/' => Some(Token::Divide),
            _ => None,
        }
    }
}

impl vstd::std_specs::cmp::PartialEqSpecImpl for Token {
    open spec fn obeys_eq_spec() -> bool {
        true
    }

    open spec fn eq_spec(&self, other: &Token) -> bool {
        self@ == other@
    }
}

/// The token, if any, that a single character lexes to on its own.
pub open spec fn single_char_token(c: char) -> Option<TokenModel> {
    if c == '{' {
        Some(TokenModel::OpenBrace)
    } else if c == '}' {
        Some(TokenModel::CloseBrace)
    } else if c == '(' {
        Some(TokenModel::OpenParens)
    } else if c == ')' {
        Some(TokenModel::CloseParens)
    } else if c == ';' {
        Some(TokenModel::Semicolon)
    } else if c == '-' {
        Some(TokenModel::Minus)
    } else if c == '~' {
        Some(TokenModel::Tilde)
    } else if c == '+' {
        Some(TokenModel::Plus)
    } else if c == '*' {
        Some(TokenModel::Times)
    } else if c == '/' {
        Some(TokenModel::Divide)
    } else {
        None
    }
}

/// A character that may continue a word: a word starter or a digit.
pub open spec fn word_char(c: char) -> bool {
    word_start(c) || digit(c)
}

/// The first position at or after `i` whose character is no decimal digit.
pub open spec fn digits_end(s: Seq<char>, i: int) -> int
    decreases s.len() - i
        when 0 <= i <= s.len()
{
    if i < s.len() && digit(s[i]) {
        digits_end(s, i + 1)
    } else {
        i
    }
}

/// The first position at or after `i` whose character cannot continue a word.
pub open spec fn word_end(s: Seq<char>, i: int) -> int
    decreases s.len() - i
        when 0 <= i <= s.len()
{
    if i < s.len() && word_char(s[i]) {
        word_end(s, i + 1)
    } else {
        i
    }
}

/// The value of a digit string read in base ten.
pub open spec fn digits_val(s: Seq<char>) -> nat
    decreases s.len(),
{
    if s.len() == 0 {
        0
    } else {
        digits_val(s.drop_last()) * 10 + digit_val(s.last())
    }
}

/// A scanned word resolves against the keyword set, or stays an identifier.
pub open spec fn keyword_or_identifier(w: Seq<char>) -> TokenModel {
    if w == "int"@ {
        TokenModel::IntType
    } else if w == "return"@ {
        TokenModel::Return
    } else {
        TokenModel::Identifier(w)
    }
}

/// The token formed by doubling `&`, `|` or `=`.
pub open spec fn pair_token(c: char) -> TokenModel {
    if c == '&' {
        TokenModel::And
    } else if c == '|' {
        TokenModel::Or
    } else {
        TokenModel::Equal
    }
}

/// The token formed by `!`, `<` or `>` followed by `=`.
pub open spec fn compare_eq_token(c: char) -> TokenModel {
    if c == '!' {
        TokenModel::NotEqual
    } else if c == '<' {
        TokenModel::LessThanOrEqual
    } else {
        TokenModel::GreaterThanOrEqual
    }
}

/// The token formed by `!`, `<` or `>` on its own.
pub open spec fn compare_token(c: char) -> TokenModel {
    if c == '!' {
        TokenModel::Bang
    } else if c == '<' {
        TokenModel::LessThan
    } else {
        TokenModel::GreaterThan
    }
}

pub proof fn lemma_digits_end(s: Seq<char>, i: int)
    requires
        0 <= i <= s.len(),
    ensures
        i <= digits_end(s, i) <= s.len(),
    decreases s.len() - i,
{
    if i < s.len() && digit(s[i]) {
        lemma_digits_end(s, i + 1);
    }
}

pub proof fn lemma_word_end(s: Seq<char>, i: int)
    requires
        0 <= i <= s.len(),
    ensures
        i <= word_end(s, i) <= s.len(),
    decreases s.len() - i,
{
    if i < s.len() && word_char(s[i]) {
        lemma_word_end(s, i + 1);
    }
}

/// The token sequence that lexing the text from position `i` yields.
///
/// Classification follows the scan order: single-character tokens first, then
/// maximal-munch numbers (a literal that exceeds sixty-four bits yields no
/// token), then maximal-munch words resolved against the keyword set, then the
/// multi-character operators; any other character is skipped.
pub open spec fn spec_lex(s: Seq<char>, i: int) -> Seq<TokenModel>
    decreases s.len() - i
        when 0 <= i <= s.len()
        via spec_lex_decreases
{
    if i >= s.len() {
        Seq::empty()
    } else {
        let c = s[i];
        if single_char_token(c) is Some {
            seq![single_char_token(c).unwrap()] + spec_lex(s, i + 1)
        } else if digit(c) {
            let j = digits_end(s, i + 1);
            let v = digits_val(s.subrange(i, j));
            (if v <= u64::MAX {
                seq![TokenModel::NumLiteral(v as u64)]
            } else {
                Seq::empty()
            }) + spec_lex(s, j)
        } else if word_start(c) {
            let j = word_end(s, i + 1);
            seq![keyword_or_identifier(s.subrange(i, j))] + spec_lex(s, j)
        } else if c == '&' || c == '|' || c == '=' {
            if i + 1 < s.len() {
                (if s[i + 1] == c {
                    seq![pair_token(c)]
                } else {
                    Seq::empty()
                }) + spec_lex(s, i + 2)
            } else {
                spec_lex(s, i + 1)
            }
        } else if c == '!' || c == '<' || c == '>' {
            if i + 1 < s.len() && s[i + 1] == '=' {
                seq![compare_eq_token(c)] + spec_lex(s, i + 2)
            } else {
                seq![compare_token(c)] + spec_lex(s, i + 1)
            }
        } else {
            spec_lex(s, i + 1)
        }
    }
}

#[via_fn]
proof fn spec_lex_decreases(s: Seq<char>, i: int) {
    if 0 <= i < s.len() {
        lemma_digits_end(s, i + 1);
        lemma_word_end(s, i + 1);
    }
}

/// Cursor over the source text.
pub struct Lexer<'a> {
    source: &'a str,
    pos: usize,
    len: usize,
}

/// The mathematical state of a lexer: the text and the scan position.
pub struct LexerModel {
    pub text: Seq<char>,
    pub pos: nat,
}

impl<'a> View for Lexer<'a> {
    type V = LexerModel;

    closed spec fn view(&self) -> LexerModel {
        LexerModel { text: self.source@, pos: self.pos as nat }
    }
}

impl<'a> Lexer<'a> {
    /// The cached length agrees with the text and the position is in bounds.
    pub closed spec fn wf(&self) -> bool {
        self.len == self.source@.len() && self.pos <= self.len
    }

    pub fn new(source: &'a str) -> (r: Self)
        ensures
            r.wf(),
            r@.text == source@,
            r@.pos == 0,
    {
        let len: usize = source.unicode_len();
        Lexer { source, pos: 0, len }
    }

    /// Consume and return the next character, if any.
    fn next(&mut self) -> (r: Option<char>)
        requires
            old(self).wf(),
        ensures
            final(self).wf(),
            final(self)@.text == old(self)@.text,
            old(self)@.pos < old(self)@.text.len() ==> r == Some(
                old(self)@.text[old(self)@.pos as int],
            ) && final(self)@.pos == old(self)@.pos + 1,
            old(self)@.pos >= old(self)@.text.len() ==> r is None && final(self)@.pos == old(
                self,
            )@.pos,
    {
        if self.pos < self.len {
            let c: char = self.source.get_char(self.pos);
            self.pos = self.pos + 1;
            Some(c)
        } else {
            None
        }
    }

    /// Look at the next character without consuming it.
    fn peek(&self) -> (r: Option<char>)
        requires
            self.wf(),
        ensures
            self@.pos < self@.text.len() ==> r == Some(self@.text[self@.pos as int]),
            self@.pos >= self@.text.len() ==> r is None,
    {
        if self.pos < self.len {
            Some(self.source.get_char(self.pos))
        } else {
            None
        }
    }

    /// Scan the rest of a numeric literal whose first digit has just been
    /// consumed; the token carries the value of the whole digit span, or is
    /// dropped when that value exceeds sixty-four bits.
    fn lex_number(&mut self, first_digit: char) -> (r: Option<Token>)
        requires
            old(self).wf(),
            digit(first_digit),
        ensures
            final(self).wf(),
            final(self)@.text == old(self)@.text,
            final(self)@.pos == digits_end(old(self)@.text, old(self)@.pos as int),
            ({
                let span = seq![first_digit] + old(self)@.text.subrange(
                    old(self)@.pos as int,
                    final(self)@.pos as int,
                );
                match r {
                    Some(t) => digits_val(span) <= u64::MAX && t@ == TokenModel::NumLiteral(
                        digits_val(span) as u64,
                    ),
                    None => digits_val(span) > u64::MAX,
                }
            }),
    {
        let mut val: u64 = (first_digit as u32 - 48) as u64;
        let mut overflowed: bool = false;
        let ghost text = self@.text;
        let ghost start = self@.pos as int;

        proof {
            assert(seq![first_digit] + text.subrange(start, start) =~= seq![first_digit]);
            assert(seq![first_digit].drop_last() =~= Seq::<char>::empty());
            assert(digits_val(Seq::<char>::empty()) == 0);
            assert(seq![first_digit].last() == first_digit);
            assert(digits_val(seq![first_digit]) == digit_val(first_digit));
        }
        loop
            invariant
                self.wf(),
                self@.text == text,
                0 <= start <= self@.pos as int <= text.len(),
                digits_end(text, start) == digits_end(text, self@.pos as int),
                ({
                    let span = seq![first_digit] + text.subrange(start, self@.pos as int);
                    if overflowed {
                        digits_val(span) > u64::MAX
                    } else {
                        val == digits_val(span)
                    }
                }),
            ensures
                self.wf(),
                self@.text == text,
                start <= self@.pos as int <= text.len(),
                self@.pos as int == digits_end(text, start),
                ({
                    let span = seq![first_digit] + text.subrange(start, self@.pos as int);
                    if overflowed {
                        digits_val(span) > u64::MAX
                    } else {
                        val == digits_val(span)
                    }
                }),
            decreases text.len() - self@.pos,
        {
            let ghost pos = self@.pos as int;
            match self.peek() {
                Some(next) => {
                    if is_digit(next) {
                        let d: u64 = (next as u32 - 48) as u64;
                        if !overflowed {
                            if val > u64::MAX / 10 || (val == u64::MAX / 10 && d > u64::MAX % 10) {
                                overflowed = true;
                            } else {
                                val = val * 10 + d;
                            }
                        }
                        let _advanced = self.next();
                        proof {
                            let span = seq![first_digit] + text.subrange(start, pos);
                            let span2 = seq![first_digit] + text.subrange(start, pos + 1);
                            assert(span2.drop_last() =~= span);
                            assert(span2.last() == text[pos]);
                            assert(digits_val(span2) == digits_val(span) * 10 + digit_val(
                                text[pos],
                            ));
                        }
                    } else {
                        break ;
                    }
                },
                None => {
                    break ;
                },
            }
        }
        if overflowed {
            None
        } else {
            Some(Token::NumLiteral(val))
        }
    }

    /// Scan the rest of a word whose first character has just been consumed,
    /// and resolve it against the keyword set.
    fn lex_word(&mut self, ch: char) -> (r: Option<Token>)
        requires
            old(self).wf(),
            old(self)@.pos >= 1,
            old(self)@.text[old(self)@.pos - 1] == ch,
            word_start(ch),
        ensures
            final(self).wf(),
            final(self)@.text == old(self)@.text,
            final(self)@.pos == word_end(old(self)@.text, old(self)@.pos as int),
            match r {
                Some(t) => t@ == keyword_or_identifier(
                    old(self)@.text.subrange(old(self)@.pos - 1, final(self)@.pos as int),
                ),
                None => false,
            },
    {
        let start: usize = self.pos - 1;
        let ghost text = self@.text;

        loop
            invariant
                self.wf(),
                self@.text == text,
                start < self@.pos <= text.len(),
                word_end(text, start as int + 1) == word_end(text, self@.pos as int),
            ensures
                self.wf(),
                self@.text == text,
                start < self@.pos <= text.len(),
                self@.pos as int == word_end(text, start as int + 1),
            decreases text.len() - self@.pos,
        {
            match self.peek() {
                Some(next) => {
                    if is_alphabetic(next) || is_digit(next) || next == '_' {
                        let _advanced = self.next();
                    } else {
                        break ;
                    }
                },
                None => {
                    break ;
                },
            }
        }
        let w: &str = self.source.substring_char(start, self.pos);
        Some(word_to_token(w))
    }

    /// Consume the next character and return the given token.
    fn advance_token(&mut self, token: Token) -> (r: Token)
        requires
            old(self).wf(),
        ensures
            final(self).wf(),
            final(self)@.text == old(self)@.text,
            old(self)@.pos < old(self)@.text.len() ==> final(self)@.pos == old(self)@.pos + 1,
            old(self)@.pos >= old(self)@.text.len() ==> final(self)@.pos == old(self)@.pos,
            r == token,
    {
        let _advanced = self.next();
        token
    }

    /// Attempt a multi-character operator starting with the consumed `ch`:
    /// `&`, `|` and `=` must double (else both characters are dropped), while
    /// `!`, `<` and `>` optionally combine with a following `=`.
    fn lex_multichar_operator(&mut self, ch: char) -> (r: Option<Token>)
        requires
            old(self).wf(),
        ensures
            final(self).wf(),
            final(self)@.text == old(self)@.text,
            (ch == '&' || ch == '|' || ch == '=') ==> ({
                let text = old(self)@.text;
                let pos = old(self)@.pos as int;
                if pos < text.len() {
                    final(self)@.pos == pos + 1 && (match r {
                        Some(t) => text[pos] == ch && t@ == pair_token(ch),
                        None => text[pos] != ch,
                    })
                } else {
                    final(self)@.pos == pos && r is None
                }
            }),
            (ch == '!' || ch == '<' || ch == '>') ==> ({
                let text = old(self)@.text;
                let pos = old(self)@.pos as int;
                if pos < text.len() && text[pos] == '=' {
                    final(self)@.pos == pos + 1 && (match r {
                        Some(t) => t@ == compare_eq_token(ch),
                        None => false,
                    })
                } else {
                    final(self)@.pos == pos && (match r {
                        Some(t) => t@ == compare_token(ch),
                        None => false,
                    })
                }
            }),
            !(ch == '&' || ch == '|' || ch == '=' || ch == '!' || ch == '<' || ch == '>')
                ==> final(self)@.pos == old(self)@.pos && r is None,
    {
        match ch {
            '&' => match self.next() {
                Some(next) => char_to_token(next, '&', Token::And),
                None => None,
            },
            '|' => match self.next() {
                Some(next) => char_to_token(next, '|', Token::Or),
                None => None,
            },
            '=' => match self.next() {
                Some(next) => char_to_token(next, '=', Token::Equal),
                None => None,
            },
            '!' => match self.peek() {
                Some(next) => if next == '=' {
                    Some(self.advance_token(Token::NotEqual))
                } else {
                    Some(Token::Bang)
                },
                None => Some(Token::Bang),
            },
            '<' => match self.peek() {
                Some(next) => if next == '=' {
                    Some(self.advance_token(Token::LessThanOrEqual))
                } else {
                    Some(Token::LessThan)
                },
                None => Some(Token::LessThan),
            },
            '>' => match self.peek() {
                Some(next) => if next == '=' {
                    Some(self.advance_token(Token::GreaterThanOrEqual))
                } else {
                    Some(Token::GreaterThan)
                },
                None => Some(Token::GreaterThan),
            },
            _ => None,
        }
    }

    /// Lex the whole remaining text; the scan never fails, so the result is
    /// always the token sequence `spec_lex` describes.
    pub fn lex(&mut self) -> (r: Option<Vec<Token>>)
        requires
            old(self).wf(),
        ensures
            final(self).wf(),
            final(self)@.text == old(self)@.text,
            final(self)@.pos == old(self)@.text.len(),
            match r {
                Some(tokens) => tokens_view(tokens@) == spec_lex(
                    old(self)@.text,
                    old(self)@.pos as int,
                ),
                None => false,
            },
    {
        let mut tokens: Vec<Token> = Vec::new();
        let ghost text = self@.text;
        let ghost start = self@.pos as int;

        proof {
            assert(tokens_view(tokens@) + spec_lex(text, start) =~= spec_lex(text, start));
        }
        loop
            invariant
                self.wf(),
                self@.text == text,
                spec_lex(text, start) == tokens_view(tokens@) + spec_lex(text, self@.pos as int),
            ensures
                self.wf(),
                self@.text == text,
                self@.pos as int == text.len(),
                spec_lex(text, start) == tokens_view(tokens@) + spec_lex(text, self@.pos as int),
            decreases text.len() - self@.pos,
        {
            let ghost pos = self@.pos as int;
            let ghost toks_before = tokens@;
            match self.next() {
                Some(c) => {
                    let maybe_token: Option<Token> = match Token::from_char(c) {
                        Some(t) => Some(t),
                        None => if is_digit(c) {
                            let r = self.lex_number(c);
                            proof {
                                lemma_digits_end(text, pos + 1);
                                assert(seq![c] + text.subrange(pos + 1, self@.pos as int)
                                    =~= text.subrange(pos, self@.pos as int));
                            }
                            r
                        } else if is_alphabetic(c) || c == '_' {
                            let r = self.lex_word(c);
                            proof {
                                lemma_word_end(text, pos + 1);
                            }
                            r
                        } else {
                            self.lex_multichar_operator(c)
                        },
                    };

                    if let Some(token) = maybe_token {
                        proof {
                            let rest = spec_lex(text, self@.pos as int);
                            assert(spec_lex(text, pos) =~= seq![token@] + rest);
                            assert(tokens_view(toks_before.push(token)) =~= tokens_view(
                                toks_before,
                            ) + seq![token@]);
                            assert((tokens_view(toks_before) + seq![token@]) + rest
                                =~= tokens_view(toks_before) + (seq![token@] + rest));
                        }
                        tokens.push(token);
                    } else {
                        proof {
                            assert(spec_lex(text, pos) =~= spec_lex(text, self@.pos as int));
                        }
                    }
                },
                None => {
                    break ;
                },
            }
        }
        proof {
            assert(spec_lex(text, self@.pos as int) =~= Seq::<TokenModel>::empty());
            assert(tokens_view(tokens@) + Seq::<TokenModel>::empty() =~= tokens_view(tokens@));
        }
        Some(tokens)
    }
}

/// The given token when the scanned character is the wanted one.
fn char_to_token(ch: char, want: char, token: Token) -> (r: Option<Token>)
    ensures
        r == (if ch == want {
            Some(token)
        } else {
            None::<Token>
        }),
{
    if ch == want {
        Some(token)
    } else {
        None
    }
}

/// Resolve a scanned word against the keyword set.
fn word_to_token(w: &str) -> (t: Token)
    ensures
        t@ == keyword_or_identifier(w@),
{
    let n: usize = w.unicode_len();
    if n == 3 && w.get_char(0) == 'i' && w.get_char(1) == 'n' && w.get_char(2) == 't' {
        proof {
            reveal_strlit("int");
            assert(w@ =~= "int"@);
        }
        Token::IntType
    } else if n == 6 && w.get_char(0) == 'r' && w.get_char(1) == 'e' && w.get_char(2) == 't'
        && w.get_char(3) == 'u' && w.get_char(4) == 'r' && w.get_char(5) == 'n' {
        proof {
            reveal_strlit("int");
            reveal_strlit("return");
            assert(w@ =~= "return"@);
        }
        Token::Return
    } else {
        proof {
            reveal_strlit("int");
            reveal_strlit("return");
            assert(w@ != "int"@ && w@ != "return"@);
        }
        Token::Identifier(w.to_owned())
    }
}

} // verus!
