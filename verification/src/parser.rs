//! Recursive-descent parsing of the token sequence under the grammar
//!
//! ```text
//! Program    := Function
//! Function   := "int" Identifier "(" ")" "{" Statement "}"
//! Statement  := "return" Expression ";"
//! Expression := Term (("+" | "-") Term)*      left-associative
//! Term       := Factor (("*" | "/") Factor)*  left-associative
//! Factor     := NumLiteral | "(" Expression ")" | UnaryOperator Factor
//! ```
//!
//! The spec functions `spec_parse_*` state the grammar as mathematics; every
//! parsing method returns exactly what its spec function describes. Any
//! structural mismatch fails the whole parse with no partial result.

use vstd::pervasive::unreached;
use vstd::prelude::*;

use crate::lexer::{tokens_view, Token, TokenModel};

verus! {

/// An abstract syntax tree node. Every node owns its children; a tree is
/// fully built before it is handed to the code generator.
#[derive(Debug)]
pub enum AST {
    Program(Box<AST>),
    Function(String, Box<AST>),
    Return(Box<AST>),
    UnaryOp(UnaryOperator, Box<AST>),
    BinaryOp(BinaryOperator, Box<AST>, Box<AST>),
    IntConstant(u64),
}

/// The mathematical model of a tree: a function's name is a character
/// sequence.
pub enum AstModel {
    Program(Box<AstModel>),
    Function(Seq<char>, Box<AstModel>),
    Return(Box<AstModel>),
    UnaryOp(UnaryOperator, Box<AstModel>),
    BinaryOp(BinaryOperator, Box<AstModel>, Box<AstModel>),
    IntConstant(u64),
}

#[derive(Debug, Clone, Copy, PartialEq, Eq, Structural)]
pub enum UnaryOperator {
    Minus,
    Tilde,
    Bang,
}

#[derive(Debug, Clone, Copy, PartialEq, Eq, Structural)]
pub enum BinaryOperator {
    Plus,
    Minus,
    Times,
    Divide,
}

impl View for AST {
    type V = AstModel;

    open spec fn view(&self) -> AstModel
        decreases self,
    {
        match self {
            AST::Program(f) => AstModel::Program(Box::new((**f)@)),
            AST::Function(name, body) => AstModel::Function(name@, Box::new((**body)@)),
            AST::Return(e) => AstModel::Return(Box::new((**e)@)),
            AST::UnaryOp(op, a) => AstModel::UnaryOp(*op, Box::new((**a)@)),
            AST::BinaryOp(op, l, r) => AstModel::BinaryOp(
                *op,
                Box::new((**l)@),
                Box::new((**r)@),
            ),
            AST::IntConstant(n) => AstModel::IntConstant(*n),
        }
    }
}

impl PartialEq for AST {
    /// Deep structural equality; function names compare by their text.
    fn eq(&self, other: &AST) -> bool
        decreases self,
    {
        match (self, other) {
            (AST::Program(a), AST::Program(b)) => (**a) == (**b),
            (AST::Function(n1, b1), AST::Function(n2, b2)) => n1.eq(n2) && (**b1) == (**b2),
            (AST::Return(a), AST::Return(b)) => (**a) == (**b),
            (AST::UnaryOp(o1, a), AST::UnaryOp(o2, b)) => *o1 == *o2 && (**a) == (**b),
            (AST::BinaryOp(o1, l1, r1), AST::BinaryOp(o2, l2, r2)) => *o1 == *o2 && (**l1) == (
            **l2) && (**r1) == (**r2),
            (AST::IntConstant(a), AST::IntConstant(b)) => *a == *b,
            _ => false,
        }
    }
}

impl vstd::std_specs::cmp::PartialEqSpecImpl for AST {
    open spec fn obeys_eq_spec() -> bool {
        true
    }

    open spec fn eq_spec(&self, other: &AST) -> bool {
        self@ == other@
    }
}

/// The unary operator a token stands for, if any.
pub open spec fn spec_unary_from(t: TokenModel) -> Option<UnaryOperator> {
    match t {
        TokenModel::Minus => Some(UnaryOperator::Minus),
        TokenModel::Tilde => Some(UnaryOperator::Tilde),
        TokenModel::Bang => Some(UnaryOperator::Bang),
        _ => None,
    }
}

/// The binary operator a token stands for, if any.
pub open spec fn spec_binary_from(t: TokenModel) -> Option<BinaryOperator> {
    match t {
        TokenModel::Plus => Some(BinaryOperator::Plus),
        TokenModel::Minus => Some(BinaryOperator::Minus),
        TokenModel::Times => Some(BinaryOperator::Times),
        TokenModel::Divide => Some(BinaryOperator::Divide),
        _ => None,
    }
}

impl UnaryOperator {
    fn from_token(token: &Token) -> (r: Option<UnaryOperator>)
        ensures
            r == spec_unary_from(token@),
    {
        match *token {
            Token::Minus => Some(UnaryOperator::Minus),
            Token::Tilde => Some(UnaryOperator::Tilde),
            Token::Bang => Some(UnaryOperator::Bang),
            _ => None,
        }
    }
}

impl BinaryOperator {
    fn from_token(token: &Token) -> (r: Option<BinaryOperator>)
        ensures
            r == spec_binary_from(token@),
    {
        match *token {
            Token::Plus => Some(BinaryOperator::Plus),
            Token::Minus => Some(BinaryOperator::Minus),
            Token::Times => Some(BinaryOperator::Times),
            Token::Divide => Some(BinaryOperator::Divide),
            _ => None,
        }
    }
}

/// A parse step from `i` reached `j` without leaving the token sequence.
pub open spec fn advanced(i: int, j: int, n: int) -> bool {
    i < j <= n
}

/// `Program := Function`
pub open spec fn spec_parse_program(t: Seq<TokenModel>, i: int) -> Option<(AstModel, int)>
    decreases t.len() - i, 5int
        when 0 <= i <= t.len()
{
    match spec_parse_function(t, i) {
        Some((f, j)) => Some((AstModel::Program(Box::new(f)), j)),
        None => None,
    }
}

/// `Function := "int" Identifier "(" ")" "{" Statement "}"`
pub open spec fn spec_parse_function(t: Seq<TokenModel>, i: int) -> Option<(AstModel, int)>
    decreases t.len() - i, 4int
        when 0 <= i <= t.len()
{
    if i < t.len() && t[i] == TokenModel::IntType && i + 1 < t.len() {
        match t[i + 1] {
            TokenModel::Identifier(name) => {
                if i + 4 < t.len() && t[i + 2] == TokenModel::OpenParens && t[i + 3]
                    == TokenModel::CloseParens && t[i + 4] == TokenModel::OpenBrace {
                    match spec_parse_statement(t, i + 5) {
                        Some((body, j)) => if j < t.len() && t[j] == TokenModel::CloseBrace {
                            Some((AstModel::Function(name, Box::new(body)), j + 1))
                        } else {
                            None
                        },
                        None => None,
                    }
                } else {
                    None
                }
            },
            _ => None,
        }
    } else {
        None
    }
}

/// `Statement := "return" Expression ";"`
pub open spec fn spec_parse_statement(t: Seq<TokenModel>, i: int) -> Option<(AstModel, int)>
    decreases t.len() - i, 3int
        when 0 <= i <= t.len()
{
    if i < t.len() && t[i] == TokenModel::Return {
        match spec_parse_expression(t, i + 1) {
            Some((e, j)) => if j < t.len() && t[j] == TokenModel::Semicolon {
                Some((AstModel::Return(Box::new(e)), j + 1))
            } else {
                None
            },
            None => None,
        }
    } else {
        None
    }
}

/// `Expression := Term (("+" | "-") Term)*`
pub open spec fn spec_parse_expression(t: Seq<TokenModel>, i: int) -> Option<(AstModel, int)>
    decreases t.len() - i, 2int
        when 0 <= i <= t.len()
{
    match spec_parse_term(t, i) {
        Some((first, j)) => if advanced(i, j, t.len() as int) {
            spec_expression_tail(t, j, first)
        } else {
            None
        },
        None => None,
    }
}

/// The left-associative fold of further `+`/`-` terms onto `acc`: each
/// operator makes the running result the left operand of a new node.
pub open spec fn spec_expression_tail(t: Seq<TokenModel>, i: int, acc: AstModel) -> Option<
    (AstModel, int),
>
    decreases t.len() - i, 0int
        when 0 <= i <= t.len()
{
    if i < t.len() && (t[i] == TokenModel::Plus || t[i] == TokenModel::Minus) {
        let op = spec_binary_from(t[i]).unwrap();
        match spec_parse_term(t, i + 1) {
            Some((next, j)) => if advanced(i, j, t.len() as int) {
                spec_expression_tail(t, j, AstModel::BinaryOp(op, Box::new(acc), Box::new(next)))
            } else {
                None
            },
            None => None,
        }
    } else {
        Some((acc, i))
    }
}

/// `Term := Factor (("*" | "/") Factor)*`
pub open spec fn spec_parse_term(t: Seq<TokenModel>, i: int) -> Option<(AstModel, int)>
    decreases t.len() - i, 1int
        when 0 <= i <= t.len()
{
    match spec_parse_factor(t, i) {
        Some((first, j)) => if advanced(i, j, t.len() as int) {
            spec_term_tail(t, j, first)
        } else {
            None
        },
        None => None,
    }
}

/// The left-associative fold of further `*`/`/` factors onto `acc`.
pub open spec fn spec_term_tail(t: Seq<TokenModel>, i: int, acc: AstModel) -> Option<
    (AstModel, int),
>
    decreases t.len() - i, 0int
        when 0 <= i <= t.len()
{
    if i < t.len() && (t[i] == TokenModel::Times || t[i] == TokenModel::Divide) {
        let op = spec_binary_from(t[i]).unwrap();
        match spec_parse_factor(t, i + 1) {
            Some((next, j)) => if advanced(i, j, t.len() as int) {
                spec_term_tail(t, j, AstModel::BinaryOp(op, Box::new(acc), Box::new(next)))
            } else {
                None
            },
            None => None,
        }
    } else {
        Some((acc, i))
    }
}

/// `Factor := NumLiteral | "(" Expression ")" | UnaryOperator Factor`
pub open spec fn spec_parse_factor(t: Seq<TokenModel>, i: int) -> Option<(AstModel, int)>
    decreases t.len() - i, 0int
        when 0 <= i <= t.len()
{
    if i >= t.len() {
        None
    } else {
        match t[i] {
            TokenModel::NumLiteral(n) => Some((AstModel::IntConstant(n), i + 1)),
            TokenModel::OpenParens => match spec_parse_expression(t, i + 1) {
                Some((e, j)) => if j < t.len() && t[j] == TokenModel::CloseParens {
                    Some((e, j + 1))
                } else {
                    None
                },
                None => None,
            },
            _ => match spec_unary_from(t[i]) {
                Some(op) => match spec_parse_factor(t, i + 1) {
                    Some((f, j)) => Some((AstModel::UnaryOp(op, Box::new(f)), j)),
                    None => None,
                },
                None => None,
            },
        }
    }
}

/// Whether a parse outcome, when successful, lands between `lo` and `n`.
pub open spec fn parse_result_bounds(r: Option<(AstModel, int)>, lo: int, n: int) -> bool {
    r matches Some((_, j)) ==> lo <= j <= n
}

/// A fold never moves the cursor backwards or out of the sequence.
pub proof fn lemma_tail_bounds(t: Seq<TokenModel>, i: int, acc: AstModel)
    requires
        0 <= i <= t.len(),
    ensures
        parse_result_bounds(spec_expression_tail(t, i, acc), i, t.len() as int),
        parse_result_bounds(spec_term_tail(t, i, acc), i, t.len() as int),
    decreases t.len() - i, 0int,
{
    if i < t.len() {
        lemma_parse_advances(t, i + 1);
        if t[i] == TokenModel::Plus || t[i] == TokenModel::Minus {
            match spec_parse_term(t, i + 1) {
                Some((next, j)) => {
                    if advanced(i, j, t.len() as int) {
                        let op = spec_binary_from(t[i]).unwrap();
                        lemma_tail_bounds(
                            t,
                            j,
                            AstModel::BinaryOp(op, Box::new(acc), Box::new(next)),
                        );
                    }
                },
                None => {},
            }
        }
        if t[i] == TokenModel::Times || t[i] == TokenModel::Divide {
            match spec_parse_factor(t, i + 1) {
                Some((next, j)) => {
                    if advanced(i, j, t.len() as int) {
                        let op = spec_binary_from(t[i]).unwrap();
                        lemma_tail_bounds(
                            t,
                            j,
                            AstModel::BinaryOp(op, Box::new(acc), Box::new(next)),
                        );
                    }
                },
                None => {},
            }
        }
    }
}

/// Every successful parse consumes at least one token and stays inside the
/// sequence; the `advanced` guards inside the spec parser therefore never
/// fail a parse that its grammar accepts.
pub proof fn lemma_parse_advances(t: Seq<TokenModel>, i: int)
    requires
        0 <= i <= t.len(),
    ensures
        parse_result_bounds(spec_parse_program(t, i), i + 1, t.len() as int),
        parse_result_bounds(spec_parse_function(t, i), i + 1, t.len() as int),
        parse_result_bounds(spec_parse_statement(t, i), i + 1, t.len() as int),
        parse_result_bounds(spec_parse_expression(t, i), i + 1, t.len() as int),
        parse_result_bounds(spec_parse_term(t, i), i + 1, t.len() as int),
        parse_result_bounds(spec_parse_factor(t, i), i + 1, t.len() as int),
    decreases t.len() - i, 1int,
{
    if i < t.len() {
        lemma_parse_advances(t, i + 1);
    }
    // Factor: a literal advances one token; parentheses and unary operators
    // recurse past the consumed token.
    assert(parse_result_bounds(spec_parse_factor(t, i), i + 1, t.len() as int));
    match spec_parse_factor(t, i) {
        Some((first, j)) => {
            lemma_tail_bounds(t, j, first);
        },
        None => {},
    }
    assert(parse_result_bounds(spec_parse_term(t, i), i + 1, t.len() as int));
    match spec_parse_term(t, i) {
        Some((first, j)) => {
            lemma_tail_bounds(t, j, first);
        },
        None => {},
    }
    assert(parse_result_bounds(spec_parse_expression(t, i), i + 1, t.len() as int));
    assert(parse_result_bounds(spec_parse_statement(t, i), i + 1, t.len() as int));
    if i + 5 <= t.len() {
        lemma_parse_advances(t, i + 5);
    }
    assert(parse_result_bounds(spec_parse_function(t, i), i + 1, t.len() as int));
}

/// An expression node: a literal, or operators applied to expressions.
pub open spec fn expr_shaped(e: AstModel) -> bool
    decreases e,
{
    match e {
        AstModel::IntConstant(_) => true,
        AstModel::UnaryOp(_, a) => expr_shaped(*a),
        AstModel::BinaryOp(_, l, r) => expr_shaped(*l) && expr_shaped(*r),
        _ => false,
    }
}

/// A return statement around an expression.
pub open spec fn return_shaped(a: AstModel) -> bool {
    match a {
        AstModel::Return(e) => expr_shaped(*e),
        _ => false,
    }
}

/// A function whose body is one return statement.
pub open spec fn function_shaped(a: AstModel) -> bool {
    match a {
        AstModel::Function(_, body) => return_shaped(*body),
        _ => false,
    }
}

/// A program of the accepted shape: one function around one return statement
/// around one expression.
pub open spec fn program_shaped(a: AstModel) -> bool {
    match a {
        AstModel::Program(f) => function_shaped(*f),
        _ => false,
    }
}

/// A fold applied to an expression yields an expression.
pub proof fn lemma_tail_shape(t: Seq<TokenModel>, i: int, acc: AstModel)
    requires
        0 <= i <= t.len(),
        expr_shaped(acc),
    ensures
        spec_expression_tail(t, i, acc) matches Some((e, _)) ==> expr_shaped(e),
        spec_term_tail(t, i, acc) matches Some((e, _)) ==> expr_shaped(e),
    decreases t.len() - i, 0int,
{
    if i < t.len() {
        lemma_parse_shape(t, i + 1);
        if t[i] == TokenModel::Plus || t[i] == TokenModel::Minus {
            match spec_parse_term(t, i + 1) {
                Some((next, j)) => {
                    if advanced(i, j, t.len() as int) {
                        let op = spec_binary_from(t[i]).unwrap();
                        lemma_tail_shape(
                            t,
                            j,
                            AstModel::BinaryOp(op, Box::new(acc), Box::new(next)),
                        );
                    }
                },
                None => {},
            }
        }
        if t[i] == TokenModel::Times || t[i] == TokenModel::Divide {
            match spec_parse_factor(t, i + 1) {
                Some((next, j)) => {
                    if advanced(i, j, t.len() as int) {
                        let op = spec_binary_from(t[i]).unwrap();
                        lemma_tail_shape(
                            t,
                            j,
                            AstModel::BinaryOp(op, Box::new(acc), Box::new(next)),
                        );
                    }
                },
                None => {},
            }
        }
    }
}

/// Law: a successful parse yields a structurally complete tree of the fixed
/// program shape — one function around one return statement around one
/// expression — and a parsed (sub)expression is built only from literals and
/// operator nodes. A failed parse yields nothing at all.
pub proof fn lemma_parse_shape(t: Seq<TokenModel>, i: int)
    requires
        0 <= i <= t.len(),
    ensures
        spec_parse_factor(t, i) matches Some((e, _)) ==> expr_shaped(e),
        spec_parse_term(t, i) matches Some((e, _)) ==> expr_shaped(e),
        spec_parse_expression(t, i) matches Some((e, _)) ==> expr_shaped(e),
        spec_parse_statement(t, i) matches Some((a, _)) ==> return_shaped(a),
        spec_parse_function(t, i) matches Some((a, _)) ==> function_shaped(a),
        spec_parse_program(t, i) matches Some((a, _)) ==> program_shaped(a),
    decreases t.len() - i, 1int,
{
    lemma_parse_advances(t, i);
    if i < t.len() {
        lemma_parse_shape(t, i + 1);
    }
    assert(spec_parse_factor(t, i) matches Some((e, _)) ==> expr_shaped(e));
    match spec_parse_factor(t, i) {
        Some((first, j)) => {
            lemma_tail_shape(t, j, first);
        },
        None => {},
    }
    assert(spec_parse_term(t, i) matches Some((e, _)) ==> expr_shaped(e));
    match spec_parse_term(t, i) {
        Some((first, j)) => {
            lemma_tail_shape(t, j, first);
        },
        None => {},
    }
    if i + 5 <= t.len() {
        lemma_parse_shape(t, i + 5);
    }
}

/// Cursor over the token sequence, with one token of lookahead.
pub struct Parser<'a> {
    tokens: &'a [Token],
    pos: usize,
}

/// The mathematical state of a parser: the token models and the cursor.
pub struct ParserModel {
    pub toks: Seq<TokenModel>,
    pub pos: nat,
}

impl<'a> View for Parser<'a> {
    type V = ParserModel;

    closed spec fn view(&self) -> ParserModel {
        ParserModel { toks: tokens_view(self.tokens@), pos: self.pos as nat }
    }
}

impl<'a> Parser<'a> {
    /// The cursor is in bounds.
    pub closed spec fn wf(&self) -> bool {
        self.pos <= self.tokens@.len()
    }

    pub fn new(tokens: &'a [Token]) -> (r: Self)
        ensures
            r.wf(),
            r@.toks == tokens_view(tokens@),
            r@.pos == 0,
    {
        Parser { tokens, pos: 0 }
    }

    /// Consume and return the next token, if any.
    fn next_token(&mut self) -> (r: Option<&'a Token>)
        requires
            old(self).wf(),
        ensures
            final(self).wf(),
            final(self)@.toks == old(self)@.toks,
            old(self)@.pos < old(self)@.toks.len() ==> final(self)@.pos == old(self)@.pos + 1
                && (match r {
                Some(t) => t@ == old(self)@.toks[old(self)@.pos as int],
                None => false,
            }),
            old(self)@.pos >= old(self)@.toks.len() ==> r is None && final(self)@.pos == old(
                self,
            )@.pos,
    {
        if self.pos < self.tokens.len() {
            let t: &'a Token = &self.tokens[self.pos];
            self.pos = self.pos + 1;
            Some(t)
        } else {
            None
        }
    }

    /// Look at the next token without consuming it.
    fn peek_token(&self) -> (r: Option<&'a Token>)
        requires
            self.wf(),
        ensures
            self@.pos < self@.toks.len() ==> (match r {
                Some(t) => t@ == self@.toks[self@.pos as int],
                None => false,
            }),
            self@.pos >= self@.toks.len() ==> r is None,
    {
        if self.pos < self.tokens.len() {
            Some(&self.tokens[self.pos])
        } else {
            None
        }
    }

    /// Consume one token and report whether it was the expected one; at the
    /// end of the sequence nothing matches.
    fn consume(&mut self, token: Token) -> (r: bool)
        requires
            old(self).wf(),
        ensures
            final(self).wf(),
            final(self)@.toks == old(self)@.toks,
            old(self)@.pos < old(self)@.toks.len() ==> final(self)@.pos == old(self)@.pos + 1 && r
                == (old(self)@.toks[old(self)@.pos as int] == token@),
            old(self)@.pos >= old(self)@.toks.len() ==> !r && final(self)@.pos == old(self)@.pos,
    {
        match self.next_token() {
            Some(next) => *next == token,
            None => false,
        }
    }

    /// Parse the whole token sequence as a program; any grammar mismatch
    /// yields no result, exactly when `spec_parse_program` yields none.
    pub fn parse(&mut self) -> (r: Option<AST>)
        requires
            old(self).wf(),
        ensures
            final(self).wf(),
            final(self)@.toks == old(self)@.toks,
            match spec_parse_program(old(self)@.toks, old(self)@.pos as int) {
                Some((a, j)) => (match r {
                    Some(ast) => ast@ == a && final(self)@.pos == j,
                    None => false,
                }),
                None => r is None,
            },
        decreases self@.toks.len() - self@.pos, 6int,
    {
        self.parse_program()
    }

    fn parse_program(&mut self) -> (r: Option<AST>)
        requires
            old(self).wf(),
        ensures
            final(self).wf(),
            final(self)@.toks == old(self)@.toks,
            match spec_parse_program(old(self)@.toks, old(self)@.pos as int) {
                Some((a, j)) => (match r {
                    Some(ast) => ast@ == a && final(self)@.pos == j,
                    None => false,
                }),
                None => r is None,
            },
        decreases self@.toks.len() - self@.pos, 5int,
    {
        match self.parse_function() {
            Some(func) => Some(AST::Program(Box::new(func))),
            None => None,
        }
    }

    fn parse_function(&mut self) -> (r: Option<AST>)
        requires
            old(self).wf(),
        ensures
            final(self).wf(),
            final(self)@.toks == old(self)@.toks,
            match spec_parse_function(old(self)@.toks, old(self)@.pos as int) {
                Some((a, j)) => (match r {
                    Some(ast) => ast@ == a && final(self)@.pos == j,
                    None => false,
                }),
                None => r is None,
            },
        decreases self@.toks.len() - self@.pos, 4int,
    {
        if !self.consume(Token::IntType) {
            return None;
        }
        match self.next_token() {
            Some(next) => match next {
                Token::Identifier(name) => {
                    let func_name: String = name.clone();

                    if !self.consume(Token::OpenParens) {
                        return None;
                    }
                    if !self.consume(Token::CloseParens) {
                        return None;
                    }
                    if !self.consume(Token::OpenBrace) {
                        return None;
                    }
                    let func = match self.parse_statement() {
                        Some(body) => Some(AST::Function(func_name, Box::new(body))),
                        None => None,
                    };
                    if self.consume(Token::CloseBrace) {
                        func
                    } else {
                        None
                    }
                },
                _ => None,
            },
            None => None,
        }
    }

    fn parse_statement(&mut self) -> (r: Option<AST>)
        requires
            old(self).wf(),
        ensures
            final(self).wf(),
            final(self)@.toks == old(self)@.toks,
            match spec_parse_statement(old(self)@.toks, old(self)@.pos as int) {
                Some((a, j)) => (match r {
                    Some(ast) => ast@ == a && final(self)@.pos == j,
                    None => false,
                }),
                None => r is None,
            },
        decreases self@.toks.len() - self@.pos, 3int,
    {
        // The only supported statement is a return statement.
        if !self.consume(Token::Return) {
            return None;
        }
        let statement = match self.parse_expression() {
            Some(expr) => Some(AST::Return(Box::new(expr))),
            None => None,
        };
        if self.consume(Token::Semicolon) {
            statement
        } else {
            None
        }
    }

    fn parse_expression(&mut self) -> (r: Option<AST>)
        requires
            old(self).wf(),
        ensures
            final(self).wf(),
            final(self)@.toks == old(self)@.toks,
            match spec_parse_expression(old(self)@.toks, old(self)@.pos as int) {
                Some((a, j)) => (match r {
                    Some(ast) => ast@ == a && final(self)@.pos == j,
                    None => false,
                }),
                None => r is None,
            },
        decreases self@.toks.len() - self@.pos, 2int,
    {
        let ghost toks = self@.toks;
        let ghost entry = self@.pos as int;

        let first = match self.parse_term() {
            Some(t) => t,
            None => {
                return None;
            },
        };
        proof {
            lemma_parse_advances(toks, entry);
        }
        let mut acc = first;
        loop
            invariant
                self.wf(),
                self@.toks == toks,
                old(self)@.toks == toks,
                old(self)@.pos as int == entry,
                entry < self@.pos as int <= toks.len(),
                spec_parse_expression(toks, entry) == spec_expression_tail(
                    toks,
                    self@.pos as int,
                    acc@,
                ),
            ensures
                self.wf(),
                self@.toks == toks,
                entry < self@.pos as int <= toks.len(),
                spec_parse_expression(toks, entry) == Some((acc@, self@.pos as int)),
            decreases toks.len() - self@.pos,
        {
            let ghost pos = self@.pos as int;
            let op_token = match self.peek_token() {
                Some(t) => match t {
                    Token::Plus => true,
                    Token::Minus => true,
                    _ => false,
                },
                None => false,
            };
            if !op_token {
                break ;
            }
            let next = match self.next_token() {
                Some(t) => t,
                None => unreached(),
            };
            let op = match BinaryOperator::from_token(next) {
                Some(op) => op,
                None => unreached(),
            };
            match self.parse_term() {
                Some(next_term) => {
                    proof {
                        lemma_parse_advances(toks, pos + 1);
                    }
                    acc = AST::BinaryOp(op, Box::new(acc), Box::new(next_term));
                },
                None => {
                    return None;
                },
            }
        }
        Some(acc)
    }

    fn parse_term(&mut self) -> (r: Option<AST>)
        requires
            old(self).wf(),
        ensures
            final(self).wf(),
            final(self)@.toks == old(self)@.toks,
            match spec_parse_term(old(self)@.toks, old(self)@.pos as int) {
                Some((a, j)) => (match r {
                    Some(ast) => ast@ == a && final(self)@.pos == j,
                    None => false,
                }),
                None => r is None,
            },
        decreases self@.toks.len() - self@.pos, 1int,
    {
        let ghost toks = self@.toks;
        let ghost entry = self@.pos as int;

        let first = match self.parse_factor() {
            Some(t) => t,
            None => {
                return None;
            },
        };
        proof {
            lemma_parse_advances(toks, entry);
        }
        let mut acc = first;
        loop
            invariant
                self.wf(),
                self@.toks == toks,
                old(self)@.toks == toks,
                old(self)@.pos as int == entry,
                entry < self@.pos as int <= toks.len(),
                spec_parse_term(toks, entry) == spec_term_tail(toks, self@.pos as int, acc@),
            ensures
                self.wf(),
                self@.toks == toks,
                entry < self@.pos as int <= toks.len(),
                spec_parse_term(toks, entry) == Some((acc@, self@.pos as int)),
            decreases toks.len() - self@.pos,
        {
            let ghost pos = self@.pos as int;
            let op_token = match self.peek_token() {
                Some(t) => match t {
                    Token::Times => true,
                    Token::Divide => true,
                    _ => false,
                },
                None => false,
            };
            if !op_token {
                break ;
            }
            let next = match self.next_token() {
                Some(t) => t,
                None => unreached(),
            };
            let op = match BinaryOperator::from_token(next) {
                Some(op) => op,
                None => unreached(),
            };
            match self.parse_factor() {
                Some(next_factor) => {
                    proof {
                        lemma_parse_advances(toks, pos + 1);
                    }
                    acc = AST::BinaryOp(op, Box::new(acc), Box::new(next_factor));
                },
                None => {
                    return None;
                },
            }
        }
        Some(acc)
    }

    fn parse_factor(&mut self) -> (r: Option<AST>)
        requires
            old(self).wf(),
        ensures
            final(self).wf(),
            final(self)@.toks == old(self)@.toks,
            match spec_parse_factor(old(self)@.toks, old(self)@.pos as int) {
                Some((a, j)) => (match r {
                    Some(ast) => ast@ == a && final(self)@.pos == j,
                    None => false,
                }),
                None => r is None,
            },
        decreases self@.toks.len() - self@.pos, 0int,
    {
        match self.next_token() {
            Some(next) => match next {
                Token::NumLiteral(num) => Some(AST::IntConstant(*num)),
                Token::OpenParens => {
                    let expr = self.parse_expression();
                    if expr.is_some() {
                        if self.consume(Token::CloseParens) {
                            expr
                        } else {
                            None
                        }
                    } else {
                        None
                    }
                },
                _ => {
                    match UnaryOperator::from_token(next) {
                        Some(op) => match self.parse_factor() {
                            Some(factor) => Some(AST::UnaryOp(op, Box::new(factor))),
                            None => None,
                        },
                        None => None,
                    }
                },
            },
            None => None,
        }
    }
}

} // verus!
