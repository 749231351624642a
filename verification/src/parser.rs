//! The parser: from tokens to statements.
//!
//! The grammar, with every nonterminal read from left to right and as far
//! as it goes:
//!
//! ```text
//! binding := "let" IDENT "=" expr
//! expr    := term [ ("+" | "-") term ]
//! term    := literal [ ("*" | "/") literal ]
//! literal := NUMBER | "(" expr ")"
//! ```
//!
//! [`literal`], [`term`], [`expr`] and [`binding`] say what is read at a
//! position of a token sequence and how many tokens it takes, or why nothing
//! can be read there; the parser's methods are proved to return exactly that.

use crate::ast::{BinopKind, Expr, Stmt};
use crate::lexer::Token;
use vstd::prelude::*;

verus! {

/// Why nothing can be read at a position.
#[derive(Debug)]
pub enum ErrorKind {
    /// The token that stands where another was needed.
    UnexpectedToken(Token),
    /// The position at which a token was needed; for a binding, the position
    /// at which `let`, a name and `=` should have stood.
    UnexpectedEndOfInput(usize),
}

impl Clone for ErrorKind {
    fn clone(&self) -> (r: Self)
        ensures
            r == *self,
    {
        match self {
            ErrorKind::UnexpectedToken(token) => ErrorKind::UnexpectedToken(token.clone()),
            ErrorKind::UnexpectedEndOfInput(pos) => ErrorKind::UnexpectedEndOfInput(*pos),
        }
    }
}

/// The token at `pos`, if there is one.
pub open spec fn token_at(tokens: Seq<Token>, pos: nat) -> Option<Token> {
    if pos < tokens.len() {
        Some(tokens[pos as int])
    } else {
        None
    }
}

/// The literal at `pos` and the number of tokens it takes.
pub open spec fn literal(tokens: Seq<Token>, pos: nat) -> Result<(Expr, nat), ErrorKind>
    decreases tokens.len() - pos, 0nat,
{
    match token_at(tokens, pos) {
        Some(Token::LBracket) => match expr(tokens, pos + 1) {
            Ok((inner, n)) => match token_at(tokens, pos + 1 + n) {
                Some(Token::RBracket) => Ok((inner, n + 2)),
                Some(token) => Err(ErrorKind::UnexpectedToken(token)),
                None => Err(ErrorKind::UnexpectedEndOfInput((pos + 1 + n) as usize)),
            },
            Err(e) => Err(e),
        },
        Some(Token::Number(num)) => Ok((Expr::Number(num), 1)),
        Some(token) => Err(ErrorKind::UnexpectedToken(token)),
        None => Err(ErrorKind::UnexpectedEndOfInput(pos as usize)),
    }
}

/// The term at `pos` and the number of tokens it takes.
pub open spec fn term(tokens: Seq<Token>, pos: nat) -> Result<(Expr, nat), ErrorKind>
    decreases tokens.len() - pos, 1nat,
{
    match literal(tokens, pos) {
        Ok((left, n)) => match token_at(tokens, pos + n) {
            Some(Token::Times) => match literal(tokens, pos + n + 1) {
                Ok((right, m)) => Ok(
                    (Expr::Binop(BinopKind::Times, Box::new(left), Box::new(right)), n + 1 + m),
                ),
                Err(e) => Err(e),
            },
            Some(Token::Divide) => match literal(tokens, pos + n + 1) {
                Ok((right, m)) => Ok(
                    (Expr::Binop(BinopKind::Divide, Box::new(left), Box::new(right)), n + 1 + m),
                ),
                Err(e) => Err(e),
            },
            _ => Ok((left, n)),
        },
        Err(e) => Err(e),
    }
}

/// The expression at `pos` and the number of tokens it takes.
pub open spec fn expr(tokens: Seq<Token>, pos: nat) -> Result<(Expr, nat), ErrorKind>
    decreases tokens.len() - pos, 2nat,
{
    match term(tokens, pos) {
        Ok((left, n)) => match token_at(tokens, pos + n) {
            Some(Token::Plus) => match term(tokens, pos + n + 1) {
                Ok((right, m)) => Ok(
                    (Expr::Binop(BinopKind::Plus, Box::new(left), Box::new(right)), n + 1 + m),
                ),
                Err(e) => Err(e),
            },
            Some(Token::Minus) => match term(tokens, pos + n + 1) {
                Ok((right, m)) => Ok(
                    (Expr::Binop(BinopKind::Minus, Box::new(left), Box::new(right)), n + 1 + m),
                ),
                Err(e) => Err(e),
            },
            _ => Ok((left, n)),
        },
        Err(e) => Err(e),
    }
}

/// The binding at `pos` and the number of tokens it takes.
pub open spec fn binding(tokens: Seq<Token>, pos: nat) -> Result<(Stmt, nat), ErrorKind> {
    match (token_at(tokens, pos), token_at(tokens, pos + 1), token_at(tokens, pos + 2)) {
        (Some(Token::Let), Some(Token::Ident(name)), Some(Token::Equal)) => match expr(
            tokens,
            pos + 3,
        ) {
            Ok((value, n)) => Ok((Stmt::Binding(name, value), n + 3)),
            Err(e) => Err(e),
        },
        _ => Err(ErrorKind::UnexpectedEndOfInput(pos as usize)),
    }
}

/// What is read takes at least one token and ends inside the token sequence.
pub proof fn lemma_spans(tokens: Seq<Token>, pos: nat, level: nat)
    requires
        level <= 2,
    ensures
        level == 0 ==> (literal(tokens, pos) matches Ok((_, n)) ==> 1 <= n && pos + n
            <= tokens.len()),
        level == 1 ==> (term(tokens, pos) matches Ok((_, n)) ==> 1 <= n && pos + n <= tokens.len()),
        level == 2 ==> (expr(tokens, pos) matches Ok((_, n)) ==> 1 <= n && pos + n <= tokens.len()),
    decreases tokens.len() - pos, level,
{
    if level == 0 {
        if token_at(tokens, pos) matches Some(Token::LBracket) {
            lemma_spans(tokens, pos + 1, 2);
        }
    } else if level == 1 {
        lemma_spans(tokens, pos, 0);
        match literal(tokens, pos) {
            Ok((_, n)) => {
                if token_at(tokens, pos + n) is Some {
                    lemma_spans(tokens, pos + n + 1, 0);
                }
            },
            Err(_) => {},
        }
    } else {
        lemma_spans(tokens, pos, 1);
        match term(tokens, pos) {
            Ok((_, n)) => {
                if token_at(tokens, pos + n) is Some {
                    lemma_spans(tokens, pos + n + 1, 1);
                }
            },
            Err(_) => {},
        }
    }
}

/// A binding takes at least four tokens and ends inside the token sequence.
pub proof fn lemma_binding_spans(tokens: Seq<Token>, pos: nat)
    ensures
        binding(tokens, pos) matches Ok((_, n)) ==> 4 <= n && pos + n <= tokens.len(),
{
    lemma_spans(tokens, pos + 3, 2);
}

/// The bindings that follow one another from `pos` on, up to the first
/// position at which no binding can be read.
pub open spec fn statements(tokens: Seq<Token>, pos: nat) -> Seq<Stmt>
    decreases tokens.len() - pos,
{
    match binding(tokens, pos) {
        Ok((stmt, n)) => {
            proof {
                lemma_binding_spans(tokens, pos);
            }
            seq![stmt] + statements(tokens, pos + n)
        },
        Err(_) => Seq::empty(),
    }
}

/// The parser of one token sequence.
pub struct Parser {
    tokens: Vec<Token>,
}

impl View for Parser {
    type V = Seq<Token>;

    closed spec fn view(&self) -> Seq<Token> {
        self.tokens@
    }
}

impl Parser {
    /// A parser of `tokens`.
    pub fn new(tokens: Vec<Token>) -> (r: Self)
        ensures
            r@ == tokens@,
    {
        Parser { tokens }
    }

    /// The bindings that follow one another from the first token on. What
    /// comes after the last of them is not looked at, so this never fails.
    pub fn parse(&self) -> (r: Result<Vec<Stmt>, ErrorKind>)
        ensures
            r is Ok,
            r->Ok_0@ == statements(self@, 0),
    {
        let tokens = self.tokens.as_slice();
        let mut stmts: Vec<Stmt> = Vec::new();
        let mut pos: usize = 0;
        loop
            invariant
                tokens@ == self@,
                pos <= tokens@.len(),
                statements(tokens@, 0) == stmts@ + statements(tokens@, pos as nat),
            decreases tokens@.len() - pos,
        {
            proof {
                lemma_binding_spans(tokens@, pos as nat);
            }
            match self.parse_binding(tokens, pos) {
                Ok((stmt, end)) => {
                    assert(tokens@.len() == tokens.len());
                    assert(end == pos + binding(tokens@, pos as nat)->Ok_0.1);
                    assert(stmts@.push(stmt) + statements(tokens@, end as nat) =~= stmts@ + (
                    seq![stmt] + statements(tokens@, end as nat)));
                    stmts.push(stmt);
                    pos = end;
                },
                Err(_) => {
                    assert(stmts@ + Seq::<Stmt>::empty() =~= stmts@);
                    return Ok(stmts);
                },
            }
        }
    }

    /// The binding at `pos` and the position after it.
    pub fn parse_binding(&self, tokens: &[Token], pos: usize) -> (r: Result<
        (Stmt, usize),
        ErrorKind,
    >)
        ensures
            match binding(tokens@, pos as nat) {
                Ok((stmt, n)) => r == Ok::<(Stmt, usize), ErrorKind>((stmt, (pos + n) as usize)),
                Err(e) => r == Err::<(Stmt, usize), ErrorKind>(e),
            },
    {
        if tokens.len() >= 3 && pos <= tokens.len() - 3 {
            match (&tokens[pos], &tokens[pos + 1], &tokens[pos + 2]) {
                (Token::Let, Token::Ident(name), Token::Equal) => {
                    proof {
                        lemma_spans(tokens@, (pos + 3) as nat, 2);
                    }
                    let (value, end) = self.parse_expr(tokens, pos + 3)?;
                    return Ok((Stmt::Binding(name.clone(), value), end));
                },
                _ => {},
            }
        }
        Err(ErrorKind::UnexpectedEndOfInput(pos))
    }

    /// The expression at `pos` and the position after it.
    pub fn parse_expr(&self, tokens: &[Token], pos: usize) -> (r: Result<(Expr, usize), ErrorKind>)
        ensures
            match expr(tokens@, pos as nat) {
                Ok((e, n)) => r == Ok::<(Expr, usize), ErrorKind>((e, (pos + n) as usize)),
                Err(e) => r == Err::<(Expr, usize), ErrorKind>(e),
            },
        decreases tokens@.len() - pos, 2nat,
    {
        proof {
            lemma_spans(tokens@, pos as nat, 1);
        }
        let (left, pos) = self.parse_term(tokens, pos)?;
        if pos < tokens.len() {
            proof {
                lemma_spans(tokens@, (pos + 1) as nat, 1);
            }
            match &tokens[pos] {
                Token::Plus => {
                    let (right, pos) = self.parse_term(tokens, pos + 1)?;
                    return Ok(
                        (Expr::Binop(BinopKind::Plus, Box::new(left), Box::new(right)), pos),
                    );
                },
                Token::Minus => {
                    let (right, pos) = self.parse_term(tokens, pos + 1)?;
                    return Ok(
                        (Expr::Binop(BinopKind::Minus, Box::new(left), Box::new(right)), pos),
                    );
                },
                _ => {},
            }
        }
        Ok((left, pos))
    }

    /// The term at `pos` and the position after it.
    pub fn parse_term(&self, tokens: &[Token], pos: usize) -> (r: Result<(Expr, usize), ErrorKind>)
        ensures
            match term(tokens@, pos as nat) {
                Ok((e, n)) => r == Ok::<(Expr, usize), ErrorKind>((e, (pos + n) as usize)),
                Err(e) => r == Err::<(Expr, usize), ErrorKind>(e),
            },
        decreases tokens@.len() - pos, 1nat,
    {
        proof {
            lemma_spans(tokens@, pos as nat, 0);
        }
        let (left, pos) = self.parse_literal(tokens, pos)?;
        if pos < tokens.len() {
            proof {
                lemma_spans(tokens@, (pos + 1) as nat, 0);
            }
            match &tokens[pos] {
                Token::Times => {
                    let (right, pos) = self.parse_literal(tokens, pos + 1)?;
                    return Ok(
                        (Expr::Binop(BinopKind::Times, Box::new(left), Box::new(right)), pos),
                    );
                },
                Token::Divide => {
                    let (right, pos) = self.parse_literal(tokens, pos + 1)?;
                    return Ok(
                        (Expr::Binop(BinopKind::Divide, Box::new(left), Box::new(right)), pos),
                    );
                },
                _ => {},
            }
        }
        Ok((left, pos))
    }

    /// The literal at `pos` and the position after it.
    pub fn parse_literal(&self, tokens: &[Token], pos: usize) -> (r: Result<
        (Expr, usize),
        ErrorKind,
    >)
        ensures
            match literal(tokens@, pos as nat) {
                Ok((e, n)) => r == Ok::<(Expr, usize), ErrorKind>((e, (pos + n) as usize)),
                Err(e) => r == Err::<(Expr, usize), ErrorKind>(e),
            },
        decreases tokens@.len() - pos, 0nat,
    {
        if pos >= tokens.len() {
            return Err(ErrorKind::UnexpectedEndOfInput(pos));
        }
        match &tokens[pos] {
            Token::LBracket => {
                proof {
                    lemma_spans(tokens@, (pos + 1) as nat, 2);
                }
                let (inner, pos) = self.parse_expr(tokens, pos + 1)?;
                if pos >= tokens.len() {
                    return Err(ErrorKind::UnexpectedEndOfInput(pos));
                }
                match &tokens[pos] {
                    Token::RBracket => Ok((inner, pos + 1)),
                    token => Err(ErrorKind::UnexpectedToken(token.clone())),
                }
            },
            Token::Number(num) => Ok((Expr::Number(*num), pos + 1)),
            token => Err(ErrorKind::UnexpectedToken(token.clone())),
        }
    }
}

} // verus!
