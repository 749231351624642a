//! The lexer: from source text to tokens.
//!
//! [`lex`] says which tokens a text consists of. A number is a maximal run
//! of decimal digits, a word is a letter followed by a maximal run of
//! letters, digits and underscores, and blanks separate tokens without being
//! one. [`Lexer::run`] is proved to return exactly those tokens.

use crate::int32::{lemma_wrap_add, wrap};
use crate::text::unicode_alphanumeric;
use vstd::prelude::*;

verus! {

/// A token of the source language.
#[derive(Debug)]
pub enum Token {
    Number(i32),
    Ident(String),
    Let,
    LBracket,
    RBracket,
    Plus,
    Minus,
    Times,
    Divide,
    Equal,
}

/// A [`Token`] with the name of an identifier as a sequence of characters.
pub enum TokenView {
    Number(i32),
    Ident(Seq<char>),
    Let,
    LBracket,
    RBracket,
    Plus,
    Minus,
    Times,
    Divide,
    Equal,
}

impl View for Token {
    type V = TokenView;

    open spec fn view(&self) -> TokenView {
        match *self {
            Token::Number(n) => TokenView::Number(n),
            Token::Ident(name) => TokenView::Ident(name@),
            Token::Let => TokenView::Let,
            Token::LBracket => TokenView::LBracket,
            Token::RBracket => TokenView::RBracket,
            Token::Plus => TokenView::Plus,
            Token::Minus => TokenView::Minus,
            Token::Times => TokenView::Times,
            Token::Divide => TokenView::Divide,
            Token::Equal => TokenView::Equal,
        }
    }
}

impl Clone for Token {
    fn clone(&self) -> (r: Self)
        ensures
            r == *self,
    {
        match self {
            Token::Number(n) => Token::Number(*n),
            Token::Ident(name) => Token::Ident(name.clone()),
            Token::Let => Token::Let,
            Token::LBracket => Token::LBracket,
            Token::RBracket => Token::RBracket,
            Token::Plus => Token::Plus,
            Token::Minus => Token::Minus,
            Token::Times => Token::Times,
            Token::Divide => Token::Divide,
            Token::Equal => Token::Equal,
        }
    }
}

impl PartialEq for Token {
    fn eq(&self, other: &Self) -> (r: bool) {
        match (self, other) {
            (Token::Number(a), Token::Number(b)) => *a == *b,
            (Token::Ident(a), Token::Ident(b)) => *a == *b,
            (Token::Let, Token::Let) => true,
            (Token::LBracket, Token::LBracket) => true,
            (Token::RBracket, Token::RBracket) => true,
            (Token::Plus, Token::Plus) => true,
            (Token::Minus, Token::Minus) => true,
            (Token::Times, Token::Times) => true,
            (Token::Divide, Token::Divide) => true,
            (Token::Equal, Token::Equal) => true,
            _ => false,
        }
    }
}

/// Two tokens are equal when they are of the same kind and hold the same
/// number or name.
impl vstd::std_specs::cmp::PartialEqSpecImpl for Token {
    open spec fn obeys_eq_spec() -> bool {
        true
    }

    open spec fn eq_spec(&self, other: &Self) -> bool {
        self@ == other@
    }
}

/// What the lexer rejects.
#[derive(Copy, Clone, Debug)]
pub enum ErrorKind {
    /// A character that no token starts with.
    UnexpectedToken(char),
}

/// The tokens as the lexer's model speaks of them.
pub open spec fn token_views(tokens: Seq<Token>) -> Seq<TokenView> {
    tokens.map_values(|t: Token| t@)
}

/// Whether `c` is one of the ten decimal digits.
pub open spec fn is_digit(c: char) -> bool {
    '0' <= c <= '9'
}

/// Whether `c` is an ASCII letter: what a word starts with.
pub open spec fn is_letter(c: char) -> bool {
    'a' <= c <= 'z' || 'A' <= c <= 'Z'
}

/// Whether `c` is a space, a tab or a carriage return: what may stand
/// between tokens. A line feed is not among them.
pub open spec fn is_blank(c: char) -> bool {
    c == ' ' || c == '\t' || c == '\r'
}

/// Whether `c` can follow the first letter of a word: an underscore, an
/// ASCII letter or digit, or a character beyond ASCII that Unicode classes as
/// a letter or a number.
pub open spec fn is_word_part(c: char) -> bool {
    c == '_' || is_letter(c) || is_digit(c) || (c as u32 >= 0x80 && unicode_alphanumeric(c))
}

/// The token that the character `c` is by itself, if it is one.
pub open spec fn single_char_token(c: char) -> Option<TokenView> {
    if c == '(' {
        Some(TokenView::LBracket)
    } else if c == ')' {
        Some(TokenView::RBracket)
    } else if c == '+' {
        Some(TokenView::Plus)
    } else if c == '-' {
        Some(TokenView::Minus)
    } else if c == '*' {
        Some(TokenView::Times)
    } else if c == '/' {
        Some(TokenView::Divide)
    } else if c == '=' {
        Some(TokenView::Equal)
    } else {
        None
    }
}

/// Where the run of digits that starts at `pos` ends: the first position
/// from `pos` on that holds no digit.
pub open spec fn digits_end(s: Seq<char>, pos: int) -> int
    decreases s.len() - pos,
{
    if 0 <= pos < s.len() && is_digit(s[pos]) {
        digits_end(s, pos + 1)
    } else {
        pos
    }
}

/// Where the run of word characters that starts at `pos` ends.
pub open spec fn word_end(s: Seq<char>, pos: int) -> int
    decreases s.len() - pos,
{
    if 0 <= pos < s.len() && is_word_part(s[pos]) {
        word_end(s, pos + 1)
    } else {
        pos
    }
}

/// The run of digits at `pos`; nothing where `pos` is no position of `s`.
pub open spec fn digits_at(s: Seq<char>, pos: int) -> Seq<char> {
    if 0 <= pos <= s.len() {
        s.subrange(pos, digits_end(s, pos))
    } else {
        Seq::empty()
    }
}

/// The run of word characters at `pos`; nothing where `pos` is no position
/// of `s`.
pub open spec fn word_at(s: Seq<char>, pos: int) -> Seq<char> {
    if 0 <= pos <= s.len() {
        s.subrange(pos, word_end(s, pos))
    } else {
        Seq::empty()
    }
}

/// The number that decimal digits write, wrapped to 32 bits.
pub open spec fn number_value(digits: Seq<char>) -> i32
    decreases digits.len(),
{
    if digits.len() == 0 {
        0
    } else {
        wrap(number_value(digits.drop_last()) * 10 + (digits.last() as int - '0' as int))
    }
}

/// The token that a word is: the keyword `let`, or else an identifier.
pub open spec fn word_token(word: Seq<char>) -> TokenView {
    if word == seq!['l', 'e', 't'] {
        TokenView::Let
    } else {
        TokenView::Ident(word)
    }
}

/// `token` in front of the tokens that follow it, where those were lexed.
pub open spec fn prepend(token: TokenView, rest: Result<Seq<TokenView>, ErrorKind>) -> Result<
    Seq<TokenView>,
    ErrorKind,
> {
    match rest {
        Ok(tokens) => Ok(seq![token] + tokens),
        Err(e) => Err(e),
    }
}

/// A run ends at or after the position where it starts, and inside the text.
pub proof fn lemma_run_ends(s: Seq<char>, pos: int)
    requires
        0 <= pos <= s.len(),
    ensures
        pos <= digits_end(s, pos) <= s.len(),
        pos <= word_end(s, pos) <= s.len(),
        digits_at(s, pos).len() == digits_end(s, pos) - pos,
        word_at(s, pos).len() == word_end(s, pos) - pos,
    decreases s.len() - pos,
{
    if pos < s.len() {
        lemma_run_ends(s, pos + 1);
    }
}

/// The tokens of `s` from position `pos` on, or the first character that
/// starts no token.
pub open spec fn lex_from(s: Seq<char>, pos: int) -> Result<Seq<TokenView>, ErrorKind>
    decreases s.len() - pos,
{
    if pos < 0 || pos >= s.len() {
        Ok(Seq::empty())
    } else {
        let c = s[pos];
        if single_char_token(c) is Some {
            prepend(single_char_token(c)->0, lex_from(s, pos + 1))
        } else if is_digit(c) {
            let digits = seq![c] + digits_at(s, pos + 1);
            proof {
                lemma_run_ends(s, pos + 1);
            }
            prepend(TokenView::Number(number_value(digits)), lex_from(s, pos + digits.len()))
        } else if is_letter(c) {
            let word = seq![c] + word_at(s, pos + 1);
            proof {
                lemma_run_ends(s, pos + 1);
            }
            prepend(word_token(word), lex_from(s, pos + word.len()))
        } else if is_blank(c) {
            lex_from(s, pos + 1)
        } else {
            Err(ErrorKind::UnexpectedToken(c))
        }
    }
}

/// The tokens of the text `s`, or the first character that starts no token.
pub open spec fn lex(s: Seq<char>) -> Result<Seq<TokenView>, ErrorKind> {
    lex_from(s, 0)
}

/// The lexer of one source text.
pub struct Lexer {
    input: String,
}

impl View for Lexer {
    type V = Seq<char>;

    closed spec fn view(&self) -> Seq<char> {
        self.input@
    }
}

/// The characters of `s`.
fn chars_of(s: &str) -> (r: Vec<char>)
    ensures
        r@ == s@,
{
    let mut chars: Vec<char> = Vec::new();
    for c in it: s.chars()
        invariant
            it.seq() == s@,
            chars@ == it.seq().take(it.index() as int),
    {
        chars.push(c);
    }
    chars
}

/// Whether `c` can follow the first letter of a word.
pub fn word_part(c: char) -> (r: bool)
    ensures
        r == is_word_part(c),
{
    c == '_' || (c >= 'a' && c <= 'z') || (c >= 'A' && c <= 'Z') || (c >= '0' && c <= '9')
        || (c as u32 >= 0x80 && c.is_alphanumeric())
}

impl Lexer {
    /// A lexer of `input`.
    pub fn new(input: &str) -> (r: Self)
        ensures
            r@ == input@,
    {
        Lexer { input: input.to_owned() }
    }

    /// The tokens of the text, or the first character that starts no token.
    pub fn run(&mut self) -> (r: Result<Vec<Token>, ErrorKind>)
        ensures
            final(self)@ == old(self)@,
            match lex(old(self)@) {
                Ok(tokens) => r is Ok && token_views(r->Ok_0@) == tokens,
                Err(e) => r == Err::<Vec<Token>, ErrorKind>(e),
            },
    {
        let chars = chars_of(self.input.as_str());
        let ghost s = chars@;
        let mut result: Vec<Token> = Vec::new();
        let mut pos: usize = 0;
        assert(token_views(result@) + Seq::<TokenView>::empty() =~= Seq::<TokenView>::empty());
        while pos < chars.len()
            invariant
                s == chars@,
                s == self@,
                pos <= s.len(),
                match lex_from(s, pos as int) {
                    Ok(rest) => lex(s) == Ok::<Seq<TokenView>, ErrorKind>(
                        token_views(result@) + rest,
                    ),
                    Err(e) => lex(s) == Err::<Seq<TokenView>, ErrorKind>(e),
                },
            decreases s.len() - pos,
        {
            let lexeme = chars[pos];
            let ghost before = token_views(result@);
            let ghost start = pos as int;
            proof {
                lemma_run_ends(s, start + 1);
            }
            let single = match lexeme {
                '(' => Some(Token::LBracket),
                ')' => Some(Token::RBracket),
                '+' => Some(Token::Plus),
                '-' => Some(Token::Minus),
                '*' => Some(Token::Times),
                '/' => Some(Token::Divide),
                '=' => Some(Token::Equal),
                _ => None,
            };
            let token = match single {
                Some(token) => {
                    pos += 1;
                    Some(token)
                },
                None => {
                    if lexeme >= '0' && lexeme <= '9' {
                        let (token, end) = self.lex_number(lexeme, &chars, pos + 1)?;
                        pos = end;
                        Some(token)
                    } else if (lexeme >= 'a' && lexeme <= 'z') || (lexeme >= 'A' && lexeme <= 'Z') {
                        let (ident, end) = self.lex_ident(lexeme, &chars, pos + 1)?;
                        proof {
                            reveal_strlit("let");
                            assert("let"@ =~= seq!['l', 'e', 't']);
                        }
                        pos = end;
                        if ident == "let".to_owned() {
                            Some(Token::Let)
                        } else {
                            Some(Token::Ident(ident))
                        }
                    } else if lexeme == ' ' || lexeme == '\t' || lexeme == '\r' {
                        pos += 1;
                        None
                    } else {
                        return Err(ErrorKind::UnexpectedToken(lexeme));
                    }
                },
            };
            match token {
                Some(token) => {
                    proof {
                        assert(lex_from(s, start) == prepend(token@, lex_from(s, pos as int)));
                        assert(token_views(result@.push(token)) =~= before.push(token@));
                        match lex_from(s, pos as int) {
                            Ok(rest) => {
                                assert(before + (seq![token@] + rest) =~= before.push(token@)
                                    + rest);
                            },
                            Err(_) => {},
                        }
                    }
                    result.push(token);
                },
                None => {},
            }
        }
        assert(token_views(result@) + Seq::<TokenView>::empty() =~= token_views(result@));
        Ok(result)
    }

    /// The number whose first digit is `num` and whose other digits are the
    /// run of digits at `pos` in `chars`, with the position after that run.
    /// Fails where `num` is no digit.
    pub fn lex_number(&self, num: char, chars: &Vec<char>, pos: usize) -> (r: Result<
        (Token, usize),
        ErrorKind,
    >)
        ensures
            match r {
                Ok((token, end)) => {
                    &&& is_digit(num)
                    &&& token == Token::Number(
                        number_value(seq![num] + digits_at(chars@, pos as int)),
                    )
                    &&& end == pos + digits_at(chars@, pos as int).len()
                },
                Err(e) => !is_digit(num) && e == ErrorKind::UnexpectedToken(num),
            },
    {
        if !(num >= '0' && num <= '9') {
            return Err(ErrorKind::UnexpectedToken(num));
        }
        let mut value: i32 = (num as u32 - '0' as u32) as i32;
        let ghost s = chars@;
        proof {
            let first = seq![num] + Seq::<char>::empty();
            assert(first.drop_last() =~= Seq::<char>::empty());
            assert(first.last() == num);
            assert(number_value(first.drop_last()) == 0);
        }
        if pos > chars.len() {
            return Ok((Token::Number(value), pos));
        }
        let mut end: usize = pos;
        proof {
            lemma_run_ends(s, pos as int);
            assert(s.subrange(pos as int, pos as int) =~= Seq::<char>::empty());
        }
        while end < chars.len() && chars[end] >= '0' && chars[end] <= '9'
            invariant
                s == chars@,
                pos <= end <= s.len(),
                digits_end(s, end as int) == digits_end(s, pos as int),
                value == number_value(seq![num] + s.subrange(pos as int, end as int)),
            decreases s.len() - end,
        {
            let digit: i32 = (chars[end] as u32 - '0' as u32) as i32;
            proof {
                let digits = seq![num] + s.subrange(pos as int, end + 1);
                assert(digits.drop_last() =~= seq![num] + s.subrange(pos as int, end as int));
                lemma_wrap_add(value * 10, digit as int);
            }
            value = value.wrapping_mul(10).wrapping_add(digit);
            end += 1;
        }
        Ok((Token::Number(value), end))
    }

    /// The word whose first letter is `ident` and whose other characters are
    /// the run of word characters at `pos` in `chars`, with the position
    /// after that run. Never fails.
    pub fn lex_ident(&self, ident: char, chars: &Vec<char>, pos: usize) -> (r: Result<
        (String, usize),
        ErrorKind,
    >)
        ensures
            r is Ok,
            r->Ok_0.0@ == seq![ident] + word_at(chars@, pos as int),
            r->Ok_0.1 == pos + word_at(chars@, pos as int).len(),
    {
        let mut word = String::new();
        word.push(ident);
        let ghost s = chars@;
        if pos > chars.len() {
            assert(word@ =~= seq![ident] + Seq::<char>::empty());
            return Ok((word, pos));
        }
        let mut end: usize = pos;
        proof {
            lemma_run_ends(s, pos as int);
        }
        while end < chars.len() && word_part(chars[end])
            invariant
                s == chars@,
                pos <= end <= s.len(),
                word_end(s, end as int) == word_end(s, pos as int),
                word@ == seq![ident] + s.subrange(pos as int, end as int),
            decreases s.len() - end,
        {
            word.push(chars[end]);
            end += 1;
        }
        Ok((word, end))
    }
}

} // verus!
