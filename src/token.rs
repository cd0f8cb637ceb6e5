//! Tokens: a closed set of lexical categories, each token carrying the exact
//! source text it was read from.

use vstd::prelude::*;

use crate::text::{string_from_chars, text_of};

verus! {

/// The lexical category of a token.
#[derive(Debug, Clone, Copy, PartialEq, Eq, Structural)]
pub enum TokenType {
    /// A character that starts no token.
    Illegal,
    EOF,
    // Identifiers and literals
    Ident,
    Int,
    // Operators
    Assign,
    Plus,
    Minus,
    Bang,
    Asterisk,
    Slash,
    Eq,
    NotEq,
    Lt,
    Gt,
    // Delimiters
    Comma,
    Semicolon,
    LParen,
    RParen,
    LBrace,
    RBrace,
    // Keywords
    Function,
    Let,
    True,
    False,
    If,
    Else,
    Return,
}

impl TokenType {
    /// How the category is written: the symbol or keyword it stands for,
    /// `^D` for the end of input, nothing for the categories whose text varies.
    pub open spec fn spelling(self) -> Seq<char> {
        match self {
            TokenType::Illegal => seq![],
            TokenType::EOF => seq!['^', 'D'],
            TokenType::Ident => seq![],
            TokenType::Int => seq![],
            TokenType::Assign => seq!['='],
            TokenType::Plus => seq!['+'],
            TokenType::Minus => seq!['-'],
            TokenType::Bang => seq!['!'],
            TokenType::Asterisk => seq!['*'],
            TokenType::Slash => seq!['/'],
            TokenType::Eq => seq!['=', '='],
            TokenType::NotEq => seq!['!', '='],
            TokenType::Lt => seq!['<'],
            TokenType::Gt => seq!['>'],
            TokenType::Comma => seq![','],
            TokenType::Semicolon => seq![';'],
            TokenType::LParen => seq!['('],
            TokenType::RParen => seq![')'],
            TokenType::LBrace => seq!['{'],
            TokenType::RBrace => seq!['}'],
            TokenType::Function => seq!['f', 'n'],
            TokenType::Let => seq!['l', 'e', 't'],
            TokenType::True => seq!['t', 'r', 'u', 'e'],
            TokenType::False => seq!['f', 'a', 'l', 's', 'e'],
            TokenType::If => seq!['i', 'f'],
            TokenType::Else => seq!['e', 'l', 's', 'e'],
            TokenType::Return => seq!['r', 'e', 't', 'u', 'r', 'n'],
        }
    }

    /// The category as text, as `spelling` gives it.
    pub fn to_string(&self) -> (r: String)
        ensures
            r@ == self.spelling(),
    {
        let t = match self {
            TokenType::Illegal => "",
            TokenType::EOF => "^D",
            TokenType::Ident => "",
            TokenType::Int => "",
            TokenType::Assign => "=",
            TokenType::Plus => "+",
            TokenType::Minus => "-",
            TokenType::Bang => "!",
            TokenType::Asterisk => "*",
            TokenType::Slash => "/",
            TokenType::Eq => "==",
            TokenType::NotEq => "!=",
            TokenType::Lt => "<",
            TokenType::Gt => ">",
            TokenType::Comma => ",",
            TokenType::Semicolon => ";",
            TokenType::LParen => "(",
            TokenType::RParen => ")",
            TokenType::LBrace => "{",
            TokenType::RBrace => "}",
            TokenType::Function => "fn",
            TokenType::Let => "let",
            TokenType::True => "true",
            TokenType::False => "false",
            TokenType::If => "if",
            TokenType::Else => "else",
            TokenType::Return => "return",
        };
        proof {
            reveal_strlit("");
            reveal_strlit("^D");
            reveal_strlit("=");
            reveal_strlit("+");
            reveal_strlit("-");
            reveal_strlit("!");
            reveal_strlit("*");
            reveal_strlit("/");
            reveal_strlit("==");
            reveal_strlit("!=");
            reveal_strlit("<");
            reveal_strlit(">");
            reveal_strlit(",");
            reveal_strlit(";");
            reveal_strlit("(");
            reveal_strlit(")");
            reveal_strlit("{");
            reveal_strlit("}");
            reveal_strlit("fn");
            reveal_strlit("let");
            reveal_strlit("true");
            reveal_strlit("false");
            reveal_strlit("if");
            reveal_strlit("else");
            reveal_strlit("return");
        }
        let r = text_of(t);
        assert(r@ =~= self.spelling());
        r
    }
}

/// The keyword that a word spells, if it spells one.
pub open spec fn keyword_kind(w: Seq<char>) -> Option<TokenType> {
    if w == seq!['f', 'n'] {
        Some(TokenType::Function)
    } else if w == seq!['l', 'e', 't'] {
        Some(TokenType::Let)
    } else if w == seq!['t', 'r', 'u', 'e'] {
        Some(TokenType::True)
    } else if w == seq!['f', 'a', 'l', 's', 'e'] {
        Some(TokenType::False)
    } else if w == seq!['i', 'f'] {
        Some(TokenType::If)
    } else if w == seq!['e', 'l', 's', 'e'] {
        Some(TokenType::Else)
    } else if w == seq!['r', 'e', 't', 'u', 'r', 'n'] {
        Some(TokenType::Return)
    } else {
        None
    }
}

/// What a token is, as a value: its category and its text.
pub struct TokenModel {
    pub kind: TokenType,
    pub text: Seq<char>,
}

impl TokenModel {
    /// A token as it is shown: `^D` for the end of input, the source text for
    /// identifiers, integers and illegal characters, the spelling otherwise.
    pub open spec fn display(self) -> Seq<char> {
        match self.kind {
            TokenType::EOF => self.kind.spelling(),
            TokenType::Ident => self.text,
            TokenType::Int => self.text,
            TokenType::Illegal => self.text,
            _ => self.kind.spelling(),
        }
    }
}

/// One lexical unit: its category and the exact source text it was read from.
#[derive(Debug, Clone)]
pub struct Token {
    pub token_type: TokenType,
    pub literal: String,
}

impl View for Token {
    type V = TokenModel;

    open spec fn view(&self) -> TokenModel {
        TokenModel { kind: self.token_type, text: self.literal@ }
    }
}

impl Token {
    pub fn new(token_type: TokenType, literal: String) -> (r: Token)
        ensures
            r.token_type == token_type,
            r.literal == literal,
    {
        Token { token_type, literal }
    }

    /// A copy of this token.
    pub fn duplicate(&self) -> (r: Token)
        ensures
            r == *self,
    {
        Token { token_type: self.token_type, literal: self.literal.clone() }
    }

    /// The token as it is shown (see `TokenModel::display`).
    pub fn to_string(&self) -> (r: String)
        ensures
            r@ == self@.display(),
    {
        match self.token_type {
            TokenType::Ident | TokenType::Int | TokenType::Illegal => self.literal.clone(),
            _ => self.token_type.to_string(),
        }
    }
}

/// Whether `ident` spells `w`, character by character.
fn spells(ident: &[char], w: &str) -> (r: bool)
    ensures
        r == (ident@ == w@),
{
    let wc = crate::text::chars_of(w);
    if ident.len() != wc.len() {
        return false;
    }
    let mut i: usize = 0;
    while i < ident.len()
        invariant
            ident@.len() == wc@.len(),
            wc@ == w@,
            i <= ident@.len(),
            forall|k: int| 0 <= k < i ==> ident@[k] == wc@[k],
        decreases ident.len() - i,
    {
        if ident[i] != wc[i] {
            return false;
        }
        i += 1;
    }
    assert(ident@ =~= w@);
    true
}

/// The keyword token type that `ident` spells.
pub fn lookup_keyword(ident: &[char]) -> (r: Result<TokenType, &'static str>)
    ensures
        r matches Ok(k) ==> keyword_kind(ident@) == Some(k),
        r is Err <==> keyword_kind(ident@) is None,
{
    proof {
        reveal_strlit("fn");
        reveal_strlit("let");
        reveal_strlit("true");
        reveal_strlit("false");
        reveal_strlit("if");
        reveal_strlit("else");
        reveal_strlit("return");
        assert("fn"@ =~= seq!['f', 'n']);
        assert("let"@ =~= seq!['l', 'e', 't']);
        assert("true"@ =~= seq!['t', 'r', 'u', 'e']);
        assert("false"@ =~= seq!['f', 'a', 'l', 's', 'e']);
        assert("if"@ =~= seq!['i', 'f']);
        assert("else"@ =~= seq!['e', 'l', 's', 'e']);
        assert("return"@ =~= seq!['r', 'e', 't', 'u', 'r', 'n']);
    }
    if spells(ident, "fn") {
        Ok(TokenType::Function)
    } else if spells(ident, "let") {
        Ok(TokenType::Let)
    } else if spells(ident, "true") {
        Ok(TokenType::True)
    } else if spells(ident, "false") {
        Ok(TokenType::False)
    } else if spells(ident, "if") {
        Ok(TokenType::If)
    } else if spells(ident, "else") {
        Ok(TokenType::Else)
    } else if spells(ident, "return") {
        Ok(TokenType::Return)
    } else {
        Err("Could not find token")
    }
}

/// Whether `ident` is one of the keywords.
pub fn is_keyword(ident: &[char]) -> (r: bool)
    ensures
        r == keyword_kind(ident@) is Some,
{
    lookup_keyword(ident).is_ok()
}

/// A token of category `kind` whose text is `chars[from..to]`.
pub(crate) fn token_from_chars(kind: TokenType, chars: &Vec<char>, from: usize, to: usize) -> (r:
    Token)
    requires
        from <= to <= chars@.len(),
    ensures
        r@ == (TokenModel { kind, text: chars@.subrange(from as int, to as int) }),
{
    Token { token_type: kind, literal: string_from_chars(chars, from, to) }
}

} // verus!
