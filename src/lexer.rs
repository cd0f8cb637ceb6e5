//! The lexer: reads source text one token at a time, on demand.
//!
//! `token_at(s, i)` is the model: the token that starts at or after position
//! `i` of the characters `s` (whitespace skipped), and the position after it.

use vstd::prelude::*;

use crate::text::{chars_of, push_text};
use crate::token::{is_keyword, keyword_kind, lookup_keyword, token_from_chars, Token, TokenModel, TokenType};

verus! {

/// ASCII letters and the underscore: the characters of an identifier.
pub open spec fn is_letter_char(c: char) -> bool {
    ('a' <= c && c <= 'z') || ('A' <= c && c <= 'Z') || c == '_'
}

pub open spec fn is_digit_char(c: char) -> bool {
    '0' <= c && c <= '9'
}

pub open spec fn is_space_char(c: char) -> bool {
    c == ' ' || c == '\t' || c == '\n' || c == '\r'
}

/// The character at position `i`, or NUL past the end of the input.
pub open spec fn char_at(s: Seq<char>, i: int) -> char {
    if 0 <= i < s.len() {
        s[i]
    } else {
        '\0'
    }
}

/// The symbols that are a token on their own, whatever follows them.
pub open spec fn single_char_kind(c: char) -> Option<TokenType> {
    if c == '+' {
        Some(TokenType::Plus)
    } else if c == '-' {
        Some(TokenType::Minus)
    } else if c == '*' {
        Some(TokenType::Asterisk)
    } else if c == '/' {
        Some(TokenType::Slash)
    } else if c == '<' {
        Some(TokenType::Lt)
    } else if c == '>' {
        Some(TokenType::Gt)
    } else if c == ',' {
        Some(TokenType::Comma)
    } else if c == ';' {
        Some(TokenType::Semicolon)
    } else if c == '(' {
        Some(TokenType::LParen)
    } else if c == ')' {
        Some(TokenType::RParen)
    } else if c == '{' {
        Some(TokenType::LBrace)
    } else if c == '}' {
        Some(TokenType::RBrace)
    } else {
        None
    }
}

/// The first position at or after `i` that does not hold whitespace.
pub open spec fn skip_spaces(s: Seq<char>, i: nat) -> nat
    decreases s.len() - i,
{
    if i < s.len() && is_space_char(s[i as int]) {
        skip_spaces(s, i + 1)
    } else {
        i
    }
}

/// The first position at or after `i` that does not hold a letter.
pub open spec fn letters_end(s: Seq<char>, i: nat) -> nat
    decreases s.len() - i,
{
    if i < s.len() && is_letter_char(s[i as int]) {
        letters_end(s, i + 1)
    } else {
        i
    }
}

/// The first position at or after `i` that does not hold a digit.
pub open spec fn digits_end(s: Seq<char>, i: nat) -> nat
    decreases s.len() - i,
{
    if i < s.len() && is_digit_char(s[i as int]) {
        digits_end(s, i + 1)
    } else {
        i
    }
}

/// A token of category `kind` read from `s[from..to]`, and the position `to`.
pub open spec fn lexeme(kind: TokenType, s: Seq<char>, from: nat, to: nat) -> (TokenModel, nat) {
    (TokenModel { kind, text: s.subrange(from as int, to as int) }, to)
}

/// The token that the lexer reads from position `i` of `s`, and the position
/// after it.
pub open spec fn token_at(s: Seq<char>, i: nat) -> (TokenModel, nat) {
    let j = skip_spaces(s, i);
    if j >= s.len() {
        (TokenModel { kind: TokenType::EOF, text: seq![] }, j)
    } else {
        let c = s[j as int];
        if c == '=' {
            if char_at(s, j + 1int) == '=' {
                lexeme(TokenType::Eq, s, j, j + 2)
            } else {
                lexeme(TokenType::Assign, s, j, j + 1)
            }
        } else if c == '!' {
            if char_at(s, j + 1int) == '=' {
                lexeme(TokenType::NotEq, s, j, j + 2)
            } else {
                lexeme(TokenType::Bang, s, j, j + 1)
            }
        } else if single_char_kind(c) is Some {
            lexeme(single_char_kind(c)->0, s, j, j + 1)
        } else if is_letter_char(c) {
            let e = letters_end(s, j);
            let w = s.subrange(j as int, e as int);
            match keyword_kind(w) {
                Some(k) => lexeme(k, s, j, e),
                None => lexeme(TokenType::Ident, s, j, e),
            }
        } else if is_digit_char(c) {
            lexeme(TokenType::Int, s, j, digits_end(s, j))
        } else {
            lexeme(TokenType::Illegal, s, j, j + 1)
        }
    }
}

/// The message that reports an illegal character.
pub open spec fn illegal_message(text: Seq<char>) -> Seq<char> {
    "illegal character: "@ + text
}

pub proof fn lemma_skip_spaces(s: Seq<char>, i: nat)
    ensures
        i <= skip_spaces(s, i),
        i <= s.len() ==> skip_spaces(s, i) <= s.len(),
        forall|k: int| i <= k < skip_spaces(s, i) ==> is_space_char(#[trigger] s[k]),
        skip_spaces(s, i) < s.len() ==> !is_space_char(s[skip_spaces(s, i) as int]),
    decreases s.len() - i,
{
    if i < s.len() && is_space_char(s[i as int]) {
        lemma_skip_spaces(s, i + 1);
    }
}

pub proof fn lemma_letters_end(s: Seq<char>, i: nat)
    ensures
        i <= letters_end(s, i),
        i <= s.len() ==> letters_end(s, i) <= s.len(),
        forall|k: int| i <= k < letters_end(s, i) ==> is_letter_char(#[trigger] s[k]),
        letters_end(s, i) < s.len() ==> !is_letter_char(s[letters_end(s, i) as int]),
    decreases s.len() - i,
{
    if i < s.len() && is_letter_char(s[i as int]) {
        lemma_letters_end(s, i + 1);
    }
}

pub proof fn lemma_digits_end(s: Seq<char>, i: nat)
    ensures
        i <= digits_end(s, i),
        i <= s.len() ==> digits_end(s, i) <= s.len(),
        forall|k: int| i <= k < digits_end(s, i) ==> is_digit_char(#[trigger] s[k]),
        digits_end(s, i) < s.len() ==> !is_digit_char(s[digits_end(s, i) as int]),
    decreases s.len() - i,
{
    if i < s.len() && is_digit_char(s[i as int]) {
        lemma_digits_end(s, i + 1);
    }
}

/// Reading a token never moves back and stays within the input; it moves
/// forward unless the input is used up, and then it stays at the end.
pub proof fn lemma_token_at_progress(s: Seq<char>, i: nat)
    requires
        i <= s.len(),
    ensures
        i <= token_at(s, i).1 <= s.len(),
        token_at(s, i).0.kind == TokenType::EOF <==> skip_spaces(s, i) == s.len(),
        token_at(s, i).0.kind == TokenType::EOF ==> token_at(s, i).1 == s.len(),
        token_at(s, i).0.kind != TokenType::EOF ==> i < token_at(s, i).1,
{
    lemma_skip_spaces(s, i);
    let j = skip_spaces(s, i);
    if j < s.len() {
        lemma_letters_end(s, j);
        lemma_digits_end(s, j);
        let c = s[j as int];
        if c == '=' || c == '!' {
            if char_at(s, j + 1int) == '=' {
                assert(j + 1 < s.len());
            }
        }
    }
}

/// The operator and delimiter characters, with the token each makes alone.
pub open spec fn symbol_kind(c: char) -> Option<TokenType> {
    if c == '=' {
        Some(TokenType::Assign)
    } else if c == '!' {
        Some(TokenType::Bang)
    } else {
        single_char_kind(c)
    }
}

/// A character that starts no token: no whitespace, symbol, letter or digit.
pub open spec fn is_illegal_char(c: char) -> bool {
    !is_space_char(c) && symbol_kind(c) is None && !is_letter_char(c) && !is_digit_char(c)
}

/// Whether some character of `s[from..to]` is illegal.
pub open spec fn has_illegal(s: Seq<char>, from: int, to: int) -> bool {
    exists|k: int| from <= k < to && 0 <= k < s.len() && is_illegal_char(#[trigger] s[k])
}

/// An operator or delimiter on its own lexes as one token of its kind whose
/// text is that character; the end of input follows.
pub proof fn lemma_single_symbol(c: char)
    requires
        symbol_kind(c) is Some,
    ensures
        token_at(seq![c], 0) == (TokenModel { kind: symbol_kind(c)->0, text: seq![c] }, 1nat),
        token_at(seq![c], 1).0.kind == TokenType::EOF,
        token_at(seq![c], 1).1 == 1,
{
    let s = seq![c];
    assert(skip_spaces(s, 0) == 0);
    assert(skip_spaces(s, 1) == 1);
    assert(s.subrange(0, 1) =~= s);
}

/// `==` and `!=` lex as one token of two characters, wherever they stand.
pub proof fn lemma_two_char_operators(s: Seq<char>, i: nat)
    requires
        skip_spaces(s, i) + 1 < s.len(),
        s[skip_spaces(s, i) as int] == '=' || s[skip_spaces(s, i) as int] == '!',
        s[skip_spaces(s, i) + 1int] == '=',
    ensures
        ({
            let j = skip_spaces(s, i);
            &&& token_at(s, i).0 == TokenModel {
                kind: if s[j as int] == '=' {
                    TokenType::Eq
                } else {
                    TokenType::NotEq
                },
                text: seq![s[j as int], '='],
            }
            &&& token_at(s, i).1 == j + 2
        }),
{
    let j = skip_spaces(s, i);
    assert(s.subrange(j as int, j + 2int) =~= seq![s[j as int], '=']);
}

/// A word of letters lexes as its keyword if it is one, and otherwise as an
/// identifier that carries exactly that text.
pub proof fn lemma_word(w: Seq<char>)
    requires
        w.len() > 0,
        forall|k: int| 0 <= k < w.len() ==> is_letter_char(#[trigger] w[k]),
    ensures
        token_at(w, 0) == (TokenModel {
            kind: match keyword_kind(w) {
                Some(k) => k,
                None => TokenType::Ident,
            },
            text: w,
        }, w.len()),
{
    assert(is_letter_char(w[0]));
    assert(skip_spaces(w, 0) == 0);
    lemma_letters_to_end(w, 0);
    assert(w.subrange(0, w.len() as int) =~= w);
}

proof fn lemma_letters_to_end(w: Seq<char>, i: nat)
    requires
        i <= w.len(),
        forall|k: int| 0 <= k < w.len() ==> is_letter_char(#[trigger] w[k]),
    ensures
        letters_end(w, i) == w.len(),
    decreases w.len() - i,
{
    if i < w.len() {
        lemma_letters_to_end(w, i + 1);
    }
}

/// Once only whitespace is left, the lexer gives the end of input and stays
/// at the end, however often it is asked again.
pub proof fn lemma_end_of_input(s: Seq<char>, i: nat)
    requires
        skip_spaces(s, i) == s.len(),
    ensures
        token_at(s, i) == (TokenModel { kind: TokenType::EOF, text: Seq::<char>::empty() }, s.len()),
        token_at(s, s.len()) == token_at(s, i),
{
}

/// A token that passes over an illegal character is that illegal character:
/// no other token takes one in.
pub proof fn lemma_illegal_not_skipped(s: Seq<char>, i: nat)
    requires
        i <= s.len(),
        has_illegal(s, i as int, token_at(s, i).1 as int),
    ensures
        token_at(s, i).0.kind == TokenType::Illegal,
{
    lemma_skip_spaces(s, i);
    let j = skip_spaces(s, i);
    let k = choose|k: int|
        i <= k < token_at(s, i).1 && 0 <= k < s.len() && is_illegal_char(#[trigger] s[k]);
    if j < s.len() {
        lemma_letters_end(s, j);
        lemma_digits_end(s, j);
        if k >= j {
            let c = s[j as int];
            if is_illegal_char(c) {
            } else if c == '=' || c == '!' {
                assert(k == j || k == j + 1);
            } else if single_char_kind(c) is Some {
                assert(k == j);
            } else if is_letter_char(c) {
                assert(is_letter_char(s[k]));
            } else {
                assert(is_digit_char(s[k]));
            }
        }
    }
}

/// The state of a lexer: the input, the position of the current character,
/// the position of the next one, and the current character itself.
#[derive(Debug)]
pub struct Lexer {
    input: Vec<char>,
    position: usize,
    read_position: usize,
    ch: char,
}

impl Lexer {
    /// The characters being read.
    pub closed spec fn source(&self) -> Seq<char> {
        self.input@
    }

    /// The position of the current character.
    pub closed spec fn cursor(&self) -> nat {
        self.position as nat
    }

    /// The cursor lies within the input (or just past it), the next position
    /// follows it without leaving the input, and the current character is the
    /// one under the cursor (NUL past the end).
    pub closed spec fn wf(&self) -> bool {
        &&& self.position <= self.input@.len()
        &&& self.read_position == if self.position < self.input@.len() {
            self.position + 1
        } else {
            self.position as int
        }
        &&& self.ch == char_at(self.input@, self.position as int)
    }

    pub proof fn lemma_cursor_in_bounds(&self)
        requires
            self.wf(),
        ensures
            self.cursor() <= self.source().len(),
    {
    }

    pub fn new(input: String) -> (l: Lexer)
        ensures
            l.wf(),
            l.source() == input@,
            l.cursor() == 0,
    {
        let input = chars_of(input.as_str());
        let (ch, read_position) = if input.len() > 0 {
            (input[0], 1)
        } else {
            ('\0', 0)
        };
        Lexer { input, position: 0, read_position, ch }
    }

    /// Moves to the next character; past the end the cursor stays put.
    pub fn read_char(&mut self)
        requires
            old(self).wf(),
        ensures
            final(self).wf(),
            final(self).source() == old(self).source(),
            final(self).cursor() == if old(self).cursor() < old(self).source().len() {
                old(self).cursor() + 1int
            } else {
                old(self).cursor() as int
            },
    {
        if self.read_position < self.input.len() {
            self.ch = self.input[self.read_position];
            self.position = self.read_position;
            self.read_position = self.read_position + 1;
        } else {
            self.ch = '\0';
            self.position = self.input.len();
            self.read_position = self.input.len();
        }
    }

    /// The character after the current one, NUL past the end.
    fn peek_char(&self) -> (c: char)
        requires
            self.wf(),
        ensures
            c == char_at(self.source(), self.cursor() + 1int),
    {
        if self.read_position < self.input.len() && self.position < self.input.len() {
            self.input[self.read_position]
        } else {
            '\0'
        }
    }

    fn skip_whitespace(&mut self)
        requires
            old(self).wf(),
        ensures
            final(self).wf(),
            final(self).source() == old(self).source(),
            final(self).cursor() == skip_spaces(old(self).source(), old(self).cursor()),
    {
        while self.position < self.input.len() && is_space(self.ch)
            invariant
                self.wf(),
                self.source() == old(self).source(),
                skip_spaces(self.source(), self.cursor()) == skip_spaces(
                    old(self).source(),
                    old(self).cursor(),
                ),
            decreases self.source().len() - self.cursor(),
        {
            self.read_char();
        }
    }

    /// Reads the letters from the cursor on; returns where they began.
    fn read_identifier(&mut self) -> (start: usize)
        requires
            old(self).wf(),
        ensures
            final(self).wf(),
            final(self).source() == old(self).source(),
            start == old(self).cursor(),
            final(self).cursor() == letters_end(old(self).source(), old(self).cursor()),
    {
        let start = self.position;
        while self.position < self.input.len() && is_letter(self.ch)
            invariant
                self.wf(),
                self.source() == old(self).source(),
                letters_end(self.source(), self.cursor()) == letters_end(
                    old(self).source(),
                    old(self).cursor(),
                ),
            decreases self.source().len() - self.cursor(),
        {
            self.read_char();
        }
        start
    }

    /// Reads the digits from the cursor on; returns where they began.
    fn read_number(&mut self) -> (start: usize)
        requires
            old(self).wf(),
        ensures
            final(self).wf(),
            final(self).source() == old(self).source(),
            start == old(self).cursor(),
            final(self).cursor() == digits_end(old(self).source(), old(self).cursor()),
    {
        let start = self.position;
        while self.position < self.input.len() && is_digit(self.ch)
            invariant
                self.wf(),
                self.source() == old(self).source(),
                digits_end(self.source(), self.cursor()) == digits_end(
                    old(self).source(),
                    old(self).cursor(),
                ),
            decreases self.source().len() - self.cursor(),
        {
            self.read_char();
        }
        start
    }

    /// Reads the next token, an illegal character included, and moves past it.
    pub fn read_token(&mut self) -> (t: Token)
        requires
            old(self).wf(),
        ensures
            final(self).wf(),
            final(self).source() == old(self).source(),
            t@ == token_at(old(self).source(), old(self).cursor()).0,
            final(self).cursor() == token_at(old(self).source(), old(self).cursor()).1,
    {
        self.skip_whitespace();
        let j = self.position;
        if j >= self.input.len() {
            return Token::new(TokenType::EOF, String::new());
        }
        let c = self.ch;
        if c == '=' || c == '!' {
            let two = self.peek_char() == '=';
            let kind = if c == '=' {
                if two {
                    TokenType::Eq
                } else {
                    TokenType::Assign
                }
            } else {
                if two {
                    TokenType::NotEq
                } else {
                    TokenType::Bang
                }
            };
            if two {
                self.read_char();
            }
            self.read_char();
            return token_from_chars(kind, &self.input, j, self.position);
        }
        match single_char(c) {
            Some(kind) => {
                self.read_char();
                return token_from_chars(kind, &self.input, j, self.position);
            },
            None => {},
        }
        if is_letter(c) {
            let ghost s0 = self.source();
            let start = self.read_identifier();
            proof {
                lemma_letters_end(s0, start as nat);
            }
            let word = token_from_chars(TokenType::Ident, &self.input, start, self.position);
            let chars = self.input_slice(start, self.position);
            if is_keyword(chars.as_slice()) {
                match lookup_keyword(chars.as_slice()) {
                    Ok(k) => Token::new(k, word.literal),
                    Err(_) => word,
                }
            } else {
                word
            }
        } else if is_digit(c) {
            let ghost s0 = self.source();
            let start = self.read_number();
            proof {
                lemma_digits_end(s0, start as nat);
            }
            token_from_chars(TokenType::Int, &self.input, start, self.position)
        } else {
            self.read_char();
            token_from_chars(TokenType::Illegal, &self.input, j, self.position)
        }
    }

    /// A copy of the characters `input[from..to]`.
    fn input_slice(&self, from: usize, to: usize) -> (r: Vec<char>)
        requires
            from <= to <= self.source().len(),
        ensures
            r@ == self.source().subrange(from as int, to as int),
    {
        let mut r: Vec<char> = Vec::new();
        let mut i = from;
        while i < to
            invariant
                from <= i <= to <= self.input@.len(),
                r@ == self.input@.subrange(from as int, i as int),
            decreases to - i,
        {
            r.push(self.input[i]);
            assert(self.input@.subrange(from as int, i + 1) =~= r@);
            i += 1;
        }
        r
    }

    /// Reads the next token; an illegal character is reported as an error
    /// (and passed over, so that reading can go on).
    pub fn next_token(&mut self) -> (r: Result<Token, String>)
        requires
            old(self).wf(),
        ensures
            final(self).wf(),
            final(self).source() == old(self).source(),
            final(self).cursor() == token_at(old(self).source(), old(self).cursor()).1,
            ({
                let t = token_at(old(self).source(), old(self).cursor()).0;
                match r {
                    Ok(tok) => t.kind != TokenType::Illegal && tok@ == t,
                    Err(m) => t.kind == TokenType::Illegal && m@ == illegal_message(t.text),
                }
            }),
    {
        let t = self.read_token();
        if t.token_type == TokenType::Illegal {
            Err(illegal_character_message(&t))
        } else {
            Ok(t)
        }
    }
}

/// The message that reports the illegal character `t`.
pub fn illegal_character_message(t: &Token) -> (m: String)
    ensures
        m@ == illegal_message(t@.text),
{
    let mut m = String::new();
    push_text(&mut m, "illegal character: ");
    push_text(&mut m, t.literal.as_str());
    assert(m@ =~= illegal_message(t@.text));
    m
}

fn is_letter(ch: char) -> (r: bool)
    ensures
        r == is_letter_char(ch),
{
    ('a' <= ch && ch <= 'z') || ('A' <= ch && ch <= 'Z') || ch == '_'
}

fn is_digit(ch: char) -> (r: bool)
    ensures
        r == is_digit_char(ch),
{
    '0' <= ch && ch <= '9'
}

fn is_space(ch: char) -> (r: bool)
    ensures
        r == is_space_char(ch),
{
    ch == ' ' || ch == '\t' || ch == '\n' || ch == '\r'
}

fn single_char(c: char) -> (r: Option<TokenType>)
    ensures
        r == single_char_kind(c),
{
    if c == '+' {
        Some(TokenType::Plus)
    } else if c == '-' {
        Some(TokenType::Minus)
    } else if c == '*' {
        Some(TokenType::Asterisk)
    } else if c == '/' {
        Some(TokenType::Slash)
    } else if c == '<' {
        Some(TokenType::Lt)
    } else if c == '>' {
        Some(TokenType::Gt)
    } else if c == ',' {
        Some(TokenType::Comma)
    } else if c == ';' {
        Some(TokenType::Semicolon)
    } else if c == '(' {
        Some(TokenType::LParen)
    } else if c == ')' {
        Some(TokenType::RParen)
    } else if c == '{' {
        Some(TokenType::LBrace)
    } else if c == '}' {
        Some(TokenType::RBrace)
    } else {
        None
    }
}

} // verus!
