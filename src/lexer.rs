use crate::error::NomaError;
use crate::token::{Token, TokenType};
use vstd::prelude::*;

verus! {

/// Relies on std's `String::from_iter` over `&char`: the string holds the
/// given characters, in order.
#[verifier::external_body]
fn string_of(chars: &Vec<char>) -> (r: String)
    ensures
        r@ == chars@,
{
    String::from_iter(chars.iter())
}

/// A letter or `_`: what an identifier starts with.
pub open spec fn is_ident_start(c: char) -> bool {
    ('a' <= c && c <= 'z') || ('A' <= c && c <= 'Z') || c == '_'
}

/// A decimal digit.
pub open spec fn is_digit(c: char) -> bool {
    '0' <= c && c <= '9'
}

/// Blank characters between tokens.
pub open spec fn is_blank(c: char) -> bool {
    c == ' ' || c == '\t' || c == '\r' || c == '\n'
}

/// Only the last token of a stream is `Eof`, and there is one.
pub open spec fn ends_with_eof<V>(tokens: Seq<Token<V>>) -> bool {
    &&& tokens.len() > 0
    &&& tokens.last().token_type is Eof
    &&& forall|i: int| 0 <= i < tokens.len() - 1 ==> !((#[trigger] tokens[i]).token_type is Eof)
}

/// Only blanks follow position `start`.
pub open spec fn blank_from(chars: Seq<char>, start: int) -> bool {
    forall|i: int| start <= i < chars.len() ==> is_blank(#[trigger] chars[i])
}

/// Every token has a position: line and column count from 1.
pub open spec fn positioned<V>(tokens: Seq<Token<V>>) -> bool {
    forall|i: int| 0 <= i < tokens.len() ==> (#[trigger] tokens[i]).line >= 1 && tokens[i].column >= 1
}

/// Scanner from source characters to tokens, tracking line and column
/// (both from 1).
pub struct Lexer {
    chars: Vec<char>,
    pos: usize,
    line: usize,
    column: usize,
}

impl Lexer {
    /// The source characters.
    pub closed spec fn spec_chars(&self) -> Seq<char> {
        self.chars@
    }

    /// The position of the next character to read.
    pub closed spec fn spec_pos(&self) -> nat {
        self.pos as nat
    }

    /// The position stays within the source, and the line and column
    /// counters within the characters read so far.
    pub closed spec fn wf(&self) -> bool {
        &&& self.pos <= self.chars@.len() < usize::MAX
        &&& 1 <= self.line <= self.pos + 1
        &&& 1 <= self.column <= self.pos + 1
    }

    pub fn new(chars: Vec<char>) -> (r: Self)
        requires
            chars@.len() < usize::MAX,
        ensures
            r.wf(),
            r.spec_chars() == chars@,
            r.spec_pos() == 0,
    {
        Lexer { chars, pos: 0, line: 1, column: 1 }
    }

    fn at(&self, i: usize) -> (r: Option<char>)
        ensures
            i < self.chars@.len() ==> r == Some(self.chars@[i as int]),
            i >= self.chars@.len() ==> r is None,
    {
        if i < self.chars.len() {
            Some(self.chars[i])
        } else {
            None
        }
    }

    fn bump(&mut self) -> (r: char)
        requires
            old(self).wf(),
            old(self).pos < old(self).chars@.len(),
        ensures
            final(self).wf(),
            final(self).chars@ == old(self).chars@,
            final(self).pos == old(self).pos + 1,
            r == old(self).chars@[old(self).pos as int],
    {
        let c = self.chars[self.pos];
        self.pos = self.pos + 1;
        if c == '\n' {
            self.line = self.line + 1;
            self.column = 1;
        } else {
            self.column = self.column + 1;
        }
        c
    }

    /// Skips blanks and `//` comments.
    fn skip_trivia(&mut self)
        requires
            old(self).wf(),
        ensures
            final(self).wf(),
            final(self).chars@ == old(self).chars@,
            final(self).pos >= old(self).pos,
            final(self).pos < final(self).chars@.len() ==> !is_blank(
                final(self).chars@[final(self).pos as int],
            ),
    {
        while self.pos < self.chars.len()
            invariant
                self.wf(),
                self.chars@ == old(self).chars@,
                self.pos >= old(self).pos,
            decreases self.chars@.len() - self.pos,
        {
            let c = self.chars[self.pos];
            if c == ' ' || c == '\t' || c == '\r' || c == '\n' {
                self.bump();
            } else if c == '/' && self.at(self.pos + 1) == Some('/') {
                let ghost start = self.pos;
                self.bump();
                self.bump();
                while self.pos < self.chars.len() && self.chars[self.pos] != '\n'
                    invariant
                        self.wf(),
                        self.chars@ == old(self).chars@,
                        self.pos > start >= old(self).pos,
                    decreases self.chars@.len() - self.pos,
                {
                    self.bump();
                }
            } else {
                return;
            }
        }
    }

    /// Reads an identifier: its first character, then those that continue it.
    fn take_word(&mut self) -> (r: Vec<char>)
        requires
            old(self).wf(),
            old(self).pos < old(self).chars@.len(),
        ensures
            final(self).wf(),
            final(self).chars@ == old(self).chars@,
            final(self).pos > old(self).pos,
            r@ == old(self).chars@.subrange(old(self).pos as int, final(self).pos as int),
    {
        let mut word: Vec<char> = Vec::new();
        let c = self.bump();
        word.push(c);
        assert(word@ == self.chars@.subrange(old(self).pos as int, self.pos as int));
        while self.pos < self.chars.len() && (is_letter(self.chars[self.pos]) || is_digit_char(
            self.chars[self.pos],
        ))
            invariant
                self.wf(),
                self.chars@ == old(self).chars@,
                self.pos > old(self).pos,
                word@ == self.chars@.subrange(old(self).pos as int, self.pos as int),
            decreases self.chars@.len() - self.pos,
        {
            let c = self.bump();
            word.push(c);
            assert(word@ == self.chars@.subrange(old(self).pos as int, self.pos as int));
        }
        word
    }

    /// Reads a number: its first digit, further digits, and a fraction
    /// where a `.` is followed by a digit.
    fn take_number(&mut self) -> (r: Vec<char>)
        requires
            old(self).wf(),
            old(self).pos < old(self).chars@.len(),
        ensures
            final(self).wf(),
            final(self).chars@ == old(self).chars@,
            final(self).pos > old(self).pos,
            r@ == old(self).chars@.subrange(old(self).pos as int, final(self).pos as int),
    {
        let mut text: Vec<char> = Vec::new();
        let c = self.bump();
        text.push(c);
        assert(text@ == self.chars@.subrange(old(self).pos as int, self.pos as int));
        let mut seen_point = false;
        loop
            invariant
                self.wf(),
                self.chars@ == old(self).chars@,
                self.pos > old(self).pos,
                text@ == self.chars@.subrange(old(self).pos as int, self.pos as int),
            decreases self.chars@.len() - self.pos,
        {
            let c = match self.at(self.pos) {
                Some(c) => c,
                None => break ,
            };
            let fraction = !seen_point && c == '.' && match self.at(self.pos + 1) {
                Some(d) => is_digit_char(d),
                None => false,
            };
            if fraction {
                seen_point = true;
            } else if !is_digit_char(c) {
                break ;
            }
            let c = self.bump();
            text.push(c);
            assert(text@ == self.chars@.subrange(old(self).pos as int, self.pos as int));
        }
        text
    }

    /// Reads one token; the next character is not blank.
    fn next_token<V: Copy, F: Fn(Vec<char>) -> Option<V>>(&mut self, number: &F) -> (r: Result<
        Token<V>,
        NomaError,
    >)
        requires
            old(self).wf(),
            old(self).pos < old(self).chars@.len(),
            forall|t: Vec<char>| call_requires(*number, (t,)),
        ensures
            final(self).wf(),
            final(self).chars@ == old(self).chars@,
            r is Ok ==> final(self).pos > old(self).pos && !(r->Ok_0.token_type is Eof),
            r is Ok ==> r->Ok_0.line >= 1 && r->Ok_0.column >= 1,
    {
        let line = self.line;
        let column = self.column;
        let c = self.chars[self.pos];
        if is_letter(c) {
            let word = self.take_word();
            let kind = keyword(&word);
            let kind = match kind {
                Some(k) => k,
                None => TokenType::Identifier(string_of(&word)),
            };
            return Ok(Token::new(kind, line, column));
        }
        if is_digit_char(c) {
            let text = self.take_number();
            return match number(text) {
                Some(v) => Ok(Token::new(TokenType::Number(v), line, column)),
                None => Err(
                    NomaError::LexError { message: "Invalid number".to_owned(), line, column },
                ),
            };
        }
        self.bump();
        let next_is_eq = self.at(self.pos) == Some('=');
        let kind = if c == '=' && next_is_eq {
            self.bump();
            TokenType::Equal
        } else if c == '!' && next_is_eq {
            self.bump();
            TokenType::NotEq
        } else if c == '<' && next_is_eq {
            self.bump();
            TokenType::LtEq
        } else if c == '>' && next_is_eq {
            self.bump();
            TokenType::GtEq
        } else if c == '=' {
            TokenType::Assign
        } else if c == '<' {
            TokenType::Lt
        } else if c == '>' {
            TokenType::Gt
        } else if c == '(' {
            TokenType::LParen
        } else if c == ')' {
            TokenType::RParen
        } else if c == '{' {
            TokenType::LBrace
        } else if c == '}' {
            TokenType::RBrace
        } else if c == ',' {
            TokenType::Comma
        } else if c == ':' {
            TokenType::Colon
        } else if c == ';' {
            TokenType::Semicolon
        } else if c == '+' {
            TokenType::Plus
        } else if c == '-' {
            TokenType::Minus
        } else if c == '*' {
            TokenType::Star
        } else if c == '/' {
            TokenType::Slash
        } else if c == '%' {
            TokenType::Percent
        } else if c == '^' {
            TokenType::Caret
        } else {
            return Err(
                NomaError::LexError { message: "Unexpected character".to_owned(), line, column },
            );
        };
        Ok(Token::new(kind, line, column))
    }

    /// Scans the whole source; `number` turns a literal's characters into a
    /// scalar. The tokens end with a single `Eof`.
    pub fn tokenize<V: Copy, F: Fn(Vec<char>) -> Option<V>>(&mut self, number: &F) -> (r: Result<
        Vec<Token<V>>,
        NomaError,
    >)
        requires
            old(self).wf(),
            forall|t: Vec<char>| call_requires(*number, (t,)),
        ensures
            final(self).wf(),
            final(self).spec_chars() == old(self).spec_chars(),
            r is Ok ==> ends_with_eof(r->Ok_0@) && positioned(r->Ok_0@),
            blank_from(old(self).spec_chars(), old(self).spec_pos() as int) ==> r is Ok && r->Ok_0@.len()
                == 1,
    {
        let mut tokens: Vec<Token<V>> = Vec::new();
        loop
            invariant
                self.wf(),
                self.chars@ == old(self).chars@,
                self.pos >= old(self).pos,
                forall|t: Vec<char>| call_requires(*number, (t,)),
                forall|i: int| 0 <= i < tokens@.len() ==> !((#[trigger] tokens@[i]).token_type is Eof),
                positioned(tokens@),
                blank_from(self.chars@, old(self).pos as int) ==> tokens@.len() == 0,
            decreases self.chars@.len() - self.pos,
        {
            self.skip_trivia();
            if self.pos >= self.chars.len() {
                break ;
            }
            assert(!is_blank(self.chars@[self.pos as int]));
            let t = self.next_token(number)?;
            tokens.push(t);
        }
        tokens.push(Token::new(TokenType::Eof, self.line, self.column));
        Ok(tokens)
    }
}

fn is_letter(c: char) -> (r: bool)
    ensures
        r == is_ident_start(c),
{
    ('a' <= c && c <= 'z') || ('A' <= c && c <= 'Z') || c == '_'
}

fn is_digit_char(c: char) -> (r: bool)
    ensures
        r == is_digit(c),
{
    '0' <= c && c <= '9'
}

fn same_chars(a: &Vec<char>, b: &Vec<char>) -> (r: bool)
    ensures
        r == (a@ == b@),
{
    if a.len() != b.len() {
        return false;
    }
    let mut i: usize = 0;
    while i < a.len()
        invariant
            a@.len() == b@.len(),
            i <= a@.len(),
            a@.take(i as int) == b@.take(i as int),
        decreases a@.len() - i,
    {
        if a[i] != b[i] {
            assert(a@[i as int] != b@[i as int]);
            return false;
        }
        assert(a@.take(i + 1) == a@.take(i as int).push(a@[i as int]));
        assert(b@.take(i + 1) == b@.take(i as int).push(b@[i as int]));
        i = i + 1;
    }
    assert(a@.take(i as int) == a@);
    assert(b@.take(i as int) == b@);
    true
}

/// The keyword a word spells, if any.
fn keyword<V>(word: &Vec<char>) -> (r: Option<TokenType<V>>)
    ensures
        r is Some ==> !(r->Some_0 is Eof) && !(r->Some_0 is Identifier) && !(r->Some_0 is Number),
{
    if same_chars(word, &vec!['f', 'n']) {
        Some(TokenType::Fn)
    } else if same_chars(word, &vec!['s', 't', 'r', 'u', 'c', 't']) {
        Some(TokenType::Struct)
    } else if same_chars(word, &vec!['l', 'e', 'a', 'r', 'n']) {
        Some(TokenType::Learn)
    } else if same_chars(word, &vec!['l', 'e', 't']) {
        Some(TokenType::Let)
    } else if same_chars(word, &vec!['m', 'i', 'n', 'i', 'm', 'i', 'z', 'e']) {
        Some(TokenType::Minimize)
    } else if same_chars(word, &vec!['r', 'e', 't', 'u', 'r', 'n']) {
        Some(TokenType::Return)
    } else {
        None
    }
}

} // verus!
