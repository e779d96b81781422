//! The tokenizer: turns query text into located tokens.
//!
//! What it produces is stated by [`lex`], a specification over the
//! characters of the query; [`Tokenizer::tokenize`] is proved to compute it.
use vstd::prelude::*;
use crate::error::TokenizeError;
use crate::laws::lemma_token_starts_increase;
use crate::str_scanner::Scanner;
use crate::text::{digits_value, is_ascii_letter, is_digit, push_char, push_chars, push_str};
use crate::token::{
    ascii_upper, keyword_of, lemma_long_word_is_no_keyword, upper, Keyword,
    ParsedToken, ParsedTokens, SpecToken, Token,
};

verus! {

pub open spec fn is_space(c: char) -> bool {
    c == ' ' || c == '\r' || c == '\n'
}

/// A character that may continue an identifier or keyword.
pub open spec fn is_word_char(c: char) -> bool {
    is_ascii_letter(c) || is_digit(c) || c == '_'
}

/// The first position from `i` on whose character does not satisfy `p`.
pub open spec fn run_end(s: Seq<char>, i: int, p: spec_fn(char) -> bool) -> int
    decreases s.len() - i,
{
    if 0 <= i < s.len() && p(s[i]) {
        run_end(s, i + 1, p)
    } else {
        i
    }
}

pub open spec fn space_end(s: Seq<char>, i: int) -> int {
    run_end(s, i, |c: char| is_space(c))
}

pub open spec fn word_end(s: Seq<char>, i: int) -> int {
    run_end(s, i, |c: char| is_word_char(c))
}

pub open spec fn digits_end(s: Seq<char>, i: int) -> int {
    run_end(s, i, |c: char| is_digit(c))
}

pub open spec fn zeros_end(s: Seq<char>, i: int) -> int {
    run_end(s, i, |c: char| c == '0')
}

/// The outcome of reading one token.
pub enum Lexed {
    /// Only spaces were left.
    End,
    /// A token, the position of its first character, and the position after it.
    Token(SpecToken, int, int),
    /// An error message and the position it is reported at.
    Failure(Seq<char>, int),
}

/// A keyword when the upper-cased word is one, otherwise an identifier in its own case.
pub open spec fn word_token(w: Seq<char>) -> SpecToken {
    match keyword_of(upper(w)) {
        Some(k) => SpecToken::Keyword(k),
        None => SpecToken::Identifier(w),
    }
}

/// The first `k` in `from..=e` at which the digits `s[z..k]` exceed `u64::MAX`.
pub open spec fn first_overflow(s: Seq<char>, z: int, from: int, e: int) -> Option<int>
    decreases e + 1 - from,
{
    if from > e || from < z {
        None
    } else if digits_value(s.subrange(z, from)) > u64::MAX {
        Some(from)
    } else {
        first_overflow(s, z, from + 1, e)
    }
}

/// An integer literal starting at `i`: leading zeros counted apart from the value.
pub open spec fn lex_number(s: Seq<char>, i: int) -> Lexed {
    let e = digits_end(s, i);
    let z = zeros_end(s, i);
    if z - i > u16::MAX {
        Lexed::Failure("too many zeros"@, i + u16::MAX)
    } else {
        match first_overflow(s, z, z + 1, e) {
            Some(k) => Lexed::Failure("too large number"@, k - 1),
            None => Lexed::Token(
                SpecToken::IntegerLiteral(
                    (z - i) as u16,
                    if z == e { None } else { Some(digits_value(s.subrange(z, e)) as u64) },
                ),
                i,
                e,
            ),
        }
    }
}

/// The character that a backslash escape stands for.
pub open spec fn escaped(c: char) -> Option<char> {
    if c == '\\' { Some('\\') }
    else if c == '\'' { Some('\'') }
    else if c == '"' { Some('"') }
    else if c == 'n' { Some('\n') }
    else if c == 't' { Some('\t') }
    else if c == 'r' { Some('\r') }
    else if c == '0' { Some('\0') }
    else { None }
}

/// A character that ends a string literal without being consumed.
pub open spec fn ends_string(c: char) -> bool {
    c == ';' || c == '=' || c == '>' || c == '<' || c == ',' || c == '.'
}

/// The rest of a string literal from position `i`, after the decoded `text`:
/// the full text and the position after the literal, or an error and its position.
pub open spec fn lex_string(s: Seq<char>, i: int, text: Seq<char>) -> Result<(Seq<char>, int), (Seq<char>, int)>
    decreases s.len() - i,
{
    if i < 0 || i >= s.len() {
        Err(("unexpected end of string literal"@, i))
    } else if s[i] == '\'' {
        if i + 1 >= s.len() {
            Ok((text, i + 1))
        } else if s[i + 1] == '\'' {
            lex_string(s, i + 2, text.push('\''))
        } else if ends_string(s[i + 1]) {
            Ok((text, i + 1))
        } else if is_space(s[i + 1]) {
            Ok((text, i + 2))
        } else {
            Err(("unexpected char "@.push(s[i + 1]) + " after text "@ + text, i + 1))
        }
    } else if s[i] == '\r' || s[i] == '\n' {
        Err(("unexpected newline in string literal"@, i))
    } else if s[i] == '\\' {
        if i + 1 >= s.len() {
            Err(("unexpected end of string literal"@, i + 1))
        } else {
            match escaped(s[i + 1]) {
                Some(d) => lex_string(s, i + 2, text.push(d)),
                None => Err(("unknown escape char "@.push(s[i + 1]), i + 1)),
            }
        }
    } else {
        lex_string(s, i + 1, text.push(s[i]))
    }
}

/// A single-character punctuation token.
pub open spec fn punctuation(c: char) -> Option<SpecToken> {
    if c == '=' { Some(SpecToken::Equal) }
    else if c == ';' { Some(SpecToken::Semicolon) }
    else if c == '.' { Some(SpecToken::Period) }
    else if c == ',' { Some(SpecToken::Comma) }
    else if c == '+' { Some(SpecToken::Plus) }
    else if c == '-' { Some(SpecToken::Minus) }
    else if c == '*' { Some(SpecToken::Multiply) }
    else if c == '/' { Some(SpecToken::Divide) }
    else if c == '(' { Some(SpecToken::LeftParenthesis) }
    else if c == ')' { Some(SpecToken::RightParenthesis) }
    else { None }
}

/// The token at the first non-space position from `i` on.
pub open spec fn next_token(s: Seq<char>, i: int) -> Lexed {
    let j = space_end(s, i);
    if j < 0 || j >= s.len() {
        Lexed::End
    } else {
        let c = s[j];
        let has_next = j + 1 < s.len();
        if is_ascii_letter(c) {
            Lexed::Token(word_token(s.subrange(j, word_end(s, j))), j, word_end(s, j))
        } else if c == '\'' {
            match lex_string(s, j + 1, Seq::empty()) {
                Ok((t, e)) => Lexed::Token(SpecToken::StringLiteral(t), j, e),
                Err((m, p)) => Lexed::Failure(m, p),
            }
        } else if is_digit(c) {
            lex_number(s, j)
        } else if punctuation(c) is Some {
            Lexed::Token(punctuation(c)->0, j, j + 1)
        } else if c == '<' {
            if has_next && s[j + 1] == '=' {
                Lexed::Token(SpecToken::LessThanOrEqual, j, j + 2)
            } else if has_next && s[j + 1] == '>' {
                Lexed::Token(SpecToken::NotEqual, j, j + 2)
            } else {
                Lexed::Token(SpecToken::LessThan, j, j + 1)
            }
        } else if c == '>' {
            if has_next && s[j + 1] == '=' {
                Lexed::Token(SpecToken::GreaterThanOrEqual, j, j + 2)
            } else {
                Lexed::Token(SpecToken::GreaterThan, j, j + 1)
            }
        } else if c == '!' {
            if !has_next {
                Lexed::Failure("unexpected end of sql"@, j + 1)
            } else if s[j + 1] == '=' {
                Lexed::Token(SpecToken::NotEqual, j, j + 2)
            } else {
                Lexed::Failure("unexpected char "@.push(s[j + 1]), j + 1)
            }
        } else {
            Lexed::Failure("unknown char "@.push(c), j)
        }
    }
}

/// The tokens from position `i` on, each with the position of its first
/// character, appended to `acc`; or the first error and its position.
pub open spec fn lex_from(s: Seq<char>, i: int, acc: Seq<(SpecToken, int)>) -> Result<Seq<(SpecToken, int)>, (Seq<char>, int)>
    decreases s.len() - i,
{
    match next_token(s, i) {
        Lexed::End => Ok(acc),
        Lexed::Token(t, start, e) => if i < e <= s.len() {
            lex_from(s, e, acc.push((t, start)))
        } else {
            // never taken: every token consumes at least one character
            Ok(acc)
        },
        Lexed::Failure(m, p) => Err((m, p)),
    }
}

/// The tokens of the whole text `s`.
pub open spec fn lex(s: Seq<char>) -> Result<Seq<(SpecToken, int)>, (Seq<char>, int)> {
    lex_from(s, 0, Seq::empty())
}

/// The located tokens `toks` are the specified tokens `spec` of the text `s`.
pub open spec fn tokens_match(toks: Seq<ParsedToken>, s: Seq<char>, spec: Seq<(SpecToken, int)>) -> bool {
    &&& toks.len() == spec.len()
    &&& forall|k: int| 0 <= k < toks.len() ==> {
        &&& (#[trigger] toks[k]).token@ == spec[k].0
        &&& toks[k].location.at(s, spec[k].1)
    }
}

pub proof fn lemma_run_end_bounds(s: Seq<char>, i: int, p: spec_fn(char) -> bool)
    requires
        0 <= i <= s.len(),
    ensures
        i <= run_end(s, i, p) <= s.len(),
        forall|k: int| i <= k < run_end(s, i, p) ==> p(s[k]),
        run_end(s, i, p) < s.len() ==> !p(s[run_end(s, i, p)]),
    decreases s.len() - i,
{
    if i < s.len() && p(s[i]) {
        lemma_run_end_bounds(s, i + 1, p);
    }
}

/// Reads SQL text into tokens.
pub struct Tokenizer {
    sql: String,
    scanner: Scanner,
}

impl Tokenizer {
    pub closed spec fn wf(&self) -> bool {
        &&& self.scanner.wf()
        &&& self.scanner.text() == self.sql@
        &&& 0 <= self.scanner.position() <= self.scanner.text().len()
    }

    /// The text being tokenized.
    pub closed spec fn text(&self) -> Seq<char> {
        self.sql@
    }

    /// How many characters have been read.
    pub closed spec fn position(&self) -> int {
        self.scanner.position()
    }

    pub fn new(sql: &str) -> (r: Tokenizer)
        requires
            sql@.len() < usize::MAX,
        ensures
            r.wf(),
            r.text() == sql@,
            r.position() == 0,
    {
        Tokenizer { sql: sql.to_owned(), scanner: Scanner::new(sql) }
    }

    /// The tokens of the rest of the text, or the first error.
    #[verifier::rlimit(30)]
    pub fn tokenize(&mut self) -> (r: Result<ParsedTokens, TokenizeError>)
        requires
            old(self).wf(),
        ensures
            final(self).wf(),
            final(self).text() == old(self).text(),
            r is Ok <==> lex_from(old(self).text(), old(self).position(), Seq::empty()) is Ok,
            r is Ok ==> {
                &&& tokens_match(r->Ok_0.tokens@, old(self).text(), lex_from(old(self).text(), old(self).position(), Seq::empty())->Ok_0)
                &&& r->Ok_0.raw_sql@ == old(self).text()
            },
            r is Err ==> {
                let (m, p) = lex_from(old(self).text(), old(self).position(), Seq::empty())->Err_0;
                &&& r->Err_0.message@ == m
                &&& r->Err_0.location.at(old(self).text(), p)
                &&& r->Err_0.raw_sql@ == old(self).text()
            },
    {
        let ghost s = self.sql@;
        let ghost p0 = self.position();
        let mut tokens: Vec<ParsedToken> = Vec::new();
        let ghost mut acc: Seq<(SpecToken, int)> = Seq::empty();
        loop
            invariant
                self.wf(),
                self.text() == s,
                old(self).text() == s,
                0 <= self.position() <= s.len(),
                lex_from(s, p0, Seq::empty()) == lex_from(s, self.position(), acc),
                old(self).position() == p0,
                tokens_match(tokens@, s, acc),
            decreases s.len() - self.position(),
        {
            let ghost before = self.position();
            match self.next_token() {
                Ok(Some(t)) => {
                    proof {
                        let (st, start, e) = match next_token(s, before) {
                            Lexed::Token(st, start, e) => (st, start, e),
                            _ => arbitrary(),
                        };
                        acc = acc.push((st, start));
                    }
                    tokens.push(t);
                },
                Ok(None) => {
                    return Ok(ParsedTokens::new(tokens, self.sql.as_str()));
                },
                Err(e) => {
                    return Err(e);
                },
            }
        }
    }

    /// The next token, `None` at the end of the text, or an error.
    #[verifier::rlimit(30)]
    fn next_token(&mut self) -> (r: Result<Option<ParsedToken>, TokenizeError>)
        requires
            old(self).wf(),
            0 <= old(self).position() <= old(self).text().len(),
        ensures
            final(self).wf(),
            final(self).text() == old(self).text(),
            0 <= final(self).position() <= final(self).text().len(),
            ({
                let s = old(self).text();
                match next_token(s, old(self).position()) {
                    Lexed::End => r == Ok::<Option<ParsedToken>, TokenizeError>(None),
                    Lexed::Token(t, start, e) => {
                        &&& r is Ok && r->Ok_0 is Some
                        &&& r->Ok_0->Some_0.token@ == t
                        &&& r->Ok_0->Some_0.location.at(s, start)
                        &&& final(self).position() == e
                        &&& old(self).position() < e
                    },
                    Lexed::Failure(m, p) => {
                        &&& r is Err
                        &&& r->Err_0.message@ == m
                        &&& r->Err_0.location.at(s, p)
                        &&& r->Err_0.raw_sql@ == s
                    },
                }
            }),
    {
        let ghost s = self.sql@;
        let ghost i = self.position();
        proof {
            lemma_run_end_bounds(s, i, |c: char| is_space(c));
        }
        loop
            invariant
                self.wf(),
                self.text() == s,
                old(self).text() == s,
                i <= self.position() <= s.len(),
                space_end(s, i) == space_end(s, self.position()),
                old(self).text() == s,
                old(self).position() == i,
                0 <= i,
            decreases s.len() - self.position(),
        {
            match self.scanner.peek() {
                None => {
                    return Ok(None);
                },
                Some(c) => {
                    if c == ' ' || c == '\r' || c == '\n' {
                        self.scanner.next();
                    } else {
                        let ghost j = self.position();
                        assert(space_end(s, i) == j);
                        if ('a' <= c && c <= 'z') || ('A' <= c && c <= 'Z') {
                            return Ok(Some(self.next_word()));
                        } else if c == '\'' {
                            return self.next_string();
                        } else if '0' <= c && c <= '9' {
                            return self.next_number(c);
                        } else if c == '=' {
                            return Ok(Some(self.token_and_next(Token::Equal)));
                        } else if c == ';' {
                            return Ok(Some(self.token_and_next(Token::Semicolon)));
                        } else if c == '.' {
                            return Ok(Some(self.token_and_next(Token::Period)));
                        } else if c == ',' {
                            return Ok(Some(self.token_and_next(Token::Comma)));
                        } else if c == '+' {
                            return Ok(Some(self.token_and_next(Token::Plus)));
                        } else if c == '-' {
                            return Ok(Some(self.token_and_next(Token::Minus)));
                        } else if c == '*' {
                            return Ok(Some(self.token_and_next(Token::Multiply)));
                        } else if c == '/' {
                            return Ok(Some(self.token_and_next(Token::Divide)));
                        } else if c == '(' {
                            return Ok(Some(self.token_and_next(Token::LeftParenthesis)));
                        } else if c == ')' {
                            return Ok(Some(self.token_and_next(Token::RightParenthesis)));
                        } else if c == '<' {
                            return Ok(Some(self.next_less()));
                        } else if c == '>' {
                            return Ok(Some(self.next_great()));
                        } else if c == '!' {
                            return self.next_bang();
                        } else {
                            let mut m = String::new();
                            push_str(&mut m, "unknown char ");
                            push_char(&mut m, c);
                            return Err(self.make_error(m));
                        }
                    }
                },
            }
        }
    }

    /// A one-character token at the current position.
    fn token_and_next(&mut self, token: Token) -> (r: ParsedToken)
        requires
            old(self).wf(),
            0 <= old(self).position() < old(self).text().len(),
        ensures
            final(self).wf(),
            final(self).text() == old(self).text(),
            final(self).position() == old(self).position() + 1,
            r.token == token,
            r.location.at(old(self).text(), old(self).position()),
    {
        let location = self.scanner.location();
        self.scanner.next();
        ParsedToken::new(token, location)
    }

    /// `<`, `<=` or `<>`.
    fn next_less(&mut self) -> (r: ParsedToken)
        requires
            old(self).wf(),
            0 <= old(self).position() < old(self).text().len(),
            old(self).text()[old(self).position()] == '<',
        ensures
            final(self).wf(),
            final(self).text() == old(self).text(),
            ({
                let s = old(self).text();
                let j = old(self).position();
                next_token(s, j) == Lexed::Token(r.token@, j, final(self).position())
            }),
            r.location.at(old(self).text(), old(self).position()),
            final(self).position() > old(self).position(),
    {
        let ghost s = self.sql@;
        let ghost j = self.position();
        proof { lemma_run_end_bounds(s, j, |c: char| is_space(c)); }
        let location = self.scanner.location();
        self.scanner.next();
        let token = match self.scanner.peek() {
            Some('=') => {
                self.scanner.next();
                Token::LessThanOrEqual
            },
            Some('>') => {
                self.scanner.next();
                Token::NotEqual
            },
            _ => Token::LessThan,
        };
        ParsedToken::new(token, location)
    }

    /// `>` or `>=`.
    fn next_great(&mut self) -> (r: ParsedToken)
        requires
            old(self).wf(),
            0 <= old(self).position() < old(self).text().len(),
            old(self).text()[old(self).position()] == '>',
        ensures
            final(self).wf(),
            final(self).text() == old(self).text(),
            ({
                let s = old(self).text();
                let j = old(self).position();
                next_token(s, j) == Lexed::Token(r.token@, j, final(self).position())
            }),
            r.location.at(old(self).text(), old(self).position()),
            final(self).position() > old(self).position(),
    {
        let ghost s = self.sql@;
        let ghost j = self.position();
        proof { lemma_run_end_bounds(s, j, |c: char| is_space(c)); }
        let location = self.scanner.location();
        self.scanner.next();
        let token = match self.scanner.peek() {
            Some('=') => {
                self.scanner.next();
                Token::GreaterThanOrEqual
            },
            _ => Token::GreaterThan,
        };
        ParsedToken::new(token, location)
    }

    /// `!=`; a `!` followed by anything else is an error.
    fn next_bang(&mut self) -> (r: Result<Option<ParsedToken>, TokenizeError>)
        requires
            old(self).wf(),
            0 <= old(self).position() < old(self).text().len(),
            old(self).text()[old(self).position()] == '!',
        ensures
            final(self).wf(),
            final(self).text() == old(self).text(),
            0 <= final(self).position() <= final(self).text().len(),
            ({
                let s = old(self).text();
                let j = old(self).position();
                match next_token(s, j) {
                    Lexed::Token(t, start, e) => {
                        &&& r is Ok && r->Ok_0 is Some
                        &&& r->Ok_0->Some_0.token@ == t
                        &&& r->Ok_0->Some_0.location.at(s, start)
                        &&& final(self).position() == e
                        &&& j < e
                    },
                    Lexed::Failure(m, p) => {
                        &&& r is Err
                        &&& r->Err_0.message@ == m
                        &&& r->Err_0.location.at(s, p)
                        &&& r->Err_0.raw_sql@ == s
                    },
                    Lexed::End => false,
                }
            }),
    {
        let ghost s = self.sql@;
        let ghost j = self.position();
        proof { lemma_run_end_bounds(s, j, |c: char| is_space(c)); }
        let location = self.scanner.location();
        self.scanner.next();
        match self.scanner.peek() {
            Some(c) => {
                if c == '=' {
                    self.scanner.next();
                    Ok(Some(ParsedToken::new(Token::NotEqual, location)))
                } else {
                    let mut m = String::new();
                    push_str(&mut m, "unexpected char ");
                    push_char(&mut m, c);
                    Err(self.make_error(m))
                }
            },
            None => {
                let mut m = String::new();
                push_str(&mut m, "unexpected end of sql");
                Err(self.make_error(m))
            },
        }
    }

    /// An identifier or keyword starting with the letter at the current position.
    #[verifier::rlimit(30)]
    fn next_word(&mut self) -> (r: ParsedToken)
        requires
            old(self).wf(),
            0 <= old(self).position() < old(self).text().len(),
            is_ascii_letter(old(self).text()[old(self).position()]),
        ensures
            final(self).wf(),
            final(self).text() == old(self).text(),
            ({
                let s = old(self).text();
                let j = old(self).position();
                next_token(s, j) == Lexed::Token(r.token@, j, final(self).position())
            }),
            r.location.at(old(self).text(), old(self).position()),
            final(self).position() > old(self).position(),
    {
        let ghost s = self.sql@;
        let ghost j = self.position();
        proof {
            lemma_run_end_bounds(s, j, |c: char| is_space(c));
            lemma_run_end_bounds(s, j, |c: char| is_word_char(c));
        }
        let location = self.scanner.location();
        let mut word: Vec<char> = Vec::new();
        loop
            invariant
                self.wf(),
                self.text() == s,
                old(self).text() == s,
                j <= self.position() <= s.len(),
                old(self).position() == j,
                0 <= j,
                word@ == s.subrange(j, self.position()),
                word_end(s, j) == word_end(s, self.position()),
            ensures
                self.wf(),
                self.text() == s,
                self.position() == word_end(s, j),
                word@ == s.subrange(j, self.position()),
            decreases s.len() - self.position(),
        {
            match self.scanner.peek() {
                Some(c) => {
                    if ('a' <= c && c <= 'z') || ('A' <= c && c <= 'Z') || ('0' <= c && c <= '9') || c == '_' {
                        word.push(c);
                        self.scanner.next();
                        assert(word@ =~= s.subrange(j, self.position()));
                    } else {
                        break;
                    }
                },
                None => {
                    break;
                },
            }
        }
        let token = if word.len() > Keyword::max_length() {
            proof { lemma_long_word_is_no_keyword(upper(word@), 0); }
            Token::Identifier(string_of(&word))
        } else {
            let up = upper_chars(&word);
            match Keyword::from_upper(&up) {
                Some(k) => Token::Keyword(k),
                None => Token::Identifier(string_of(&word)),
            }
        };
        ParsedToken::new(token, location)
    }

    /// An integer literal starting with the digit `first` at the current position.
    #[verifier::rlimit(40)]
    fn next_number(&mut self, first: char) -> (r: Result<Option<ParsedToken>, TokenizeError>)
        requires
            old(self).wf(),
            0 <= old(self).position() < old(self).text().len(),
            old(self).text()[old(self).position()] == first,
            is_digit(first),
        ensures
            final(self).wf(),
            final(self).text() == old(self).text(),
            0 <= final(self).position() <= final(self).text().len(),
            ({
                let s = old(self).text();
                let j = old(self).position();
                match next_token(s, j) {
                    Lexed::Token(t, start, e) => {
                        &&& r is Ok && r->Ok_0 is Some
                        &&& r->Ok_0->Some_0.token@ == t
                        &&& r->Ok_0->Some_0.location.at(s, start)
                        &&& final(self).position() == e
                        &&& j < e
                    },
                    Lexed::Failure(m, p) => {
                        &&& r is Err
                        &&& r->Err_0.message@ == m
                        &&& r->Err_0.location.at(s, p)
                        &&& r->Err_0.raw_sql@ == s
                    },
                    Lexed::End => false,
                }
            }),
    {
        let ghost s = self.sql@;
        let ghost j = self.position();
        let ghost z = zeros_end(s, j);
        let ghost e = digits_end(s, j);
        proof {
            lemma_run_end_bounds(s, j, |c: char| is_space(c));
            lemma_run_end_bounds(s, j, |c: char| is_digit(c));
            lemma_run_end_bounds(s, j, |c: char| c == '0');
            lemma_run_end_bounds(s, j + 1, |c: char| is_digit(c));
            lemma_zeros_within_digits(s, j);
        }
        let location = self.scanner.location();
        let mut zeros: u16 = 0;
        let mut number: Option<u64> = None;
        loop
            invariant
                self.wf(),
                self.text() == s,
                old(self).text() == s,
                j <= self.position() <= e,
                old(self).position() == j,
                0 <= j < s.len(),
                space_end(s, j) == j,
                is_digit(s[j]),
                z == zeros_end(s, j),
                e == digits_end(s, j),
                j <= z <= e <= s.len(),
                digits_end(s, self.position()) == e,
                number is None ==> zeros == self.position() - j && zeros_end(s, self.position()) == z,
                number is Some ==> {
                    &&& self.position() > z
                    &&& zeros == z - j
                    &&& number->0 == digits_value(s.subrange(z, self.position()))
                    &&& first_overflow(s, z, z + 1, e) == first_overflow(s, z, self.position() + 1, e)
                },
                self.position() == j ==> number is None && zeros == 0,
            ensures
                self.wf(),
                self.text() == s,
                self.position() == e,
                number is None ==> zeros == self.position() - j && zeros_end(s, self.position()) == z,
                number is Some ==> {
                    &&& self.position() > z
                    &&& zeros == z - j
                    &&& number->0 == digits_value(s.subrange(z, self.position()))
                    &&& first_overflow(s, z, z + 1, e) == first_overflow(s, z, self.position() + 1, e)
                },
            decreases s.len() - self.position(),
        {
            let ghost p = self.position();
            match self.scanner.peek() {
                Some(c) => {
                    if '0' <= c && c <= '9' {
                        proof {
                            lemma_run_end_bounds(s, p + 1, |c: char| is_digit(c));
                            lemma_run_end_bounds(s, p + 1, |c: char| c == '0');
                        }
                        if c == '0' && number.is_none() {
                            if zeros == u16::MAX {
                                let mut m = String::new();
                                push_str(&mut m, "too many zeros");
                                return Err(self.make_error(m));
                            }
                            zeros = zeros + 1;
                        } else {
                            let d: u64 = (c as u32 - '0' as u32) as u64;
                            assert(s.subrange(z, p + 1).drop_last() =~= s.subrange(z, p));
                            match number {
                                None => {
                                    assert(zeros_end(s, p) == p);
                                    assert(s.subrange(z, p) =~= Seq::<char>::empty());
                                    assert(digits_value(Seq::<char>::empty()) == 0);
                                    assert(s.subrange(z, p + 1).last() == c);
                                    assert(digits_value(s.subrange(z, p + 1)) == d);
                                    assert(first_overflow(s, z, p + 1, e) == first_overflow(s, z, p + 2, e));
                                    number = Some(d);
                                },
                                Some(v) => {
                                    let grown = match v.checked_mul(10) {
                                        Some(m) => m.checked_add(d),
                                        None => None,
                                    };
                                    match grown {
                                        Some(g) => {
                                            assert(digits_value(s.subrange(z, p + 1)) == 10 * v + d);
                                            assert(first_overflow(s, z, p + 1, e) == first_overflow(s, z, p + 2, e));
                                            number = Some(g);
                                        },
                                        None => {
                                            let mut m = String::new();
                                            push_str(&mut m, "too large number");
                                            return Err(self.make_error(m));
                                        },
                                    }
                                },
                            }
                        }
                        self.scanner.next();
                    } else {
                        break;
                    }
                },
                None => {
                    break;
                },
            }
        }
        let token = Token::IntegerLiteral(zeros, number);
        Ok(Some(ParsedToken::new(token, location)))
    }

    /// A string literal opened by the quote at the current position.
    #[verifier::rlimit(30)]
    fn next_string(&mut self) -> (r: Result<Option<ParsedToken>, TokenizeError>)
        requires
            old(self).wf(),
            0 <= old(self).position() < old(self).text().len(),
            old(self).text()[old(self).position()] == '\'',
        ensures
            final(self).wf(),
            final(self).text() == old(self).text(),
            0 <= final(self).position() <= final(self).text().len(),
            ({
                let s = old(self).text();
                let j = old(self).position();
                match next_token(s, j) {
                    Lexed::Token(t, start, e) => {
                        &&& r is Ok && r->Ok_0 is Some
                        &&& r->Ok_0->Some_0.token@ == t
                        &&& r->Ok_0->Some_0.location.at(s, start)
                        &&& final(self).position() == e
                        &&& j < e
                    },
                    Lexed::Failure(m, p) => {
                        &&& r is Err
                        &&& r->Err_0.message@ == m
                        &&& r->Err_0.location.at(s, p)
                        &&& r->Err_0.raw_sql@ == s
                    },
                    Lexed::End => false,
                }
            }),
    {
        let ghost s = self.sql@;
        let ghost j = self.position();
        proof { lemma_run_end_bounds(s, j, |c: char| is_space(c)); }
        let location = self.scanner.location();
        self.scanner.next();
        let mut text = String::new();
        loop
            invariant_except_break
                lex_string(s, j + 1, Seq::empty()) == lex_string(s, self.position(), text@),
            invariant
                self.wf(),
                self.text() == s,
                old(self).text() == s,
                old(self).position() == j,
                0 <= j < s.len(),
                space_end(s, j) == j,
                s[j] == '\'',
                j + 1 <= self.position() <= s.len(),
            ensures
                self.wf(),
                self.text() == s,
                j + 1 <= self.position() <= s.len(),
                lex_string(s, j + 1, Seq::empty()) == Ok::<(Seq<char>, int), (Seq<char>, int)>((text@, self.position())),
            decreases s.len() - self.position(),
        {
            let ghost p = self.position();
            match self.scanner.peek() {
                None => {
                    let mut m = String::new();
                    push_str(&mut m, "unexpected end of string literal");
                    return Err(self.make_error(m));
                },
                Some(c) => {
                    if c == '\'' {
                        self.scanner.next();
                        match self.scanner.peek() {
                            None => {
                                break;
                            },
                            Some(n) => {
                                if n == '\'' {
                                    push_char(&mut text, '\'');
                                    self.scanner.next();
                                } else if n == ';' || n == '=' || n == '>' || n == '<' || n == ',' || n == '.' {
                                    break;
                                } else if n == ' ' || n == '\r' || n == '\n' {
                                    self.scanner.next();
                                    break;
                                } else {
                                    let mut m = String::new();
                                    push_str(&mut m, "unexpected char ");
                                    push_char(&mut m, n);
                                    push_str(&mut m, " after text ");
                                    push_str(&mut m, text.as_str());
                                    return Err(self.make_error(m));
                                }
                            },
                        }
                    } else if c == '\r' || c == '\n' {
                        let mut m = String::new();
                        push_str(&mut m, "unexpected newline in string literal");
                        return Err(self.make_error(m));
                    } else if c == '\\' {
                        self.scanner.next();
                        match self.scanner.peek() {
                            None => {
                                let mut m = String::new();
                                push_str(&mut m, "unexpected end of string literal");
                                return Err(self.make_error(m));
                            },
                            Some(n) => {
                                match escape_of(n) {
                                    Some(d) => {
                                        push_char(&mut text, d);
                                        self.scanner.next();
                                    },
                                    None => {
                                        let mut m = String::new();
                                        push_str(&mut m, "unknown escape char ");
                                        push_char(&mut m, n);
                                        return Err(self.make_error(m));
                                    },
                                }
                            },
                        }
                    } else {
                        push_char(&mut text, c);
                        self.scanner.next();
                    }
                },
            }
        }
        Ok(Some(ParsedToken::new(Token::StringLiteral(text), location)))
    }

    /// An error with `message` at the current position.
    fn make_error(&self, message: String) -> (r: TokenizeError)
        requires
            self.wf(),
        ensures
            r.message@ == message@,
            r.location.at(self.text(), self.position()),
            r.raw_sql@ == self.text(),
    {
        TokenizeError { message, location: self.scanner.location(), raw_sql: self.sql.clone() }
    }
}

/// The leading zeros of a digit run end within it.
proof fn lemma_zeros_within_digits(s: Seq<char>, i: int)
    requires
        0 <= i <= s.len(),
    ensures
        zeros_end(s, i) <= digits_end(s, i),
    decreases s.len() - i,
{
    if i < s.len() && s[i] == '0' {
        lemma_zeros_within_digits(s, i + 1);
    } else {
        lemma_run_end_bounds(s, i, |c: char| is_digit(c));
    }
}

/// The character a backslash escape stands for.
fn escape_of(c: char) -> (r: Option<char>)
    ensures
        r == escaped(c),
{
    if c == '\\' { Some('\\') }
    else if c == '\'' { Some('\'') }
    else if c == '"' { Some('"') }
    else if c == 'n' { Some('\n') }
    else if c == 't' { Some('\t') }
    else if c == 'r' { Some('\r') }
    else if c == '0' { Some('\0') }
    else { None }
}

/// The characters of `v` as a string.
fn string_of(v: &Vec<char>) -> (r: String)
    ensures
        r@ == v@,
{
    let mut s = String::new();
    push_chars(&mut s, v);
    assert(s@ =~= v@);
    s
}

/// The ASCII upper-case folding of `v`.
fn upper_chars(v: &Vec<char>) -> (r: Vec<char>)
    ensures
        r@ == upper(v@),
{
    let mut r: Vec<char> = Vec::new();
    let mut i: usize = 0;
    while i < v.len()
        invariant
            i <= v.len(),
            r@ =~= upper(v@.subrange(0, i as int)),
        decreases v.len() - i,
    {
        let c = v[i];
        let u = if 'a' <= c && c <= 'z' { ((c as u8) - 32u8) as char } else { c };
        r.push(u);
        i += 1;
        assert(upper(v@.subrange(0, i as int)) =~= upper(v@.subrange(0, i - 1)).push(ascii_upper(c)));
    }
    assert(v@.subrange(0, v.len() as int) =~= v@);
    r
}

/// The tokens of `sql`, or the first error.
pub fn tokenize(sql: &str) -> (r: Result<ParsedTokens, TokenizeError>)
    requires
        sql@.len() < usize::MAX,
    ensures
        r is Ok <==> lex(sql@) is Ok,
        r is Ok ==> {
            &&& tokens_match(r->Ok_0.tokens@, sql@, lex(sql@)->Ok_0)
            &&& r->Ok_0.raw_sql@ == sql@
            &&& forall|k: int, l: int| 0 <= k < l < r->Ok_0.tokens@.len() ==>
                r->Ok_0.tokens@[k].location.offset < r->Ok_0.tokens@[l].location.offset
        },
        r is Err ==> {
            let (m, p) = lex(sql@)->Err_0;
            &&& r->Err_0.message@ == m
            &&& r->Err_0.location.at(sql@, p)
            &&& r->Err_0.raw_sql@ == sql@
        },
{
    let mut tokenizer = Tokenizer::new(sql);
    let r = tokenizer.tokenize();
    proof {
        if r is Ok {
            lemma_token_starts_increase(sql@);
            let toks = r->Ok_0.tokens@;
            let spec = lex(sql@)->Ok_0;
            assert forall|k: int, l: int| 0 <= k < l < toks.len() implies toks[k].location.offset < toks[l].location.offset by {
                assert(toks[k].location.at(sql@, spec[k].1));
                assert(toks[l].location.at(sql@, spec[l].1));
            }
        }
    }
    r
}

} // verus!
