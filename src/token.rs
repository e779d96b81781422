//! Tokens of the SQL subset: keywords, identifiers, literals and punctuation.
use vstd::prelude::*;
use crate::str_scanner::TokenLocation;
use crate::text::{decimal, push_char, push_decimal, push_repeat, push_str, repeat};

verus! {

/// The reserved words, matched without regard to ASCII case.
#[derive(Clone, Copy, Debug, PartialEq, Eq, Hash, Structural)]
pub enum Keyword {
    SELECT,
    FROM,
    WHERE,
    GROUP,
    BY,
    ORDER,
    LIMIT,
    OFFSET,
    AS,
    DESC,
    ASC,
    CREATE,
    TABLE,
    IS,
    NULL,
    AND,
    OR,
    NOT,
    HAVING,
}

/// Every keyword, in table order.
pub open spec fn all_keywords() -> Seq<Keyword> {
    seq![
        Keyword::SELECT, Keyword::FROM, Keyword::WHERE, Keyword::GROUP, Keyword::BY,
        Keyword::ORDER, Keyword::LIMIT, Keyword::OFFSET, Keyword::AS, Keyword::DESC,
        Keyword::ASC, Keyword::CREATE, Keyword::TABLE, Keyword::IS, Keyword::NULL,
        Keyword::AND, Keyword::OR, Keyword::NOT, Keyword::HAVING,
    ]
}

/// The upper-case spelling of a keyword.
pub open spec fn keyword_text(k: Keyword) -> Seq<char> {
    match k {
        Keyword::SELECT => seq!['S', 'E', 'L', 'E', 'C', 'T'],
        Keyword::FROM => seq!['F', 'R', 'O', 'M'],
        Keyword::WHERE => seq!['W', 'H', 'E', 'R', 'E'],
        Keyword::GROUP => seq!['G', 'R', 'O', 'U', 'P'],
        Keyword::BY => seq!['B', 'Y'],
        Keyword::ORDER => seq!['O', 'R', 'D', 'E', 'R'],
        Keyword::LIMIT => seq!['L', 'I', 'M', 'I', 'T'],
        Keyword::OFFSET => seq!['O', 'F', 'F', 'S', 'E', 'T'],
        Keyword::AS => seq!['A', 'S'],
        Keyword::DESC => seq!['D', 'E', 'S', 'C'],
        Keyword::ASC => seq!['A', 'S', 'C'],
        Keyword::CREATE => seq!['C', 'R', 'E', 'A', 'T', 'E'],
        Keyword::TABLE => seq!['T', 'A', 'B', 'L', 'E'],
        Keyword::IS => seq!['I', 'S'],
        Keyword::NULL => seq!['N', 'U', 'L', 'L'],
        Keyword::AND => seq!['A', 'N', 'D'],
        Keyword::OR => seq!['O', 'R'],
        Keyword::NOT => seq!['N', 'O', 'T'],
        Keyword::HAVING => seq!['H', 'A', 'V', 'I', 'N', 'G'],
    }
}

/// The length of the longest keyword.
pub open spec fn keyword_max_length() -> nat {
    6
}

/// The first keyword of the table from index `i` on that is spelled exactly `w`.
pub open spec fn keyword_from(w: Seq<char>, i: int) -> Option<Keyword>
    decreases all_keywords().len() - i,
{
    if i < 0 || i >= all_keywords().len() {
        None
    } else if keyword_text(all_keywords()[i]) == w {
        Some(all_keywords()[i])
    } else {
        keyword_from(w, i + 1)
    }
}

/// The keyword spelled exactly `w` (upper case), if any.
pub open spec fn keyword_of(w: Seq<char>) -> Option<Keyword> {
    keyword_from(w, 0)
}

/// ASCII upper-case folding of one character.
pub open spec fn ascii_upper(c: char) -> char {
    if 'a' <= c && c <= 'z' {
        ((c as u8) - 32u8) as char
    } else {
        c
    }
}

/// ASCII upper-case folding of a word.
pub open spec fn upper(w: Seq<char>) -> Seq<char> {
    w.map_values(|c: char| ascii_upper(c))
}

/// No keyword is longer than the maximum, so a longer word is never a keyword.
pub proof fn lemma_long_word_is_no_keyword(w: Seq<char>, i: int)
    requires
        w.len() > keyword_max_length(),
    ensures
        keyword_from(w, i) is None,
    decreases all_keywords().len() - i,
{
    if 0 <= i < all_keywords().len() {
        assert(keyword_text(all_keywords()[i]).len() <= keyword_max_length());
        lemma_long_word_is_no_keyword(w, i + 1);
    }
}

impl Keyword {
    /// Every keyword, in table order.
    pub fn all() -> (r: Vec<Keyword>)
        ensures
            r@ == all_keywords(),
    {
        let r = vec![Keyword::SELECT, Keyword::FROM, Keyword::WHERE, Keyword::GROUP, Keyword::BY, Keyword::ORDER, Keyword::LIMIT, Keyword::OFFSET, Keyword::AS, Keyword::DESC, Keyword::ASC, Keyword::CREATE, Keyword::TABLE, Keyword::IS, Keyword::NULL, Keyword::AND, Keyword::OR, Keyword::NOT, Keyword::HAVING];
        assert(r@ == all_keywords());
        r
    }

    /// The length of the longest keyword: longer words are identifiers.
    pub fn max_length() -> (r: usize)
        ensures
            r == keyword_max_length(),
    {
        6
    }

    /// The upper-case spelling.
    pub fn to_str(&self) -> (r: &'static str)
        ensures
            r@ == keyword_text(*self),
    {
        match self {
            Keyword::SELECT => {
                proof { reveal_strlit("SELECT"); }
                "SELECT"
            },
            Keyword::FROM => {
                proof { reveal_strlit("FROM"); }
                "FROM"
            },
            Keyword::WHERE => {
                proof { reveal_strlit("WHERE"); }
                "WHERE"
            },
            Keyword::GROUP => {
                proof { reveal_strlit("GROUP"); }
                "GROUP"
            },
            Keyword::BY => {
                proof { reveal_strlit("BY"); }
                "BY"
            },
            Keyword::ORDER => {
                proof { reveal_strlit("ORDER"); }
                "ORDER"
            },
            Keyword::LIMIT => {
                proof { reveal_strlit("LIMIT"); }
                "LIMIT"
            },
            Keyword::OFFSET => {
                proof { reveal_strlit("OFFSET"); }
                "OFFSET"
            },
            Keyword::AS => {
                proof { reveal_strlit("AS"); }
                "AS"
            },
            Keyword::DESC => {
                proof { reveal_strlit("DESC"); }
                "DESC"
            },
            Keyword::ASC => {
                proof { reveal_strlit("ASC"); }
                "ASC"
            },
            Keyword::CREATE => {
                proof { reveal_strlit("CREATE"); }
                "CREATE"
            },
            Keyword::TABLE => {
                proof { reveal_strlit("TABLE"); }
                "TABLE"
            },
            Keyword::IS => {
                proof { reveal_strlit("IS"); }
                "IS"
            },
            Keyword::NULL => {
                proof { reveal_strlit("NULL"); }
                "NULL"
            },
            Keyword::AND => {
                proof { reveal_strlit("AND"); }
                "AND"
            },
            Keyword::OR => {
                proof { reveal_strlit("OR"); }
                "OR"
            },
            Keyword::NOT => {
                proof { reveal_strlit("NOT"); }
                "NOT"
            },
            Keyword::HAVING => {
                proof { reveal_strlit("HAVING"); }
                "HAVING"
            },
        }
    }

    /// The keyword table: each keyword with its spelling, in table order.
    pub fn map() -> (r: Vec<(&'static str, Keyword)>)
        ensures
            r@.len() == all_keywords().len(),
            forall|i: int| 0 <= i < r@.len() ==> {
                &&& (#[trigger] r@[i]).0@ == keyword_text(all_keywords()[i])
                &&& r@[i].1 == all_keywords()[i]
            },
    {
        let all = Keyword::all();
        let mut r: Vec<(&'static str, Keyword)> = Vec::new();
        let mut i: usize = 0;
        while i < all.len()
            invariant
                i <= all.len(),
                all@ == all_keywords(),
                r@.len() == i,
                forall|j: int| 0 <= j < i ==> {
                    &&& (#[trigger] r@[j]).0@ == keyword_text(all_keywords()[j])
                    &&& r@[j].1 == all_keywords()[j]
                },
            decreases all.len() - i,
        {
            let k = all[i];
            r.push((k.to_str(), k));
            i += 1;
        }
        r
    }

    /// The keyword spelled exactly `word`, which is expected in upper case.
    pub fn from_upper(word: &Vec<char>) -> (r: Option<Keyword>)
        ensures
            r == keyword_of(word@),
    {
        let all = Keyword::all();
        let mut i: usize = 0;
        while i < all.len()
            invariant
                0 <= i <= all.len(),
                all@ == all_keywords(),
                keyword_of(word@) == keyword_from(word@, i as int),
            decreases all.len() - i,
        {
            let k = all[i];
            if chars_equal(word, k.to_str()) {
                return Some(k);
            }
            i += 1;
        }
        None
    }
}

/// Whether `a` holds exactly the characters of `b`.
fn chars_equal(a: &Vec<char>, b: &str) -> (r: bool)
    ensures
        r == (a@ == b@),
{
    let n = b.unicode_len();
    if a.len() != n {
        return false;
    }
    let mut i: usize = 0;
    while i < n
        invariant
            n == b@.len(),
            a@.len() == n,
            0 <= i <= n,
            forall|j: int| 0 <= j < i ==> a@[j] == b@[j],
        decreases n - i,
    {
        if a[i] != b.get_char(i) {
            return false;
        }
        i += 1;
    }
    assert(a@ =~= b@);
    true
}

/// A lexical unit of the SQL subset.
#[derive(Debug, PartialEq, Eq, Hash, Clone)]
pub enum Token {
    Keyword(Keyword),
    /// A table or column name, in the case it was written.
    Identifier(String),
    /// A quoted string, escapes decoded.
    StringLiteral(String),
    /// The number of leading zeros and the value of the remaining digits
    /// (absent when every digit is a zero).
    IntegerLiteral(u16, Option<u64>),
    Equal,
    NotEqual,
    LessThan,
    GreaterThan,
    LessThanOrEqual,
    GreaterThanOrEqual,
    Plus,
    Minus,
    Multiply,
    Divide,
    LeftParenthesis,
    RightParenthesis,
    Comma,
    Semicolon,
    Period,
}

/// The mathematical value of a [`Token`].
pub enum SpecToken {
    Keyword(Keyword),
    Identifier(Seq<char>),
    StringLiteral(Seq<char>),
    IntegerLiteral(u16, Option<u64>),
    Equal,
    NotEqual,
    LessThan,
    GreaterThan,
    LessThanOrEqual,
    GreaterThanOrEqual,
    Plus,
    Minus,
    Multiply,
    Divide,
    LeftParenthesis,
    RightParenthesis,
    Comma,
    Semicolon,
    Period,
}

impl View for Token {
    type V = SpecToken;

    open spec fn view(&self) -> SpecToken {
        match self {
            Token::Keyword(k) => SpecToken::Keyword(*k),
            Token::Identifier(s) => SpecToken::Identifier(s@),
            Token::StringLiteral(s) => SpecToken::StringLiteral(s@),
            Token::IntegerLiteral(z, n) => SpecToken::IntegerLiteral(*z, *n),
            Token::Equal => SpecToken::Equal,
            Token::NotEqual => SpecToken::NotEqual,
            Token::LessThan => SpecToken::LessThan,
            Token::GreaterThan => SpecToken::GreaterThan,
            Token::LessThanOrEqual => SpecToken::LessThanOrEqual,
            Token::GreaterThanOrEqual => SpecToken::GreaterThanOrEqual,
            Token::Plus => SpecToken::Plus,
            Token::Minus => SpecToken::Minus,
            Token::Multiply => SpecToken::Multiply,
            Token::Divide => SpecToken::Divide,
            Token::LeftParenthesis => SpecToken::LeftParenthesis,
            Token::RightParenthesis => SpecToken::RightParenthesis,
            Token::Comma => SpecToken::Comma,
            Token::Semicolon => SpecToken::Semicolon,
            Token::Period => SpecToken::Period,
        }
    }
}

/// The source text of an integer literal: its zeros, then its value.
pub open spec fn integer_text(zeros: u16, value: Option<u64>) -> Seq<char> {
    match value {
        Some(n) => repeat('0', zeros as nat) + decimal(n as nat),
        None => repeat('0', zeros as nat),
    }
}

/// The canonical text of a token.
pub open spec fn token_text(t: SpecToken) -> Seq<char> {
    match t {
        SpecToken::Keyword(k) => keyword_text(k),
        SpecToken::Identifier(s) => s,
        SpecToken::StringLiteral(s) => seq!['\''] + s + seq!['\''],
        SpecToken::IntegerLiteral(z, n) => integer_text(z, n),
        SpecToken::Equal => seq!['='],
        SpecToken::NotEqual => seq!['<', '>'],
        SpecToken::LessThan => seq!['<'],
        SpecToken::GreaterThan => seq!['>'],
        SpecToken::LessThanOrEqual => seq!['<', '='],
        SpecToken::GreaterThanOrEqual => seq!['>', '='],
        SpecToken::Plus => seq!['+'],
        SpecToken::Minus => seq!['-'],
        SpecToken::Multiply => seq!['*'],
        SpecToken::Divide => seq!['/'],
        SpecToken::LeftParenthesis => seq!['('],
        SpecToken::RightParenthesis => seq![')'],
        SpecToken::Comma => seq![','],
        SpecToken::Semicolon => seq![';'],
        SpecToken::Period => seq!['.'],
    }
}

impl Token {
    /// Appends the canonical text of the token to `s`.
    pub fn write_to(&self, s: &mut String)
        ensures
            final(s)@ == old(s)@ + token_text(self@),
    {
        match self {
            Token::Keyword(k) => push_str(s, k.to_str()),
            Token::Identifier(t) => push_str(s, t.as_str()),
            Token::StringLiteral(t) => {
                let ghost s0 = s@;
                push_char(s, '\'');
                push_str(s, t.as_str());
                push_char(s, '\'');
                assert(s@ =~= s0 + token_text(self@));
            },
            Token::IntegerLiteral(z, n) => {
                let ghost s0 = s@;
                push_repeat(s, '0', *z as u64);
                match n {
                    Some(v) => push_decimal(s, *v),
                    None => {},
                }
                assert(s@ =~= s0 + token_text(self@));
            },
            Token::Equal => push_char(s, '='),
            Token::NotEqual => {
                push_char(s, '<');
                push_char(s, '>');
                assert(s@ =~= old(s)@ + token_text(self@));
            },
            Token::LessThan => push_char(s, '<'),
            Token::GreaterThan => push_char(s, '>'),
            Token::LessThanOrEqual => {
                push_char(s, '<');
                push_char(s, '=');
                assert(s@ =~= old(s)@ + token_text(self@));
            },
            Token::GreaterThanOrEqual => {
                push_char(s, '>');
                push_char(s, '=');
                assert(s@ =~= old(s)@ + token_text(self@));
            },
            Token::Plus => push_char(s, '+'),
            Token::Minus => push_char(s, '-'),
            Token::Multiply => push_char(s, '*'),
            Token::Divide => push_char(s, '/'),
            Token::LeftParenthesis => push_char(s, '('),
            Token::RightParenthesis => push_char(s, ')'),
            Token::Comma => push_char(s, ','),
            Token::Semicolon => push_char(s, ';'),
            Token::Period => push_char(s, '.'),
        }
    }

    /// The canonical text of the token.
    pub fn to_string(&self) -> (r: String)
        ensures
            r@ == token_text(self@),
    {
        let mut s = String::new();
        self.write_to(&mut s);
        assert(s@ =~= token_text(self@));
        s
    }
}

/// A token and the location of its first character.
#[derive(Debug, Clone)]
pub struct ParsedToken {
    pub token: Token,
    pub location: TokenLocation,
}

impl ParsedToken {
    pub fn new(token: Token, location: TokenLocation) -> (r: Self)
        ensures
            r.token == token,
            r.location == location,
    {
        ParsedToken { token, location }
    }
}

/// The tokens of a query together with its text.
#[derive(Debug, Clone)]
pub struct ParsedTokens {
    pub tokens: Vec<ParsedToken>,
    pub raw_sql: String,
}

impl ParsedTokens {
    pub fn new(tokens: Vec<ParsedToken>, raw_sql: &str) -> (r: Self)
        ensures
            r.tokens@ == tokens@,
            r.raw_sql@ == raw_sql@,
    {
        ParsedTokens { tokens, raw_sql: raw_sql.to_owned() }
    }

    pub fn tokens(&self) -> (r: &[ParsedToken])
        ensures
            r@ == self.tokens@,
    {
        self.tokens.as_slice()
    }

    /// The tokens' texts, each after a space but for commas and semicolons.
    pub fn to_string(&self) -> (r: String)
        ensures
            r@ == tokens_text(self.tokens@, self.tokens@.len() as int),
    {
        let mut s = String::new();
        let mut i: usize = 0;
        while i < self.tokens.len()
            invariant
                i <= self.tokens@.len(),
                s@ == tokens_text(self.tokens@, i as int),
            decreases self.tokens@.len() - i,
        {
            let token = &self.tokens[i].token;
            let ghost before = s@;
            if i > 0 && !matches!(token, Token::Comma) && !matches!(token, Token::Semicolon) {
                push_char(&mut s, ' ');
            }
            token.write_to(&mut s);
            assert(s@ =~= tokens_text(self.tokens@, i + 1));
            i += 1;
        }
        s
    }
}

/// The texts of the first `n` tokens, each after a space but for the first
/// token, commas and semicolons.
pub open spec fn tokens_text(ts: Seq<ParsedToken>, n: int) -> Seq<char>
    decreases n,
{
    if n <= 0 {
        Seq::empty()
    } else if n == 1 {
        token_text(ts[0].token@)
    } else {
        let t = ts[n - 1].token@;
        tokens_text(ts, n - 1) + (if t is Comma || t is Semicolon { Seq::empty() } else { seq![' '] })
            + token_text(t)
    }
}

} // verus!
