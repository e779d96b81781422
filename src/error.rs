//! Tokenizer and parser errors, rendered with their position and the text
//! around it.
use vstd::prelude::*;
use crate::str_scanner::TokenLocation;
use crate::text::{decimal, push_decimal, push_str};

verus! {

/// How many characters before and after an error position its rendering shows.
pub const NEAR_WINDOW: usize = 16;

/// The characters of `raw` from `offset - 16` (clamped to 0) up to 32 of them.
pub open spec fn near(raw: Seq<char>, offset: int) -> Seq<char> {
    let skip = if offset > 16 { offset - 16 } else { 0 };
    let from = if skip < raw.len() { skip } else { raw.len() as int };
    let to = if from + 32 < raw.len() { from + 32 } else { raw.len() as int };
    raw.subrange(from, to)
}

/// `error <message> as Ln <line>, Col <column> near "<snippet>"`.
pub open spec fn error_text(message: Seq<char>, location: TokenLocation, raw: Seq<char>) -> Seq<char> {
    "error "@ + message + " as Ln "@ + decimal(location.line_number as nat) + ", Col "@
        + decimal(location.column_number as nat) + " near \""@ + near(raw, location.offset as int)
        + "\""@
}

/// Renders an error in the form of [`error_text`].
fn render_error(message: &String, location: &TokenLocation, raw: &String) -> (r: String)
    ensures
        r@ == error_text(message@, *location, raw@),
{
    let raw_str = raw.as_str();
    let len = raw_str.unicode_len();
    let skip: usize = if location.offset > NEAR_WINDOW { location.offset - NEAR_WINDOW } else { 0 };
    let from: usize = if skip < len { skip } else { len };
    let to: usize = if from < len && len - from > 2 * NEAR_WINDOW { from + 2 * NEAR_WINDOW } else { len };
    let snippet = raw_str.substring_char(from, to);
    let mut s = String::new();
    push_str(&mut s, "error ");
    push_str(&mut s, message.as_str());
    push_str(&mut s, " as Ln ");
    push_decimal(&mut s, location.line_number as u64);
    push_str(&mut s, ", Col ");
    push_decimal(&mut s, location.column_number as u64);
    push_str(&mut s, " near \"");
    push_str(&mut s, snippet);
    push_str(&mut s, "\"");
    assert(s@ =~= error_text(message@, *location, raw@));
    s
}

/// A failure to tokenize: what went wrong, where, and the query text.
#[derive(Debug)]
pub struct TokenizeError {
    pub message: String,
    pub location: TokenLocation,
    pub raw_sql: String,
}

impl TokenizeError {
    pub fn new(message: &str, location: TokenLocation, raw_sql: &str) -> (r: Self)
        ensures
            r.message@ == message@,
            r.location == location,
            r.raw_sql@ == raw_sql@,
    {
        TokenizeError { message: message.to_owned(), location, raw_sql: raw_sql.to_owned() }
    }

    /// `error <message> as Ln <line>, Col <column> near "<snippet>"`.
    pub fn to_string(&self) -> (r: String)
        ensures
            r@ == error_text(self.message@, self.location, self.raw_sql@),
    {
        render_error(&self.message, &self.location, &self.raw_sql)
    }
}

/// A failure to parse: what went wrong, where, and the query text.
#[derive(Debug)]
pub struct ParseError {
    pub message: String,
    pub location: TokenLocation,
    pub raw_sql: String,
}

impl ParseError {
    pub fn new(message: &str, location: TokenLocation, raw_sql: &str) -> (r: Self)
        ensures
            r.message@ == message@,
            r.location == location,
            r.raw_sql@ == raw_sql@,
    {
        ParseError { message: message.to_owned(), location, raw_sql: raw_sql.to_owned() }
    }

    /// `error <message> as Ln <line>, Col <column> near "<snippet>"`.
    pub fn to_string(&self) -> (r: String)
        ensures
            r@ == error_text(self.message@, self.location, self.raw_sql@),
    {
        render_error(&self.message, &self.location, &self.raw_sql)
    }
}

} // verus!
