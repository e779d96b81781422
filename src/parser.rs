//! The parser: a recursive-descent, precedence-climbing reader of located
//! tokens, proved to compute the grammar of [`crate::parser_spec`].
use vstd::prelude::*;
use crate::ast::{
    view_expressions, view_from_items, view_identifiers, view_items, view_order_by, view_singles,
    Alias, BinaryExpression, BinaryOperator, Decimal, Expression, FromItem, Function, Identifier,
    Limit, Literal, Location, Offset, OrderBy, Select, SelectItem, SingleIdentifier, SpecStatement,
    Statement, Statements, UnaryExpression, UnaryOperator, Value,
};
use crate::error::ParseError;
use crate::parser_spec::{
    binary_operator, error_location, is_tok, parse_all, parse_arguments, parse_binary,
    parse_condition, parse_count, parse_expression, parse_from, parse_from_items, parse_group_by,
    parse_identifier, parse_identifier_list, parse_identifier_rest, parse_number, parse_operand,
    parse_order_by, parse_order_terms, parse_prefix, parse_select, parse_select_body,
    parse_select_item, parse_select_items, parse_select_tail, parse_statements, tok, unexpected,
    PResult,
};
use crate::str_scanner::TokenLocation;
use crate::text::push_str;
use crate::token::{Keyword, ParsedToken, ParsedTokens, SpecToken, Token};

verus! {

/// The exec result `r`, with the parser at index `end`, is what the grammar
/// gives: the same node (seen through `view`) and index, or the same error.
pub open spec fn agrees<T, S>(
    r: Result<T, ParseError>,
    end: int,
    expected: PResult<S>,
    view: spec_fn(T) -> S,
    t: Seq<ParsedToken>,
    raw: Seq<char>,
) -> bool {
    match expected {
        Ok((x, q)) => r is Ok && view(r->Ok_0) == x && end == q,
        Err((m, i)) => {
            &&& r is Err
            &&& r->Err_0.message@ == m
            &&& r->Err_0.location == error_location(t, i)
            &&& r->Err_0.raw_sql@ == raw
        },
    }
}

/// A token without a payload: a keyword or punctuation.
pub open spec fn is_simple(x: SpecToken) -> bool {
    !(x is Identifier || x is StringLiteral || x is IntegerLiteral)
}

/// Whether `a` is the payload-free token `b`.
fn same_token(a: &Token, b: &Token) -> (r: bool)
    requires
        is_simple(b@),
    ensures
        r == (a@ == b@),
{
    match b {
        Token::Keyword(k) => match a {
            Token::Keyword(k2) => *k == *k2,
            _ => false,
        },
        Token::Equal => matches!(a, Token::Equal),
        Token::NotEqual => matches!(a, Token::NotEqual),
        Token::LessThan => matches!(a, Token::LessThan),
        Token::GreaterThan => matches!(a, Token::GreaterThan),
        Token::LessThanOrEqual => matches!(a, Token::LessThanOrEqual),
        Token::GreaterThanOrEqual => matches!(a, Token::GreaterThanOrEqual),
        Token::Plus => matches!(a, Token::Plus),
        Token::Minus => matches!(a, Token::Minus),
        Token::Multiply => matches!(a, Token::Multiply),
        Token::Divide => matches!(a, Token::Divide),
        Token::LeftParenthesis => matches!(a, Token::LeftParenthesis),
        Token::RightParenthesis => matches!(a, Token::RightParenthesis),
        Token::Comma => matches!(a, Token::Comma),
        Token::Semicolon => matches!(a, Token::Semicolon),
        Token::Period => matches!(a, Token::Period),
        _ => false,
    }
}

/// Reads statements from the tokens of one query.
pub struct Parser<'a> {
    tokens: &'a [ParsedToken],
    index: usize,
    raw_sql: &'a str,
}

impl<'a> Parser<'a> {
    pub closed spec fn input(&self) -> Seq<ParsedToken> {
        self.tokens@
    }

    pub closed spec fn raw(&self) -> Seq<char> {
        self.raw_sql@
    }

    /// The index of the next token to read.
    pub closed spec fn position(&self) -> int {
        self.index as int
    }

    pub closed spec fn wf(&self) -> bool {
        self.index <= self.tokens@.len()
    }

    spec fn same_input(&self, other: &Parser<'a>) -> bool {
        &&& self.tokens@ == other.tokens@
        &&& self.raw_sql@ == other.raw_sql@
    }

    pub fn new(tokens: &'a ParsedTokens) -> (r: Parser<'a>)
        ensures
            r.wf(),
            r.input() == tokens.tokens@,
            r.raw() == tokens.raw_sql@,
            r.position() == 0,
    {
        Parser { tokens: tokens.tokens.as_slice(), index: 0, raw_sql: tokens.raw_sql.as_str() }
    }

    /// The token at the current index, if any.
    fn peek(&self) -> (r: Option<&Token>)
        requires
            self.wf(),
        ensures
            r is Some <==> self.index < self.tokens@.len(),
            r is Some ==> r->0@ == self.tokens@[self.index as int].token@,
            tok(self.tokens@, self.index as int) == match r { Some(x) => Some(x@), None => None },
    {
        if self.index < self.tokens.len() {
            Some(&self.tokens[self.index].token)
        } else {
            None
        }
    }

    /// Consumes the current token.
    fn next(&mut self)
        requires
            old(self).index < old(self).tokens@.len(),
        ensures
            final(self).index == old(self).index + 1,
            final(self).same_input(old(self)),
            final(self).tokens == old(self).tokens,
    {
        if self.index < self.tokens.len() {
            self.index = self.index + 1;
        }
    }

    /// Whether the current token is the payload-free token `x`.
    fn is_at(&self, x: &Token) -> (r: bool)
        requires
            self.wf(),
            is_simple(x@),
        ensures
            r == is_tok(self.tokens@, self.index as int, x@),
    {
        match self.peek() {
            Some(tk) => same_token(tk, x),
            None => false,
        }
    }

    /// Consumes the current token if it is the payload-free token `x`.
    fn next_if(&mut self, x: &Token) -> (r: bool)
        requires
            old(self).wf(),
            is_simple(x@),
        ensures
            final(self).wf(),
            final(self).same_input(old(self)),
            r == is_tok(old(self).tokens@, old(self).index as int, x@),
            final(self).index == old(self).index + if r { 1int } else { 0int },
    {
        if self.is_at(x) {
            self.next();
            true
        } else {
            false
        }
    }

    /// The location errors at the current index are reported at.
    fn location(&self) -> (r: TokenLocation)
        requires
            self.wf(),
        ensures
            r == error_location(self.tokens@, self.index as int),
    {
        let len = self.tokens.len();
        if self.index < len {
            self.tokens[self.index].location
        } else if len > 0 {
            self.tokens[len - 1].location
        } else {
            TokenLocation::uninit()
        }
    }

    /// The location of the current token, which is then consumed.
    fn location_and_next(&mut self) -> (r: TokenLocation)
        requires
            old(self).index < old(self).tokens@.len(),
        ensures
            r == old(self).tokens@[old(self).index as int].location,
            final(self).index == old(self).index + 1,
            final(self).same_input(old(self)),
    {
        let l = self.tokens[self.index].location;
        self.next();
        l
    }

    /// An error with `message` at the current index.
    fn make_error(&self, message: String) -> (r: ParseError)
        requires
            self.wf(),
        ensures
            r.message@ == message@,
            r.location == error_location(self.tokens@, self.index as int),
            r.raw_sql@ == self.raw_sql@,
    {
        ParseError { message, location: self.location(), raw_sql: self.raw_sql.to_owned() }
    }

    /// The error the grammar's `unexpected` gives at the current index.
    fn unexpected(&self, what: &str) -> (r: ParseError)
        requires
            self.wf(),
        ensures
            unexpected::<()>(self.tokens@, self.index as int, what@) == Err::<((), int), (Seq<char>, int)>((r.message@, self.index as int)),
            r.location == error_location(self.tokens@, self.index as int),
            r.raw_sql@ == self.raw_sql@,
    {
        let mut m = String::new();
        match self.peek() {
            Some(x) => {
                push_str(&mut m, "invalid token ");
                x.write_to(&mut m);
                push_str(&mut m, ", ");
                push_str(&mut m, what);
            },
            None => {
                push_str(&mut m, "unexpected end of input, ");
                push_str(&mut m, what);
            },
        }
        self.make_error(m)
    }
}

impl<'a> Parser<'a> {
    /// A name or a qualified name.
    fn parse_identifier(&mut self) -> (r: Result<Identifier, ParseError>)
        requires
            old(self).wf(),
        ensures
            final(self).wf(),
            final(self).same_input(old(self)),
            agrees(r, final(self).index as int, parse_identifier(old(self).tokens@, old(self).index as int),
                |i: Identifier| i@, old(self).tokens@, old(self).raw_sql@),
            r is Ok ==> old(self).index < final(self).index,
    {
        match self.peek() {
            Some(Token::Identifier(v)) => {
                let value = v.clone();
                let first = SingleIdentifier { value, leaf: Location::new(&self.tokens[self.index].location) };
                self.next();
                let mut parts: Vec<SingleIdentifier> = Vec::new();
                parts.push(first);
                proof {
                    assert(view_singles(parts@) =~= seq![first@]);
                }
                self.parse_identifier_rest(parts)
            },
            _ => Err(self.unexpected("expect identifier")),
        }
    }

    /// The rest of a qualified name after its first `parts`.
    fn parse_identifier_rest(&mut self, parts: Vec<SingleIdentifier>) -> (r: Result<Identifier, ParseError>)
        requires
            old(self).wf(),
            parts.len() >= 1,
        ensures
            final(self).wf(),
            final(self).same_input(old(self)),
            agrees(r, final(self).index as int,
                parse_identifier_rest(old(self).tokens@, old(self).index as int, view_singles(parts@)),
                |i: Identifier| i@, old(self).tokens@, old(self).raw_sql@),
            r is Ok ==> old(self).index <= final(self).index,
        decreases old(self).tokens@.len() - old(self).index,
    {
        if self.is_at(&Token::Period) {
            self.next();
            match self.peek() {
                Some(Token::Identifier(v)) => {
                    let value = v.clone();
                    let part = SingleIdentifier { value, leaf: Location::new(&self.tokens[self.index].location) };
                    self.next();
                    let mut parts = parts;
                    let ghost before = parts@;
                    parts.push(part);
                    proof {
                        assert(view_singles(parts@) =~= view_singles(before).push(part@));
                    }
                    self.parse_identifier_rest(parts)
                },
                _ => Err(self.unexpected("expect identifier")),
            }
        } else if parts.len() == 1 {
            let mut parts = parts;
            let single = parts.pop().unwrap();
            Ok(Identifier::Single(single))
        } else {
            Ok(Identifier::Combined(parts))
        }
    }

    /// A prefix `+`, `-` or `NOT`, consumed if present.
    fn parse_prefix_operator(&mut self) -> (r: Option<UnaryOperator>)
        requires
            old(self).wf(),
        ensures
            final(self).wf(),
            final(self).same_input(old(self)),
            (r, final(self).index as int) == parse_prefix(old(self).tokens@, old(self).index as int),
    {
        match self.peek() {
            Some(Token::Plus) => Some(UnaryOperator::Plus(Location::new(&self.location_and_next()))),
            Some(Token::Minus) => Some(UnaryOperator::Minus(Location::new(&self.location_and_next()))),
            Some(Token::Keyword(Keyword::NOT)) => Some(UnaryOperator::NOT(Location::new(&self.location_and_next()))),
            _ => None,
        }
    }

    /// The binary operator at the current index, not consumed.
    fn peek_binary_operator(&self) -> (r: Option<BinaryOperator>)
        requires
            self.wf(),
        ensures
            r == binary_operator(self.tokens@, self.index as int),
    {
        match self.peek() {
            Some(t) => {
                let l = Location::new(&self.tokens[self.index].location);
                match t {
                    Token::Plus => Some(BinaryOperator::Plus(l)),
                    Token::Minus => Some(BinaryOperator::Minus(l)),
                    Token::Multiply => Some(BinaryOperator::Multiply(l)),
                    Token::Divide => Some(BinaryOperator::Divide(l)),
                    Token::Equal => Some(BinaryOperator::Equal(l)),
                    Token::NotEqual => Some(BinaryOperator::NotEqual(l)),
                    Token::LessThan => Some(BinaryOperator::LessThan(l)),
                    Token::GreaterThan => Some(BinaryOperator::GreaterThan(l)),
                    Token::LessThanOrEqual => Some(BinaryOperator::LessThanOrEqual(l)),
                    Token::GreaterThanOrEqual => Some(BinaryOperator::GreaterThanOrEqual(l)),
                    Token::Keyword(Keyword::AND) => Some(BinaryOperator::AND(l)),
                    Token::Keyword(Keyword::OR) => Some(BinaryOperator::OR(l)),
                    _ => None,
                }
            },
            None => None,
        }
    }

    /// An integer literal at the current index, with value `n`, or a decimal.
    #[verifier::rlimit(30)]
    fn parse_number(&mut self, n: Option<u64>) -> (r: Result<Expression, ParseError>)
        requires
            old(self).wf(),
            old(self).index < old(self).tokens@.len(),
            old(self).tokens@[old(self).index as int].token@ is IntegerLiteral,
            old(self).tokens@[old(self).index as int].token@->IntegerLiteral_1 == n,
        ensures
            final(self).wf(),
            final(self).same_input(old(self)),
            agrees(r, final(self).index as int, parse_number(old(self).tokens@, old(self).index as int, n),
                |e: Expression| e.view_expr(), old(self).tokens@, old(self).raw_sql@),
            r is Ok ==> old(self).index < final(self).index,
    {
        let leaf = Location::new(&self.tokens[self.index].location);
        let integer: u64 = match n {
            Some(v) => v,
            None => 0,
        };
        self.next();
        if self.is_at(&Token::Period) && self.index + 1 < self.tokens.len() {
            match &self.tokens[self.index + 1].token {
                Token::IntegerLiteral(zeros, Some(fraction)) => {
                    let d = Decimal { integer, fraction_zeros: *zeros, fraction: *fraction };
                    self.next();
                    self.next();
                    return Ok(Expression::Literal(Literal { value: Value::Float(d), leaf }));
                },
                Token::IntegerLiteral(_, None) => {
                    let d = Decimal { integer, fraction_zeros: 0, fraction: 0 };
                    self.next();
                    self.next();
                    return Ok(Expression::Literal(Literal { value: Value::Float(d), leaf }));
                },
                _ => {},
            }
        }
        Ok(Expression::Literal(Literal { value: Value::Integer(integer), leaf }))
    }
}

impl<'a> Parser<'a> {
    /// An expression whose binary operators all bind tighter than `min`.
    #[verifier::rlimit(30)]
    fn parse_expression(&mut self, min: usize) -> (r: Result<Expression, ParseError>)
        requires
            old(self).wf(),
        ensures
            final(self).wf(),
            final(self).same_input(old(self)),
            agrees(r, final(self).index as int, parse_expression(old(self).tokens@, old(self).index as int, min as nat),
                |e: Expression| e.view_expr(), old(self).tokens@, old(self).raw_sql@),
            r is Ok ==> old(self).index < final(self).index,
        decreases old(self).tokens@.len() - old(self).index, 3nat,
    {
        let prefix = self.parse_prefix_operator();
        let operand = match self.parse_operand() {
            Ok(e) => e,
            Err(e) => return Err(e),
        };
        let left = match prefix {
            Some(op) => Expression::UnaryExpression(UnaryExpression { operator: op, expression: Box::new(operand) }),
            None => operand,
        };
        self.parse_binary(left, min)
    }

    /// Extends `left` with the binary operators that bind tighter than `min`.
    #[verifier::rlimit(30)]
    fn parse_binary(&mut self, left: Expression, min: usize) -> (r: Result<Expression, ParseError>)
        requires
            old(self).wf(),
        ensures
            final(self).wf(),
            final(self).same_input(old(self)),
            agrees(r, final(self).index as int, parse_binary(old(self).tokens@, old(self).index as int, left.view_expr(), min as nat),
                |e: Expression| e.view_expr(), old(self).tokens@, old(self).raw_sql@),
            r is Ok ==> old(self).index <= final(self).index,
        decreases old(self).tokens@.len() - old(self).index, 1nat,
    {
        match self.peek_binary_operator() {
            Some(op) => {
                let priority = op.priority();
                if min < priority {
                    self.next();
                    match self.parse_expression(priority) {
                        Ok(right) => {
                            let combined = Expression::BinaryExpression(BinaryExpression {
                                left: Box::new(left),
                                right: Box::new(right),
                                operator: op,
                            });
                            self.parse_binary(combined, min)
                        },
                        Err(e) => Err(e),
                    }
                } else {
                    Ok(left)
                }
            },
            None => Ok(left),
        }
    }

    /// The arguments of a call after its `(`, appended to `acc`, through the closing `)`.
    #[verifier::rlimit(30)]
    fn parse_arguments(&mut self, acc: Vec<Expression>) -> (r: Result<Vec<Expression>, ParseError>)
        requires
            old(self).wf(),
        ensures
            final(self).wf(),
            final(self).same_input(old(self)),
            agrees(r, final(self).index as int, parse_arguments(old(self).tokens@, old(self).index as int, view_expressions(acc@)),
                |v: Vec<Expression>| view_expressions(v@), old(self).tokens@, old(self).raw_sql@),
            r is Ok ==> old(self).index < final(self).index,
        decreases old(self).tokens@.len() - old(self).index, 4nat,
    {
        if acc.len() == 0 && self.is_at(&Token::RightParenthesis) {
            self.next();
            return Ok(acc);
        }
        if self.index >= self.tokens.len() {
            return Err(self.unexpected("expect expression"));
        }
        match self.parse_expression(0) {
            Err(e) => Err(e),
            Ok(e) => {
                let mut acc = acc;
                let ghost before = acc@;
                let ghost ev = e.view_expr();
                acc.push(e);
                proof {
                    assert(view_expressions(acc@) =~= view_expressions(before).push(ev));
                }
                if self.is_at(&Token::Comma) {
                    self.next();
                    self.parse_arguments(acc)
                } else if self.is_at(&Token::RightParenthesis) {
                    self.next();
                    Ok(acc)
                } else {
                    Err(self.unexpected("expect , or )"))
                }
            },
        }
    }

    /// A literal, a name, a call, `*`, a parenthesized expression or a subquery.
    #[verifier::rlimit(30)]
    fn parse_operand(&mut self) -> (r: Result<Expression, ParseError>)
        requires
            old(self).wf(),
        ensures
            final(self).wf(),
            final(self).same_input(old(self)),
            agrees(r, final(self).index as int, parse_operand(old(self).tokens@, old(self).index as int),
                |e: Expression| e.view_expr(), old(self).tokens@, old(self).raw_sql@),
            r is Ok ==> old(self).index < final(self).index,
        decreases old(self).tokens@.len() - old(self).index, 2nat,
    {
        match self.peek() {
            None => Err(self.unexpected("expect expression")),
            Some(Token::Keyword(Keyword::SELECT)) => match self.parse_select() {
                Ok(select) => Ok(Expression::SubQuery(Box::new(select))),
                Err(e) => Err(e),
            },
            Some(Token::Keyword(k)) => {
                let k = *k;
                let mut m = String::new();
                push_str(&mut m, "invalid keyword ");
                push_str(&mut m, k.to_str());
                push_str(&mut m, " expect expression");
                Err(self.make_error(m))
            },
            Some(Token::Identifier(_)) => match self.parse_identifier() {
                Err(e) => Err(e),
                Ok(name) => {
                    if self.is_at(&Token::LeftParenthesis) {
                        self.next();
                        let none: Vec<Expression> = Vec::new();
                        proof {
                            assert(view_expressions(none@) =~= Seq::empty());
                        }
                        match self.parse_arguments(none) {
                            Ok(args) => Ok(Expression::Function(Function { name, args })),
                            Err(e) => Err(e),
                        }
                    } else {
                        Ok(Expression::Identifier(name))
                    }
                },
            },
            Some(Token::StringLiteral(text)) => {
                let value = Value::String(text.clone());
                let leaf = Location::new(&self.tokens[self.index].location);
                self.next();
                Ok(Expression::Literal(Literal { value, leaf }))
            },
            Some(Token::IntegerLiteral(_, n)) => {
                let n = *n;
                self.parse_number(n)
            },
            Some(Token::Multiply) => {
                let leaf = Location::new(&self.location_and_next());
                Ok(Expression::Identifier(Identifier::Wildcard(leaf)))
            },
            Some(Token::LeftParenthesis) => {
                self.next();
                match self.parse_expression(0) {
                    Err(e) => Err(e),
                    Ok(e) => {
                        if self.is_at(&Token::RightParenthesis) {
                            self.next();
                            Ok(e)
                        } else {
                            Err(self.unexpected("expect )"))
                        }
                    },
                }
            },
            Some(_) => Err(self.unexpected("expect expression")),
        }
    }

    /// One select item: an expression with an optional alias.
    #[verifier::rlimit(30)]
    fn parse_select_item(&mut self) -> (r: Result<SelectItem, ParseError>)
        requires
            old(self).wf(),
        ensures
            final(self).wf(),
            final(self).same_input(old(self)),
            agrees(r, final(self).index as int, parse_select_item(old(self).tokens@, old(self).index as int),
                |i: SelectItem| i.view_item(), old(self).tokens@, old(self).raw_sql@),
            r is Ok ==> old(self).index < final(self).index,
        decreases old(self).tokens@.len() - old(self).index, 4nat,
    {
        let expression = match self.parse_expression(0) {
            Ok(e) => e,
            Err(e) => return Err(e),
        };
        match self.peek() {
            Some(Token::Keyword(Keyword::AS)) => {
                self.next();
                match self.parse_identifier() {
                    Ok(alias) => Ok(SelectItem::Alias(Alias { expression, alias })),
                    Err(e) => Err(e),
                }
            },
            Some(Token::Identifier(v)) => {
                let value = v.clone();
                let leaf = Location::new(&self.tokens[self.index].location);
                self.next();
                let alias = Identifier::Single(SingleIdentifier { value, leaf });
                Ok(SelectItem::Alias(Alias { expression, alias }))
            },
            _ => Ok(SelectItem::Expression(expression)),
        }
    }

    /// The select items, appended to `acc`.
    #[verifier::rlimit(30)]
    fn parse_select_items(&mut self, acc: Vec<SelectItem>) -> (r: Result<Vec<SelectItem>, ParseError>)
        requires
            old(self).wf(),
        ensures
            final(self).wf(),
            final(self).same_input(old(self)),
            agrees(r, final(self).index as int, parse_select_items(old(self).tokens@, old(self).index as int, view_items(acc@)),
                |v: Vec<SelectItem>| view_items(v@), old(self).tokens@, old(self).raw_sql@),
            r is Ok ==> old(self).index < final(self).index,
        decreases old(self).tokens@.len() - old(self).index, 5nat,
    {
        let item = match self.parse_select_item() {
            Ok(i) => i,
            Err(e) => return Err(e),
        };
        let mut acc = acc;
        let ghost before = acc@;
        let ghost iv = item.view_item();
        acc.push(item);
        proof {
            assert(view_items(acc@) =~= view_items(before).push(iv));
        }
        match self.peek() {
            Some(Token::Comma) => {
                self.next();
                self.parse_select_items(acc)
            },
            Some(Token::Semicolon) => Ok(acc),
            None => Ok(acc),
            Some(Token::Keyword(k)) => {
                let k = *k;
                if k == Keyword::FROM || k == Keyword::WHERE || k == Keyword::HAVING || k == Keyword::GROUP
                    || k == Keyword::ORDER || k == Keyword::LIMIT || k == Keyword::OFFSET {
                    Ok(acc)
                } else {
                    let mut m = String::new();
                    push_str(&mut m, "invalid keyword ");
                    push_str(&mut m, k.to_str());
                    push_str(&mut m, ", expect FROM");
                    Err(self.make_error(m))
                }
            },
            Some(t) => {
                let mut m = String::new();
                push_str(&mut m, "invalid token ");
                t.write_to(&mut m);
                push_str(&mut m, ", expect keyword FROM");
                Err(self.make_error(m))
            },
        }
    }

    /// The from items, appended to `acc`.
    #[verifier::rlimit(30)]
    fn parse_from_items(&mut self, acc: Vec<FromItem>) -> (r: Result<Vec<FromItem>, ParseError>)
        requires
            old(self).wf(),
        ensures
            final(self).wf(),
            final(self).same_input(old(self)),
            agrees(r, final(self).index as int, parse_from_items(old(self).tokens@, old(self).index as int, view_from_items(acc@)),
                |v: Vec<FromItem>| view_from_items(v@), old(self).tokens@, old(self).raw_sql@),
            r is Ok ==> old(self).index < final(self).index,
        decreases old(self).tokens@.len() - old(self).index, 5nat,
    {
        let expression = match self.parse_expression(0) {
            Ok(e) => e,
            Err(e) => return Err(e),
        };
        let alias = if self.is_at(&Token::Keyword(Keyword::AS)) {
            self.next();
            match self.parse_identifier() {
                Ok(a) => Some(a),
                Err(e) => return Err(e),
            }
        } else {
            None
        };
        let item = FromItem { expression, alias };
        let mut acc = acc;
        let ghost before = acc@;
        let ghost iv = item.view_from();
        acc.push(item);
        proof {
            assert(view_from_items(acc@) =~= view_from_items(before).push(iv));
        }
        if self.is_at(&Token::Comma) {
            self.next();
            self.parse_from_items(acc)
        } else {
            Ok(acc)
        }
    }

    /// `FROM item, ...` if present.
    fn parse_from(&mut self) -> (r: Result<Vec<FromItem>, ParseError>)
        requires
            old(self).wf(),
        ensures
            final(self).wf(),
            final(self).same_input(old(self)),
            agrees(r, final(self).index as int, parse_from(old(self).tokens@, old(self).index as int),
                |v: Vec<FromItem>| view_from_items(v@), old(self).tokens@, old(self).raw_sql@),
            r is Ok ==> old(self).index <= final(self).index,
        decreases old(self).tokens@.len() - old(self).index, 6nat,
    {
        if self.next_if(&Token::Keyword(Keyword::FROM)) {
            let v: Vec<FromItem> = Vec::new();
            proof {
                assert(view_from_items(v@) =~= Seq::empty());
            }
            self.parse_from_items(v)
        } else {
            let v: Vec<FromItem> = Vec::new();
            proof {
                assert(view_from_items(v@) =~= Seq::empty());
            }
            Ok(v)
        }
    }

    /// `<keyword> expression` if the keyword is present.
    fn parse_condition(&mut self, k: Keyword) -> (r: Result<Option<Expression>, ParseError>)
        requires
            old(self).wf(),
        ensures
            final(self).wf(),
            final(self).same_input(old(self)),
            agrees(r, final(self).index as int, parse_condition(old(self).tokens@, old(self).index as int, k),
                (|o: Option<Expression>| match o { Some(e) => Some(e.view_expr()), None => None }), old(self).tokens@, old(self).raw_sql@),
            r is Ok ==> old(self).index <= final(self).index,
        decreases old(self).tokens@.len() - old(self).index, 6nat,
    {
        if self.next_if(&Token::Keyword(k)) {
            match self.parse_expression(0) {
                Ok(e) => Ok(Some(e)),
                Err(e) => Err(e),
            }
        } else {
            Ok(None)
        }
    }

    /// A `SELECT` statement, starting at its keyword.
    #[verifier::rlimit(30)]
    fn parse_select(&mut self) -> (r: Result<Select, ParseError>)
        requires
            old(self).wf(),
            old(self).index < old(self).tokens@.len(),
        ensures
            final(self).wf(),
            final(self).same_input(old(self)),
            agrees(r, final(self).index as int, parse_select(old(self).tokens@, old(self).index as int),
                |s: Select| s.view_select(), old(self).tokens@, old(self).raw_sql@),
            r is Ok ==> old(self).index < final(self).index,
        decreases old(self).tokens@.len() - old(self).index, 1nat,
    {
        self.next();
        let first: Vec<SelectItem> = Vec::new();
        proof {
            assert(view_items(first@) =~= Seq::empty());
        }
        let items = match self.parse_select_items(first) {
            Ok(v) => v,
            Err(e) => return Err(e),
        };
        self.parse_select_body(items)
    }

    /// The clauses of a `SELECT` after its items.
    #[verifier::rlimit(30)]
    fn parse_select_body(&mut self, items: Vec<SelectItem>) -> (r: Result<Select, ParseError>)
        requires
            old(self).wf(),
        ensures
            final(self).wf(),
            final(self).same_input(old(self)),
            agrees(r, final(self).index as int, parse_select_body(old(self).tokens@, old(self).index as int,
                view_items(items@)),
                |s: Select| s.view_select(), old(self).tokens@, old(self).raw_sql@),
            r is Ok ==> old(self).index <= final(self).index,
        decreases old(self).tokens@.len() - old(self).index, 8nat,
    {
        let from = match self.parse_from() {
            Ok(v) => v,
            Err(e) => return Err(e),
        };
        let wheres = match self.parse_condition(Keyword::WHERE) {
            Ok(v) => v,
            Err(e) => return Err(e),
        };
        let group_by = match self.parse_group_by() {
            Ok(v) => v,
            Err(e) => return Err(e),
        };
        self.parse_select_tail(items, from, wheres, group_by)
    }

    /// The clauses of a `SELECT` from `HAVING` on, after the parts already read.
    #[verifier::rlimit(30)]
    fn parse_select_tail(
        &mut self,
        items: Vec<SelectItem>,
        from: Vec<FromItem>,
        wheres: Option<Expression>,
        group_by: Vec<Identifier>,
    ) -> (r: Result<Select, ParseError>)
        requires
            old(self).wf(),
        ensures
            final(self).wf(),
            final(self).same_input(old(self)),
            agrees(r, final(self).index as int, parse_select_tail(old(self).tokens@, old(self).index as int,
                view_items(items@), view_from_items(from@),
                match wheres { Some(e) => Some(e.view_expr()), None => None }, view_identifiers(group_by@)),
                |s: Select| s.view_select(), old(self).tokens@, old(self).raw_sql@),
            r is Ok ==> old(self).index <= final(self).index,
        decreases old(self).tokens@.len() - old(self).index, 7nat,
    {
        let having = match self.parse_condition(Keyword::HAVING) {
            Ok(v) => v,
            Err(e) => return Err(e),
        };
        let order_by = match self.parse_order_by() {
            Ok(v) => v,
            Err(e) => return Err(e),
        };
        let limit = match self.parse_count(Keyword::LIMIT) {
            Ok(Some((n, leaf))) => Some(Limit { limit: n, leaf }),
            Ok(None) => None,
            Err(e) => return Err(e),
        };
        let offset = match self.parse_count(Keyword::OFFSET) {
            Ok(Some((n, leaf))) => Some(Offset { offset: n, leaf }),
            Ok(None) => None,
            Err(e) => return Err(e),
        };
        Ok(Select { items, from, wheres, group_by, having, order_by, limit, offset })
    }
}

impl<'a> Parser<'a> {
    /// Comma-separated names, appended to `acc`.
    fn parse_identifier_list(&mut self, acc: Vec<Identifier>) -> (r: Result<Vec<Identifier>, ParseError>)
        requires
            old(self).wf(),
        ensures
            final(self).wf(),
            final(self).same_input(old(self)),
            agrees(r, final(self).index as int, parse_identifier_list(old(self).tokens@, old(self).index as int, view_identifiers(acc@)),
                |v: Vec<Identifier>| view_identifiers(v@), old(self).tokens@, old(self).raw_sql@),
            r is Ok ==> old(self).index < final(self).index,
        decreases old(self).tokens@.len() - old(self).index,
    {
        let id = match self.parse_identifier() {
            Ok(i) => i,
            Err(e) => return Err(e),
        };
        let mut acc = acc;
        let ghost before = acc@;
        let ghost iv = id@;
        acc.push(id);
        proof {
            assert(view_identifiers(acc@) =~= view_identifiers(before).push(iv));
        }
        if self.is_at(&Token::Comma) {
            self.next();
            self.parse_identifier_list(acc)
        } else {
            Ok(acc)
        }
    }

    /// `GROUP BY name, ...` if present.
    fn parse_group_by(&mut self) -> (r: Result<Vec<Identifier>, ParseError>)
        requires
            old(self).wf(),
        ensures
            final(self).wf(),
            final(self).same_input(old(self)),
            agrees(r, final(self).index as int, parse_group_by(old(self).tokens@, old(self).index as int),
                |v: Vec<Identifier>| view_identifiers(v@), old(self).tokens@, old(self).raw_sql@),
            r is Ok ==> old(self).index <= final(self).index,
    {
        let empty: Vec<Identifier> = Vec::new();
        proof { assert(view_identifiers(empty@) =~= Seq::empty()); }
        if self.next_if(&Token::Keyword(Keyword::GROUP)) {
            if self.next_if(&Token::Keyword(Keyword::BY)) {
                self.parse_identifier_list(empty)
            } else {
                let mut m = String::new();
                push_str(&mut m, "expect keyword BY of GROUP BY");
                Err(self.make_error(m))
            }
        } else {
            Ok(empty)
        }
    }

    /// Comma-separated `name [ASC|DESC]` terms, appended to `acc`.
    fn parse_order_terms(&mut self, acc: Vec<OrderBy>) -> (r: Result<Vec<OrderBy>, ParseError>)
        requires
            old(self).wf(),
        ensures
            final(self).wf(),
            final(self).same_input(old(self)),
            agrees(r, final(self).index as int, parse_order_terms(old(self).tokens@, old(self).index as int, view_order_by(acc@)),
                |v: Vec<OrderBy>| view_order_by(v@), old(self).tokens@, old(self).raw_sql@),
            r is Ok ==> old(self).index < final(self).index,
        decreases old(self).tokens@.len() - old(self).index,
    {
        let identifier = match self.parse_identifier() {
            Ok(i) => i,
            Err(e) => return Err(e),
        };
        let asc = if self.next_if(&Token::Keyword(Keyword::ASC)) {
            true
        } else if self.next_if(&Token::Keyword(Keyword::DESC)) {
            false
        } else {
            true
        };
        let term = OrderBy { identifier, asc };
        let mut acc = acc;
        let ghost before = acc@;
        let ghost tv = term@;
        acc.push(term);
        proof {
            assert(view_order_by(acc@) =~= view_order_by(before).push(tv));
        }
        if self.is_at(&Token::Comma) {
            self.next();
            self.parse_order_terms(acc)
        } else {
            Ok(acc)
        }
    }

    /// `ORDER BY term, ...` if present.
    fn parse_order_by(&mut self) -> (r: Result<Vec<OrderBy>, ParseError>)
        requires
            old(self).wf(),
        ensures
            final(self).wf(),
            final(self).same_input(old(self)),
            agrees(r, final(self).index as int, parse_order_by(old(self).tokens@, old(self).index as int),
                |v: Vec<OrderBy>| view_order_by(v@), old(self).tokens@, old(self).raw_sql@),
            r is Ok ==> old(self).index <= final(self).index,
    {
        let empty: Vec<OrderBy> = Vec::new();
        proof { assert(view_order_by(empty@) =~= Seq::empty()); }
        if self.next_if(&Token::Keyword(Keyword::ORDER)) {
            if self.next_if(&Token::Keyword(Keyword::BY)) {
                self.parse_order_terms(empty)
            } else {
                let mut m = String::new();
                push_str(&mut m, "expect keyword BY of ORDER BY");
                Err(self.make_error(m))
            }
        } else {
            Ok(empty)
        }
    }

    /// `<keyword> <integer>` if the keyword is present: the value and the keyword's location.
    fn parse_count(&mut self, k: Keyword) -> (r: Result<Option<(u64, Location)>, ParseError>)
        requires
            old(self).wf(),
        ensures
            final(self).wf(),
            final(self).same_input(old(self)),
            agrees(r, final(self).index as int, parse_count(old(self).tokens@, old(self).index as int, k),
                |o: Option<(u64, Location)>| o, old(self).tokens@, old(self).raw_sql@),
            r is Ok ==> old(self).index <= final(self).index,
    {
        if self.is_at(&Token::Keyword(k)) {
            let leaf = Location::new(&self.location_and_next());
            match self.peek() {
                Some(Token::IntegerLiteral(_, n)) => {
                    let value: u64 = match n {
                        Some(v) => *v,
                        None => 0,
                    };
                    self.next();
                    Ok(Some((value, leaf)))
                },
                _ => Err(self.unexpected("expect integer")),
            }
        } else {
            Ok(None)
        }
    }
}

/// The mathematical value of a list of statements.
pub open spec fn view_statements(v: Seq<Statement>) -> Seq<SpecStatement> {
    v.map_values(|s: Statement| s@)
}

/// `r` is what the grammar gives for the statements of `t`: the same
/// statements and the query text, or the same error.
pub open spec fn statements_agree(
    r: Result<Statements, ParseError>,
    expected: Result<Seq<SpecStatement>, (Seq<char>, int)>,
    t: Seq<ParsedToken>,
    raw: Seq<char>,
) -> bool {
    match expected {
        Ok(v) => r is Ok && view_statements(r->Ok_0.statements@) == v && r->Ok_0.raw_sql@ == raw,
        Err((m, i)) => {
            &&& r is Err
            &&& r->Err_0.message@ == m
            &&& r->Err_0.location == error_location(t, i)
            &&& r->Err_0.raw_sql@ == raw
        },
    }
}

impl<'a> Parser<'a> {
    /// The statements from the current index on, appended to `acc`.
    #[verifier::rlimit(30)]
    fn parse_statements(&mut self, acc: Vec<Statement>) -> (r: Result<Vec<Statement>, ParseError>)
        requires
            old(self).wf(),
        ensures
            final(self).wf(),
            final(self).same_input(old(self)),
            match parse_statements(old(self).tokens@, old(self).index as int, view_statements(acc@)) {
                Ok(v) => r is Ok && view_statements(r->Ok_0@) == v,
                Err((m, i)) => {
                    &&& r is Err
                    &&& r->Err_0.message@ == m
                    &&& r->Err_0.location == error_location(old(self).tokens@, i)
                    &&& r->Err_0.raw_sql@ == old(self).raw_sql@
                },
            },
        decreases old(self).tokens@.len() - old(self).index,
    {
        if self.index >= self.tokens.len() {
            return Ok(acc);
        }
        let statement = match self.peek() {
            Some(Token::Keyword(Keyword::SELECT)) => match self.parse_select() {
                Ok(select) => Statement::Select(select),
                Err(e) => return Err(e),
            },
            Some(Token::Semicolon) => Statement::Empty(Location::new(&self.location_and_next())),
            _ => {
                let mut m = String::new();
                push_str(&mut m, "invalid statement");
                return Err(self.make_error(m));
            },
        };
        self.next_if(&Token::Semicolon);
        let mut acc = acc;
        let ghost before = acc@;
        let ghost sv = statement@;
        acc.push(statement);
        proof {
            assert(view_statements(acc@) =~= view_statements(before).push(sv));
        }
        self.parse_statements(acc)
    }

    /// The statements from the current index to the end of the tokens.
    pub fn parse(&mut self) -> (r: Result<Statements, ParseError>)
        requires
            old(self).wf(),
        ensures
            final(self).wf(),
            statements_agree(r, parse_statements(old(self).input(), old(self).position(), Seq::empty()),
                old(self).input(), old(self).raw()),
    {
        let none: Vec<Statement> = Vec::new();
        proof {
            assert(view_statements(none@) =~= Seq::empty());
        }
        match self.parse_statements(none) {
            Ok(statements) => Ok(Statements { statements, raw_sql: self.raw_sql.to_owned() }),
            Err(e) => Err(e),
        }
    }
}

/// The statements of a tokenized query, or the first error.
pub fn parse(tokens: &ParsedTokens) -> (r: Result<Statements, ParseError>)
    ensures
        statements_agree(r, parse_all(tokens.tokens@), tokens.tokens@, tokens.raw_sql@),
{
    let mut parser = Parser::new(tokens);
    parser.parse()
}

} // verus!
