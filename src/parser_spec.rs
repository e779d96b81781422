//! The grammar of the SQL subset, as a specification over located tokens.
//!
//! Each `parse_*` function reads from token index `p` and gives the node
//! read and the index after it, or an error message and the index of the
//! token it is reported at. Binary operators are read by precedence
//! climbing: an operator is taken only when it binds tighter than the
//! surrounding minimum, so equal priorities group to the left.
use vstd::prelude::*;
use crate::ast::{
    location_of, priority_of, BinaryOperator, Decimal, Limit, Location, Offset, SpecExpression,
    SpecFromItem, SpecIdentifier, SpecOrderBy, SpecSelect, SpecSelectItem, SpecSingleIdentifier,
    SpecStatement, SpecValue, UnaryOperator,
};
use crate::str_scanner::TokenLocation;
use crate::token::{keyword_text, token_text, Keyword, ParsedToken, SpecToken};

verus! {

/// A node and the index after it, or a message and the index it is reported at.
pub type PResult<A> = Result<(A, int), (Seq<char>, int)>;

/// Placed where a part that always consumes a token would have consumed none.
/// The parser never produces it.
pub open spec fn stuck<A>() -> PResult<A> {
    Err((Seq::empty(), 0))
}

pub open spec fn tok(t: Seq<ParsedToken>, p: int) -> Option<SpecToken> {
    if 0 <= p < t.len() { Some(t[p].token@) } else { None }
}

pub open spec fn is_tok(t: Seq<ParsedToken>, p: int, x: SpecToken) -> bool {
    tok(t, p) == Some(x)
}

pub open spec fn is_keyword(t: Seq<ParsedToken>, p: int, k: Keyword) -> bool {
    tok(t, p) == Some(SpecToken::Keyword(k))
}

pub open spec fn loc(t: Seq<ParsedToken>, p: int) -> Location {
    location_of(t[p].location)
}

/// Where an error at index `p` is reported: at that token, or at the last
/// token when the input has ended.
pub open spec fn error_location(t: Seq<ParsedToken>, p: int) -> TokenLocation {
    if 0 <= p < t.len() {
        t[p].location
    } else if t.len() > 0 {
        t[t.len() - 1].location
    } else {
        TokenLocation { line_number: 0, column_number: 0, offset: 0, previous: '\0' }
    }
}

/// `invalid token <t>, <what>` at a token, or `unexpected end of input, <what>` past the end.
pub open spec fn unexpected<A>(t: Seq<ParsedToken>, p: int, what: Seq<char>) -> PResult<A> {
    match tok(t, p) {
        Some(x) => Err(("invalid token "@ + token_text(x) + ", "@ + what, p)),
        None => Err(("unexpected end of input, "@ + what, p)),
    }
}

/// The rest of a qualified identifier after its first `parts`.
pub open spec fn parse_identifier_rest(t: Seq<ParsedToken>, p: int, parts: Seq<SpecSingleIdentifier>) -> PResult<SpecIdentifier>
    decreases t.len() - p,
{
    if is_tok(t, p, SpecToken::Period) && p >= 0 {
        match tok(t, p + 1) {
            Some(SpecToken::Identifier(v)) => parse_identifier_rest(
                t,
                p + 2,
                parts.push(SpecSingleIdentifier { value: v, leaf: loc(t, p + 1) }),
            ),
            _ => unexpected(t, p + 1, "expect identifier"@),
        }
    } else if parts.len() == 1 {
        Ok((SpecIdentifier::Single(parts[0]), p))
    } else {
        Ok((SpecIdentifier::Combined(parts), p))
    }
}

/// `name` or `name.name...`.
pub open spec fn parse_identifier(t: Seq<ParsedToken>, p: int) -> PResult<SpecIdentifier> {
    match tok(t, p) {
        Some(SpecToken::Identifier(v)) => parse_identifier_rest(
            t,
            p + 1,
            seq![SpecSingleIdentifier { value: v, leaf: loc(t, p) }],
        ),
        _ => unexpected(t, p, "expect identifier"@),
    }
}

/// A prefix operator and the index after it.
pub open spec fn parse_prefix(t: Seq<ParsedToken>, p: int) -> (Option<UnaryOperator>, int) {
    match tok(t, p) {
        Some(SpecToken::Plus) => (Some(UnaryOperator::Plus(loc(t, p))), p + 1),
        Some(SpecToken::Minus) => (Some(UnaryOperator::Minus(loc(t, p))), p + 1),
        Some(SpecToken::Keyword(Keyword::NOT)) => (Some(UnaryOperator::NOT(loc(t, p))), p + 1),
        _ => (None, p),
    }
}

/// The binary operator at index `p`, if any.
pub open spec fn binary_operator(t: Seq<ParsedToken>, p: int) -> Option<BinaryOperator> {
    match tok(t, p) {
        Some(SpecToken::Plus) => Some(BinaryOperator::Plus(loc(t, p))),
        Some(SpecToken::Minus) => Some(BinaryOperator::Minus(loc(t, p))),
        Some(SpecToken::Multiply) => Some(BinaryOperator::Multiply(loc(t, p))),
        Some(SpecToken::Divide) => Some(BinaryOperator::Divide(loc(t, p))),
        Some(SpecToken::Equal) => Some(BinaryOperator::Equal(loc(t, p))),
        Some(SpecToken::NotEqual) => Some(BinaryOperator::NotEqual(loc(t, p))),
        Some(SpecToken::LessThan) => Some(BinaryOperator::LessThan(loc(t, p))),
        Some(SpecToken::GreaterThan) => Some(BinaryOperator::GreaterThan(loc(t, p))),
        Some(SpecToken::LessThanOrEqual) => Some(BinaryOperator::LessThanOrEqual(loc(t, p))),
        Some(SpecToken::GreaterThanOrEqual) => Some(BinaryOperator::GreaterThanOrEqual(loc(t, p))),
        Some(SpecToken::Keyword(Keyword::AND)) => Some(BinaryOperator::AND(loc(t, p))),
        Some(SpecToken::Keyword(Keyword::OR)) => Some(BinaryOperator::OR(loc(t, p))),
        _ => None,
    }
}

/// An integer literal, or a decimal when `.` and another integer literal follow.
pub open spec fn parse_number(t: Seq<ParsedToken>, p: int, n: Option<u64>) -> PResult<SpecExpression> {
    let integer: u64 = match n { Some(v) => v, None => 0 };
    if is_tok(t, p + 1, SpecToken::Period) {
        match tok(t, p + 2) {
            Some(SpecToken::IntegerLiteral(zeros, Some(fraction))) => Ok((
                SpecExpression::Literal(
                    SpecValue::Float(Decimal { integer, fraction_zeros: zeros, fraction }),
                    loc(t, p),
                ),
                p + 3,
            )),
            Some(SpecToken::IntegerLiteral(_, None)) => Ok((
                SpecExpression::Literal(
                    SpecValue::Float(Decimal { integer, fraction_zeros: 0, fraction: 0 }),
                    loc(t, p),
                ),
                p + 3,
            )),
            _ => Ok((SpecExpression::Literal(SpecValue::Integer(integer), loc(t, p)), p + 1)),
        }
    } else {
        Ok((SpecExpression::Literal(SpecValue::Integer(integer), loc(t, p)), p + 1))
    }
}

pub open spec fn with_prefix(prefix: Option<UnaryOperator>, e: SpecExpression) -> SpecExpression {
    match prefix {
        Some(op) => SpecExpression::Unary(op, Box::new(e)),
        None => e,
    }
}

/// An expression whose binary operators all bind tighter than `min`.
pub open spec fn parse_expression(t: Seq<ParsedToken>, p: int, min: nat) -> PResult<SpecExpression>
    decreases t.len() - p, 3nat,
{
    let (prefix, p1) = parse_prefix(t, p);
    match parse_operand(t, p1) {
        Err(e) => Err(e),
        Ok((operand, p2)) => if p < p2 <= t.len() {
            parse_binary(t, p2, with_prefix(prefix, operand), min)
        } else {
            stuck()
        },
    }
}

/// Extends `left` with the binary operators from index `p` on that bind tighter than `min`.
pub open spec fn parse_binary(t: Seq<ParsedToken>, p: int, left: SpecExpression, min: nat) -> PResult<SpecExpression>
    decreases t.len() - p, 1nat,
{
    match binary_operator(t, p) {
        Some(op) => if min < priority_of(op) && 0 <= p < t.len() {
            match parse_expression(t, p + 1, priority_of(op)) {
                Err(e) => Err(e),
                Ok((right, q)) => if p < q <= t.len() {
                    parse_binary(t, q, SpecExpression::Binary(Box::new(left), op, Box::new(right)), min)
                } else {
                    stuck()
                },
            }
        } else {
            Ok((left, p))
        },
        None => Ok((left, p)),
    }
}

/// The arguments of a call after `(`, appended to `acc`, through the closing `)`.
pub open spec fn parse_arguments(t: Seq<ParsedToken>, p: int, acc: Seq<SpecExpression>) -> PResult<Seq<SpecExpression>>
    decreases t.len() - p, 4nat,
{
    if is_tok(t, p, SpecToken::RightParenthesis) && acc.len() == 0 {
        Ok((acc, p + 1))
    } else if 0 <= p < t.len() {
        match parse_expression(t, p, 0) {
            Err(e) => Err(e),
            Ok((e, q)) => if p < q <= t.len() {
                if is_tok(t, q, SpecToken::Comma) {
                    parse_arguments(t, q + 1, acc.push(e))
                } else if is_tok(t, q, SpecToken::RightParenthesis) {
                    Ok((acc.push(e), q + 1))
                } else {
                    unexpected(t, q, "expect , or )"@)
                }
            } else {
                stuck()
            },
        }
    } else {
        unexpected(t, p, "expect expression"@)
    }
}

/// A literal, a name, a call, `*`, a parenthesized expression or a subquery.
pub open spec fn parse_operand(t: Seq<ParsedToken>, p: int) -> PResult<SpecExpression>
    decreases t.len() - p, 2nat,
{
    if p < 0 {
        stuck()
    } else {
        match tok(t, p) {
            Some(SpecToken::Keyword(Keyword::SELECT)) => match parse_select(t, p) {
                Err(e) => Err(e),
                Ok((s, q)) => Ok((SpecExpression::SubQuery(Box::new(s)), q)),
            },
            Some(SpecToken::Keyword(k)) => Err(("invalid keyword "@ + keyword_text(k) + " expect expression"@, p)),
            Some(SpecToken::Identifier(_)) => match parse_identifier(t, p) {
                Err(e) => Err(e),
                Ok((id, q)) => if is_tok(t, q, SpecToken::LeftParenthesis) && p < q {
                    match parse_arguments(t, q + 1, Seq::empty()) {
                        Err(e) => Err(e),
                        Ok((args, r)) => Ok((SpecExpression::Function(id, args), r)),
                    }
                } else {
                    Ok((SpecExpression::Identifier(id), q))
                },
            },
            Some(SpecToken::StringLiteral(s)) => Ok((SpecExpression::Literal(SpecValue::String(s), loc(t, p)), p + 1)),
            Some(SpecToken::IntegerLiteral(_, n)) => parse_number(t, p, n),
            Some(SpecToken::Multiply) => Ok((SpecExpression::Identifier(SpecIdentifier::Wildcard(loc(t, p))), p + 1)),
            Some(SpecToken::LeftParenthesis) => match parse_expression(t, p + 1, 0) {
                Err(e) => Err(e),
                Ok((e, q)) => if is_tok(t, q, SpecToken::RightParenthesis) {
                    Ok((e, q + 1))
                } else {
                    unexpected(t, q, "expect )"@)
                },
            },
            _ => unexpected(t, p, "expect expression"@),
        }
    }
}

/// A keyword that may follow the select items.
pub open spec fn ends_items(k: Keyword) -> bool {
    k == Keyword::FROM || k == Keyword::WHERE || k == Keyword::HAVING || k == Keyword::GROUP
        || k == Keyword::ORDER || k == Keyword::LIMIT || k == Keyword::OFFSET
}

/// One select item: an expression with an optional alias.
pub open spec fn parse_select_item(t: Seq<ParsedToken>, p: int) -> PResult<SpecSelectItem>
    decreases t.len() - p, 4nat,
{
    match parse_expression(t, p, 0) {
        Err(e) => Err(e),
        Ok((e, q)) => match tok(t, q) {
            Some(SpecToken::Keyword(Keyword::AS)) => match parse_identifier(t, q + 1) {
                Err(err) => Err(err),
                Ok((a, r)) => Ok((SpecSelectItem::Alias(e, a), r)),
            },
            Some(SpecToken::Identifier(v)) => Ok((
                SpecSelectItem::Alias(e, SpecIdentifier::Single(SpecSingleIdentifier { value: v, leaf: loc(t, q) })),
                q + 1,
            )),
            _ => Ok((SpecSelectItem::Expression(e), q)),
        },
    }
}

/// The select items from index `p` on, appended to `acc`.
pub open spec fn parse_select_items(t: Seq<ParsedToken>, p: int, acc: Seq<SpecSelectItem>) -> PResult<Seq<SpecSelectItem>>
    decreases t.len() - p, 5nat,
{
    match parse_select_item(t, p) {
        Err(e) => Err(e),
        Ok((item, q)) => if p < q <= t.len() {
            match tok(t, q) {
                Some(SpecToken::Comma) => parse_select_items(t, q + 1, acc.push(item)),
                Some(SpecToken::Semicolon) => Ok((acc.push(item), q)),
                None => Ok((acc.push(item), q)),
                Some(SpecToken::Keyword(k)) => if ends_items(k) {
                    Ok((acc.push(item), q))
                } else {
                    Err(("invalid keyword "@ + keyword_text(k) + ", expect FROM"@, q))
                },
                Some(x) => Err(("invalid token "@ + token_text(x) + ", expect keyword FROM"@, q)),
            }
        } else {
            stuck()
        },
    }
}

/// The from items from index `p` on, appended to `acc`.
pub open spec fn parse_from_items(t: Seq<ParsedToken>, p: int, acc: Seq<SpecFromItem>) -> PResult<Seq<SpecFromItem>>
    decreases t.len() - p, 5nat,
{
    match parse_expression(t, p, 0) {
        Err(e) => Err(e),
        Ok((e, q)) => {
            let aliased = if is_keyword(t, q, Keyword::AS) { parse_identifier(t, q + 1) } else { Err((Seq::empty(), q)) };
            if is_keyword(t, q, Keyword::AS) && aliased is Err {
                Err(aliased->Err_0)
            } else {
                let (alias, r) = if is_keyword(t, q, Keyword::AS) {
                    (Some(aliased->Ok_0.0), aliased->Ok_0.1)
                } else {
                    (None, q)
                };
                let item = SpecFromItem { expression: e, alias };
                if p < q <= r <= t.len() {
                    if is_tok(t, r, SpecToken::Comma) {
                        parse_from_items(t, r + 1, acc.push(item))
                    } else {
                        Ok((acc.push(item), r))
                    }
                } else {
                    stuck()
                }
            }
        },
    }
}

/// `FROM item, ...` if present.
pub open spec fn parse_from(t: Seq<ParsedToken>, p: int) -> PResult<Seq<SpecFromItem>>
    decreases t.len() - p, 6nat,
{
    if is_keyword(t, p, Keyword::FROM) {
        parse_from_items(t, p + 1, Seq::empty())
    } else {
        Ok((Seq::empty(), p))
    }
}

/// `<keyword> expression` if the keyword is present.
pub open spec fn parse_condition(t: Seq<ParsedToken>, p: int, k: Keyword) -> PResult<Option<SpecExpression>>
    decreases t.len() - p, 6nat,
{
    if is_keyword(t, p, k) {
        match parse_expression(t, p + 1, 0) {
            Err(e) => Err(e),
            Ok((e, q)) => Ok((Some(e), q)),
        }
    } else {
        Ok((None, p))
    }
}

/// Comma-separated identifiers from index `p` on, appended to `acc`.
pub open spec fn parse_identifier_list(t: Seq<ParsedToken>, p: int, acc: Seq<SpecIdentifier>) -> PResult<Seq<SpecIdentifier>>
    decreases t.len() - p,
{
    match parse_identifier(t, p) {
        Err(e) => Err(e),
        Ok((id, q)) => if p < q <= t.len() && is_tok(t, q, SpecToken::Comma) {
            parse_identifier_list(t, q + 1, acc.push(id))
        } else {
            Ok((acc.push(id), q))
        },
    }
}

/// `GROUP BY name, ...` if present.
pub open spec fn parse_group_by(t: Seq<ParsedToken>, p: int) -> PResult<Seq<SpecIdentifier>> {
    if is_keyword(t, p, Keyword::GROUP) {
        if is_keyword(t, p + 1, Keyword::BY) {
            parse_identifier_list(t, p + 2, Seq::empty())
        } else {
            Err(("expect keyword BY of GROUP BY"@, p + 1))
        }
    } else {
        Ok((Seq::empty(), p))
    }
}

/// Comma-separated `name [ASC|DESC]` terms from index `p` on, appended to `acc`.
pub open spec fn parse_order_terms(t: Seq<ParsedToken>, p: int, acc: Seq<SpecOrderBy>) -> PResult<Seq<SpecOrderBy>>
    decreases t.len() - p,
{
    match parse_identifier(t, p) {
        Err(e) => Err(e),
        Ok((id, q)) => {
            let (asc, r) = if is_keyword(t, q, Keyword::ASC) {
                (true, q + 1)
            } else if is_keyword(t, q, Keyword::DESC) {
                (false, q + 1)
            } else {
                (true, q)
            };
            let term = SpecOrderBy { identifier: id, asc };
            if p < r <= t.len() && is_tok(t, r, SpecToken::Comma) {
                parse_order_terms(t, r + 1, acc.push(term))
            } else {
                Ok((acc.push(term), r))
            }
        },
    }
}

/// `ORDER BY term, ...` if present.
pub open spec fn parse_order_by(t: Seq<ParsedToken>, p: int) -> PResult<Seq<SpecOrderBy>> {
    if is_keyword(t, p, Keyword::ORDER) {
        if is_keyword(t, p + 1, Keyword::BY) {
            parse_order_terms(t, p + 2, Seq::empty())
        } else {
            Err(("expect keyword BY of ORDER BY"@, p + 1))
        }
    } else {
        Ok((Seq::empty(), p))
    }
}

/// `<keyword> <integer>` if the keyword is present: the integer's value and
/// the keyword's location.
pub open spec fn parse_count(t: Seq<ParsedToken>, p: int, k: Keyword) -> PResult<Option<(u64, Location)>> {
    if is_keyword(t, p, k) {
        match tok(t, p + 1) {
            Some(SpecToken::IntegerLiteral(_, n)) => Ok((Some((match n { Some(v) => v, None => 0 }, loc(t, p))), p + 2)),
            _ => unexpected(t, p + 1, "expect integer"@),
        }
    } else {
        Ok((None, p))
    }
}

/// `SELECT items [FROM ...] [WHERE ...] [GROUP BY ...] [HAVING ...] [ORDER BY ...] [LIMIT n] [OFFSET n]`,
/// starting at the `SELECT` keyword at index `p`.
pub open spec fn parse_select(t: Seq<ParsedToken>, p: int) -> PResult<SpecSelect>
    decreases t.len() - p, 1nat,
{
    if p < 0 || p >= t.len() {
        stuck()
    } else {
        match parse_select_items(t, p + 1, Seq::empty()) {
            Err(e) => Err(e),
            Ok((items, q1)) => if p < q1 <= t.len() {
                parse_select_body(t, q1, items)
            } else {
                stuck()
            },
        }
    }
}

/// The clauses of a `SELECT` after its items: `FROM`, `WHERE`, `GROUP BY`, then the rest.
pub open spec fn parse_select_body(t: Seq<ParsedToken>, p: int, items: Seq<SpecSelectItem>) -> PResult<SpecSelect>
    decreases t.len() - p, 8nat,
{
    match parse_from(t, p) {
        Err(e) => Err(e),
        Ok((from, q2)) => if !(p <= q2 <= t.len()) {
            stuck()
        } else {
            match parse_condition(t, q2, Keyword::WHERE) {
                Err(e) => Err(e),
                Ok((wheres, q3)) => if !(q2 <= q3 <= t.len()) {
                    stuck()
                } else {
                    match parse_group_by(t, q3) {
                        Err(e) => Err(e),
                        Ok((group_by, q4)) => if !(q3 <= q4 <= t.len()) {
                            stuck()
                        } else {
                            parse_select_tail(t, q4, items, from, wheres, group_by)
                        },
                    }
                },
            }
        },
    }
}

/// The clauses of a `SELECT` from `HAVING` on, after the parts already read.
pub open spec fn parse_select_tail(
    t: Seq<ParsedToken>,
    p: int,
    items: Seq<SpecSelectItem>,
    from: Seq<SpecFromItem>,
    wheres: Option<SpecExpression>,
    group_by: Seq<SpecIdentifier>,
) -> PResult<SpecSelect>
    decreases t.len() - p, 7nat,
{
    match parse_condition(t, p, Keyword::HAVING) {
        Err(e) => Err(e),
        Ok((having, q5)) => match parse_order_by(t, q5) {
            Err(e) => Err(e),
            Ok((order_by, q6)) => match parse_count(t, q6, Keyword::LIMIT) {
                Err(e) => Err(e),
                Ok((limit, q7)) => match parse_count(t, q7, Keyword::OFFSET) {
                    Err(e) => Err(e),
                    Ok((offset, q8)) => Ok((
                        SpecSelect {
                            items,
                            from,
                            wheres,
                            group_by,
                            having,
                            order_by,
                            limit: match limit {
                                Some((n, l)) => Some(Limit { limit: n, leaf: l }),
                                None => None,
                            },
                            offset: match offset {
                                Some((n, l)) => Some(Offset { offset: n, leaf: l }),
                                None => None,
                            },
                        },
                        q8,
                    )),
                },
            },
        },
    }
}

/// The statements from index `p` on, appended to `acc`; each may be followed by `;`.
pub open spec fn parse_statements(t: Seq<ParsedToken>, p: int, acc: Seq<SpecStatement>) -> Result<Seq<SpecStatement>, (Seq<char>, int)>
    decreases t.len() - p,
{
    if p < 0 || p >= t.len() {
        Ok(acc)
    } else {
        let first = match tok(t, p) {
            Some(SpecToken::Keyword(Keyword::SELECT)) => match parse_select(t, p) {
                Err(e) => Err(e),
                Ok((s, q)) => Ok((SpecStatement::Select(s), q)),
            },
            Some(SpecToken::Semicolon) => Ok((SpecStatement::Empty(loc(t, p)), p + 1)),
            _ => Err(("invalid statement"@, p)),
        };
        match first {
            Err(e) => Err(e),
            Ok((s, q)) => {
                let r = if is_tok(t, q, SpecToken::Semicolon) { q + 1 } else { q };
                if p < r <= t.len() {
                    parse_statements(t, r, acc.push(s))
                } else {
                    Ok(acc.push(s))
                }
            },
        }
    }
}

/// The statements of the whole token sequence.
pub open spec fn parse_all(t: Seq<ParsedToken>) -> Result<Seq<SpecStatement>, (Seq<char>, int)> {
    parse_statements(t, 0, Seq::empty())
}

} // verus!
