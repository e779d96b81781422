//! The location of a syntax node: that of its first token.
use vstd::prelude::*;
use crate::ast::{
    BinaryOperator, Expression, Identifier, Limit, Literal, Location, Offset, OrderBy, Select,
    SelectItem, SingleIdentifier, Statement, UnaryOperator,
};
use crate::error::near;
use crate::text::{decimal, push_decimal, push_str};

verus! {

/// `Ln <line>, Col <column> near "<snippet>"` for a location in `raw`.
pub open spec fn locate_text(l: Location, raw: Seq<char>) -> Seq<char> {
    "Ln "@ + decimal(l.line_number as nat) + ", Col "@ + decimal(l.column_number as nat) + " near \""@
        + near(raw, l.offset as int) + "\""@
}

pub open spec fn identifier_located(i: &Identifier) -> bool {
    match i {
        Identifier::Combined(parts) => parts@.len() > 0,
        Identifier::WithWildcard(parts) => parts@.len() > 0,
        _ => true,
    }
}

pub open spec fn identifier_location(i: &Identifier) -> Location {
    match i {
        Identifier::Single(s) => s.leaf,
        Identifier::Combined(parts) => parts@[0].leaf,
        Identifier::WithWildcard(parts) => parts@[0].leaf,
        Identifier::Wildcard(l) => *l,
    }
}

pub open spec fn binary_operator_location(op: BinaryOperator) -> Location {
    match op {
        BinaryOperator::Plus(l) => l,
        BinaryOperator::Minus(l) => l,
        BinaryOperator::Multiply(l) => l,
        BinaryOperator::Divide(l) => l,
        BinaryOperator::Equal(l) => l,
        BinaryOperator::NotEqual(l) => l,
        BinaryOperator::GreaterThan(l) => l,
        BinaryOperator::LessThan(l) => l,
        BinaryOperator::GreaterThanOrEqual(l) => l,
        BinaryOperator::LessThanOrEqual(l) => l,
        BinaryOperator::AND(l) => l,
        BinaryOperator::OR(l) => l,
    }
}

pub open spec fn unary_operator_location(op: UnaryOperator) -> Location {
    match op {
        UnaryOperator::Plus(l) => l,
        UnaryOperator::Minus(l) => l,
        UnaryOperator::NOT(l) => l,
    }
}

/// Whether an expression has a first token to be located at.
pub open spec fn expression_located(e: &Expression) -> bool
    decreases e, 0nat,
{
    match e {
        Expression::Literal(_) => true,
        Expression::Identifier(i) => identifier_located(i),
        Expression::BinaryExpression(b) => expression_located(&b.left),
        Expression::UnaryExpression(_) => true,
        Expression::Function(f) => identifier_located(&f.name),
        Expression::SubQuery(s) => select_located(s),
    }
}

pub open spec fn select_located(s: &Select) -> bool
    decreases s, 1nat,
{
    s.items@.len() > 0 && match &s.items@[0] {
        SelectItem::Expression(e) => expression_located(e),
        SelectItem::Alias(a) => expression_located(&a.expression),
    }
}

pub open spec fn expression_location(e: &Expression) -> Location
    decreases e, 0nat,
{
    match e {
        Expression::Literal(l) => l.leaf,
        Expression::Identifier(i) => identifier_location(i),
        Expression::BinaryExpression(b) => expression_location(&b.left),
        Expression::UnaryExpression(u) => unary_operator_location(u.operator),
        Expression::Function(f) => identifier_location(&f.name),
        Expression::SubQuery(s) => select_location(s),
    }
}

pub open spec fn select_location(s: &Select) -> Location
    decreases s, 1nat,
{
    if s.items@.len() > 0 {
        match &s.items@[0] {
            SelectItem::Expression(e) => expression_location(e),
            SelectItem::Alias(a) => expression_location(&a.expression),
        }
    } else {
        Location { line_number: 0, column_number: 0, offset: 0 }
    }
}

fn expression_location_of(e: &Expression) -> (r: Location)
    requires
        expression_located(e),
    ensures
        r == expression_location(e),
    decreases e,
{
    match e {
        Expression::Literal(l) => l.leaf,
        Expression::Identifier(i) => i.location(),
        Expression::BinaryExpression(b) => expression_location_of(&b.left),
        Expression::UnaryExpression(u) => u.operator.location(),
        Expression::Function(f) => f.name.location(),
        Expression::SubQuery(s) => select_location_of(s),
    }
}

fn select_location_of(s: &Select) -> (r: Location)
    requires
        select_located(s),
    ensures
        r == select_location(s),
    decreases s,
{
    match &s.items[0] {
        SelectItem::Expression(e) => expression_location_of(e),
        SelectItem::Alias(a) => expression_location_of(&a.expression),
    }
}

/// A syntax node that knows the location of its first token.
pub trait WithLocation {
    /// Whether the node has a first token (a list it starts with is not empty).
    spec fn located(&self) -> bool;

    /// The location of the node's first token.
    spec fn spec_location(&self) -> Location;

    fn location(&self) -> (r: Location)
        requires
            self.located(),
        ensures
            r == self.spec_location();

    /// `Ln <line>, Col <column> near "<snippet>"` for the node in the query `raw_sql`.
    fn locate(&self, raw_sql: &str) -> (r: String)
        requires
            self.located(),
        ensures
            r@ == locate_text(self.spec_location(), raw_sql@),
    {
        let l = self.location();
        let len = raw_sql.unicode_len();
        let skip: usize = if l.offset > 16 { l.offset - 16 } else { 0 };
        let from: usize = if skip < len { skip } else { len };
        let to: usize = if from < len && len - from > 32 { from + 32 } else { len };
        let snippet = raw_sql.substring_char(from, to);
        let mut s = String::new();
        push_str(&mut s, "Ln ");
        push_decimal(&mut s, l.line_number as u64);
        push_str(&mut s, ", Col ");
        push_decimal(&mut s, l.column_number as u64);
        push_str(&mut s, " near \"");
        push_str(&mut s, snippet);
        push_str(&mut s, "\"");
        assert(s@ =~= locate_text(l, raw_sql@));
        s
    }
}

impl WithLocation for Location {
    open spec fn located(&self) -> bool { true }

    open spec fn spec_location(&self) -> Location { *self }

    fn location(&self) -> (r: Location) {
        *self
    }
}

impl WithLocation for SingleIdentifier {
    open spec fn located(&self) -> bool { true }

    open spec fn spec_location(&self) -> Location { self.leaf }

    fn location(&self) -> (r: Location) {
        self.leaf
    }
}

impl WithLocation for Identifier {
    open spec fn located(&self) -> bool { identifier_located(self) }

    open spec fn spec_location(&self) -> Location { identifier_location(self) }

    fn location(&self) -> (r: Location) {
        match self {
            Identifier::Single(s) => s.leaf,
            Identifier::Combined(parts) => parts[0].leaf,
            Identifier::WithWildcard(parts) => parts[0].leaf,
            Identifier::Wildcard(l) => *l,
        }
    }
}

impl WithLocation for Literal {
    open spec fn located(&self) -> bool { true }

    open spec fn spec_location(&self) -> Location { self.leaf }

    fn location(&self) -> (r: Location) {
        self.leaf
    }
}

impl WithLocation for BinaryOperator {
    open spec fn located(&self) -> bool { true }

    open spec fn spec_location(&self) -> Location { binary_operator_location(*self) }

    fn location(&self) -> (r: Location) {
        match self {
            BinaryOperator::Plus(l) => *l,
            BinaryOperator::Minus(l) => *l,
            BinaryOperator::Multiply(l) => *l,
            BinaryOperator::Divide(l) => *l,
            BinaryOperator::Equal(l) => *l,
            BinaryOperator::NotEqual(l) => *l,
            BinaryOperator::GreaterThan(l) => *l,
            BinaryOperator::LessThan(l) => *l,
            BinaryOperator::GreaterThanOrEqual(l) => *l,
            BinaryOperator::LessThanOrEqual(l) => *l,
            BinaryOperator::AND(l) => *l,
            BinaryOperator::OR(l) => *l,
        }
    }
}

impl WithLocation for UnaryOperator {
    open spec fn located(&self) -> bool { true }

    open spec fn spec_location(&self) -> Location { unary_operator_location(*self) }

    fn location(&self) -> (r: Location) {
        match self {
            UnaryOperator::Plus(l) => *l,
            UnaryOperator::Minus(l) => *l,
            UnaryOperator::NOT(l) => *l,
        }
    }
}

impl WithLocation for Expression {
    open spec fn located(&self) -> bool { expression_located(self) }

    open spec fn spec_location(&self) -> Location { expression_location(self) }

    fn location(&self) -> (r: Location) {
        expression_location_of(self)
    }
}

impl WithLocation for Select {
    open spec fn located(&self) -> bool { select_located(self) }

    open spec fn spec_location(&self) -> Location { select_location(self) }

    fn location(&self) -> (r: Location) {
        select_location_of(self)
    }
}

impl WithLocation for OrderBy {
    open spec fn located(&self) -> bool { identifier_located(&self.identifier) }

    open spec fn spec_location(&self) -> Location { identifier_location(&self.identifier) }

    fn location(&self) -> (r: Location) {
        self.identifier.location()
    }
}

impl WithLocation for Limit {
    open spec fn located(&self) -> bool { true }

    open spec fn spec_location(&self) -> Location { self.leaf }

    fn location(&self) -> (r: Location) {
        self.leaf
    }
}

impl WithLocation for Offset {
    open spec fn located(&self) -> bool { true }

    open spec fn spec_location(&self) -> Location { self.leaf }

    fn location(&self) -> (r: Location) {
        self.leaf
    }
}

impl WithLocation for Statement {
    open spec fn located(&self) -> bool {
        match self {
            Statement::Select(s) => select_located(s),
            Statement::CreateTable => false,
            Statement::Empty(_) => true,
        }
    }

    open spec fn spec_location(&self) -> Location {
        match self {
            Statement::Select(s) => select_location(s),
            Statement::CreateTable => Location { line_number: 0, column_number: 0, offset: 0 },
            Statement::Empty(l) => *l,
        }
    }

    fn location(&self) -> (r: Location) {
        match self {
            Statement::Select(s) => select_location_of(s),
            Statement::CreateTable => Location { line_number: 0, column_number: 0, offset: 0 },
            Statement::Empty(l) => *l,
        }
    }
}

} // verus!
