//! The abstract syntax tree of the SQL subset. Every leaf carries the
//! location of its first token. Each node has a mathematical twin (the
//! `Spec*` types) that the parser's specification is written over.
use vstd::prelude::*;
use crate::str_scanner::TokenLocation;

verus! {

/// A position in the query text.
#[derive(Debug, Clone, Copy, PartialEq, Eq, Structural)]
pub struct Location {
    pub line_number: usize,
    pub column_number: usize,
    pub offset: usize,
}

/// The position of a token location.
pub open spec fn location_of(l: TokenLocation) -> Location {
    Location { line_number: l.line_number, column_number: l.column_number, offset: l.offset }
}

impl Location {
    pub fn new(location: &TokenLocation) -> (r: Location)
        ensures
            r == location_of(*location),
    {
        Location {
            line_number: location.line_number,
            column_number: location.column_number,
            offset: location.offset,
        }
    }
}

/// One name, such as a table or a column.
#[derive(Debug, Clone, PartialEq, Eq)]
pub struct SingleIdentifier {
    pub value: String,
    pub leaf: Location,
}

/// A name, possibly qualified (`a.b.c`), or a wildcard.
#[derive(Debug, Clone, PartialEq, Eq)]
pub enum Identifier {
    Single(SingleIdentifier),
    Combined(Vec<SingleIdentifier>),
    WithWildcard(Vec<SingleIdentifier>),
    Wildcard(Location),
}

/// A decimal number written `integer.fraction`, where the fraction's digits
/// are `fraction_zeros` zeros followed by the digits of `fraction`
/// (no digits at all when `fraction` is 0).
#[derive(Debug, Clone, Copy, PartialEq, Eq, Structural)]
pub struct Decimal {
    pub integer: u64,
    pub fraction_zeros: u16,
    pub fraction: u64,
}

/// The value of a literal.
#[derive(Debug, Clone, PartialEq)]
pub enum Value {
    String(String),
    Integer(u64),
    Float(Decimal),
}

#[derive(Debug, Clone, PartialEq)]
pub struct Literal {
    pub value: Value,
    pub leaf: Location,
}

#[derive(Debug, Clone, Copy, PartialEq, Eq, Structural)]
pub enum BinaryOperator {
    Plus(Location),
    Minus(Location),
    Multiply(Location),
    Divide(Location),
    Equal(Location),
    NotEqual(Location),
    GreaterThan(Location),
    LessThan(Location),
    GreaterThanOrEqual(Location),
    LessThanOrEqual(Location),
    AND(Location),
    OR(Location),
}

/// How tightly a binary operator binds; higher binds tighter.
pub open spec fn priority_of(op: BinaryOperator) -> nat {
    match op {
        BinaryOperator::Plus(_) => 1000,
        BinaryOperator::Minus(_) => 1000,
        BinaryOperator::Multiply(_) => 1010,
        BinaryOperator::Divide(_) => 1010,
        BinaryOperator::Equal(_) => 100,
        BinaryOperator::NotEqual(_) => 105,
        BinaryOperator::GreaterThan(_) => 110,
        BinaryOperator::LessThan(_) => 110,
        BinaryOperator::GreaterThanOrEqual(_) => 110,
        BinaryOperator::LessThanOrEqual(_) => 110,
        BinaryOperator::AND(_) => 15,
        BinaryOperator::OR(_) => 10,
    }
}

impl BinaryOperator {
    pub fn priority(&self) -> (r: usize)
        ensures
            r == priority_of(*self),
    {
        match self {
            BinaryOperator::Plus(_) => 1000,
            BinaryOperator::Minus(_) => 1000,
            BinaryOperator::Multiply(_) => 1010,
            BinaryOperator::Divide(_) => 1010,
            BinaryOperator::Equal(_) => 100,
            BinaryOperator::NotEqual(_) => 105,
            BinaryOperator::GreaterThan(_) => 110,
            BinaryOperator::LessThan(_) => 110,
            BinaryOperator::GreaterThanOrEqual(_) => 110,
            BinaryOperator::LessThanOrEqual(_) => 110,
            BinaryOperator::AND(_) => 15,
            BinaryOperator::OR(_) => 10,
        }
    }
}

#[derive(Debug, Clone, Copy, PartialEq, Eq, Structural)]
pub enum UnaryOperator {
    Plus(Location),
    Minus(Location),
    NOT(Location),
}

#[derive(Debug, PartialEq)]
pub struct BinaryExpression {
    pub left: Box<Expression>,
    pub right: Box<Expression>,
    pub operator: BinaryOperator,
}

#[derive(Debug, PartialEq)]
pub struct UnaryExpression {
    pub operator: UnaryOperator,
    pub expression: Box<Expression>,
}

/// A function call such as `count(*)`.
#[derive(Debug, PartialEq)]
pub struct Function {
    pub name: Identifier,
    pub args: Vec<Expression>,
}

/// An expression with a name given by `AS` or by a following identifier.
#[derive(Debug, PartialEq)]
pub struct Alias {
    pub expression: Expression,
    pub alias: Identifier,
}

#[derive(Debug, PartialEq)]
pub enum Expression {
    Literal(Literal),
    Identifier(Identifier),
    BinaryExpression(BinaryExpression),
    UnaryExpression(UnaryExpression),
    Function(Function),
    SubQuery(Box<Select>),
}

#[derive(Debug, PartialEq)]
pub struct Select {
    pub items: Vec<SelectItem>,
    pub from: Vec<FromItem>,
    pub wheres: Option<Expression>,
    pub group_by: Vec<Identifier>,
    pub having: Option<Expression>,
    pub order_by: Vec<OrderBy>,
    pub limit: Option<Limit>,
    pub offset: Option<Offset>,
}

#[derive(Debug, PartialEq)]
pub enum SelectItem {
    Expression(Expression),
    Alias(Alias),
}

/// A table expression of `FROM`, possibly a subquery, with an optional alias.
#[derive(Debug, PartialEq)]
pub struct FromItem {
    pub expression: Expression,
    pub alias: Option<Identifier>,
}

#[derive(Debug, PartialEq)]
pub struct OrderBy {
    pub identifier: Identifier,
    pub asc: bool,
}

#[derive(Debug, Clone, Copy, PartialEq, Eq, Structural)]
pub struct Limit {
    pub limit: u64,
    pub leaf: Location,
}

#[derive(Debug, Clone, Copy, PartialEq, Eq, Structural)]
pub struct Offset {
    pub offset: u64,
    pub leaf: Location,
}

/// The statements of a query, with its text for error messages.
#[derive(Debug, PartialEq)]
pub struct Statements {
    pub statements: Vec<Statement>,
    pub raw_sql: String,
}

#[derive(Debug, PartialEq)]
pub enum Statement {
    Select(Select),
    CreateTable,
    Empty(Location),
}

// The mathematical twins of the tree, with text as `Seq<char>`.

pub struct SpecSingleIdentifier {
    pub value: Seq<char>,
    pub leaf: Location,
}

pub enum SpecIdentifier {
    Single(SpecSingleIdentifier),
    Combined(Seq<SpecSingleIdentifier>),
    WithWildcard(Seq<SpecSingleIdentifier>),
    Wildcard(Location),
}

pub enum SpecValue {
    String(Seq<char>),
    Integer(u64),
    Float(Decimal),
}

pub enum SpecExpression {
    Literal(SpecValue, Location),
    Identifier(SpecIdentifier),
    Binary(Box<SpecExpression>, BinaryOperator, Box<SpecExpression>),
    Unary(UnaryOperator, Box<SpecExpression>),
    Function(SpecIdentifier, Seq<SpecExpression>),
    SubQuery(Box<SpecSelect>),
}

pub struct SpecSelect {
    pub items: Seq<SpecSelectItem>,
    pub from: Seq<SpecFromItem>,
    pub wheres: Option<SpecExpression>,
    pub group_by: Seq<SpecIdentifier>,
    pub having: Option<SpecExpression>,
    pub order_by: Seq<SpecOrderBy>,
    pub limit: Option<Limit>,
    pub offset: Option<Offset>,
}

pub enum SpecSelectItem {
    Expression(SpecExpression),
    Alias(SpecExpression, SpecIdentifier),
}

pub struct SpecFromItem {
    pub expression: SpecExpression,
    pub alias: Option<SpecIdentifier>,
}

pub struct SpecOrderBy {
    pub identifier: SpecIdentifier,
    pub asc: bool,
}

pub enum SpecStatement {
    Select(SpecSelect),
    CreateTable,
    Empty(Location),
}

impl View for SingleIdentifier {
    type V = SpecSingleIdentifier;

    open spec fn view(&self) -> SpecSingleIdentifier {
        SpecSingleIdentifier { value: self.value@, leaf: self.leaf }
    }
}

pub open spec fn view_singles(v: Seq<SingleIdentifier>) -> Seq<SpecSingleIdentifier> {
    v.map_values(|s: SingleIdentifier| s@)
}

impl View for Identifier {
    type V = SpecIdentifier;

    open spec fn view(&self) -> SpecIdentifier {
        match self {
            Identifier::Single(s) => SpecIdentifier::Single(s@),
            Identifier::Combined(v) => SpecIdentifier::Combined(view_singles(v@)),
            Identifier::WithWildcard(v) => SpecIdentifier::WithWildcard(view_singles(v@)),
            Identifier::Wildcard(l) => SpecIdentifier::Wildcard(*l),
        }
    }
}

impl View for Value {
    type V = SpecValue;

    open spec fn view(&self) -> SpecValue {
        match self {
            Value::String(s) => SpecValue::String(s@),
            Value::Integer(n) => SpecValue::Integer(*n),
            Value::Float(d) => SpecValue::Float(*d),
        }
    }
}

pub open spec fn view_identifiers(v: Seq<Identifier>) -> Seq<SpecIdentifier> {
    v.map_values(|i: Identifier| i@)
}

impl View for OrderBy {
    type V = SpecOrderBy;

    open spec fn view(&self) -> SpecOrderBy {
        SpecOrderBy { identifier: self.identifier@, asc: self.asc }
    }
}

pub open spec fn view_order_by(v: Seq<OrderBy>) -> Seq<SpecOrderBy> {
    v.map_values(|o: OrderBy| o@)
}

pub open spec fn view_expressions(v: Seq<Expression>) -> Seq<SpecExpression>
    decreases v, 0nat,
{
    Seq::new(
        v.len(),
        |i: int|
            if 0 <= i < v.len() {
                v[i].view_expr()
            } else {
                SpecExpression::Literal(SpecValue::Integer(0), Location { line_number: 0, column_number: 0, offset: 0 })
            },
    )
}

pub open spec fn view_items(v: Seq<SelectItem>) -> Seq<SpecSelectItem>
    decreases v, 0nat,
{
    Seq::new(
        v.len(),
        |i: int|
            if 0 <= i < v.len() {
                v[i].view_item()
            } else {
                SpecSelectItem::Expression(SpecExpression::Literal(SpecValue::Integer(0), Location { line_number: 0, column_number: 0, offset: 0 }))
            },
    )
}

pub open spec fn view_from_items(v: Seq<FromItem>) -> Seq<SpecFromItem>
    decreases v, 0nat,
{
    Seq::new(
        v.len(),
        |i: int|
            if 0 <= i < v.len() {
                v[i].view_from()
            } else {
                SpecFromItem { expression: SpecExpression::Literal(SpecValue::Integer(0), Location { line_number: 0, column_number: 0, offset: 0 }), alias: None }
            },
    )
}

impl Expression {
    pub open spec fn view_expr(&self) -> SpecExpression
        decreases self, 1nat,
    {
        match self {
            Expression::Literal(l) => SpecExpression::Literal(l.value@, l.leaf),
            Expression::Identifier(i) => SpecExpression::Identifier(i@),
            Expression::BinaryExpression(b) => SpecExpression::Binary(
                Box::new(b.left.view_expr()),
                b.operator,
                Box::new(b.right.view_expr()),
            ),
            Expression::UnaryExpression(u) => SpecExpression::Unary(u.operator, Box::new(u.expression.view_expr())),
            Expression::Function(f) => SpecExpression::Function(f.name@, view_expressions(f.args@)),
            Expression::SubQuery(s) => SpecExpression::SubQuery(Box::new(s.view_select())),
        }
    }
}

impl SelectItem {
    pub open spec fn view_item(&self) -> SpecSelectItem
        decreases self, 1nat,
    {
        match self {
            SelectItem::Expression(e) => SpecSelectItem::Expression(e.view_expr()),
            SelectItem::Alias(a) => SpecSelectItem::Alias(a.expression.view_expr(), a.alias@),
        }
    }
}

impl FromItem {
    pub open spec fn view_from(&self) -> SpecFromItem
        decreases self, 1nat,
    {
        SpecFromItem { expression: self.expression.view_expr(), alias: match &self.alias { Some(a) => Some(a@), None => None } }
    }
}

impl Select {
    pub open spec fn view_select(&self) -> SpecSelect
        decreases self, 1nat,
    {
        SpecSelect {
            items: view_items(self.items@),
            from: view_from_items(self.from@),
            wheres: match &self.wheres { Some(e) => Some(e.view_expr()), None => None },
            group_by: view_identifiers(self.group_by@),
            having: match &self.having { Some(e) => Some(e.view_expr()), None => None },
            order_by: view_order_by(self.order_by@),
            limit: self.limit,
            offset: self.offset,
        }
    }
}

impl View for Statement {
    type V = SpecStatement;

    open spec fn view(&self) -> SpecStatement {
        match self {
            Statement::Select(s) => SpecStatement::Select(s.view_select()),
            Statement::CreateTable => SpecStatement::CreateTable,
            Statement::Empty(l) => SpecStatement::Empty(*l),
        }
    }
}

} // verus!
