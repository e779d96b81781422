//! The canonical text of the syntax tree: keywords in upper case, binary
//! expressions in parentheses, strings in single quotes, qualified names
//! joined by `.`, aliases after ` AS `.
use vstd::prelude::*;
use crate::ast::{
    view_expressions, view_from_items, view_identifiers, view_items, view_order_by, view_singles,
    BinaryOperator, Decimal, Expression, FromItem, Identifier, OrderBy, Select, SelectItem,
    SingleIdentifier, SpecExpression, SpecFromItem, SpecIdentifier, SpecOrderBy, SpecSelect,
    SpecSelectItem, SpecSingleIdentifier, SpecStatement, SpecValue, Statement, UnaryOperator, Value,
};
use crate::text::{decimal, push_char, push_decimal, push_repeat, push_str, repeat};
use vstd::seq_lib::lemma_concat_associative;

verus! {

/// Names joined by `.`.
pub open spec fn dotted_text(parts: Seq<SpecSingleIdentifier>, n: int) -> Seq<char>
    decreases n,
{
    if n <= 0 {
        Seq::empty()
    } else if n == 1 {
        parts[0].value
    } else {
        dotted_text(parts, n - 1) + seq!['.'] + parts[n - 1].value
    }
}

pub open spec fn identifier_text(i: SpecIdentifier) -> Seq<char> {
    match i {
        SpecIdentifier::Single(s) => s.value,
        SpecIdentifier::Combined(parts) => dotted_text(parts, parts.len() as int),
        SpecIdentifier::WithWildcard(parts) => dotted_text(parts, parts.len() as int) + ".*"@,
        SpecIdentifier::Wildcard(_) => "*"@,
    }
}

/// `integer.fraction`, with the fraction's zeros; `integer.0` for no fraction.
pub open spec fn decimal_text(d: Decimal) -> Seq<char> {
    if d.fraction == 0 {
        decimal(d.integer as nat) + ".0"@
    } else {
        decimal(d.integer as nat) + seq!['.'] + repeat('0', d.fraction_zeros as nat) + decimal(d.fraction as nat)
    }
}

pub open spec fn value_text(v: SpecValue) -> Seq<char> {
    match v {
        SpecValue::String(s) => seq!['\''] + s + seq!['\''],
        SpecValue::Integer(n) => decimal(n as nat),
        SpecValue::Float(d) => decimal_text(d),
    }
}

pub open spec fn binary_operator_text(op: BinaryOperator) -> Seq<char> {
    match op {
        BinaryOperator::Plus(_) => "+"@,
        BinaryOperator::Minus(_) => "-"@,
        BinaryOperator::Multiply(_) => "*"@,
        BinaryOperator::Divide(_) => "/"@,
        BinaryOperator::Equal(_) => "="@,
        BinaryOperator::NotEqual(_) => "<>"@,
        BinaryOperator::GreaterThan(_) => ">"@,
        BinaryOperator::LessThan(_) => "<"@,
        BinaryOperator::GreaterThanOrEqual(_) => ">="@,
        BinaryOperator::LessThanOrEqual(_) => "<="@,
        BinaryOperator::AND(_) => "AND"@,
        BinaryOperator::OR(_) => "OR"@,
    }
}

pub open spec fn unary_operator_text(op: UnaryOperator) -> Seq<char> {
    match op {
        UnaryOperator::Plus(_) => "+"@,
        UnaryOperator::Minus(_) => "-"@,
        UnaryOperator::NOT(_) => "NOT"@,
    }
}

/// The first `n` expressions, joined by `, `.
pub open spec fn expressions_text(es: Seq<SpecExpression>, n: int) -> Seq<char>
    decreases es, n,
{
    if n <= 0 || n > es.len() {
        Seq::empty()
    } else if n == 1 {
        expression_text(es[0])
    } else {
        expressions_text(es, n - 1) + ", "@ + expression_text(es[n - 1])
    }
}

pub open spec fn expression_text(e: SpecExpression) -> Seq<char>
    decreases e,
{
    match e {
        SpecExpression::Literal(v, _) => value_text(v),
        SpecExpression::Identifier(i) => identifier_text(i),
        SpecExpression::Binary(l, op, r) => "("@ + expression_text(*l) + " "@ + binary_operator_text(op) + " "@
            + expression_text(*r) + ")"@,
        SpecExpression::Unary(op, x) => unary_operator_text(op) + " "@ + expression_text(*x),
        SpecExpression::Function(name, args) => identifier_text(name) + "("@
            + expressions_text(args, args.len() as int) + ")"@,
        SpecExpression::SubQuery(s) => "("@ + select_text(*s) + ")"@,
    }
}

pub open spec fn item_text(i: SpecSelectItem) -> Seq<char>
    decreases i,
{
    match i {
        SpecSelectItem::Expression(e) => expression_text(e),
        SpecSelectItem::Alias(e, a) => expression_text(e) + " AS "@ + identifier_text(a),
    }
}

/// The first `n` select items, joined by `, `.
pub open spec fn items_text(items: Seq<SpecSelectItem>, n: int) -> Seq<char>
    decreases items, n,
{
    if n <= 0 || n > items.len() {
        Seq::empty()
    } else if n == 1 {
        item_text(items[0])
    } else {
        items_text(items, n - 1) + ", "@ + item_text(items[n - 1])
    }
}

pub open spec fn from_item_text(f: SpecFromItem) -> Seq<char>
    decreases f,
{
    match f.alias {
        Some(a) => expression_text(f.expression) + " AS "@ + identifier_text(a),
        None => expression_text(f.expression),
    }
}

/// The first `n` from items, joined by `, `.
pub open spec fn from_items_text(fs: Seq<SpecFromItem>, n: int) -> Seq<char>
    decreases fs, n,
{
    if n <= 0 || n > fs.len() {
        Seq::empty()
    } else if n == 1 {
        from_item_text(fs[0])
    } else {
        from_items_text(fs, n - 1) + ", "@ + from_item_text(fs[n - 1])
    }
}

/// The first `n` names, joined by `, `.
pub open spec fn identifiers_text(ids: Seq<SpecIdentifier>, n: int) -> Seq<char>
    decreases n,
{
    if n <= 0 || n > ids.len() {
        Seq::empty()
    } else if n == 1 {
        identifier_text(ids[0])
    } else {
        identifiers_text(ids, n - 1) + ", "@ + identifier_text(ids[n - 1])
    }
}

pub open spec fn order_by_text(o: SpecOrderBy) -> Seq<char> {
    identifier_text(o.identifier) + if o.asc { " ASC"@ } else { " DESC"@ }
}

/// The first `n` ordering terms, joined by `, `.
pub open spec fn order_terms_text(os: Seq<SpecOrderBy>, n: int) -> Seq<char>
    decreases n,
{
    if n <= 0 || n > os.len() {
        Seq::empty()
    } else if n == 1 {
        order_by_text(os[0])
    } else {
        order_terms_text(os, n - 1) + ", "@ + order_by_text(os[n - 1])
    }
}

/// `SELECT items` and the `FROM` clause if present.
pub open spec fn select_head_text(s: SpecSelect) -> Seq<char>
    decreases s, 0nat,
{
    "SELECT "@ + items_text(s.items, s.items.len() as int)
        + (if s.from.len() > 0 { " FROM "@ + from_items_text(s.from, s.from.len() as int) } else { Seq::empty() })
}

/// The `WHERE`, `GROUP BY` and `HAVING` clauses that are present.
pub open spec fn select_filter_text(s: SpecSelect) -> Seq<char>
    decreases s, 0nat,
{
    clause_text(" WHERE "@, s.wheres)
        + (if s.group_by.len() > 0 { " GROUP BY "@ + identifiers_text(s.group_by, s.group_by.len() as int) } else { Seq::empty() })
        + clause_text(" HAVING "@, s.having)
}

/// The `ORDER BY`, `LIMIT` and `OFFSET` clauses that are present.
pub open spec fn select_order_text(s: SpecSelect) -> Seq<char> {
    (if s.order_by.len() > 0 { " ORDER BY "@ + order_terms_text(s.order_by, s.order_by.len() as int) } else { Seq::empty() })
        + count_text(" LIMIT "@, match s.limit { Some(l) => Some(l.limit), None => None })
        + count_text(" OFFSET "@, match s.offset { Some(o) => Some(o.offset), None => None })
}

/// `SELECT items` followed by each clause that is present.
pub open spec fn select_text(s: SpecSelect) -> Seq<char>
    decreases s, 1nat,
{
    select_head_text(s) + select_filter_text(s) + select_order_text(s)
}

pub open spec fn statement_text(s: SpecStatement) -> Seq<char> {
    match s {
        SpecStatement::Select(sel) => select_text(sel) + ";"@,
        SpecStatement::CreateTable => "CREATE TABLE"@,
        SpecStatement::Empty(_) => ";"@,
    }
}

impl Identifier {
    /// Appends the canonical text of the name to `s`.
    pub fn write_to(&self, s: &mut String)
        ensures
            final(s)@ == old(s)@ + identifier_text(self@),
    {
        match self {
            Identifier::Single(single) => push_str(s, single.value.as_str()),
            Identifier::Combined(parts) => write_dotted(parts, s),
            Identifier::WithWildcard(parts) => {
                write_dotted(parts, s);
                push_str(s, ".*");
                assert(s@ =~= old(s)@ + identifier_text(self@));
            },
            Identifier::Wildcard(_) => push_str(s, "*"),
        }
    }

    pub fn to_string(&self) -> (r: String)
        ensures
            r@ == identifier_text(self@),
    {
        let mut s = String::new();
        self.write_to(&mut s);
        assert(s@ =~= identifier_text(self@));
        s
    }
}

/// Appends the names of `parts` joined by `.`.
fn write_dotted(parts: &Vec<SingleIdentifier>, s: &mut String)
    ensures
        final(s)@ == old(s)@ + dotted_text(view_singles(parts@), parts@.len() as int),
{
    let ghost s0 = s@;
    let ghost ps = view_singles(parts@);
    let mut i: usize = 0;
    while i < parts.len()
        invariant
            i <= parts@.len(),
            ps == view_singles(parts@),
            s@ == s0 + dotted_text(ps, i as int),
        decreases parts@.len() - i,
    {
        let ghost before = s@;
        if i > 0 {
            push_char(s, '.');
        }
        push_str(s, parts[i].value.as_str());
        assert(ps[i as int].value == parts@[i as int].value@);
        assert(s@ =~= s0 + dotted_text(ps, i + 1));
        i += 1;
    }
}

/// Appends the canonical text of a literal value.
fn write_value(v: &Value, s: &mut String)
    ensures
        final(s)@ == old(s)@ + value_text(v@),
{
    let ghost s0 = s@;
    match v {
        Value::String(text) => {
            push_char(s, '\'');
            push_str(s, text.as_str());
            push_char(s, '\'');
            assert(s@ =~= s0 + value_text(v@));
        },
        Value::Integer(n) => push_decimal(s, *n),
        Value::Float(d) => {
            push_decimal(s, d.integer);
            if d.fraction == 0 {
                push_str(s, ".0");
                assert(s@ =~= s0 + value_text(v@));
            } else {
                push_char(s, '.');
                push_repeat(s, '0', d.fraction_zeros as u64);
                push_decimal(s, d.fraction);
                assert(s@ =~= s0 + value_text(v@));
            }
        },
    }
}

fn write_binary_operator(op: &BinaryOperator, s: &mut String)
    ensures
        final(s)@ == old(s)@ + binary_operator_text(*op),
{
    match op {
        BinaryOperator::Plus(_) => push_str(s, "+"),
        BinaryOperator::Minus(_) => push_str(s, "-"),
        BinaryOperator::Multiply(_) => push_str(s, "*"),
        BinaryOperator::Divide(_) => push_str(s, "/"),
        BinaryOperator::Equal(_) => push_str(s, "="),
        BinaryOperator::NotEqual(_) => push_str(s, "<>"),
        BinaryOperator::GreaterThan(_) => push_str(s, ">"),
        BinaryOperator::LessThan(_) => push_str(s, "<"),
        BinaryOperator::GreaterThanOrEqual(_) => push_str(s, ">="),
        BinaryOperator::LessThanOrEqual(_) => push_str(s, "<="),
        BinaryOperator::AND(_) => push_str(s, "AND"),
        BinaryOperator::OR(_) => push_str(s, "OR"),
    }
}

fn write_unary_operator(op: &UnaryOperator, s: &mut String)
    ensures
        final(s)@ == old(s)@ + unary_operator_text(*op),
{
    match op {
        UnaryOperator::Plus(_) => push_str(s, "+"),
        UnaryOperator::Minus(_) => push_str(s, "-"),
        UnaryOperator::NOT(_) => push_str(s, "NOT"),
    }
}

impl Expression {
    /// Appends the canonical text of the expression to `s`.
    #[verifier::rlimit(30)]
    pub fn write_to(&self, s: &mut String)
        ensures
            final(s)@ == old(s)@ + expression_text(self.view_expr()),
        decreases self,
    {
        let ghost s0 = s@;
        match self {
            Expression::Literal(l) => write_value(&l.value, s),
            Expression::Identifier(i) => i.write_to(s),
            Expression::BinaryExpression(b) => {
                push_str(s, "(");
                b.left.write_to(s);
                push_str(s, " ");
                write_binary_operator(&b.operator, s);
                push_str(s, " ");
                b.right.write_to(s);
                push_str(s, ")");
            },
            Expression::UnaryExpression(u) => {
                write_unary_operator(&u.operator, s);
                push_str(s, " ");
                u.expression.write_to(s);
            },
            Expression::Function(f) => {
                f.name.write_to(s);
                push_str(s, "(");
                write_expressions(&f.args, s);
                push_str(s, ")");
            },
            Expression::SubQuery(select) => {
                push_str(s, "(");
                select.write_to(s);
                push_str(s, ")");
            },
        }
        assert(s@ =~= s0 + expression_text(self.view_expr()));
    }

    pub fn to_string(&self) -> (r: String)
        ensures
            r@ == expression_text(self.view_expr()),
    {
        let mut s = String::new();
        self.write_to(&mut s);
        assert(s@ =~= expression_text(self.view_expr()));
        s
    }
}

/// Appends the expressions joined by `, `.
fn write_expressions(es: &Vec<Expression>, s: &mut String)
    ensures
        final(s)@ == old(s)@ + expressions_text(view_expressions(es@), es@.len() as int),
    decreases es,
{
    let ghost s0 = s@;
    let ghost vs = view_expressions(es@);
    let mut i: usize = 0;
    while i < es.len()
        invariant
            i <= es@.len(),
            vs == view_expressions(es@),
            s@ == s0 + expressions_text(vs, i as int),
        decreases es@.len() - i,
    {
        if i > 0 {
            push_str(s, ", ");
        }
        es[i].write_to(s);
        assert(s@ =~= s0 + expressions_text(vs, i + 1));
        i += 1;
    }
}

impl SelectItem {
    pub fn write_to(&self, s: &mut String)
        ensures
            final(s)@ == old(s)@ + item_text(self.view_item()),
        decreases self,
    {
        let ghost s0 = s@;
        match self {
            SelectItem::Expression(e) => e.write_to(s),
            SelectItem::Alias(a) => {
                a.expression.write_to(s);
                push_str(s, " AS ");
                a.alias.write_to(s);
            },
        }
        assert(s@ =~= s0 + item_text(self.view_item()));
    }
}

#[verifier::rlimit(30)]
fn write_items(items: &Vec<SelectItem>, s: &mut String)
    ensures
        final(s)@ == old(s)@ + items_text(view_items(items@), items@.len() as int),
    decreases items,
{
    let ghost s0 = s@;
    let ghost vs = view_items(items@);
    let mut i: usize = 0;
    while i < items.len()
        invariant
            i <= items@.len(),
            vs == view_items(items@),
            s@ == s0 + items_text(vs, i as int),
        decreases items@.len() - i,
    {
        if i > 0 {
            push_str(s, ", ");
        }
        let ghost before = s@;
        items[i].write_to(s);
        proof {
            assert(vs[i as int] == items@[i as int].view_item());
            if i == 0 {
                assert(items_text(vs, 1) == item_text(vs[0]));
            } else {
                assert(items_text(vs, i + 1) == items_text(vs, i as int) + ", "@ + item_text(vs[i as int]));
            }
        }
        assert(s@ =~= s0 + items_text(vs, i + 1));
        i += 1;
    }
}

impl FromItem {
    pub fn write_to(&self, s: &mut String)
        ensures
            final(s)@ == old(s)@ + from_item_text(self.view_from()),
        decreases self,
    {
        let ghost s0 = s@;
        self.expression.write_to(s);
        match &self.alias {
            Some(a) => {
                push_str(s, " AS ");
                a.write_to(s);
            },
            None => {},
        }
        assert(s@ =~= s0 + from_item_text(self.view_from()));
    }
}

fn write_from_items(fs: &Vec<FromItem>, s: &mut String)
    ensures
        final(s)@ == old(s)@ + from_items_text(view_from_items(fs@), fs@.len() as int),
    decreases fs,
{
    let ghost s0 = s@;
    let ghost vs = view_from_items(fs@);
    let mut i: usize = 0;
    while i < fs.len()
        invariant
            i <= fs@.len(),
            vs == view_from_items(fs@),
            s@ == s0 + from_items_text(vs, i as int),
        decreases fs@.len() - i,
    {
        if i > 0 {
            push_str(s, ", ");
        }
        fs[i].write_to(s);
        assert(s@ =~= s0 + from_items_text(vs, i + 1));
        i += 1;
    }
}

fn write_identifiers(ids: &Vec<Identifier>, s: &mut String)
    ensures
        final(s)@ == old(s)@ + identifiers_text(view_identifiers(ids@), ids@.len() as int),
{
    let ghost s0 = s@;
    let ghost vs = view_identifiers(ids@);
    let mut i: usize = 0;
    while i < ids.len()
        invariant
            i <= ids@.len(),
            vs == view_identifiers(ids@),
            s@ == s0 + identifiers_text(vs, i as int),
        decreases ids@.len() - i,
    {
        if i > 0 {
            push_str(s, ", ");
        }
        ids[i].write_to(s);
        assert(s@ =~= s0 + identifiers_text(vs, i + 1));
        i += 1;
    }
}

impl OrderBy {
    pub fn write_to(&self, s: &mut String)
        ensures
            final(s)@ == old(s)@ + order_by_text(self@),
    {
        let ghost s0 = s@;
        self.identifier.write_to(s);
        if self.asc {
            push_str(s, " ASC");
        } else {
            push_str(s, " DESC");
        }
        assert(s@ =~= s0 + order_by_text(self@));
    }
}

fn write_order_terms(os: &Vec<OrderBy>, s: &mut String)
    ensures
        final(s)@ == old(s)@ + order_terms_text(view_order_by(os@), os@.len() as int),
{
    let ghost s0 = s@;
    let ghost vs = view_order_by(os@);
    let mut i: usize = 0;
    while i < os.len()
        invariant
            i <= os@.len(),
            vs == view_order_by(os@),
            s@ == s0 + order_terms_text(vs, i as int),
        decreases os@.len() - i,
    {
        if i > 0 {
            push_str(s, ", ");
        }
        os[i].write_to(s);
        assert(s@ =~= s0 + order_terms_text(vs, i + 1));
        i += 1;
    }
}

/// ` <keyword> <expression>` when present, otherwise nothing.
pub open spec fn clause_text(keyword: Seq<char>, e: Option<SpecExpression>) -> Seq<char>
    decreases e,
{
    match e {
        Some(x) => keyword + expression_text(x),
        None => Seq::empty(),
    }
}

/// ` <keyword> <number>` when present, otherwise nothing.
pub open spec fn count_text(keyword: Seq<char>, n: Option<u64>) -> Seq<char> {
    match n {
        Some(v) => keyword + decimal(v as nat),
        None => Seq::empty(),
    }
}

fn write_clause(keyword: &str, e: &Option<Expression>, s: &mut String)
    ensures
        final(s)@ == old(s)@ + clause_text(keyword@, match e { Some(x) => Some(x.view_expr()), None => None }),
    decreases e,
{
    let ghost s0 = s@;
    match e {
        Some(x) => {
            push_str(s, keyword);
            x.write_to(s);
            assert(s@ =~= s0 + clause_text(keyword@, Some(x.view_expr())));
        },
        None => {
            assert(s@ =~= s0 + Seq::<char>::empty());
        },
    }
}

fn write_count(keyword: &str, n: Option<u64>, s: &mut String)
    ensures
        final(s)@ == old(s)@ + count_text(keyword@, n),
{
    let ghost s0 = s@;
    match n {
        Some(v) => {
            push_str(s, keyword);
            push_decimal(s, v);
            assert(s@ =~= s0 + count_text(keyword@, n));
        },
        None => {
            assert(s@ =~= s0 + Seq::<char>::empty());
        },
    }
}

impl Select {
    /// Appends the canonical text of the query to `s`.
    pub fn write_to(&self, s: &mut String)
        ensures
            final(s)@ == old(s)@ + select_text(self.view_select()),
        decreases self, 1nat,
    {
        let ghost s0 = s@;
        self.write_head(s);
        let ghost s1 = s@;
        self.write_filter(s);
        let ghost s2 = s@;
        self.write_order(s);
        proof {
            let v = self.view_select();
            lemma_concat_associative(s0, select_head_text(v), select_filter_text(v));
            lemma_concat_associative(s0, select_head_text(v) + select_filter_text(v), select_order_text(v));
        }
    }

    #[verifier::rlimit(30)]
    fn write_head(&self, s: &mut String)
        ensures
            final(s)@ == old(s)@ + select_head_text(self.view_select()),
        decreases self, 0nat,
    {
        let ghost s0 = s@;
        push_str(s, "SELECT ");
        write_items(&self.items, s);
        let ghost s1 = s@;
        if self.from.len() > 0 {
            push_str(s, " FROM ");
            write_from_items(&self.from, s);
        }
        assert(s@ =~= s0 + select_head_text(self.view_select()));
    }

    #[verifier::rlimit(30)]
    fn write_filter(&self, s: &mut String)
        ensures
            final(s)@ == old(s)@ + select_filter_text(self.view_select()),
        decreases self, 0nat,
    {
        let ghost s0 = s@;
        write_clause(" WHERE ", &self.wheres, s);
        let ghost s1 = s@;
        if self.group_by.len() > 0 {
            push_str(s, " GROUP BY ");
            write_identifiers(&self.group_by, s);
        }
        let ghost s2 = s@;
        write_clause(" HAVING ", &self.having, s);
        assert(s@ =~= s0 + select_filter_text(self.view_select()));
    }

    #[verifier::rlimit(30)]
    fn write_order(&self, s: &mut String)
        ensures
            final(s)@ == old(s)@ + select_order_text(self.view_select()),
    {
        let ghost s0 = s@;
        if self.order_by.len() > 0 {
            push_str(s, " ORDER BY ");
            write_order_terms(&self.order_by, s);
        }
        let limit = match &self.limit {
            Some(l) => Some(l.limit),
            None => None,
        };
        write_count(" LIMIT ", limit, s);
        let offset = match &self.offset {
            Some(o) => Some(o.offset),
            None => None,
        };
        write_count(" OFFSET ", offset, s);
        assert(s@ =~= s0 + select_order_text(self.view_select()));
    }

    pub fn to_string(&self) -> (r: String)
        ensures
            r@ == select_text(self.view_select()),
    {
        let mut s = String::new();
        self.write_to(&mut s);
        assert(s@ =~= select_text(self.view_select()));
        s
    }
}

impl Statement {
    /// The canonical text of the statement.
    pub fn to_string(&self) -> (r: String)
        ensures
            r@ == statement_text(self@),
    {
        let mut s = String::new();
        match self {
            Statement::Select(select) => {
                select.write_to(&mut s);
                push_str(&mut s, ";");
            },
            Statement::CreateTable => push_str(&mut s, "CREATE TABLE"),
            Statement::Empty(_) => push_str(&mut s, ";"),
        }
        assert(s@ =~= statement_text(self@));
        s
    }
}

} // verus!
