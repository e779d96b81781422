//! Table metadata and in-memory tables: columns, schemas, rows and data sources.
use vstd::prelude::*;
use vstd::std_specs::iter::IteratorSpec;
use crate::text::push_str;
use crate::types::{data_type_text, fits, DataType, Float64, Int32, OwnValue, ValueView, Varchar};

verus! {

/// A failure while building or running a query plan.
#[derive(Debug)]
pub struct ExecuteError {
    pub message: String,
}

impl ExecuteError {
    pub fn new(message: &str) -> (r: ExecuteError)
        ensures
            r.message@ == message@,
    {
        ExecuteError { message: message.to_owned() }
    }
}

/// A column of a table: its name, type, and whether it admits `NULL`.
#[derive(Debug, Clone)]
pub struct Column {
    pub name: String,
    pub data_type: DataType,
    pub nullable: bool,
}

/// `name Type NULLABLE` or `name Type NOT NULL`.
pub open spec fn column_text(c: Column) -> Seq<char> {
    c.name@ + " "@ + data_type_text(c.data_type) + if c.nullable { " NULLABLE"@ } else { " NOT NULL"@ }
}

/// The schema's name, then each column described, the first after `(` and
/// the others after `, `, then `)`.
pub open spec fn columns_text(cs: Seq<Column>, n: int) -> Seq<char>
    decreases n,
{
    if n <= 0 || n > cs.len() {
        Seq::empty()
    } else {
        columns_text(cs, n - 1) + (if n == 1 { "("@ } else { ", "@ }) + column_text(cs[n - 1])
    }
}

impl Column {
    /// The column's name.
    pub fn to_string(&self) -> (r: String)
        ensures
            r@ == self.name@,
    {
        self.name.clone()
    }

    /// `name Type NULLABLE` or `name Type NOT NULL`.
    pub fn describe(&self) -> (r: String)
        ensures
            r@ == column_text(*self),
    {
        let mut s = self.name.clone();
        push_str(&mut s, " ");
        let t = self.data_type.to_string();
        push_str(&mut s, t.as_str());
        if self.nullable {
            push_str(&mut s, " NULLABLE");
        } else {
            push_str(&mut s, " NOT NULL");
        }
        assert(s@ =~= column_text(*self));
        s
    }

    /// An independent copy of the column.
    pub fn copy(&self) -> (r: Column)
        ensures
            r.name@ == self.name@,
            r.data_type == self.data_type,
            r.nullable == self.nullable,
    {
        Column { name: self.name.clone(), data_type: self.data_type, nullable: self.nullable }
    }
}

/// The ordered columns of a table.
#[derive(Debug, Clone)]
pub struct Schema {
    pub name: String,
    pub columns: Vec<Column>,
}

impl Schema {
    pub fn new(name: &str, columns: Vec<Column>) -> (r: Schema)
        ensures
            r.name@ == name@,
            r.columns@ == columns@,
    {
        Schema { name: name.to_owned(), columns }
    }

    pub fn column(&self, index: usize) -> (r: &Column)
        requires
            index < self.columns@.len(),
        ensures
            *r == self.columns@[index as int],
    {
        &self.columns[index]
    }

    /// The schema's name.
    pub fn to_string(&self) -> (r: String)
        ensures
            r@ == self.name@,
    {
        self.name.clone()
    }

    /// The name followed by the described columns: `stu(name Int32 NOT NULL, ...)`.
    pub fn describe(&self) -> (r: String)
        ensures
            r@ == self.name@ + columns_text(self.columns@, self.columns@.len() as int) + ")"@,
    {
        let mut s = self.name.clone();
        let ghost s0 = s@;
        let mut i: usize = 0;
        while i < self.columns.len()
            invariant
                i <= self.columns@.len(),
                s@ == s0 + columns_text(self.columns@, i as int),
                s0 == self.name@,
            decreases self.columns@.len() - i,
        {
            if i == 0 {
                push_str(&mut s, "(");
            } else {
                push_str(&mut s, ", ");
            }
            let d = self.columns[i].describe();
            push_str(&mut s, d.as_str());
            assert(s@ =~= s0 + columns_text(self.columns@, i + 1));
            i += 1;
        }
        push_str(&mut s, ")");
        s
    }

    /// The columns in order.
    pub fn column_iter(&self) -> (r: std::slice::Iter<'_, Column>)
        ensures
            IteratorSpec::remaining(&r) == self.columns@.map_values(|c: Column| &c),
    {
        self.columns.as_slice().iter()
    }

    pub fn column_count(&self) -> (r: usize)
        ensures
            r == self.columns@.len(),
    {
        self.columns.len()
    }

    /// The index of the first column named `name`.
    pub fn column_index(&self, name: &str) -> (r: Option<usize>)
        ensures
            r is Some ==> {
                let i = r->0 as int;
                &&& 0 <= i < self.columns@.len()
                &&& self.columns@[i].name@ == name@
                &&& forall|j: int| 0 <= j < i ==> self.columns@[j].name@ != name@
            },
            r is None ==> forall|j: int| 0 <= j < self.columns@.len() ==> self.columns@[j].name@ != name@,
    {
        let wanted = name.to_owned();
        let mut i: usize = 0;
        while i < self.columns.len()
            invariant
                i <= self.columns@.len(),
                wanted@ == name@,
                forall|j: int| 0 <= j < i ==> self.columns@[j].name@ != name@,
            decreases self.columns.len() - i,
        {
            if self.columns[i].name.eq(&wanted) {
                return Some(i);
            }
            i += 1;
        }
        None
    }

    pub fn contains_column_name(&self, name: &str) -> (r: bool)
        ensures
            r == exists|j: int| 0 <= j < self.columns@.len() && self.columns@[j].name@ == name@,
    {
        self.column_index(name).is_some()
    }
}

/// The values of a row, seen as mathematical values.
pub open spec fn view_values(v: Seq<OwnValue>) -> Seq<ValueView> {
    v.map_values(|x: OwnValue| x@)
}

/// A row of owned values, positionally aligned with a schema.
#[derive(Debug, Clone)]
pub struct SimpleMemoryRow {
    values: Vec<OwnValue>,
}

impl View for SimpleMemoryRow {
    type V = Seq<ValueView>;

    closed spec fn view(&self) -> Seq<ValueView> {
        view_values(self.values@)
    }
}

impl SimpleMemoryRow {
    pub fn new(values: Vec<OwnValue>) -> (r: SimpleMemoryRow)
        ensures
            r@ == view_values(values@),
    {
        SimpleMemoryRow { values }
    }

    pub fn len(&self) -> (r: usize)
        ensures
            r == self@.len(),
    {
        self.values.len()
    }

    pub fn is_null(&self, index: usize) -> (r: bool)
        requires
            index < self@.len(),
        ensures
            r == (self@[index as int] is Null),
    {
        match &self.values[index] {
            OwnValue::Null => true,
            _ => false,
        }
    }

    /// The value at `index`.
    pub fn get(&self, index: usize) -> (r: &OwnValue)
        requires
            index < self@.len(),
        ensures
            r@ == self@[index as int],
    {
        &self.values[index]
    }

    /// The integer at `index`, which must hold one.
    pub fn get_int32(&self, index: usize) -> (r: Int32)
        requires
            index < self@.len(),
            self@[index as int] is Int32,
        ensures
            self@[index as int] == ValueView::Int32(r.value),
    {
        match &self.values[index] {
            OwnValue::Int32(v) => *v,
            _ => Int32::new(0),
        }
    }

    /// The float at `index`, which must hold one.
    pub fn get_float64(&self, index: usize) -> (r: Float64)
        requires
            index < self@.len(),
            self@[index as int] is Float64,
        ensures
            self@[index as int] == ValueView::Float64(r.bits),
    {
        match &self.values[index] {
            OwnValue::Float64(v) => *v,
            _ => Float64::from_bits(0),
        }
    }

    /// The string at `index`, which must hold one.
    pub fn get_string(&self, index: usize) -> (r: &str)
        requires
            index < self@.len(),
            self@[index as int] is String,
        ensures
            self@[index as int] == ValueView::String(r@),
    {
        match &self.values[index] {
            OwnValue::String(s) => s.as_str(),
            _ => "",
        }
    }

    /// The string at `index`, borrowed as a `Varchar`; it must hold one.
    pub fn get_varchar(&self, index: usize) -> (r: Varchar<'_>)
        requires
            index < self@.len(),
            self@[index as int] is String,
        ensures
            self@[index as int] == ValueView::String(r@),
    {
        match &self.values[index] {
            OwnValue::String(s) => Varchar::ref_string(s),
            _ => Varchar::from_str(""),
        }
    }
}

/// Whether the values of a row fit the columns of a schema, one for one.
pub open spec fn row_fits(row: Seq<ValueView>, columns: Seq<Column>) -> bool {
    &&& row.len() == columns.len()
    &&& forall|i: int| 0 <= i < row.len() ==> fits(#[trigger] row[i], columns[i].data_type, columns[i].nullable)
}

/// A table: a schema and the rows of it, read in the order they were added.
pub trait DataSource {
    spec fn schema_view(&self) -> Schema;

    spec fn rows_view(&self) -> Seq<Seq<ValueView>>;

    /// Every row fits the schema.
    spec fn well_formed(&self) -> bool;

    fn name(&self) -> (r: String)
        ensures
            r@ == self.schema_view().name@;

    fn schema(&self) -> (r: &Schema)
        ensures
            *r == self.schema_view();

    fn row_count(&self) -> (r: usize)
        ensures
            r == self.rows_view().len();

    fn row(&self, index: usize) -> (r: &SimpleMemoryRow)
        requires
            self.well_formed(),
            index < self.rows_view().len(),
        ensures
            r@ == self.rows_view()[index as int],
            row_fits(r@, self.schema_view().columns@);
}

/// A table held in memory.
#[derive(Debug, Clone)]
pub struct SimpleMemoryDataSource {
    schema: Schema,
    rows: Vec<SimpleMemoryRow>,
}

impl DataSource for SimpleMemoryDataSource {
    closed spec fn schema_view(&self) -> Schema {
        self.schema
    }

    closed spec fn rows_view(&self) -> Seq<Seq<ValueView>> {
        self.rows@.map_values(|r: SimpleMemoryRow| r@)
    }

    closed spec fn well_formed(&self) -> bool {
        forall|i: int| 0 <= i < self.rows@.len() ==> row_fits(#[trigger] self.rows@[i]@, self.schema.columns@)
    }

    fn name(&self) -> (r: String) {
        self.schema.name.clone()
    }

    fn schema(&self) -> (r: &Schema) {
        &self.schema
    }

    fn row_count(&self) -> (r: usize) {
        self.rows.len()
    }

    fn row(&self, index: usize) -> (r: &SimpleMemoryRow) {
        &self.rows[index]
    }
}

impl SimpleMemoryDataSource {
    /// An empty table with the given schema.
    pub fn new(schema: Schema) -> (r: SimpleMemoryDataSource)
        ensures
            r.schema_view() == schema,
            r.rows_view() == Seq::<Seq<ValueView>>::empty(),
            r.well_formed(),
    {
        let r = SimpleMemoryDataSource { schema, rows: Vec::new() };
        assert(r.rows_view() =~= Seq::<Seq<ValueView>>::empty());
        r
    }

    /// Appends a row, or rejects it when its values do not fit the schema
    /// (wrong arity, a value of another type, or `NULL` in a column without it).
    pub fn push_row(&mut self, row: SimpleMemoryRow) -> (r: Result<(), ExecuteError>)
        requires
            old(self).well_formed(),
        ensures
            final(self).well_formed(),
            final(self).schema_view() == old(self).schema_view(),
            r is Ok <==> row_fits(row@, old(self).schema_view().columns@),
            r is Ok ==> final(self).rows_view() == old(self).rows_view().push(row@),
            r is Err ==> final(self).rows_view() == old(self).rows_view(),
    {
        if row.len() != self.schema.columns.len() {
            return Err(ExecuteError::new("row does not match the schema's arity"));
        }
        let mut i: usize = 0;
        while i < row.len()
            invariant
                i <= row@.len(),
                row@.len() == self.schema.columns@.len(),
                *self == *old(self),
                old(self).well_formed(),
                forall|j: int| 0 <= j < i ==> fits(#[trigger] row@[j], self.schema.columns@[j].data_type, self.schema.columns@[j].nullable),
            decreases row@.len() - i,
        {
            let column = &self.schema.columns[i];
            if !row.get(i).fits(column.data_type, column.nullable) {
                return Err(ExecuteError::new("value does not match the column's type"));
            }
            i += 1;
        }
        let ghost before = self.rows@;
        self.rows.push(row);
        assert(self.rows@.map_values(|r: SimpleMemoryRow| r@) =~= before.map_values(|r: SimpleMemoryRow| r@).push(row@));
        Ok(())
    }
}

} // verus!
