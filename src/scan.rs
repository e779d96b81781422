//! The Volcano operator contract and the sequential scan with projection.
//!
//! An operator goes `Created → Opened → (next)* → Closed`; each `next`
//! yields one row owned by the caller, or `None` once the input is exhausted.
use vstd::prelude::*;
use crate::meta::{view_values, Column, DataSource, ExecuteError, Schema, SimpleMemoryRow, row_fits};
use crate::types::{OwnValue, ValueView};

verus! {

/// Where an operator is in its life.
#[derive(Debug, Clone, Copy, PartialEq, Eq, Structural)]
pub enum ScanState {
    Created,
    /// Opened, with the number of source rows read so far.
    Opened(usize),
    Closed,
}

/// The values of `row` at the indices of `projection`, in that order.
pub open spec fn project(row: Seq<ValueView>, projection: Seq<u16>) -> Seq<ValueView> {
    projection.map_values(|i: u16| row[i as int])
}

/// A projection is non-empty and names columns that exist.
pub open spec fn valid_projection(projection: Seq<u16>, arity: nat) -> bool {
    &&& projection.len() > 0
    &&& forall|j: int| 0 <= j < projection.len() ==> (#[trigger] projection[j] as nat) < arity
}

/// Reads the rows of a data source in order, keeping the projected columns.
pub struct SeqScan<'a, D: DataSource> {
    data_source: &'a D,
    projection: Vec<u16>,
    schema: Schema,
    state: ScanState,
}

impl<'a, D: DataSource> SeqScan<'a, D> {
    pub closed spec fn source(&self) -> D {
        *self.data_source
    }

    pub closed spec fn projection(&self) -> Seq<u16> {
        self.projection@
    }

    pub closed spec fn state(&self) -> ScanState {
        self.state
    }

    pub closed spec fn output_schema(&self) -> Schema {
        self.schema
    }

    pub closed spec fn wf(&self) -> bool {
        &&& self.data_source.well_formed()
        &&& valid_projection(self.projection@, self.data_source.schema_view().columns@.len())
    }

    /// A scan of `data_source` keeping the columns at the indices of
    /// `projection`; rejected when the projection is empty or names a
    /// column that does not exist.
    pub fn new(data_source: &'a D, projection: Vec<u16>) -> (r: Result<SeqScan<'a, D>, ExecuteError>)
        requires
            data_source.well_formed(),
        ensures
            r is Ok <==> valid_projection(projection@, data_source.schema_view().columns@.len()),
            r is Ok ==> {
                let s = r->Ok_0;
                &&& s.wf()
                &&& s.source() == *data_source
                &&& s.projection() == projection@
                &&& s.state() == ScanState::Created
                &&& s.output_schema().name@ == data_source.schema_view().name@
                &&& s.output_schema().columns@.len() == projection@.len()
                &&& forall|j: int| 0 <= j < projection@.len() ==> {
                    let c = #[trigger] s.output_schema().columns@[j];
                    let d = data_source.schema_view().columns@[projection@[j] as int];
                    &&& c.name@ == d.name@
                    &&& c.data_type == d.data_type
                    &&& c.nullable == d.nullable
                }
            },
    {
        let source_schema = data_source.schema();
        if projection.len() == 0 {
            return Err(ExecuteError::new("projection must not be empty"));
        }
        let mut columns: Vec<Column> = Vec::new();
        let mut j: usize = 0;
        while j < projection.len()
            invariant
                j <= projection@.len(),
                *source_schema == data_source.schema_view(),
                columns@.len() == j,
                forall|k: int| 0 <= k < j ==> (#[trigger] projection@[k] as nat) < source_schema.columns@.len(),
                forall|k: int| 0 <= k < j ==> {
                    let c = #[trigger] columns@[k];
                    let d = source_schema.columns@[projection@[k] as int];
                    &&& c.name@ == d.name@
                    &&& c.data_type == d.data_type
                    &&& c.nullable == d.nullable
                },
            decreases projection@.len() - j,
        {
            let index = projection[j] as usize;
            if index >= source_schema.columns.len() {
                return Err(ExecuteError::new("projection names a column that does not exist"));
            }
            columns.push(source_schema.columns[index].copy());
            j += 1;
        }
        let schema = Schema { name: source_schema.name.clone(), columns };
        Ok(SeqScan { data_source, projection, schema, state: ScanState::Created })
    }

    /// The name of the schema of the rows this scan yields.
    pub fn to_string(&self) -> (r: String)
        ensures
            r@ == self.output_schema().name@,
    {
        self.schema.name.clone()
    }

    /// The schema of the rows this scan yields.
    pub fn schema(&self) -> (r: &Schema)
        ensures
            *r == self.output_schema(),
    {
        &self.schema
    }

    /// Starts reading at the first row; an operator opens only once.
    pub fn open(&mut self) -> (r: Result<(), ExecuteError>)
        requires
            old(self).wf(),
        ensures
            final(self).wf(),
            final(self).source() == old(self).source(),
            final(self).projection() == old(self).projection(),
            r is Ok <==> old(self).state() == ScanState::Created,
            r is Ok ==> final(self).state() == ScanState::Opened(0),
            r is Err ==> final(self).state() == old(self).state(),
    {
        match self.state {
            ScanState::Created => {
                self.state = ScanState::Opened(0);
                Ok(())
            },
            _ => Err(ExecuteError::new("operator was opened before")),
        }
    }

    /// The next source row, projected; `None` once every row was read.
    pub fn next(&mut self) -> (r: Result<Option<SimpleMemoryRow>, ExecuteError>)
        requires
            old(self).wf(),
        ensures
            final(self).wf(),
            final(self).source() == old(self).source(),
            final(self).projection() == old(self).projection(),
            match old(self).state() {
                ScanState::Opened(k) => if k < old(self).source().rows_view().len() {
                    &&& r is Ok && r->Ok_0 is Some
                    &&& r->Ok_0->Some_0@ == project(old(self).source().rows_view()[k as int], old(self).projection())
                    &&& final(self).state() == ScanState::Opened((k + 1) as usize)
                } else {
                    &&& r is Ok && r->Ok_0 is None
                    &&& final(self).state() == old(self).state()
                },
                _ => r is Err && final(self).state() == old(self).state(),
            },
    {
        match self.state {
            ScanState::Opened(k) => {
                if k < self.data_source.row_count() {
                    let row = self.data_source.row(k);
                    let mut values: Vec<OwnValue> = Vec::new();
                    let mut j: usize = 0;
                    while j < self.projection.len()
                        invariant
                            self.wf(),
                            j <= self.projection@.len(),
                            row_fits(row@, self.data_source.schema_view().columns@),
                            view_values(values@) =~= project(row@, self.projection@.subrange(0, j as int)),
                        decreases self.projection@.len() - j,
                    {
                        let index = self.projection[j] as usize;
                        let ghost before = values@;
                        values.push(row.get(index).copy());
                        assert(view_values(values@) =~= view_values(before).push(row@[index as int]));
                        assert(self.projection@.subrange(0, j + 1) =~= self.projection@.subrange(0, j as int).push(self.projection@[j as int]));
                        j += 1;
                    }
                    assert(self.projection@.subrange(0, self.projection@.len() as int) =~= self.projection@);
                    self.state = ScanState::Opened(k + 1);
                    Ok(Some(SimpleMemoryRow::new(values)))
                } else {
                    Ok(None)
                }
            },
            _ => Err(ExecuteError::new("operator is not open")),
        }
    }

    /// Row batches are not supported by this operator.
    pub fn batch(&mut self) -> (r: Result<Option<Vec<SimpleMemoryRow>>, ExecuteError>)
        ensures
            r is Err,
            *final(self) == *old(self),
    {
        Err(ExecuteError::new("not implemented"))
    }

    /// Releases the reading position; safe to call in any state, and again.
    pub fn close(&mut self) -> (r: Result<(), ExecuteError>)
        requires
            old(self).wf(),
        ensures
            final(self).wf(),
            final(self).source() == old(self).source(),
            final(self).projection() == old(self).projection(),
            final(self).state() == ScanState::Closed,
            r is Ok,
    {
        self.state = ScanState::Closed;
        Ok(())
    }
}

/// Scans `data_source` to the end with `projection`: one output row per
/// source row, in order, each the projection of its source row; rejected
/// exactly when the projection is invalid.
pub fn scan_all<D: DataSource>(data_source: &D, projection: Vec<u16>) -> (r: Result<Vec<SimpleMemoryRow>, ExecuteError>)
    requires
        data_source.well_formed(),
    ensures
        r is Ok <==> valid_projection(projection@, data_source.schema_view().columns@.len()),
        r is Ok ==> {
            &&& r->Ok_0@.len() == data_source.rows_view().len()
            &&& forall|j: int| 0 <= j < r->Ok_0@.len() ==>
                (#[trigger] r->Ok_0@[j])@ == project(data_source.rows_view()[j], projection@)
        },
{
    let ghost proj = projection@;
    let mut scan = match SeqScan::new(data_source, projection) {
        Ok(s) => s,
        Err(e) => return Err(e),
    };
    let count = data_source.row_count();
    let opened = scan.open();
    let mut rows: Vec<SimpleMemoryRow> = Vec::new();
    loop
        invariant
            scan.wf(),
            scan.source() == *data_source,
            scan.projection() == proj,
            scan.state() == ScanState::Opened(rows@.len() as usize),
            rows@.len() <= data_source.rows_view().len(),
            data_source.rows_view().len() == count,
            forall|j: int| 0 <= j < rows@.len() ==> (#[trigger] rows@[j])@ == project(data_source.rows_view()[j], proj),
        ensures
            rows@.len() == data_source.rows_view().len(),
            forall|j: int| 0 <= j < rows@.len() ==> (#[trigger] rows@[j])@ == project(data_source.rows_view()[j], proj),
        decreases data_source.rows_view().len() - rows@.len(),
    {
        match scan.next() {
            Ok(Some(row)) => rows.push(row),
            _ => break,
        }
    }
    let closed = scan.close();
    Ok(rows)
}

/// The logical plan of a table scan: a data source, the names of the
/// columns to keep, and the schema of what it yields.
pub struct Scan<'a, D: DataSource> {
    pub data_source: &'a D,
    pub projection: Vec<String>,
    pub schema: Schema,
}

/// Whether `schema` has a column named `name`.
pub open spec fn has_column(schema: Schema, name: Seq<char>) -> bool {
    exists|j: int| 0 <= j < schema.columns@.len() && schema.columns@[j].name@ == name
}

impl<'a, D: DataSource> Scan<'a, D> {
    /// A scan plan, rejected when the projection is empty or names a column
    /// that `schema` does not have.
    pub fn new(data_source: &'a D, projection: Vec<String>, schema: Schema) -> (r: Result<Scan<'a, D>, ExecuteError>)
        ensures
            r is Ok <==> projection@.len() > 0
                && forall|k: int| 0 <= k < projection@.len() ==> has_column(schema, (#[trigger] projection@[k])@),
            r is Ok ==> {
                &&& r->Ok_0.data_source == data_source
                &&& r->Ok_0.projection@ == projection@
                &&& r->Ok_0.schema == schema
            },
    {
        if projection.len() == 0 {
            return Err(ExecuteError::new("projection must not be empty"));
        }
        let mut k: usize = 0;
        while k < projection.len()
            invariant
                k <= projection@.len(),
                forall|i: int| 0 <= i < k ==> has_column(schema, (#[trigger] projection@[i])@),
            decreases projection@.len() - k,
        {
            if !schema.contains_column_name(projection[k].as_str()) {
                return Err(ExecuteError::new("projection names a column that is not in the schema"));
            }
            k += 1;
        }
        Ok(Scan { data_source, projection, schema })
    }

    pub fn schema(&self) -> (r: &Schema)
        ensures
            *r == self.schema,
    {
        &self.schema
    }

    /// The name of the plan's schema.
    pub fn to_string(&self) -> (r: String)
        ensures
            r@ == self.schema.name@,
    {
        self.schema.name.clone()
    }
}

} // verus!
