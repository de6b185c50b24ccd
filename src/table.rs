//! Column accumulation and table assembly for one pass over a record source.
use vstd::prelude::*;
use crate::record::RawRecord;
use crate::schema::{
    Cell, FieldSpec, Value, map_field, map_field_by_content, map_field_spec, schema_model, schema_wf,
    standard_schema, validate_schema,
};

verus! {

/// One element of a record source: a decoded record, or the message of a
/// record that could not be decoded.
pub type SourceItem = Result<RawRecord, String>;

/// Why ingestion produced no table.
#[derive(PartialEq, Eq, Structural)]
pub enum IngestError {
    /// Some field's default does not fit its column.
    InvalidSchema,
}

/// An immutable table: a schema and one column per field, all of one length.
pub struct Table {
    schema: Vec<FieldSpec>,
    columns: Vec<Vec<Value>>,
    row_count: usize,
}

/// Column accumulator for one ingestion pass.
pub struct TableBuilder {
    schema: Vec<FieldSpec>,
    columns: Vec<Vec<Value>>,
    row_count: usize,
}

/// The contents of a column list.
pub open spec fn cells_of(columns: Seq<Vec<Value>>) -> Seq<Seq<Cell>> {
    columns.map_values(|c: Vec<Value>| c@.map_values(|v: Value| v@))
}

/// Every column has `rows` entries, and there is one column per field.
pub open spec fn aligned(cells: Seq<Seq<Cell>>, fields: nat, rows: nat) -> bool {
    cells.len() == fields && forall|i: int| 0 <= i < cells.len() ==> (#[trigger] cells[i]).len() == rows
}

/// The records that decoded successfully, in source order.
pub open spec fn parsed_records(items: Seq<SourceItem>) -> Seq<RawRecord>
    decreases items.len(),
{
    if items.len() == 0 {
        Seq::empty()
    } else {
        let rest = parsed_records(items.drop_last());
        match items.last() {
            Ok(r) => rest.push(r),
            Err(_) => rest,
        }
    }
}

/// The columns that `schema` gives over `recs`: column `i`, row `j` is
/// field `i` of record `j`.
pub open spec fn columns_spec(schema: Seq<FieldSpec>, recs: Seq<RawRecord>) -> Seq<Seq<Cell>> {
    Seq::new(
        schema.len(),
        |i: int| Seq::new(recs.len(), |j: int| map_field_spec(recs[j], schema[i])),
    )
}

impl Table {
    /// The contents of the table, column by column.
    pub closed spec fn cells(&self) -> Seq<Seq<Cell>> {
        cells_of(self.columns@)
    }

    pub closed spec fn schema_spec(&self) -> Seq<FieldSpec> {
        self.schema@
    }

    pub closed spec fn rows(&self) -> nat {
        self.row_count as nat
    }

    pub closed spec fn wf(&self) -> bool {
        aligned(cells_of(self.columns@), self.schema@.len(), self.row_count as nat)
    }

    /// `self` is what ingesting `items` under `schema` gives.
    pub open spec fn is_ingestion_of(&self, schema: Seq<FieldSpec>, items: Seq<SourceItem>) -> bool {
        &&& self.wf()
        &&& self.schema_spec() == schema
        &&& self.rows() == parsed_records(items).len()
        &&& self.cells() == columns_spec(schema, parsed_records(items))
    }

    /// The table's schema.
    pub fn schema(&self) -> (r: &Vec<FieldSpec>)
        ensures
            r@ == self.schema_spec(),
    {
        &self.schema
    }

    /// The number of rows.
    pub fn row_count(&self) -> (r: usize)
        ensures
            r as nat == self.rows(),
    {
        self.row_count
    }

    /// The number of columns.
    pub fn column_count(&self) -> (r: usize)
        ensures
            r as nat == self.cells().len(),
    {
        self.columns.len()
    }

    /// Column `i`, in row order.
    pub fn column(&self, i: usize) -> (r: &Vec<Value>)
        requires
            i < self.cells().len(),
        ensures
            r@.map_values(|v: Value| v@) == self.cells()[i as int],
    {
        &self.columns[i]
    }
}

impl TableBuilder {
    pub closed spec fn cells(&self) -> Seq<Seq<Cell>> {
        cells_of(self.columns@)
    }

    pub closed spec fn schema_spec(&self) -> Seq<FieldSpec> {
        self.schema@
    }

    pub closed spec fn rows(&self) -> nat {
        self.row_count as nat
    }

    pub closed spec fn wf(&self) -> bool {
        aligned(cells_of(self.columns@), self.schema@.len(), self.row_count as nat)
    }

    /// A builder with one empty column per field.
    pub fn new(schema: Vec<FieldSpec>) -> (r: TableBuilder)
        ensures
            r.wf(),
            r.schema_spec() == schema@,
            r.rows() == 0,
            r.cells() == columns_spec(schema@, Seq::empty()),
    {
        let mut columns: Vec<Vec<Value>> = Vec::new();
        let mut i: usize = 0;
        while i < schema.len()
            invariant
                0 <= i <= schema@.len(),
                columns@.len() == i,
                forall|k: int| 0 <= k < i ==> (#[trigger] columns@[k])@.len() == 0,
            decreases schema@.len() - i,
        {
            columns.push(Vec::new());
            i = i + 1;
        }
        let r = TableBuilder { schema, columns, row_count: 0 };
        assert(r.cells() =~= columns_spec(r.schema@, Seq::empty())) by {
            assert forall|k: int| 0 <= k < r.columns@.len() implies
                #[trigger] r.cells()[k] =~= columns_spec(r.schema@, Seq::empty())[k] by {}
        }
        r
    }

    /// Appends the row that the schema takes from `rec`.
    pub fn push_record(&mut self, rec: &RawRecord)
        requires
            old(self).wf(),
            old(self).rows() < usize::MAX,
        ensures
            final(self).wf(),
            final(self).schema_spec() == old(self).schema_spec(),
            final(self).rows() == old(self).rows() + 1,
            final(self).cells() == Seq::new(
                old(self).cells().len(),
                |i: int| old(self).cells()[i].push(map_field_spec(*rec, old(self).schema_spec()[i])),
            ),
    {
        let ghost old_cells = self.cells();
        let n = self.columns.len();
        let mut i: usize = 0;
        while i < n
            invariant
                n == self.columns@.len(),
                n == self.schema@.len(),
                n == old_cells.len(),
                0 <= i <= n,
                forall|k: int| 0 <= k < i ==> (#[trigger] cells_of(self.columns@)[k]) == old_cells[k].push(map_field_spec(*rec, self.schema@[k])),
                forall|k: int| i <= k < n ==> (#[trigger] cells_of(self.columns@)[k]) == old_cells[k],
                self.schema@ == old(self).schema@,
                self.row_count == old(self).row_count,
            decreases n - i,
        {
            let v = map_field(rec, &self.schema[i]);
            let ghost prev = self.columns@;
            let ghost vv = v@;
            self.columns[i].push(v);
            proof {
                assert(self.columns@.len() == prev.len());
                assert(forall|k: int| 0 <= k < n && k != i ==> self.columns@[k] == prev[k]);
                assert(self.columns@[i as int]@ == prev[i as int]@.push(v));
                assert(forall|k: int| 0 <= k < n && k != i ==> cells_of(self.columns@)[k] == cells_of(prev)[k]);
                assert(cells_of(prev)[i as int] == old_cells[i as int]);
                assert(cells_of(prev)[i as int] =~= prev[i as int]@.map_values(|v: Value| v@));
                assert(cells_of(self.columns@)[i as int] =~= self.columns@[i as int]@.map_values(|v: Value| v@));
                assert(vv == map_field_spec(*rec, self.schema@[i as int]));
                assert(cells_of(self.columns@)[i as int] =~= old_cells[i as int].push(map_field_spec(*rec, self.schema@[i as int])));
                assert forall|k: int| 0 <= k < i + 1 implies (#[trigger] cells_of(self.columns@)[k]) == old_cells[k].push(map_field_spec(*rec, self.schema@[k])) by {
                    if k < i {
                        assert(cells_of(self.columns@)[k] == cells_of(prev)[k]);
                    }
                }
                assert forall|k: int| i + 1 <= k < n implies (#[trigger] cells_of(self.columns@)[k]) == old_cells[k] by {
                    assert(cells_of(self.columns@)[k] == cells_of(prev)[k]);
                }
            }
            i = i + 1;
        }
        self.row_count = self.row_count + 1;
        assert(self.cells() =~= Seq::new(old_cells.len(), |i: int| old_cells[i].push(map_field_spec(*rec, self.schema@[i]))));
    }

    /// The finished table.
    pub fn finish(self) -> (r: Table)
        requires
            self.wf(),
        ensures
            r.wf(),
            r.schema_spec() == self.schema_spec(),
            r.rows() == self.rows(),
            r.cells() == self.cells(),
    {
        Table { schema: self.schema, columns: self.columns, row_count: self.row_count }
    }
}

proof fn lemma_columns_push(schema: Seq<FieldSpec>, recs: Seq<RawRecord>, r: RawRecord)
    ensures
        columns_spec(schema, recs.push(r)) == Seq::new(
            schema.len(),
            |i: int| columns_spec(schema, recs)[i].push(map_field_spec(r, schema[i])),
        ),
{
    let lhs = columns_spec(schema, recs.push(r));
    let rhs = Seq::new(
        schema.len(),
        |i: int| columns_spec(schema, recs)[i].push(map_field_spec(r, schema[i])),
    );
    assert forall|i: int| 0 <= i < schema.len() implies #[trigger] lhs[i] =~= rhs[i] by {}
    assert(lhs =~= rhs);
}

proof fn lemma_parsed_len(items: Seq<SourceItem>)
    ensures
        parsed_records(items).len() <= items.len(),
    decreases items.len(),
{
    if items.len() > 0 {
        lemma_parsed_len(items.drop_last());
    }
}

/// Ingests the records of one source pass under `schema`: records that
/// failed to decode are skipped, every decoded record becomes one row, and
/// every field yields exactly one cell per row. An inconsistent schema is
/// rejected before any record is read.
pub fn create_memtable(schema: Vec<FieldSpec>, items: &Vec<SourceItem>) -> (r: Result<Table, IngestError>)
    ensures
        match r {
            Ok(t) => schema_wf(schema@) && t.is_ingestion_of(schema@, items@),
            Err(e) => !schema_wf(schema@) && e == IngestError::InvalidSchema,
        },
{
    if !validate_schema(&schema) {
        return Err(IngestError::InvalidSchema);
    }
    let ghost s = schema@;
    let mut builder = TableBuilder::new(schema);
    let mut i: usize = 0;
    assert(items@.take(0) =~= Seq::<SourceItem>::empty());
    while i < items.len()
        invariant
            0 <= i <= items@.len(),
            schema_wf(s),
            builder.wf(),
            builder.schema_spec() == s,
            builder.rows() == parsed_records(items@.take(i as int)).len(),
            builder.cells() == columns_spec(s, parsed_records(items@.take(i as int))),
        decreases items@.len() - i,
    {
        proof {
            assert(items@.take(i as int + 1).drop_last() =~= items@.take(i as int));
            lemma_parsed_len(items@.take(i as int));
        }
        match &items[i] {
            Ok(rec) => {
                proof {
                    lemma_columns_push(s, parsed_records(items@.take(i as int)), *rec);
                }
                builder.push_record(rec);
            },
            Err(_) => {},
        }
        i = i + 1;
    }
    assert(items@.take(items@.len() as int) =~= items@);
    Ok(builder.finish())
}

/// Alignment: every column of an ingested table has exactly one entry per
/// row, and there is one column per field, whatever failed to extract.
pub proof fn ingested_table_is_aligned(t: Table, schema: Seq<FieldSpec>, items: Seq<SourceItem>)
    requires
        t.is_ingestion_of(schema, items),
    ensures
        aligned(t.cells(), schema.len(), t.rows()),
{
}

/// How many items of the source decoded successfully.
pub open spec fn parsed_count(items: Seq<SourceItem>) -> nat {
    items.filter(|x: SourceItem| x is Ok).len()
}

proof fn lemma_parsed_count(items: Seq<SourceItem>)
    ensures
        parsed_records(items).len() == parsed_count(items),
    decreases items.len(),
{
    if items.len() > 0 {
        let pred = |x: SourceItem| x is Ok;
        lemma_parsed_count(items.drop_last());
        assert(items =~= items.drop_last() + seq![items.last()]);
        Seq::filter_distributes_over_add(items.drop_last(), seq![items.last()], pred);
        reveal_with_fuel(Seq::filter, 2);
        assert(seq![items.last()].drop_last() =~= Seq::<SourceItem>::empty());
    }
}

/// Row count: an ingested table has exactly one row per item of the source
/// that decoded, whatever its fields hold.
pub proof fn ingested_row_count(t: Table, schema: Seq<FieldSpec>, items: Seq<SourceItem>)
    requires
        t.is_ingestion_of(schema, items),
    ensures
        t.rows() == parsed_count(items),
{
    lemma_parsed_count(items);
}

proof fn lemma_columns_by_content(s1: Seq<FieldSpec>, s2: Seq<FieldSpec>, recs: Seq<RawRecord>)
    requires
        schema_model(s1) == schema_model(s2),
    ensures
        columns_spec(s1, recs) == columns_spec(s2, recs),
{
    assert(s1.len() == schema_model(s1).len() && s2.len() == schema_model(s2).len());
    let c1 = columns_spec(s1, recs);
    let c2 = columns_spec(s2, recs);
    assert forall|i: int| 0 <= i < s1.len() implies #[trigger] c1[i] =~= c2[i] by {
        assert(s1[i]@ == schema_model(s1)[i] && s2[i]@ == schema_model(s2)[i]);
        assert forall|j: int| 0 <= j < recs.len() implies #[trigger] c1[i][j] == c2[i][j] by {
            map_field_by_content(recs[j], s1[i], s2[i]);
        }
    }
    assert(c1 =~= c2);
}

/// Idempotence: two ingestions of the same source under schemas of the same
/// content (two calls of `get_schema`, say) hold the same cells.
pub proof fn ingestion_is_repeatable(
    t1: Table,
    t2: Table,
    s1: Seq<FieldSpec>,
    s2: Seq<FieldSpec>,
    items: Seq<SourceItem>,
)
    requires
        t1.is_ingestion_of(s1, items),
        t2.is_ingestion_of(s2, items),
        schema_model(s1) == schema_model(s2),
    ensures
        schema_model(t1.schema_spec()) == schema_model(t2.schema_spec()),
        t1.rows() == t2.rows(),
        t1.cells() == t2.cells(),
{
    lemma_columns_by_content(s1, s2, parsed_records(items));
}

/// Empty source: ingesting no items gives the declared schema, one column
/// per field, and no rows.
pub proof fn empty_source_gives_empty_table(t: Table, schema: Seq<FieldSpec>, items: Seq<SourceItem>)
    requires
        t.is_ingestion_of(schema, items),
        items.len() == 0,
    ensures
        t.schema_spec() == schema,
        t.rows() == 0,
        t.cells().len() == schema.len(),
        forall|i: int| 0 <= i < schema.len() ==> (#[trigger] t.cells()[i]).len() == 0,
{
}

/// Under the standard event schema, the last column holds each decoded
/// record's own identifier, in source order.
pub proof fn standard_schema_keeps_record_ids(t: Table, schema: Seq<FieldSpec>, items: Seq<SourceItem>)
    requires
        t.is_ingestion_of(schema, items),
        schema_model(schema) == standard_schema(),
    ensures
        t.cells().len() == 18,
        forall|j: int| 0 <= j < t.rows() ==> #[trigger] t.cells()[17][j] == Cell::UInt(parsed_records(items)[j].id),
{
    assert(schema.len() == schema_model(schema).len());
    assert(schema[17]@ == standard_schema()[17]);
}

} // verus!
