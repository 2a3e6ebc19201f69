use vstd::prelude::*;

use crate::engine::{
    engine_display, engine_json_text, engine_message, engine_scalar, engine_vector_bits, error_message, row_value,
    rows_columns, rows_next,
};
use crate::error::StoolapError;
use crate::params::all_wf;
use crate::value::{SqlValue, MAX_INSTANT_MICROS, MIN_INSTANT_MICROS};

verus! {

/// The rows of a query result in tabular form: the column names, then each row's
/// values in column order.
#[derive(Clone, Debug)]
pub struct RowSet {
    pub columns: Vec<String>,
    pub rows: Vec<Vec<SqlValue>>,
}

/// Every value is well formed.
pub open spec fn values_wf(s: Seq<SqlValue>) -> bool {
    forall|i: int| 0 <= i < s.len() ==> (#[trigger] s[i]).wf()
}

impl RowSet {
    /// Every row has one well-formed value per column.
    pub open spec fn wf(&self) -> bool {
        forall|i: int|
            0 <= i < self.rows@.len() ==> (#[trigger] self.rows@[i])@.len() == self.columns@.len()
                && values_wf(self.rows@[i]@)
    }
}

/// An engine failure as this layer reports it: the engine's message, unmodified.
pub fn to_py(e: stoolap::core::Error) -> (r: StoolapError)
    ensures
        r matches StoolapError::Engine(m) && m@ == engine_message(e),
{
    StoolapError::Engine(error_message(&e))
}

/// The value a cell settles to, from what the engine reports of it: its scalar form
/// if it has one, else its vector elements, else its JSON text, else its display text.
/// A timestamp past the engine's range (a leap second in its last second) is held at
/// the nearest instant of the range.
pub open spec fn settled(
    scalar: Option<SqlValue>,
    bits: Option<Vec<u32>>,
    json: Option<String>,
    shown: String,
) -> SqlValue {
    let v = match scalar {
        Some(v) => v,
        None => match bits {
            Some(b) => SqlValue::Vector(b),
            None => match json {
                Some(j) => SqlValue::Json(j),
                None => SqlValue::Text(shown),
            },
        },
    };
    match v {
        SqlValue::Timestamp(m) => if m > MAX_INSTANT_MICROS {
            SqlValue::Timestamp(MAX_INSTANT_MICROS)
        } else if m < MIN_INSTANT_MICROS {
            SqlValue::Timestamp(MIN_INSTANT_MICROS)
        } else {
            v
        },
        _ => v,
    }
}

/// Settles a cell from what the engine reports of it.
pub fn settle_value(
    scalar: Option<SqlValue>,
    bits: Option<Vec<u32>>,
    json: Option<String>,
    shown: String,
) -> (r: SqlValue)
    ensures
        r == settled(scalar, bits, json, shown),
        r.wf(),
{
    let v = match scalar {
        Some(v) => v,
        None => match bits {
            Some(b) => SqlValue::Vector(b),
            None => match json {
                Some(j) => SqlValue::Json(j),
                None => SqlValue::Text(shown),
            },
        },
    };
    match v {
        SqlValue::Timestamp(m) => if m > MAX_INSTANT_MICROS {
            SqlValue::Timestamp(MAX_INSTANT_MICROS)
        } else if m < MIN_INSTANT_MICROS {
            SqlValue::Timestamp(MIN_INSTANT_MICROS)
        } else {
            v
        },
        _ => v,
    }
}

/// A value read from the engine: asks the engine for the forms of the value in the
/// order that `settled` tries them, and only as far as needed.
pub(crate) fn read_value(ev: &stoolap::core::Value) -> (r: SqlValue)
    ensures
        r.wf(),
{
    let scalar = engine_scalar(ev);
    let bits = if scalar.is_none() {
        engine_vector_bits(ev)
    } else {
        None
    };
    let json = if scalar.is_none() && bits.is_none() {
        engine_json_text(ev)
    } else {
        None
    };
    let shown = if scalar.is_none() && bits.is_none() && json.is_none() {
        engine_display(ev)
    } else {
        String::new()
    };
    settle_value(scalar, bits, json, shown)
}

/// The value of cell `i`: the cell's value if the row has one there, else null.
pub open spec fn cell_at(cells: Seq<Option<SqlValue>>, i: int) -> SqlValue {
    if 0 <= i < cells.len() && cells[i] is Some {
        cells[i]->Some_0
    } else {
        SqlValue::Null
    }
}

/// A row of `width` values: each cell's value, null where a cell is missing.
pub fn fill_cells(cells: Vec<Option<SqlValue>>, width: usize) -> (r: Vec<SqlValue>)
    ensures
        r@.len() == width,
        forall|i: int| 0 <= i < width ==> (#[trigger] r@[i]) == cell_at(cells@, i),
{
    let ghost all = cells@;
    let mut rest = cells;
    let mut out: Vec<SqlValue> = Vec::new();
    let mut i: usize = 0;
    while i < width
        invariant
            i <= width,
            out@.len() == i,
            rest@.len() == if all.len() >= i { all.len() - i } else { 0 },
            all.len() >= i ==> rest@ == all.skip(i as int),
            all.len() < i ==> rest@.len() == 0,
            forall|j: int| 0 <= j < i ==> (#[trigger] out@[j]) == cell_at(all, j),
        decreases width - i,
    {
        let v = if rest.len() > 0 {
            match rest.remove(0) {
                Some(v) => v,
                None => SqlValue::Null,
            }
        } else {
            SqlValue::Null
        };
        out.push(v);
        proof {
            if all.len() > i {
                assert(rest@ =~= all.skip(i + 1));
            }
        }
        i = i + 1;
    }
    out
}

/// A record: each column name, in order, with the value of its cell.
pub fn fill_record(columns: &Vec<String>, cells: Vec<Option<SqlValue>>) -> (r: Vec<
    (String, SqlValue),
>)
    ensures
        r@.len() == columns@.len(),
        forall|i: int|
            0 <= i < columns@.len() ==> (#[trigger] r@[i]) == (columns@[i], cell_at(cells@, i)),
{
    let values = fill_cells(cells, columns.len());
    let ghost vs = values@;
    let mut rest = values;
    let mut out: Vec<(String, SqlValue)> = Vec::new();
    let mut i: usize = 0;
    while i < columns.len()
        invariant
            i <= columns@.len(),
            vs.len() == columns@.len(),
            rest@ == vs.skip(i as int),
            out@.len() == i,
            forall|j: int| 0 <= j < i ==> (#[trigger] out@[j]) == (columns@[j], vs[j]),
        decreases columns@.len() - i,
    {
        let v = rest.remove(0);
        out.push((columns[i].clone(), v));
        assert(rest@ =~= vs.skip(i + 1));
        i = i + 1;
    }
    out
}

/// The cells of a row, one per column, as this layer reads them.
fn read_cells(row: &stoolap::api::ResultRow, width: usize) -> (r: Vec<Option<SqlValue>>)
    ensures
        r@.len() == width,
        cells_wf(r@),
{
    let mut out: Vec<Option<SqlValue>> = Vec::new();
    let mut i: usize = 0;
    while i < width
        invariant
            i <= width,
            out@.len() == i,
            forall|j: int| 0 <= j < i ==> ((#[trigger] out@[j]) matches Some(v) ==> v.wf()),
        decreases width - i,
    {
        let c = match row_value(row, i) {
            Some(ev) => Some(read_value(&ev)),
            None => None,
        };
        out.push(c);
        i = i + 1;
    }
    out
}

/// `rec` pairs each column name, in order, with a well-formed value.
pub open spec fn record_wf(rec: Seq<(String, SqlValue)>, columns: Seq<String>) -> bool {
    &&& rec.len() == columns.len()
    &&& forall|i: int|
        0 <= i < rec.len() ==> (#[trigger] rec[i]).0 == columns[i] && rec[i].1.wf()
}

/// `row` holds, for each of `width` columns, the value of its cell.
pub open spec fn row_matches(row: Seq<SqlValue>, cells: Seq<Option<SqlValue>>, width: int) -> bool {
    &&& row.len() == width
    &&& forall|i: int| 0 <= i < width ==> #[trigger] row[i] == cell_at(cells, i)
}

/// `rec` pairs each column name, in order, with the value of its cell.
pub open spec fn record_matches(
    rec: Seq<(String, SqlValue)>,
    cells: Seq<Option<SqlValue>>,
    columns: Seq<String>,
) -> bool {
    &&& rec.len() == columns.len()
    &&& forall|i: int| 0 <= i < columns.len() ==> #[trigger] rec[i] == (columns[i], cell_at(cells, i))
}

/// Every cell present is well formed.
pub open spec fn cells_wf(cells: Seq<Option<SqlValue>>) -> bool {
    forall|i: int| 0 <= i < cells.len() ==> ((#[trigger] cells[i]) matches Some(v) ==> v.wf())
}

/// A result in tabular form from its column names and the cells of its rows.
pub fn raw_from_cells(columns: Vec<String>, cells: Vec<Vec<Option<SqlValue>>>) -> (r: RowSet)
    ensures
        r.columns@ == columns@,
        r.rows@.len() == cells@.len(),
        forall|j: int|
            0 <= j < cells@.len() ==> row_matches(
                #[trigger] r.rows@[j]@,
                cells@[j]@,
                columns@.len() as int,
            ),
{
    let ghost all = cells@;
    let mut rest = cells;
    let width = columns.len();
    let mut out: Vec<Vec<SqlValue>> = Vec::new();
    while rest.len() > 0
        invariant
            out@.len() + rest@.len() == all.len(),
            rest@ == all.skip(out@.len() as int),
            width == columns@.len(),
            forall|j: int|
                0 <= j < out@.len() ==> row_matches(#[trigger] out@[j]@, all[j]@, width as int),
        decreases rest@.len(),
    {
        let ghost k = out@.len();
        let c = rest.remove(0);
        assert(c == all[k as int]);
        out.push(fill_cells(c, width));
        assert(rest@ =~= all.skip(k as int + 1));
    }
    RowSet { columns, rows: out }
}

/// A result as records from its column names and the cells of its rows.
pub fn dicts_from_cells(columns: Vec<String>, cells: Vec<Vec<Option<SqlValue>>>) -> (r: (
    Vec<String>,
    Vec<Vec<(String, SqlValue)>>,
))
    ensures
        r.0@ == columns@,
        r.1@.len() == cells@.len(),
        forall|j: int|
            0 <= j < cells@.len() ==> record_matches(#[trigger] r.1@[j]@, cells@[j]@, columns@),
{
    let ghost all = cells@;
    let mut rest = cells;
    let mut out: Vec<Vec<(String, SqlValue)>> = Vec::new();
    while rest.len() > 0
        invariant
            out@.len() + rest@.len() == all.len(),
            rest@ == all.skip(out@.len() as int),
            forall|j: int|
                0 <= j < out@.len() ==> record_matches(#[trigger] out@[j]@, all[j]@, columns@),
        decreases rest@.len(),
    {
        let ghost k = out@.len();
        let c = rest.remove(0);
        assert(c == all[k as int]);
        out.push(fill_record(&columns, c));
        assert(rest@ =~= all.skip(k as int + 1));
    }
    (columns, out)
}

/// Collects the cells of every row of a result, stopping at the first failure the
/// engine reports.
fn collect_cells(rows: &mut stoolap::api::Rows, width: usize) -> (r: Result<
    Vec<Vec<Option<SqlValue>>>,
    StoolapError,
>)
    ensures
        r matches Ok(c) ==> forall|j: int|
            0 <= j < c@.len() ==> (#[trigger] c@[j])@.len() == width && cells_wf(c@[j]@),
        r matches Err(e) ==> e is Engine,
{
    let mut out: Vec<Vec<Option<SqlValue>>> = Vec::new();
    // A vector never holds `usize::MAX` rows, so the bound only gives the loop a measure.
    while out.len() < usize::MAX
        invariant
            forall|j: int|
                0 <= j < out@.len() ==> (#[trigger] out@[j])@.len() == width && cells_wf(out@[j]@),
        decreases usize::MAX - out@.len(),
    {
        match rows_next(rows) {
            None => {
                return Ok(out);
            },
            Some(Err(e)) => {
                return Err(to_py(e));
            },
            Some(Ok(row)) => {
                out.push(read_cells(&row, width));
            },
        }
    }
    Ok(out)
}

/// Reads every row of a result in tabular form (see `raw_from_cells`), stopping at
/// the first failure the engine reports.
pub fn rows_to_raw(rows: stoolap::api::Rows) -> (r: Result<RowSet, StoolapError>)
    ensures
        r matches Ok(rs) ==> rs.wf(),
        r matches Err(e) ==> e is Engine,
{
    let mut rows = rows;
    let columns = rows_columns(&rows);
    let width = columns.len();
    match collect_cells(&mut rows, width) {
        Ok(cells) => {
            let ghost cs = cells@;
            let rs = raw_from_cells(columns, cells);
            assert forall|j: int| 0 <= j < rs.rows@.len() implies (#[trigger] rs.rows@[j])@.len()
                == rs.columns@.len() && values_wf(rs.rows@[j]@) by {
                assert(row_matches(rs.rows@[j]@, cs[j]@, width as int));
                assert forall|i: int| 0 <= i < rs.rows@[j]@.len() implies (
                #[trigger] rs.rows@[j]@[i]).wf() by {
                    assert(rs.rows@[j]@[i] == cell_at(cs[j]@, i));
                }
            }
            Ok(rs)
        },
        Err(e) => Err(e),
    }
}

/// Reads every row of a result as a record (see `dicts_from_cells`), stopping at the
/// first failure the engine reports.
pub fn rows_to_dicts(rows: stoolap::api::Rows) -> (r: Result<
    (Vec<String>, Vec<Vec<(String, SqlValue)>>),
    StoolapError,
>)
    ensures
        r matches Ok((cols, recs)) ==> forall|i: int|
            0 <= i < recs@.len() ==> record_wf(#[trigger] recs@[i]@, cols@),
        r matches Err(e) ==> e is Engine,
{
    let mut rows = rows;
    let columns = rows_columns(&rows);
    let width = columns.len();
    match collect_cells(&mut rows, width) {
        Ok(cells) => {
            let ghost cs = cells@;
            let r = dicts_from_cells(columns, cells);
            assert forall|j: int| 0 <= j < r.1@.len() implies record_wf(
                #[trigger] r.1@[j]@,
                r.0@,
            ) by {
                assert(record_matches(r.1@[j]@, cs[j]@, r.0@));
                assert forall|i: int| 0 <= i < r.1@[j]@.len() implies (#[trigger] r.1@[j]@[i]).0
                    == r.0@[i] && r.1@[j]@[i].1.wf() by {
                    assert(r.1@[j]@[i] == (r.0@[i], cell_at(cs[j]@, i)));
                }
            }
            Ok(r)
        },
        Err(e) => Err(e),
    }
}

/// Reads the first row of a result as a record, if there is one.
pub fn first_row_to_dict(rows: stoolap::api::Rows) -> (r: Result<
    Option<Vec<(String, SqlValue)>>,
    StoolapError,
>)
    ensures
        r matches Ok(Some(rec)) ==> all_wf(rec@),
        r matches Err(e) ==> e is Engine,
{
    let mut rows = rows;
    let columns = rows_columns(&rows);
    match rows_next(&mut rows) {
        None => Ok(None),
        Some(Err(e)) => Err(to_py(e)),
        Some(Ok(row)) => {
            let cells = read_cells(&row, columns.len());
            let ghost cs = cells@;
            let rec = fill_record(&columns, cells);
            assert(all_wf(rec@)) by {
                assert forall|i: int| 0 <= i < rec@.len() implies (#[trigger] rec@[i]).1.wf() by {
                    assert(rec@[i] == (columns@[i], cell_at(cs, i)));
                }
            }
            Ok(Some(rec))
        },
    }
}

} // verus!
