use vstd::prelude::*;
use crate::casefold::{lower_of, to_lower};
use crate::extract::record_views;
use crate::record::Record;

verus! {

/// One output column: a display name and the candidate source-field keys,
/// tried in order.
#[derive(Debug, Clone, PartialEq, Eq)]
pub struct Column {
    pub name: String,
    pub keys: Vec<String>,
}

/// Spec-level column.
pub struct ColumnModel {
    pub name: Seq<char>,
    pub keys: Seq<Seq<char>>,
}

pub open spec fn string_views(s: Seq<String>) -> Seq<Seq<char>> {
    s.map_values(|x: String| x@)
}

impl View for Column {
    type V = ColumnModel;

    open spec fn view(&self) -> ColumnModel {
        ColumnModel { name: self.name@, keys: string_views(self.keys@) }
    }
}

pub open spec fn column_views(s: Seq<Column>) -> Seq<ColumnModel> {
    s.map_values(|c: Column| c@)
}

pub open spec fn table_views(s: Seq<Vec<String>>) -> Seq<Seq<Seq<char>>> {
    s.map_values(|row: Vec<String>| string_views(row@))
}

/// The cell a record projects to under the candidate keys: the value of
/// the first key (compared lowercased) present in the record, or the
/// empty string when none is.
pub open spec fn cell_spec(rec: Map<Seq<char>, Seq<char>>, keys: Seq<Seq<char>>) -> Seq<char>
    decreases keys.len(),
{
    if keys.len() == 0 {
        Seq::empty()
    } else if rec.dom().contains(lower_of(keys.first())) {
        rec[lower_of(keys.first())]
    } else {
        cell_spec(rec, keys.drop_first())
    }
}

/// One data row: one cell per column, in column order.
pub open spec fn row_spec(rec: Map<Seq<char>, Seq<char>>, cols: Seq<ColumnModel>) -> Seq<
    Seq<char>,
> {
    cols.map_values(|c: ColumnModel| cell_spec(rec, c.keys))
}

/// The header row: the columns' display names.
pub open spec fn header_spec(cols: Seq<ColumnModel>) -> Seq<Seq<char>> {
    cols.map_values(|c: ColumnModel| c.name)
}

/// The output table: the header row, one blank separator row, then one
/// data row per record in record order.
pub open spec fn table_spec(
    recs: Seq<Map<Seq<char>, Seq<char>>>,
    cols: Seq<ColumnModel>,
) -> Seq<Seq<Seq<char>>> {
    seq![header_spec(cols), Seq::<Seq<char>>::empty()] + recs.map_values(
        |r: Map<Seq<char>, Seq<char>>| row_spec(r, cols),
    )
}

/// Projects one record through one column's candidate keys.
fn cell(rec: &Record, keys: &Vec<String>) -> (r: String)
    ensures
        r@ == cell_spec(rec@, string_views(keys@)),
{
    proof {
        assert(string_views(keys@).skip(0) =~= string_views(keys@));
    }
    let mut i: usize = 0;
    while i < keys.len()
        invariant
            i <= keys.len(),
            cell_spec(rec@, string_views(keys@)) == cell_spec(
                rec@,
                string_views(keys@).skip(i as int),
            ),
        decreases keys.len() - i,
    {
        proof {
            assert(string_views(keys@).skip(i as int).first() == keys@[i as int]@);
            assert(string_views(keys@).skip(i as int).drop_first() =~= string_views(keys@).skip(
                i as int + 1,
            ));
        }
        let low = to_lower(&keys[i]);
        match rec.get(&low) {
            Some(v) => {
                return v.clone();
            },
            None => {},
        }
        i = i + 1;
    }
    proof {
        assert(string_views(keys@).skip(keys@.len() as int).len() == 0);
    }
    String::new()
}

/// Projects one record into a data row.
fn row(rec: &Record, columns: &Vec<Column>) -> (r: Vec<String>)
    ensures
        string_views(r@) == row_spec(rec@, column_views(columns@)),
{
    let mut out: Vec<String> = Vec::new();
    let mut j: usize = 0;
    while j < columns.len()
        invariant
            j <= columns.len(),
            out@.len() == j,
            forall|k: int|
                0 <= k < j ==> out@[k]@ == cell_spec(rec@, column_views(columns@)[k].keys),
        decreases columns.len() - j,
    {
        out.push(cell(rec, &columns[j].keys));
        j = j + 1;
    }
    proof {
        assert(string_views(out@) =~= row_spec(rec@, column_views(columns@)));
    }
    out
}

/// Projects the record list through the column specification into the
/// row-major output table: the header row of display names, one blank
/// separator row, and one data row per record, each with exactly one cell
/// per column.
pub fn project(records: &Vec<Record>, columns: &Vec<Column>) -> (t: Vec<Vec<String>>)
    ensures
        table_views(t@) == table_spec(record_views(records@), column_views(columns@)),
        t@.len() == 2 + records@.len(),
{
    let mut header: Vec<String> = Vec::new();
    let mut j: usize = 0;
    while j < columns.len()
        invariant
            j <= columns.len(),
            header@.len() == j,
            forall|k: int| 0 <= k < j ==> header@[k]@ == column_views(columns@)[k].name,
        decreases columns.len() - j,
    {
        header.push(columns[j].name.clone());
        j = j + 1;
    }
    proof {
        assert(string_views(header@) =~= header_spec(column_views(columns@)));
    }

    let mut t: Vec<Vec<String>> = Vec::new();
    t.push(header);
    t.push(Vec::new());
    proof {
        assert(string_views(Seq::<String>::empty()) =~= Seq::<Seq<char>>::empty());
    }
    let mut i: usize = 0;
    while i < records.len()
        invariant
            i <= records.len(),
            t@.len() == 2 + i,
            string_views(t@[0]@) == header_spec(column_views(columns@)),
            string_views(t@[1]@) == Seq::<Seq<char>>::empty(),
            forall|k: int|
                0 <= k < i ==> string_views(t@[k + 2]@) == row_spec(
                    record_views(records@)[k],
                    column_views(columns@),
                ),
        decreases records.len() - i,
    {
        let r = row(&records[i], columns);
        t.push(r);
        i = i + 1;
    }
    proof {
        assert(table_views(t@) =~= table_spec(record_views(records@), column_views(columns@)));
    }
    t
}

/// First match wins: the cell holds the value of the first candidate key
/// present in the record, even where later candidates are present too.
pub proof fn lemma_first_match_wins(
    rec: Map<Seq<char>, Seq<char>>,
    keys: Seq<Seq<char>>,
    i: int,
)
    requires
        0 <= i < keys.len(),
        rec.dom().contains(lower_of(keys[i])),
        forall|j: int| 0 <= j < i ==> !rec.dom().contains(lower_of(keys[j])),
    ensures
        cell_spec(rec, keys) == rec[lower_of(keys[i])],
    decreases i,
{
    if i > 0 {
        assert(!rec.dom().contains(lower_of(keys.first())));
        assert(keys.drop_first()[i - 1] == keys[i]);
        assert(forall|j: int|
            0 <= j < i - 1 ==> !rec.dom().contains(lower_of(#[trigger] keys.drop_first()[j])));
        lemma_first_match_wins(rec, keys.drop_first(), i - 1);
    }
}

/// A column whose candidate keys are all absent from the record projects
/// to the empty string, never to a missing cell.
pub proof fn lemma_absent_keys_default(rec: Map<Seq<char>, Seq<char>>, keys: Seq<Seq<char>>)
    requires
        forall|i: int| 0 <= i < keys.len() ==> !rec.dom().contains(lower_of(#[trigger] keys[i])),
    ensures
        cell_spec(rec, keys) == Seq::<char>::empty(),
    decreases keys.len(),
{
    if keys.len() > 0 {
        assert(forall|i: int|
            0 <= i < keys.drop_first().len() ==> !rec.dom().contains(
                lower_of(#[trigger] keys.drop_first()[i]),
            ));
        lemma_absent_keys_default(rec, keys.drop_first());
    }
}

/// Every data row has exactly one cell per column.
pub proof fn lemma_row_width(rec: Map<Seq<char>, Seq<char>>, cols: Seq<ColumnModel>)
    ensures
        row_spec(rec, cols).len() == cols.len(),
{
}

} // verus!
