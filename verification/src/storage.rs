use vstd::prelude::*;
use crate::syntax::{Column, ColumnView, DataType};

verus! {

/// One stored value, with the size and nullability of the column it was made for.
#[derive(Debug)]
pub enum Cell {
    INT(i32, u32, bool),
    STRING(String, u32, bool),
}

/// The mathematical value of a [`Cell`].
pub enum CellView {
    INT(i32, u32, bool),
    STRING(Seq<char>, u32, bool),
}

impl DeepView for Cell {
    type V = CellView;

    open spec fn deep_view(&self) -> CellView {
        match self {
            Cell::INT(value, size, nullable) => CellView::INT(*value, *size, *nullable),
            Cell::STRING(value, size, nullable) => CellView::STRING(value@, *size, *nullable),
        }
    }
}

impl Clone for Cell {
    fn clone(&self) -> (r: Cell)
        ensures
            r.deep_view() == self.deep_view(),
    {
        match self {
            Cell::INT(value, size, nullable) => Cell::INT(*value, *size, *nullable),
            Cell::STRING(value, size, nullable) => Cell::STRING(value.clone(), *size, *nullable),
        }
    }
}

/// Equality of cells: the same kind and the same value, whatever size and nullability
/// they carry.
pub open spec fn cell_equal(a: CellView, b: CellView) -> bool {
    match (a, b) {
        (CellView::INT(x, _, _), CellView::INT(y, _, _)) => x == y,
        (CellView::STRING(x, _, _), CellView::STRING(y, _, _)) => x == y,
        _ => false,
    }
}

/// Equality of rows: the same width, and equal cells at every position.
pub open spec fn row_equal(a: Seq<CellView>, b: Seq<CellView>) -> bool {
    a.len() == b.len() && forall|i: int| 0 <= i < a.len() ==> cell_equal(#[trigger] a[i], b[i])
}

/// The cell that fills a new column in a row that existed before it.
pub open spec fn default_cell(column: ColumnView) -> CellView {
    match column.data_type {
        DataType::INT => CellView::INT(0, column.size, column.nullable),
        DataType::STRING => CellView::STRING(Seq::empty(), column.size, column.nullable),
    }
}

/// Whether a cell holds the kind of value that a column declares.
pub open spec fn cell_fits(cell: CellView, column: ColumnView) -> bool {
    match cell {
        CellView::INT(_, _, _) => column.data_type == DataType::INT,
        CellView::STRING(_, _, _) => column.data_type == DataType::STRING,
    }
}

/// The index of the first of `names` from `i` on that equals `name`, or the length of
/// `names` where there is none.
pub open spec fn position(names: Seq<Seq<char>>, name: Seq<char>, i: int) -> int
    decreases names.len() - i,
{
    if i < 0 || i >= names.len() {
        names.len() as int
    } else if names[i] == name {
        i
    } else {
        position(names, name, i + 1)
    }
}

/// What `position` finds: an index from `i` on that holds `name`, with none before it.
pub proof fn lemma_position(names: Seq<Seq<char>>, name: Seq<char>, i: int)
    requires
        0 <= i <= names.len(),
    ensures
        i <= position(names, name, i) <= names.len(),
        position(names, name, i) < names.len() ==> names[position(names, name, i)] == name,
        forall|j: int| i <= j < position(names, name, i) ==> names[j] != name,
    decreases names.len() - i,
{
    if i < names.len() && names[i] != name {
        lemma_position(names, name, i + 1);
    }
}

/// The converse: an index that holds `name`, with none before it, is what `position`
/// finds; and so is the length, where `name` stands nowhere.
pub proof fn lemma_position_is(names: Seq<Seq<char>>, name: Seq<char>, p: int)
    requires
        0 <= p <= names.len(),
        p < names.len() ==> names[p] == name,
        forall|j: int| 0 <= j < p ==> names[j] != name,
    ensures
        position(names, name, 0) == p,
{
    lemma_position(names, name, 0);
    let q = position(names, name, 0);
    if q < p {
        assert(names[q] != name);
    }
}

/// The names of columns, in their order.
pub open spec fn column_names(columns: Seq<ColumnView>) -> Seq<Seq<char>> {
    Seq::new(columns.len(), |i: int| columns[i].name)
}

/// The index of the first column called `name`, or the number of columns where none is.
pub open spec fn column_index(columns: Seq<ColumnView>, name: Seq<char>) -> int {
    position(column_names(columns), name, 0)
}

/// Whether a column called `name` is among `columns`.
pub open spec fn has_column(columns: Seq<ColumnView>, name: Seq<char>) -> bool {
    column_index(columns, name) < columns.len()
}

/// A table: its columns in declaration order and its rows in insertion order.
#[derive(Debug)]
pub struct Table {
    pub columns: Vec<Column>,
    pub rows: Vec<Vec<Cell>>,
    pub row_count: usize,
}

/// The mathematical value of a [`Table`].
pub struct TableView {
    pub columns: Seq<ColumnView>,
    pub rows: Seq<Seq<CellView>>,
    pub row_count: nat,
}

impl DeepView for Table {
    type V = TableView;

    open spec fn deep_view(&self) -> TableView {
        TableView {
            columns: self.columns.deep_view(),
            rows: self.rows.deep_view(),
            row_count: self.row_count as nat,
        }
    }
}

/// A table without columns or rows.
pub open spec fn empty_table() -> TableView {
    TableView { columns: Seq::empty(), rows: Seq::empty(), row_count: 0 }
}

/// `table` with one more row at its end.
pub open spec fn with_row(table: TableView, row: Seq<CellView>) -> TableView {
    TableView { rows: table.rows.push(row), row_count: table.rows.len() + 1, ..table }
}

/// `table` without the row at `index`.
pub open spec fn without_row(table: TableView, index: int) -> TableView {
    TableView {
        rows: table.rows.remove(index),
        row_count: (table.rows.len() - 1) as nat,
        ..table
    }
}

/// `table` with its columns kept and its rows gone.
pub open spec fn truncated(table: TableView) -> TableView {
    TableView { rows: Seq::empty(), row_count: 0, ..table }
}

/// `table` with the default cell of `column` at the end of every row.
pub open spec fn backfilled(table: TableView, column: ColumnView) -> TableView {
    TableView {
        rows: Seq::new(table.rows.len(), |i: int| table.rows[i].push(default_cell(column))),
        ..table
    }
}

/// `table` with `column` behind its other columns.
pub open spec fn with_column(table: TableView, column: ColumnView) -> TableView {
    TableView { columns: table.columns.push(column), ..table }
}

/// Whether every row is as wide as the column list.
pub open spec fn rectangular(table: TableView) -> bool {
    forall|i: int| 0 <= i < table.rows.len() ==> (#[trigger] table.rows[i]).len()
        == table.columns.len()
}

impl Table {
    /// A table without columns or rows.
    pub fn new() -> (t: Table)
        ensures
            t.deep_view() == empty_table(),
    {
        let t = Table { columns: Vec::new(), rows: Vec::new(), row_count: 0 };
        assert(t.columns.deep_view() =~= Seq::empty());
        assert(t.rows.deep_view() =~= Seq::empty());
        t
    }

    /// Appends `row` and counts it.
    pub fn insert_row(&mut self, row: Vec<Cell>)
        ensures
            final(self).deep_view() == with_row(old(self).deep_view(), row.deep_view()),
    {
        self.rows.push(row);
        self.row_count = self.rows.len();
        assert(self.rows.deep_view() =~= old(self).rows.deep_view().push(row.deep_view()));
    }

    /// Removes the row at `index`.
    pub fn delete_row(&mut self, index: i32)
        requires
            0 <= index < old(self).rows.len(),
        ensures
            final(self).deep_view() == without_row(old(self).deep_view(), index as int),
    {
        self.rows.remove(index as usize);
        self.row_count = self.rows.len();
        assert(self.rows.deep_view() =~= old(self).rows.deep_view().remove(index as int));
    }

    /// Removes every row and keeps the columns.
    pub fn clear_rows(&mut self)
        ensures
            final(self).deep_view() == truncated(old(self).deep_view()),
    {
        self.rows.clear();
        self.row_count = 0;
        assert(self.rows.deep_view() =~= Seq::empty());
    }

    /// Puts `column` behind the other columns.
    pub fn push_column(&mut self, column: Column)
        ensures
            final(self).deep_view() == with_column(old(self).deep_view(), column.deep_view()),
    {
        self.columns.push(column);
        assert(self.columns.deep_view() =~= old(self).columns.deep_view().push(
            column.deep_view(),
        ));
    }

    /// Puts the default cell of `column` at the end of every row.
    pub fn backfill(&mut self, column: &Column)
        ensures
            final(self).deep_view() == backfilled(old(self).deep_view(), column.deep_view()),
    {
        let ghost before = self.rows.deep_view();
        let ghost filler = default_cell(column.deep_view());
        let mut r: usize = 0;
        while r < self.rows.len()
            invariant
                before == old(self).rows.deep_view(),
                filler == default_cell(column.deep_view()),
                self.columns == old(self).columns,
                self.row_count == old(self).row_count,
                self.rows.len() == before.len(),
                r <= self.rows.len(),
                forall|i: int| 0 <= i < r ==> self.rows.deep_view()[i] == before[i].push(filler),
                forall|i: int| r <= i < before.len() ==> self.rows.deep_view()[i] == before[i],
            decreases self.rows.len() - r,
        {
            let cell = match column.data_type {
                DataType::INT => Cell::INT(0, column.size, column.nullable),
                DataType::STRING => Cell::STRING(String::new(), column.size, column.nullable),
            };
            let ghost row_before = self.rows@[r as int].deep_view();
            let ghost rows_before = self.rows.deep_view();
            assert(rows_before[r as int] == before[r as int]);
            self.rows[r].push(cell);
            assert(self.rows@[r as int].deep_view() =~= row_before.push(filler));
            assert forall|i: int| 0 <= i < before.len() implies self.rows.deep_view()[i] == (if i
                <= r {
                before[i].push(filler)
            } else {
                before[i]
            }) by {
                if i != r {
                    assert(self.rows.deep_view()[i] == rows_before[i]);
                }
            }
            r += 1;
        }
        assert(self.rows.deep_view() =~= backfilled(
            old(self).deep_view(),
            column.deep_view(),
        ).rows);
    }

    /// The position of the first column called `name`, or the number of columns.
    pub fn column_position(&self, name: &String) -> (i: usize)
        ensures
            i == column_index(self.columns.deep_view(), name@),
            i <= self.columns.len(),
            i < self.columns.len() ==> self.columns@[i as int].name@ == name@,
    {
        let ghost names = column_names(self.columns.deep_view());
        let mut i: usize = 0;
        while i < self.columns.len()
            invariant
                i <= self.columns.len(),
                names == column_names(self.columns.deep_view()),
                position(names, name@, 0) == position(names, name@, i as int),
            decreases self.columns.len() - i,
        {
            if self.columns[i].name == *name {
                return i;
            }
            i += 1;
        }
        i
    }

    /// The first column called `name`, if there is one.
    pub fn find_column(&self, name: String) -> (r: Option<&Column>)
        ensures
            r is Some <==> has_column(self.deep_view().columns, name@),
            r matches Some(column) ==> column.deep_view() == self.deep_view().columns[column_index(
                self.deep_view().columns,
                name@,
            )],
    {
        let i = self.column_position(&name);
        if i < self.columns.len() {
            Some(&self.columns[i])
        } else {
            None
        }
    }
}

} // verus!
