use vstd::prelude::*;
use vstd::string::*;
use crate::database::Database;
use crate::numeric::{decimal_i32, parse_i32};
use crate::storage::{has_column, with_row, Cell, CellView, Table, TableView};
use crate::syntax::{Column, ColumnView, DataType, SqlError};

verus! {

/// The first `size` characters of `value`, or all of it where it has no more.
pub open spec fn clipped(value: Seq<char>, size: u32) -> Seq<char> {
    if value.len() > size {
        value.subrange(0, size as int)
    } else {
        value
    }
}

/// The cell that `value` makes in `column`: the number it denotes in an integer column,
/// where it denotes one; its text, cut to the column's size, in a text column.
pub open spec fn cell_for(column: ColumnView, value: Seq<char>) -> Option<CellView> {
    match column.data_type {
        DataType::INT => match decimal_i32(value) {
            Some(number) => Some(CellView::INT(number, column.size, column.nullable)),
            None => None,
        },
        DataType::STRING => Some(
            CellView::STRING(clipped(value, column.size), column.size, column.nullable),
        ),
    }
}

/// `acc` with one cell of `column` for each place from `i` on at which `names` holds the
/// column's name, made from the value at that place.
pub open spec fn column_cells(
    column: ColumnView,
    names: Seq<Seq<char>>,
    values: Seq<Seq<char>>,
    i: int,
    acc: Seq<CellView>,
) -> Option<Seq<CellView>>
    decreases names.len() - i,
{
    if i < 0 || i >= names.len() {
        Some(acc)
    } else if names[i] == column.name {
        match cell_for(column, values[i]) {
            None => None,
            Some(cell) => column_cells(column, names, values, i + 1, acc.push(cell)),
        }
    } else {
        column_cells(column, names, values, i + 1, acc)
    }
}

/// `acc` with the cells of the columns from `k` on, column by column in table order.
pub open spec fn row_cells(
    columns: Seq<ColumnView>,
    names: Seq<Seq<char>>,
    values: Seq<Seq<char>>,
    k: int,
    acc: Seq<CellView>,
) -> Option<Seq<CellView>>
    decreases columns.len() - k,
{
    if k < 0 || k >= columns.len() {
        Some(acc)
    } else {
        match column_cells(columns[k], names, values, 0, acc) {
            None => None,
            Some(next) => row_cells(columns, names, values, k + 1, next),
        }
    }
}

/// Whether one of `names` is no column of the table.
pub open spec fn names_unknown(columns: Seq<ColumnView>, names: Seq<Seq<char>>) -> bool {
    exists|i: int| 0 <= i < names.len() && !has_column(columns, #[trigger] names[i])
}

/// The row that an insert of `values` under `names` makes in `table`, or why there is
/// none: a name that is no column, a value that is missing, or one that is no number
/// where the column holds numbers.
pub open spec fn new_row(table: TableView, names: Seq<Seq<char>>, values: Seq<Seq<char>>) -> Result<
    Seq<CellView>,
    SqlError,
> {
    if names_unknown(table.columns, names) {
        Err(SqlError::ColumnNotFound)
    } else if values.len() < names.len() {
        Err(SqlError::ValueParseError)
    } else {
        match row_cells(table.columns, names, values, 0, Seq::empty()) {
            Some(row) => Ok(row),
            None => Err(SqlError::ValueParseError),
        }
    }
}

/// The database after an insert into the table `name`, or why it is rejected.
pub open spec fn after_insert(
    db: Map<Seq<char>, TableView>,
    name: Seq<char>,
    names: Seq<Seq<char>>,
    values: Seq<Seq<char>>,
) -> Result<Map<Seq<char>, TableView>, SqlError> {
    if !db.contains_key(name) {
        Err(SqlError::TableNotFound)
    } else {
        match new_row(db[name], names, values) {
            Err(e) => Err(e),
            Ok(row) => Ok(db.insert(name, with_row(db[name], row))),
        }
    }
}

/// Makes the cell that `value` gives in `column`.
pub fn make_cell(column: &Column, value: &String) -> (r: Option<Cell>)
    ensures
        match r {
            Some(cell) => cell_for(column.deep_view(), value@) == Some(cell.deep_view()),
            None => cell_for(column.deep_view(), value@) is None,
        },
{
    match column.data_type {
        DataType::INT => match parse_i32(value.as_str()) {
            Some(number) => Some(Cell::INT(number, column.size, column.nullable)),
            None => None,
        },
        DataType::STRING => {
            let text = if value.as_str().unicode_len() > column.size as usize {
                String::from_str(value.as_str().substring_char(0, column.size as usize))
            } else {
                value.clone()
            };
            Some(Cell::STRING(text, column.size, column.nullable))
        },
    }
}

impl Table {
    /// Builds the row that an insert of `values` under the column names `columns` makes.
    pub fn build_row(&self, columns: &Vec<String>, values: &Vec<String>) -> (r: Result<
        Vec<Cell>,
        SqlError,
    >)
        ensures
            match r {
                Ok(row) => new_row(self.deep_view(), columns.deep_view(), values.deep_view())
                    == Ok::<Seq<CellView>, SqlError>(row.deep_view()),
                Err(e) => new_row(self.deep_view(), columns.deep_view(), values.deep_view())
                    == Err::<Seq<CellView>, SqlError>(e),
            },
    {
        let ghost cols = self.columns.deep_view();
        let ghost names = columns.deep_view();
        let ghost vals = values.deep_view();
        let mut i: usize = 0;
        while i < columns.len()
            invariant
                cols == self.columns.deep_view(),
                names == columns.deep_view(),
                i <= columns.len(),
                forall|j: int| 0 <= j < i ==> has_column(cols, #[trigger] names[j]),
            decreases columns.len() - i,
        {
            if self.column_position(&columns[i]) >= self.columns.len() {
                assert(!has_column(cols, names[i as int]));
                return Err(SqlError::ColumnNotFound);
            }
            i += 1;
        }
        assert(!names_unknown(cols, names));
        if values.len() < columns.len() {
            return Err(SqlError::ValueParseError);
        }
        let mut row: Vec<Cell> = Vec::new();
        assert(row.deep_view() =~= Seq::empty());
        let mut k: usize = 0;
        while k < self.columns.len()
            invariant
                cols == self.columns.deep_view(),
                names == columns.deep_view(),
                vals == values.deep_view(),
                values.len() >= columns.len(),
                !names_unknown(cols, names),
                k <= self.columns.len(),
                row_cells(cols, names, vals, 0, Seq::empty()) == row_cells(
                    cols,
                    names,
                    vals,
                    k as int,
                    row.deep_view(),
                ),
            decreases self.columns.len() - k,
        {
            let ghost start = row.deep_view();
            let mut i: usize = 0;
            while i < columns.len()
                invariant
                    cols == self.columns.deep_view(),
                    names == columns.deep_view(),
                    vals == values.deep_view(),
                    values.len() >= columns.len(),
                    !names_unknown(cols, names),
                    k < self.columns.len(),
                    i <= columns.len(),
                    row_cells(cols, names, vals, 0, Seq::empty()) == row_cells(
                        cols,
                        names,
                        vals,
                        k as int,
                        start,
                    ),
                    column_cells(cols[k as int], names, vals, 0, start) == column_cells(
                        cols[k as int],
                        names,
                        vals,
                        i as int,
                        row.deep_view(),
                    ),
                decreases columns.len() - i,
            {
                if columns[i] == self.columns[k].name {
                    match make_cell(&self.columns[k], &values[i]) {
                        None => {
                            return Err(SqlError::ValueParseError);
                        },
                        Some(cell) => {
                            let ghost seen = row.deep_view();
                            row.push(cell);
                            assert(row.deep_view() =~= seen.push(cell.deep_view()));
                        },
                    }
                }
                i += 1;
            }
            k += 1;
        }
        Ok(row)
    }
}

impl Database {
    /// Appends to the table `name` the row that `values` make under the column names
    /// `columns`.
    pub fn insert_into_table(&mut self, name: String, columns: Vec<String>, values: Vec<String>) -> (r:
        Result<(), SqlError>)
        requires
            old(self).wf(),
        ensures
            final(self).wf(),
            match r {
                Ok(()) => after_insert(
                    old(self).deep_view(),
                    name@,
                    columns.deep_view(),
                    values.deep_view(),
                ) == Ok::<Map<Seq<char>, TableView>, SqlError>(final(self).deep_view()),
                Err(e) => after_insert(
                    old(self).deep_view(),
                    name@,
                    columns.deep_view(),
                    values.deep_view(),
                ) == Err::<Map<Seq<char>, TableView>, SqlError>(e) && final(self).deep_view() == old(
                    self,
                ).deep_view(),
            },
    {
        let i = self.find(&name);
        if i >= self.names.len() {
            return Err(SqlError::TableNotFound);
        }
        match self.tables[i].build_row(&columns, &values) {
            Err(e) => Err(e),
            Ok(row) => {
                self.tables[i].insert_row(row);
                proof {
                    let fresh = row.deep_view();
                    old(self).lemma_mapped(
                        self,
                        |n: Seq<char>, t: TableView|
                            if n == name@ {
                                with_row(t, fresh)
                            } else {
                                t
                            },
                    );
                    assert(self.deep_view() =~= old(self).deep_view().insert(
                        name@,
                        with_row(old(self).deep_view()[name@], fresh),
                    ));
                }
                Ok(())
            },
        }
    }
}

} // verus!
