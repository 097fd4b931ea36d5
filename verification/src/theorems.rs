use vstd::prelude::*;
use crate::database::widened;
use crate::executor::{columns_added, executed};
use crate::grammar::{
    column_at, column_list, opens_statement, script, skip_blank, statement_at, statements_end,
    step, word_list,
};
use crate::insert::{after_insert, cell_for, column_cells, names_unknown, new_row, row_cells};
use crate::lexer::{is_delimiter, scan, token_texts};
use crate::listing::{is_listing, SummaryView};
use crate::numeric::decimal_i32;
use crate::select::{first_seen, seen_before, select_result, SelectionView};
use crate::storage::{
    backfilled, cell_fits, default_cell, empty_table, rectangular, row_equal, truncated,
    with_column, with_row, CellView, TableView,
};
use crate::syntax::{ColumnView, DataType, SqlError, StatementView};

verus! {

/// A text without characters has no tokens.
pub proof fn theorem_empty_text_has_no_token()
    ensures
        token_texts(Seq::<char>::empty()) == Seq::<Seq<char>>::empty(),
{
}

/// Tokens that are none, or whose first opens no statement, parse to the empty chain,
/// and the cursor stays on the first of them.
pub proof fn theorem_no_statement(t: Seq<Seq<char>>)
    requires
        t.len() == 0 || !opens_statement(t[0]),
    ensures
        script(t) == Some(Seq::<StatementView>::empty()),
        statements_end(t, 0) == 0,
{
}

/// A column for which the value at `at` makes no cell makes no cells at all.
pub proof fn lemma_column_cells_rejects(
    column: ColumnView,
    names: Seq<Seq<char>>,
    values: Seq<Seq<char>>,
    from: int,
    at: int,
    acc: Seq<CellView>,
)
    requires
        0 <= from <= at < names.len(),
        names[at] == column.name,
        cell_for(column, values[at]) is None,
    ensures
        column_cells(column, names, values, from, acc) is None,
    decreases at - from,
{
    if from < at {
        if names[from] == column.name {
            match cell_for(column, values[from]) {
                None => {},
                Some(cell) => {
                    lemma_column_cells_rejects(column, names, values, from + 1, at, acc.push(cell));
                },
            }
        } else {
            lemma_column_cells_rejects(column, names, values, from + 1, at, acc);
        }
    }
}

/// Columns of which the one at `k` makes no cell of the value at `at` make no row.
pub proof fn lemma_row_cells_rejects(
    columns: Seq<ColumnView>,
    names: Seq<Seq<char>>,
    values: Seq<Seq<char>>,
    from: int,
    k: int,
    at: int,
    acc: Seq<CellView>,
)
    requires
        0 <= from <= k < columns.len(),
        0 <= at < names.len(),
        names[at] == columns[k].name,
        cell_for(columns[k], values[at]) is None,
    ensures
        row_cells(columns, names, values, from, acc) is None,
    decreases k - from,
{
    if from < k {
        match column_cells(columns[from], names, values, 0, acc) {
            None => {},
            Some(next) => {
                lemma_row_cells_rejects(columns, names, values, from + 1, k, at, next);
            },
        }
    } else {
        lemma_column_cells_rejects(columns[k], names, values, 0, at, acc);
    }
}

/// An insert that gives an integer column a value that is no number is rejected. Where
/// every name in the insert is a column of the table, the error is `ValueParseError`.
pub proof fn theorem_insert_rejects_non_number(
    db: Map<Seq<char>, TableView>,
    name: Seq<char>,
    names: Seq<Seq<char>>,
    values: Seq<Seq<char>>,
    k: int,
    at: int,
)
    requires
        db.contains_key(name),
        0 <= k < db[name].columns.len(),
        db[name].columns[k].data_type == DataType::INT,
        0 <= at < names.len(),
        names[at] == db[name].columns[k].name,
        decimal_i32(values[at]) is None,
    ensures
        after_insert(db, name, names, values) is Err,
        !names_unknown(db[name].columns, names) ==> after_insert(db, name, names, values) == Err::<
            Map<Seq<char>, TableView>,
            SqlError,
        >(SqlError::ValueParseError),
{
    lemma_row_cells_rejects(db[name].columns, names, values, 0, k, at, Seq::empty());
}

/// Whether no row equals a later one.
pub open spec fn pairwise_unequal(rows: Seq<Seq<CellView>>) -> bool {
    forall|i: int, j: int| 0 <= i < j < rows.len() ==> !row_equal(rows[i], rows[j])
}

/// Whether `a` stands before `b` among `rows[k..]`.
pub open spec fn in_order(rows: Seq<Seq<CellView>>, k: int, a: Seq<CellView>, b: Seq<CellView>) -> bool {
    exists|m1: int, m2: int|
        k <= m1 < m2 < rows.len() && a == #[trigger] rows[m1] && b == #[trigger] rows[m2]
}

/// What `first_seen` keeps, beyond `acc`: rows of the input in the order of the input,
/// none equal to another, and for every row of the input one that equals it.
pub proof fn lemma_first_seen(rows: Seq<Seq<CellView>>, k: int, acc: Seq<Seq<CellView>>)
    requires
        0 <= k <= rows.len(),
        pairwise_unequal(acc),
    ensures
        pairwise_unequal(first_seen(rows, k, acc)),
        acc.len() <= first_seen(rows, k, acc).len(),
        forall|j: int| 0 <= j < acc.len() ==> first_seen(rows, k, acc)[j] == #[trigger] acc[j],
        forall|m: int| k <= m < rows.len() ==> seen_before(first_seen(rows, k, acc), #[trigger] rows[m]),
        forall|j: int|
            acc.len() <= j < first_seen(rows, k, acc).len() ==> exists|m: int|
                k <= m < rows.len() && #[trigger] first_seen(rows, k, acc)[j] == rows[m],
        forall|i: int, j: int|
            acc.len() <= i < j < first_seen(rows, k, acc).len() ==> in_order(
                rows,
                k,
                #[trigger] first_seen(rows, k, acc)[i],
                #[trigger] first_seen(rows, k, acc)[j],
            ),
    decreases rows.len() - k,
{
    if k < rows.len() {
        let out = first_seen(rows, k, acc);
        if seen_before(acc, rows[k]) {
            lemma_first_seen(rows, k + 1, acc);
            let j = choose|j: int| 0 <= j < acc.len() && row_equal(#[trigger] acc[j], rows[k]);
            assert(row_equal(out[j], rows[k]));
            assert forall|i: int, j: int| acc.len() <= i < j < out.len() implies in_order(
                rows,
                k,
                #[trigger] out[i],
                #[trigger] out[j],
            ) by {
                assert(in_order(rows, k + 1, out[i], out[j]));
            }
        } else {
            let next = acc.push(rows[k]);
            assert forall|i: int, j: int| 0 <= i < j < next.len() implies !row_equal(
                next[i],
                next[j],
            ) by {
                if j == acc.len() {
                    assert(!row_equal(acc[i], rows[k]));
                }
            }
            lemma_first_seen(rows, k + 1, next);
            assert forall|j: int| 0 <= j < acc.len() implies out[j] == #[trigger] acc[j] by {
                assert(next[j] == acc[j]);
            }
            assert(out[acc.len() as int] == next[acc.len() as int]);
            assert(row_equal(rows[k], rows[k]));
            assert(row_equal(out[acc.len() as int], rows[k]));
            assert forall|j: int| acc.len() <= j < out.len() implies exists|m: int|
                k <= m < rows.len() && #[trigger] out[j] == rows[m] by {
                if j == acc.len() {
                    assert(out[j] == rows[k]);
                }
            }
            assert forall|i: int, j: int| acc.len() <= i < j < out.len() implies in_order(
                rows,
                k,
                #[trigger] out[i],
                #[trigger] out[j],
            ) by {
                if i == acc.len() {
                    let m = choose|m: int| k + 1 <= m < rows.len() && out[j] == rows[m];
                    assert(out[i] == rows[k] && out[j] == rows[m]);
                } else {
                    assert(in_order(rows, k + 1, out[i], out[j]));
                }
            }
        }
    }
}

/// The rows of a `DISTINCT` query: they stand among the projected rows and in their
/// order, no two of them are equal, and every projected row equals one of them. So of
/// two equal rows only one is handed out.
pub proof fn theorem_distinct_rows(rows: Seq<Seq<CellView>>)
    ensures
        pairwise_unequal(first_seen(rows, 0, Seq::empty())),
        forall|m: int|
            0 <= m < rows.len() ==> seen_before(first_seen(rows, 0, Seq::empty()), #[trigger] rows[m]),
        forall|j: int|
            0 <= j < first_seen(rows, 0, Seq::empty()).len() ==> exists|m: int|
                0 <= m < rows.len() && #[trigger] first_seen(rows, 0, Seq::empty())[j] == rows[m],
        rows.len() > 0 ==> first_seen(rows, 0, Seq::empty())[0] == rows[0],
        forall|i: int, j: int|
            0 <= i < j < first_seen(rows, 0, Seq::empty()).len() ==> in_order(
                rows,
                0,
                #[trigger] first_seen(rows, 0, Seq::empty())[i],
                #[trigger] first_seen(rows, 0, Seq::empty())[j],
            ),
{
    lemma_first_seen(rows, 0, Seq::empty());
    if rows.len() > 0 {
        let first = Seq::<Seq<CellView>>::empty().push(rows[0]);
        assert(!seen_before(Seq::empty(), rows[0]));
        lemma_first_seen(rows, 1, first);
        assert(first[0] == rows[0]);
    }
}

/// Adding a column to any table puts one more cell, the column's default, at the end of
/// every row of every table; the default is zero, or the empty text.
pub proof fn theorem_widened_rows(
    db: Map<Seq<char>, TableView>,
    name: Seq<char>,
    column: ColumnView,
    other: Seq<char>,
    r: int,
)
    requires
        db.contains_key(other),
        0 <= r < db[other].rows.len(),
    ensures
        widened(db, name, column).contains_key(other),
        widened(db, name, column)[other].rows.len() == db[other].rows.len(),
        widened(db, name, column)[other].rows[r] == db[other].rows[r].push(default_cell(column)),
        widened(db, name, column)[other].rows[r].len() == db[other].rows[r].len() + 1,
        match column.data_type {
            DataType::INT => default_cell(column) matches CellView::INT(0, _, _),
            DataType::STRING => default_cell(column) matches CellView::STRING(text, _, _)
                && text.len() == 0,
        },
{
}

/// After a table was dropped, a query on it, an insert into it and a truncation of it
/// fail because there is no such table, and no listing names it.
pub proof fn theorem_dropped_table_is_unknown(
    db: Map<Seq<char>, TableView>,
    table: Seq<char>,
    distinct: bool,
    columns: Seq<Seq<char>>,
    values: Seq<Seq<char>>,
    lines: Seq<SummaryView>,
)
    requires
        db.contains_key(table),
    ensures
        executed(db, StatementView::Drop { table }) == Ok::<Map<Seq<char>, TableView>, SqlError>(
            db.remove(table),
        ),
        select_result(db.remove(table), table, distinct, columns) == Err::<SelectionView, SqlError>(
            SqlError::TableNotFound,
        ),
        after_insert(db.remove(table), table, columns, values) == Err::<
            Map<Seq<char>, TableView>,
            SqlError,
        >(SqlError::TableNotFound),
        executed(db.remove(table), StatementView::Truncate { table }) == Err::<
            Map<Seq<char>, TableView>,
            SqlError,
        >(SqlError::TableNotFound),
        executed(db.remove(table), StatementView::Drop { table }) == Err::<
            Map<Seq<char>, TableView>,
            SqlError,
        >(SqlError::TableNotFound),
        is_listing(db.remove(table), lines) ==> forall|i: int|
            0 <= i < lines.len() ==> (#[trigger] lines[i]).name != table,
{
}

/// How often `name` stands in `names` from `i` on.
pub open spec fn occurrences(names: Seq<Seq<char>>, name: Seq<char>, i: int) -> nat
    decreases names.len() - i,
{
    if i < 0 || i >= names.len() {
        0
    } else if names[i] == name {
        1 + occurrences(names, name, i + 1)
    } else {
        occurrences(names, name, i + 1)
    }
}

/// Whether `names` holds the name of every column exactly once.
pub open spec fn names_each_column_once(columns: Seq<ColumnView>, names: Seq<Seq<char>>) -> bool {
    forall|k: int| 0 <= k < columns.len() ==> occurrences(names, (#[trigger] columns[k]).name, 0) == 1
}

/// Whether every cell that stands under a column holds the kind of value that the
/// column declares.
pub open spec fn typed(table: TableView) -> bool {
    forall|r: int, i: int|
        0 <= r < table.rows.len() && 0 <= i < table.rows[r].len() && i < table.columns.len()
            ==> cell_fits(#[trigger] table.rows[r][i], table.columns[i])
}

/// Whether the rows of a table are as wide as its column list and hold in every cell
/// the kind of value that the cell's column declares.
pub open spec fn sound(table: TableView) -> bool {
    rectangular(table) && typed(table)
}

/// A column makes as many cells as `names` holds its name, each of its own kind, behind
/// those that were there.
pub proof fn lemma_column_cells(
    column: ColumnView,
    names: Seq<Seq<char>>,
    values: Seq<Seq<char>>,
    i: int,
    acc: Seq<CellView>,
)
    requires
        0 <= i <= names.len(),
    ensures
        column_cells(column, names, values, i, acc) matches Some(cells) ==> {
            &&& cells.len() == acc.len() + occurrences(names, column.name, i)
            &&& forall|j: int| 0 <= j < acc.len() ==> cells[j] == #[trigger] acc[j]
            &&& forall|j: int| acc.len() <= j < cells.len() ==> cell_fits(#[trigger] cells[j], column)
        },
    decreases names.len() - i,
{
    if i < names.len() {
        if names[i] == column.name {
            match cell_for(column, values[i]) {
                None => {},
                Some(cell) => {
                    let next = acc.push(cell);
                    lemma_column_cells(column, names, values, i + 1, next);
                    match column_cells(column, names, values, i + 1, next) {
                        None => {},
                        Some(cells) => {
                            assert forall|j: int| 0 <= j < acc.len() implies cells[j]
                                == #[trigger] acc[j] by {
                                assert(next[j] == acc[j]);
                            }
                            assert(cells[acc.len() as int] == next[acc.len() as int]);
                        },
                    }
                },
            }
        } else {
            lemma_column_cells(column, names, values, i + 1, acc);
        }
    }
}

/// Columns that `names` each holds once make one cell each, of the column's kind, behind
/// those that were there.
pub proof fn lemma_row_cells(
    columns: Seq<ColumnView>,
    names: Seq<Seq<char>>,
    values: Seq<Seq<char>>,
    k: int,
    acc: Seq<CellView>,
)
    requires
        0 <= k <= columns.len(),
        acc.len() == k,
        names_each_column_once(columns, names),
        forall|j: int| 0 <= j < k ==> cell_fits(#[trigger] acc[j], columns[j]),
    ensures
        row_cells(columns, names, values, k, acc) matches Some(cells) ==> {
            &&& cells.len() == columns.len()
            &&& forall|j: int| 0 <= j < cells.len() ==> cell_fits(#[trigger] cells[j], columns[j])
        },
    decreases columns.len() - k,
{
    if k < columns.len() {
        lemma_column_cells(columns[k], names, values, 0, acc);
        match column_cells(columns[k], names, values, 0, acc) {
            None => {},
            Some(next) => {
                assert(occurrences(names, columns[k].name, 0) == 1);
                assert forall|j: int| 0 <= j < k + 1 implies cell_fits(
                    #[trigger] next[j],
                    columns[j],
                ) by {
                    if j < k {
                        assert(next[j] == acc[j]);
                    }
                }
                lemma_row_cells(columns, names, values, k + 1, next);
            },
        }
    }
}

/// Whether every value that stands under the name of an integer column denotes a number.
pub open spec fn numbers_readable(
    columns: Seq<ColumnView>,
    names: Seq<Seq<char>>,
    values: Seq<Seq<char>>,
) -> bool {
    forall|k: int, i: int|
        0 <= k < columns.len() && 0 <= i < names.len() && names[i] == (#[trigger] columns[k]).name
            && columns[k].data_type == DataType::INT ==> decimal_i32(#[trigger] values[i]) is Some
}

/// A column makes its cells where every value under its name can be read.
pub proof fn lemma_column_cells_accepts(
    columns: Seq<ColumnView>,
    k: int,
    names: Seq<Seq<char>>,
    values: Seq<Seq<char>>,
    i: int,
    acc: Seq<CellView>,
)
    requires
        0 <= k < columns.len(),
        0 <= i <= names.len(),
        numbers_readable(columns, names, values),
    ensures
        column_cells(columns[k], names, values, i, acc) is Some,
    decreases names.len() - i,
{
    if i < names.len() {
        if names[i] == columns[k].name {
            if columns[k].data_type == DataType::INT {
                assert(decimal_i32(values[i]) is Some);
            }
            lemma_column_cells_accepts(
                columns,
                k,
                names,
                values,
                i + 1,
                acc.push(cell_for(columns[k], values[i])->Some_0),
            );
        } else {
            lemma_column_cells_accepts(columns, k, names, values, i + 1, acc);
        }
    }
}

/// The columns make a row where every value under the name of an integer column can be
/// read.
pub proof fn lemma_row_cells_accepts(
    columns: Seq<ColumnView>,
    names: Seq<Seq<char>>,
    values: Seq<Seq<char>>,
    k: int,
    acc: Seq<CellView>,
)
    requires
        0 <= k <= columns.len(),
        numbers_readable(columns, names, values),
    ensures
        row_cells(columns, names, values, k, acc) is Some,
    decreases columns.len() - k,
{
    if k < columns.len() {
        lemma_column_cells_accepts(columns, k, names, values, 0, acc);
        lemma_row_cells_accepts(
            columns,
            names,
            values,
            k + 1,
            column_cells(columns[k], names, values, 0, acc)->Some_0,
        );
    }
}

/// An insert succeeds where the table exists, every name is one of its columns, no
/// value is missing, and every value for an integer column denotes a number.
pub proof fn theorem_insert_accepts(
    db: Map<Seq<char>, TableView>,
    name: Seq<char>,
    names: Seq<Seq<char>>,
    values: Seq<Seq<char>>,
)
    requires
        db.contains_key(name),
        !names_unknown(db[name].columns, names),
        values.len() >= names.len(),
        numbers_readable(db[name].columns, names, values),
    ensures
        new_row(db[name], names, values) is Ok,
        after_insert(db, name, names, values) is Ok,
{
    lemma_row_cells_accepts(db[name].columns, names, values, 0, Seq::empty());
}

/// A new table and a truncated one have rows as wide as their column list. An insert
/// that names every column exactly once makes a row as wide as the column list, with a
/// cell of each column's kind under it; so it keeps the rows as wide as the column list,
/// and keeps a sound table sound.
pub proof fn theorem_rows_as_wide_as_columns(
    table: TableView,
    names: Seq<Seq<char>>,
    values: Seq<Seq<char>>,
)
    ensures
        sound(empty_table()),
        sound(truncated(table)),
        names_each_column_once(table.columns, names) ==> (new_row(table, names, values) matches Ok(
            row,
        ) ==> {
            &&& row.len() == table.columns.len()
            &&& forall|i: int| 0 <= i < row.len() ==> cell_fits(#[trigger] row[i], table.columns[i])
            &&& rectangular(table) ==> rectangular(with_row(table, row))
            &&& sound(table) ==> sound(with_row(table, row))
        }),
{
    if names_each_column_once(table.columns, names) {
        lemma_row_cells(table.columns, names, values, 0, Seq::empty());
        match new_row(table, names, values) {
            Err(_) => {},
            Ok(row) => {
                let grown = with_row(table, row);
                if rectangular(table) {
                    assert forall|r: int| 0 <= r < grown.rows.len() implies (
                    #[trigger] grown.rows[r]).len() == grown.columns.len() by {
                        if r < table.rows.len() {
                            assert(grown.rows[r] == table.rows[r]);
                        }
                    }
                }
                if sound(table) {
                    assert forall|r: int, i: int|
                        0 <= r < grown.rows.len() && 0 <= i < grown.rows[r].len() && i
                            < grown.columns.len() implies cell_fits(
                        #[trigger] grown.rows[r][i],
                        grown.columns[i],
                    ) by {
                        if r < table.rows.len() {
                            assert(grown.rows[r][i] == table.rows[r][i]);
                        } else {
                            assert(grown.rows[r][i] == row[i]);
                        }
                    }
                }
            },
        }
    }
}

/// The table that gets a new column stays sound: the column's default cell stands under
/// the column in every row.
pub proof fn theorem_new_column_keeps_table_sound(table: TableView, column: ColumnView)
    requires
        sound(table),
    ensures
        sound(backfilled(with_column(table, column), column)),
{
    let grown = backfilled(with_column(table, column), column);
    assert forall|r: int, i: int|
        0 <= r < grown.rows.len() && 0 <= i < grown.rows[r].len() && i
            < grown.columns.len() implies cell_fits(#[trigger] grown.rows[r][i], grown.columns[i]) by {
        if i < table.columns.len() {
            assert(grown.rows[r][i] == table.rows[r][i]);
        }
    }
}

/// Whether every table is sound.
pub open spec fn all_sound(db: Map<Seq<char>, TableView>) -> bool {
    forall|n: Seq<char>| db.contains_key(n) ==> sound(#[trigger] db[n])
}

/// Whether no table but `name` has a row.
pub open spec fn others_empty(db: Map<Seq<char>, TableView>, name: Seq<char>) -> bool {
    forall|n: Seq<char>| db.contains_key(n) && n != name ==> (#[trigger] db[n]).rows.len() == 0
}

/// Adding columns to a table keeps every table sound where no other table has a row.
pub proof fn lemma_columns_added_sound(
    db: Map<Seq<char>, TableView>,
    name: Seq<char>,
    columns: Seq<ColumnView>,
    k: int,
)
    requires
        0 <= k <= columns.len(),
        all_sound(db),
        others_empty(db, name),
    ensures
        all_sound(columns_added(db, name, columns, k)),
    decreases columns.len() - k,
{
    if k < columns.len() {
        let next = widened(db, name, columns[k]);
        assert forall|n: Seq<char>| next.contains_key(n) implies sound(#[trigger] next[n]) by {
            assert(sound(db[n]));
            if n == name {
                theorem_new_column_keeps_table_sound(db[n], columns[k]);
            } else {
                assert(db[n].rows.len() == 0);
            }
        }
        assert forall|n: Seq<char>| next.contains_key(n) && n != name implies (#[trigger] next[n]).rows.len()
            == 0 by {
            assert(db[n].rows.len() == 0);
        }
        lemma_columns_added_sound(next, name, columns, k + 1);
    }
}

/// Whether a statement is one of those that can leave a row narrower or wider than its
/// table's column list: an insert that does not name every column exactly once, or new
/// columns for one table while another has rows.
pub open spec fn may_bend_rows(db: Map<Seq<char>, TableView>, statement: StatementView) -> bool {
    match statement {
        StatementView::Insert { table, columns, values } => db.contains_key(table)
            && !names_each_column_once(db[table].columns, columns),
        StatementView::Create { table, columns_to_add } => columns_to_add.len() > 0
            && !others_empty(db, table),
        StatementView::Alter { table, columns_to_add } => columns_to_add.len() > 0
            && !others_empty(db, table),
        _ => false,
    }
}

/// Every statement but those that `may_bend_rows` names keeps every table sound: its
/// rows as wide as its column list, each cell of its column's kind.
pub proof fn theorem_statement_keeps_tables_sound(
    db: Map<Seq<char>, TableView>,
    statement: StatementView,
)
    requires
        all_sound(db),
        !may_bend_rows(db, statement),
    ensures
        executed(db, statement) matches Ok(after) ==> all_sound(after),
{
    match statement {
        StatementView::Create { table, columns_to_add } => {
            if !db.contains_key(table) {
                let fresh = db.insert(table, empty_table());
                assert forall|n: Seq<char>| fresh.contains_key(n) implies sound(
                    #[trigger] fresh[n],
                ) by {
                    if n != table {
                        assert(sound(db[n]));
                    }
                }
                if columns_to_add.len() > 0 {
                    assert forall|n: Seq<char>| fresh.contains_key(n) && n != table implies (
                    #[trigger] fresh[n]).rows.len() == 0 by {
                        assert(db[n].rows.len() == 0);
                    }
                    lemma_columns_added_sound(fresh, table, columns_to_add, 0);
                }
            }
        },
        StatementView::Alter { table, columns_to_add } => {
            if columns_to_add.len() > 0 {
                lemma_columns_added_sound(db, table, columns_to_add, 0);
            }
        },
        StatementView::Insert { table, columns, values } => {
            if db.contains_key(table) {
                theorem_rows_as_wide_as_columns(db[table], columns, values);
                match executed(db, statement) {
                    Err(_) => {},
                    Ok(after) => {
                        assert forall|n: Seq<char>| after.contains_key(n) implies sound(
                            #[trigger] after[n],
                        ) by {
                            if n != table {
                                assert(sound(db[n]));
                            }
                        }
                    },
                }
            }
        },
        StatementView::Drop { table } => {
            assert forall|n: Seq<char>| db.remove(table).contains_key(n) implies sound(
                #[trigger] db.remove(table)[n],
            ) by {
                assert(sound(db[n]));
            }
        },
        StatementView::Truncate { table } => {
            if db.contains_key(table) {
                let after = db.insert(table, truncated(db[table]));
                assert forall|n: Seq<char>| after.contains_key(n) implies sound(
                    #[trigger] after[n],
                ) by {
                    if n != table {
                        assert(sound(db[n]));
                    }
                }
            }
        },
        _ => {},
    }
}

/// The database after the statements `statements[k..]`, run in order on `db`; `None`
/// where one of them is rejected.
pub open spec fn after_all(
    db: Map<Seq<char>, TableView>,
    statements: Seq<StatementView>,
    k: int,
) -> Option<Map<Seq<char>, TableView>>
    decreases statements.len() - k,
{
    if k < 0 || k >= statements.len() {
        Some(db)
    } else {
        match executed(db, statements[k]) {
            Err(_) => None,
            Ok(next) => after_all(next, statements, k + 1),
        }
    }
}

/// Whether none of `statements[k..]`, run in order on `db`, is one that `may_bend_rows`
/// names on the database it meets.
pub open spec fn never_bends(
    db: Map<Seq<char>, TableView>,
    statements: Seq<StatementView>,
    k: int,
) -> bool
    decreases statements.len() - k,
{
    if k < 0 || k >= statements.len() {
        true
    } else {
        !may_bend_rows(db, statements[k]) && match executed(db, statements[k]) {
            Err(_) => true,
            Ok(next) => never_bends(next, statements, k + 1),
        }
    }
}

/// Statements of which none bends rows keep every table sound, however many they are.
pub proof fn lemma_history_keeps_tables_sound(
    db: Map<Seq<char>, TableView>,
    statements: Seq<StatementView>,
    k: int,
)
    requires
        0 <= k <= statements.len(),
        all_sound(db),
        never_bends(db, statements, k),
    ensures
        after_all(db, statements, k) matches Some(end) ==> all_sound(end),
    decreases statements.len() - k,
{
    if k < statements.len() {
        theorem_statement_keeps_tables_sound(db, statements[k]);
        match executed(db, statements[k]) {
            Err(_) => {},
            Ok(next) => {
                lemma_history_keeps_tables_sound(next, statements, k + 1);
            },
        }
    }
}

/// At all times of a run that begins without tables and holds no statement that bends
/// rows, every row of every table is as wide as the table's column list, and every cell
/// is of its column's kind.
pub proof fn theorem_run_keeps_tables_sound(statements: Seq<StatementView>, upto: int)
    requires
        0 <= upto <= statements.len(),
        never_bends(Map::empty(), statements.subrange(0, upto), 0),
    ensures
        after_all(Map::empty(), statements.subrange(0, upto), 0) matches Some(db) ==> all_sound(db),
{
    lemma_history_keeps_tables_sound(Map::empty(), statements.subrange(0, upto), 0);
}

/// Whether a token is a word: at least one character, none of them a delimiter or a
/// newline.
pub open spec fn is_word(tok: Seq<char>) -> bool {
    tok.len() > 0 && forall|i: int|
        0 <= i < tok.len() ==> !is_delimiter(#[trigger] tok[i]) && tok[i] != '\n'
}

/// Whether a token is a single delimiter.
pub open spec fn is_mark(tok: Seq<char>) -> bool {
    tok.len() == 1 && is_delimiter(tok[0])
}

/// Scanning on behind the beginning of a word gives words and single delimiters.
pub proof fn lemma_scan_tokens(s: Seq<char>, start: int, i: int)
    requires
        0 <= start <= i <= s.len(),
        forall|j: int| start <= j < i ==> !is_delimiter(#[trigger] s[j]) && s[j] != '\n',
    ensures
        forall|k: int|
            0 <= k < scan(s, start, i).len() ==> is_word(#[trigger] scan(s, start, i)[k]) || is_mark(
                scan(s, start, i)[k],
            ),
    decreases s.len() - i,
{
    if i < s.len() {
        if s[i] == '\n' || is_delimiter(s[i]) {
            lemma_scan_tokens(s, i + 1, i + 1);
            if start < i {
                let pending = s.subrange(start, i);
                assert forall|j: int| 0 <= j < pending.len() implies !is_delimiter(
                    #[trigger] pending[j],
                ) && pending[j] != '\n' by {
                    assert(pending[j] == s[start + j]);
                }
                assert(is_word(pending));
            }
            let head = if s[i] == '\n' {
                crate::lexer::pending(s, start, i)
            } else {
                crate::lexer::pending(s, start, i).push(seq![s[i]])
            };
            let rest = scan(s, i + 1, i + 1);
            let out = scan(s, start, i);
            assert(out == head + rest);
            assert forall|k: int| 0 <= k < out.len() implies is_word(#[trigger] out[k]) || is_mark(
                out[k],
            ) by {
                if k < head.len() {
                    assert(out[k] == head[k]);
                    if start < i && k == 0 {
                        assert(head[k] == s.subrange(start, i));
                    } else {
                        assert(head[k] == seq![s[i]]);
                        assert(is_mark(seq![s[i]]));
                    }
                } else {
                    assert(out[k] == rest[k - head.len()]);
                }
            }
        } else {
            lemma_scan_tokens(s, start, i + 1);
            assert(scan(s, start, i) == scan(s, start, i + 1));
        }
    } else {
        assert(scan(s, start, i).len() == 0);
    }
}

/// Every token of a text is a word or a single delimiter; none holds a newline.
pub proof fn theorem_tokens_are_words_or_marks(s: Seq<char>)
    ensures
        forall|k: int|
            0 <= k < token_texts(s).len() ==> is_word(#[trigger] token_texts(s)[k]) || is_mark(
                token_texts(s)[k],
            ),
{
    lemma_scan_tokens(s, 0, 0);
}

/// Passing over blanks moves the cursor forward, if at all, and leaves it on a token.
pub proof fn lemma_skip_blank(t: Seq<Seq<char>>, c: int)
    requires
        0 <= c < t.len(),
    ensures
        c <= skip_blank(t, c) < t.len(),
    decreases t.len() - c,
{
    if c + 1 < t.len() && crate::grammar::is_blank(t[c]) {
        lemma_skip_blank(t, c + 1);
    }
}

/// A step moves the cursor forward, if at all, and leaves it on a token.
pub proof fn lemma_steps(t: Seq<Seq<char>>)
    ensures
        forall|c: int| 0 <= c < t.len() ==> c <= #[trigger] step(t, c) < t.len(),
{
    assert forall|c: int| 0 <= c < t.len() implies c <= #[trigger] step(t, c) < t.len() by {
        lemma_skip_blank(t, crate::grammar::advance(t, c));
    }
}

/// A column list that is accepted ends on its closing token, not before its beginning
/// and within the tokens.
pub proof fn lemma_column_list_ends(
    t: Seq<Seq<char>>,
    c: int,
    stop: Seq<char>,
    acc: Seq<ColumnView>,
)
    requires
        0 <= c < t.len(),
    ensures
        column_list(t, c, stop, acc) matches Some((_, end)) ==> c <= end < t.len() && t[end]
            == stop,
    decreases t.len() - c,
{
    lemma_steps(t);
    match column_at(t, c) {
        None => {},
        Some((column, c1)) => {
            let c2 = step(t, c1);
            if t[c1] != stop && t[c1] == ","@ && c < c2 < t.len() {
                lemma_column_list_ends(t, c2, stop, acc.push(column));
            }
        },
    }
}

/// A word list that is accepted ends on its closing token, not before its beginning and
/// within the tokens.
pub proof fn lemma_word_list_ends(
    t: Seq<Seq<char>>,
    c: int,
    stop: Seq<char>,
    wildcard: bool,
    acc: Seq<Seq<char>>,
)
    requires
        0 <= c < t.len(),
    ensures
        word_list(t, c, stop, wildcard, acc) matches Some((_, end)) ==> c <= end < t.len()
            && t[end] == stop,
    decreases t.len() - c,
{
    lemma_steps(t);
    let c1 = step(t, c);
    let c2 = step(t, c1);
    if t[c1] != stop && t[c1] == ","@ && c < c2 < t.len() {
        lemma_word_list_ends(t, c2, stop, wildcard, acc.push(t[c]));
    }
}

/// A statement that is accepted ends behind its first token and within the tokens: the
/// parse of a script always moves on.
pub proof fn theorem_statement_advances(t: Seq<Seq<char>>, c: int)
    requires
        0 <= c < t.len(),
        opens_statement(t[c]),
    ensures
        statement_at(t, c) matches Some((_, end)) ==> c < end < t.len(),
{
    reveal_strlit("CREATE");
    reveal_strlit("SHOW");
    reveal_strlit("SELECT");
    reveal_strlit("INSERT");
    reveal_strlit("DROP");
    reveal_strlit("ALTER");
    reveal_strlit("TRUNCATE");
    reveal_strlit(";");
    assert(";"@.len() == 1);
    assert("CREATE"@.len() == 6 && "SHOW"@.len() == 4 && "SELECT"@.len() == 6);
    assert("INSERT"@.len() == 6 && "DROP"@.len() == 4 && "ALTER"@.len() == 5);
    assert("TRUNCATE"@.len() == 8);
    assert(t[c] != ";"@);
    lemma_steps(t);
    let named = step(t, step(t, step(t, c)));
    if t[c] == "CREATE"@ {
        lemma_column_list_ends(t, step(t, named), ")"@, Seq::empty());
    } else if t[c] == "SHOW"@ {
    } else if t[c] == "SELECT"@ {
        let c1 = step(t, c);
        let c2 = if t[c1] == "DISTINCT"@ {
            step(t, c1)
        } else {
            c1
        };
        lemma_word_list_ends(t, c2, "FROM"@, true, Seq::empty());
    } else if t[c] == "INSERT"@ {
        lemma_word_list_ends(t, step(t, named), ")"@, false, Seq::empty());
        match word_list(t, step(t, named), ")"@, false, Seq::empty()) {
            None => {},
            Some((_, c4)) => {
                lemma_word_list_ends(t, step(t, step(t, step(t, c4))), ")"@, false, Seq::empty());
            },
        }
    } else if t[c] == "DROP"@ {
    } else if t[c] == "ALTER"@ {
        lemma_column_list_ends(t, step(t, named), ";"@, Seq::empty());
    } else {
    }
}

} // verus!
