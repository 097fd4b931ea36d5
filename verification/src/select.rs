use vstd::prelude::*;
use crate::database::Database;
use crate::parser::word;
use crate::storage::{cell_equal, has_column, row_equal, Cell, CellView, Table, TableView};
use crate::syntax::{ColumnView, SqlError};

verus! {

/// Whether a requested column is the wildcard, which stands for every column.
pub open spec fn is_wildcard(name: Seq<char>) -> bool {
    name == "*"@
}

/// `acc` with the positions from `j` on of the columns that the request `name` selects:
/// every one for the wildcard, else those called `name`.
pub open spec fn matching(columns: Seq<ColumnView>, name: Seq<char>, j: int, acc: Seq<int>) -> Seq<
    int,
>
    decreases columns.len() - j,
{
    if j < 0 || j >= columns.len() {
        acc
    } else if is_wildcard(name) || columns[j].name == name {
        matching(columns, name, j + 1, acc.push(j))
    } else {
        matching(columns, name, j + 1, acc)
    }
}

/// `acc` with the positions selected by the requests from `k` on, request by request.
pub open spec fn selected(columns: Seq<ColumnView>, requested: Seq<Seq<char>>, k: int, acc: Seq<int>) -> Seq<
    int,
>
    decreases requested.len() - k,
{
    if k < 0 || k >= requested.len() {
        acc
    } else {
        selected(columns, requested, k + 1, matching(columns, requested[k], 0, acc))
    }
}

/// A cell as a query hands it out: its value, without the column's size and nullability.
pub open spec fn stripped(cell: CellView) -> CellView {
    match cell {
        CellView::INT(value, _, _) => CellView::INT(value, 0, false),
        CellView::STRING(value, _, _) => CellView::STRING(value, 0, false),
    }
}

/// `acc` with the cells of `row` at the positions `indexes[k..]`; a position behind the
/// end of the row gives no cell.
pub open spec fn project(row: Seq<CellView>, indexes: Seq<int>, k: int, acc: Seq<CellView>) -> Seq<
    CellView,
>
    decreases indexes.len() - k,
{
    if k < 0 || k >= indexes.len() {
        acc
    } else if 0 <= indexes[k] < row.len() {
        project(row, indexes, k + 1, acc.push(stripped(row[indexes[k]])))
    } else {
        project(row, indexes, k + 1, acc)
    }
}

/// Every row projected onto `indexes`, in row order.
pub open spec fn projected(rows: Seq<Seq<CellView>>, indexes: Seq<int>) -> Seq<Seq<CellView>> {
    Seq::new(rows.len(), |r: int| project(rows[r], indexes, 0, Seq::empty()))
}

/// Whether `row` equals one of `kept`.
pub open spec fn seen_before(kept: Seq<Seq<CellView>>, row: Seq<CellView>) -> bool {
    exists|j: int| 0 <= j < kept.len() && row_equal(#[trigger] kept[j], row)
}

/// `acc` with each of `rows[k..]` that equals none kept before it, in row order.
pub open spec fn first_seen(rows: Seq<Seq<CellView>>, k: int, acc: Seq<Seq<CellView>>) -> Seq<
    Seq<CellView>,
>
    decreases rows.len() - k,
{
    if k < 0 || k >= rows.len() {
        acc
    } else if seen_before(acc, rows[k]) {
        first_seen(rows, k + 1, acc)
    } else {
        first_seen(rows, k + 1, acc.push(rows[k]))
    }
}

/// Whether a request names neither the wildcard nor a column of the table.
pub open spec fn request_unknown(columns: Seq<ColumnView>, requested: Seq<Seq<char>>) -> bool {
    exists|i: int|
        0 <= i < requested.len() && !is_wildcard(#[trigger] requested[i]) && !has_column(
            columns,
            requested[i],
        )
}

/// What a query gives: a header for each output column, and the output rows.
pub struct SelectionView {
    pub headers: Seq<Seq<char>>,
    pub rows: Seq<Seq<CellView>>,
}

/// The result of a query on `table`, or the error for a request that names no column.
pub open spec fn selection(table: TableView, distinct: bool, requested: Seq<Seq<char>>) -> Result<
    SelectionView,
    SqlError,
> {
    let indexes = selected(table.columns, requested, 0, Seq::empty());
    let rows = projected(table.rows, indexes);
    if request_unknown(table.columns, requested) {
        Err(SqlError::ColumnNotFound)
    } else {
        Ok(
            SelectionView {
                headers: Seq::new(indexes.len(), |i: int| table.columns[indexes[i]].name),
                rows: if distinct {
                    first_seen(rows, 0, Seq::empty())
                } else {
                    rows
                },
            },
        )
    }
}

/// The result of a query on the table `name` of `db`, or why it is rejected.
pub open spec fn select_result(
    db: Map<Seq<char>, TableView>,
    name: Seq<char>,
    distinct: bool,
    requested: Seq<Seq<char>>,
) -> Result<SelectionView, SqlError> {
    if db.contains_key(name) {
        selection(db[name], distinct, requested)
    } else {
        Err(SqlError::TableNotFound)
    }
}

/// What a query gives: a header for each output column, and the output rows.
#[derive(Debug)]
pub struct Selection {
    pub headers: Vec<String>,
    pub rows: Vec<Vec<Cell>>,
}

impl DeepView for Selection {
    type V = SelectionView;

    open spec fn deep_view(&self) -> SelectionView {
        SelectionView { headers: self.headers.deep_view(), rows: self.rows.deep_view() }
    }
}

/// Positions as mathematical integers.
pub open spec fn ints(v: Seq<usize>) -> Seq<int> {
    Seq::new(v.len(), |i: int| v[i] as int)
}

/// Whether two rows are equal: the same width, and equal cells at every position.
pub fn rows_equal(a: &Vec<Cell>, b: &Vec<Cell>) -> (r: bool)
    ensures
        r == row_equal(a.deep_view(), b.deep_view()),
{
    if a.len() != b.len() {
        return false;
    }
    let mut i: usize = 0;
    while i < a.len()
        invariant
            a.len() == b.len(),
            i <= a.len(),
            forall|j: int| 0 <= j < i ==> cell_equal(#[trigger] a.deep_view()[j], b.deep_view()[j]),
        decreases a.len() - i,
    {
        let same = match (&a[i], &b[i]) {
            (Cell::INT(x, _, _), Cell::INT(y, _, _)) => *x == *y,
            (Cell::STRING(x, _, _), Cell::STRING(y, _, _)) => *x == *y,
            _ => false,
        };
        if !same {
            assert(!cell_equal(a.deep_view()[i as int], b.deep_view()[i as int]));
            return false;
        }
        i += 1;
    }
    true
}

/// The cells of `row` at `indexes`, each without its column's size and nullability.
pub fn project_row(row: &Vec<Cell>, indexes: &Vec<usize>) -> (out: Vec<Cell>)
    ensures
        out.deep_view() == project(row.deep_view(), ints(indexes@), 0, Seq::empty()),
{
    let mut out: Vec<Cell> = Vec::new();
    assert(out.deep_view() =~= Seq::empty());
    let mut k: usize = 0;
    while k < indexes.len()
        invariant
            k <= indexes.len(),
            project(row.deep_view(), ints(indexes@), 0, Seq::empty()) == project(
                row.deep_view(),
                ints(indexes@),
                k as int,
                out.deep_view(),
            ),
        decreases indexes.len() - k,
    {
        let at: usize = indexes[k];
        if at < row.len() {
            let ghost seen = out.deep_view();
            let cell = match &row[at] {
                Cell::INT(value, _, _) => Cell::INT(*value, 0, false),
                Cell::STRING(value, _, _) => Cell::STRING(value.clone(), 0, false),
            };
            out.push(cell);
            assert(out.deep_view() =~= seen.push(stripped(row.deep_view()[at as int])));
        }
        k += 1;
    }
    out
}

/// The rows that equal none before them, in their order.
pub fn distinct_rows(rows: Vec<Vec<Cell>>) -> (kept: Vec<Vec<Cell>>)
    ensures
        kept.deep_view() == first_seen(rows.deep_view(), 0, Seq::empty()),
{
    let ghost all = rows.deep_view();
    let mut kept: Vec<Vec<Cell>> = Vec::new();
    assert(kept.deep_view() =~= Seq::empty());
    let mut rows = rows;
    let mut k: usize = 0;
    let n: usize = rows.len();
    while k < n
        invariant
            n == all.len(),
            rows.len() == n,
            k <= n,
            forall|j: int| k <= j < n ==> rows.deep_view()[j] == all[j],
            first_seen(all, 0, Seq::empty()) == first_seen(all, k as int, kept.deep_view()),
        decreases n - k,
    {
        let mut unique = true;
        let mut j: usize = 0;
        while j < kept.len()
            invariant
                k < n,
                rows.len() == n,
                j <= kept.len(),
                unique <==> forall|m: int|
                    0 <= m < j ==> !row_equal(#[trigger] kept.deep_view()[m], rows.deep_view()[k as int]),
            decreases kept.len() - j,
        {
            let same = rows_equal(&kept[j], &rows[k]);
            assert(same == row_equal(kept.deep_view()[j as int], rows.deep_view()[k as int]));
            if same {
                unique = false;
            }
            j += 1;
        }
        assert(rows.deep_view()[k as int] == all[k as int]);
        assert(unique == !seen_before(kept.deep_view(), all[k as int]));
        if unique {
            let ghost seen = kept.deep_view();
            let ghost before = rows.deep_view();
            let mut row: Vec<Cell> = Vec::new();
            std::mem::swap(&mut row, &mut rows[k]);
            kept.push(row);
            assert(kept.deep_view() =~= seen.push(all[k as int]));
            assert forall|j: int| k < j < n implies rows.deep_view()[j] == all[j] by {
                assert(rows.deep_view()[j] == before[j]);
            }
        }
        k += 1;
    }
    kept
}

impl Table {
    /// Whether every request is the wildcard or names a column.
    pub fn requests_known(&self, requested: &Vec<String>) -> (r: bool)
        ensures
            r == !request_unknown(self.columns.deep_view(), requested.deep_view()),
    {
        let star = word("*");
        let mut i: usize = 0;
        while i < requested.len()
            invariant
                star@ == "*"@,
                i <= requested.len(),
                forall|j: int|
                    0 <= j < i ==> is_wildcard(#[trigger] requested.deep_view()[j]) || has_column(
                        self.columns.deep_view(),
                        requested.deep_view()[j],
                    ),
            decreases requested.len() - i,
        {
            if requested[i] != star && self.column_position(&requested[i]) >= self.columns.len() {
                assert(!is_wildcard(requested.deep_view()[i as int]));
                return false;
            }
            i += 1;
        }
        true
    }

    /// The positions of the columns that the requests select, request by request.
    pub fn select_indexes(&self, requested: &Vec<String>) -> (indexes: Vec<usize>)
        ensures
            ints(indexes@) == selected(
                self.columns.deep_view(),
                requested.deep_view(),
                0,
                Seq::empty(),
            ),
            forall|i: int| 0 <= i < indexes.len() ==> indexes[i] < self.columns.len(),
    {
        let ghost cols = self.columns.deep_view();
        let ghost asked = requested.deep_view();
        let star = word("*");
        let mut indexes: Vec<usize> = Vec::new();
        assert(ints(indexes@) =~= Seq::empty());
        let mut k: usize = 0;
        while k < requested.len()
            invariant
                star@ == "*"@,
                cols == self.columns.deep_view(),
                asked == requested.deep_view(),
                k <= requested.len(),
                forall|i: int| 0 <= i < indexes.len() ==> indexes[i] < self.columns.len(),
                selected(cols, asked, 0, Seq::empty()) == selected(
                    cols,
                    asked,
                    k as int,
                    ints(indexes@),
                ),
            decreases requested.len() - k,
        {
            let ghost start = ints(indexes@);
            let all = requested[k] == star;
            let mut j: usize = 0;
            while j < self.columns.len()
                invariant
                    cols == self.columns.deep_view(),
                    asked == requested.deep_view(),
                    k < requested.len(),
                    all == is_wildcard(asked[k as int]),
                    j <= self.columns.len(),
                    forall|i: int| 0 <= i < indexes.len() ==> indexes[i] < self.columns.len(),
                    matching(cols, asked[k as int], 0, start) == matching(
                        cols,
                        asked[k as int],
                        j as int,
                        ints(indexes@),
                    ),
                decreases self.columns.len() - j,
            {
                if all || requested[k] == self.columns[j].name {
                    let ghost seen = ints(indexes@);
                    indexes.push(j);
                    assert(ints(indexes@) =~= seen.push(j as int));
                }
                j += 1;
            }
            k += 1;
        }
        indexes
    }

    /// The names of the columns at `indexes`.
    pub fn header_names(&self, indexes: &Vec<usize>) -> (headers: Vec<String>)
        requires
            forall|i: int| 0 <= i < indexes.len() ==> indexes[i] < self.columns.len(),
        ensures
            headers.deep_view() == Seq::new(
                indexes.len() as nat,
                |i: int| self.columns.deep_view()[ints(indexes@)[i]].name,
            ),
    {
        let mut headers: Vec<String> = Vec::new();
        let mut k: usize = 0;
        while k < indexes.len()
            invariant
                k <= indexes.len(),
                headers.len() == k,
                forall|i: int| 0 <= i < indexes.len() ==> indexes[i] < self.columns.len(),
                forall|i: int|
                    0 <= i < k ==> #[trigger] headers.deep_view()[i] == self.columns.deep_view()[indexes[i] as int].name,
            decreases indexes.len() - k,
        {
            let ghost seen = headers.deep_view();
            let name = self.columns[indexes[k]].name.clone();
            headers.push(name);
            assert(headers.deep_view() =~= seen.push(name@));
            k += 1;
        }
        assert(headers.deep_view() =~= Seq::new(
            indexes.len() as nat,
            |i: int| self.columns.deep_view()[ints(indexes@)[i]].name,
        ));
        headers
    }

    /// Every row projected onto `indexes`, in row order.
    pub fn project_rows(&self, indexes: &Vec<usize>) -> (out: Vec<Vec<Cell>>)
        ensures
            out.deep_view() == projected(self.rows.deep_view(), ints(indexes@)),
    {
        let mut out: Vec<Vec<Cell>> = Vec::new();
        let mut r: usize = 0;
        while r < self.rows.len()
            invariant
                r <= self.rows.len(),
                out.len() == r,
                forall|i: int|
                    0 <= i < r ==> #[trigger] out.deep_view()[i] == project(
                        self.rows.deep_view()[i],
                        ints(indexes@),
                        0,
                        Seq::empty(),
                    ),
            decreases self.rows.len() - r,
        {
            let ghost seen = out.deep_view();
            let row = project_row(&self.rows[r], indexes);
            out.push(row);
            assert(out.deep_view() =~= seen.push(row.deep_view()));
            r += 1;
        }
        assert(out.deep_view() =~= projected(self.rows.deep_view(), ints(indexes@)));
        out
    }

    /// Runs a query on this table.
    pub fn select(&self, distinct: bool, columns: &Vec<String>) -> (r: Result<Selection, SqlError>)
        ensures
            match r {
                Ok(found) => selection(self.deep_view(), distinct, columns.deep_view()) == Ok::<
                    SelectionView,
                    SqlError,
                >(found.deep_view()),
                Err(e) => selection(self.deep_view(), distinct, columns.deep_view()) == Err::<
                    SelectionView,
                    SqlError,
                >(e),
            },
    {
        if !self.requests_known(columns) {
            return Err(SqlError::ColumnNotFound);
        }
        let indexes = self.select_indexes(columns);
        let headers = self.header_names(&indexes);
        let projected_rows = self.project_rows(&indexes);
        let rows = if distinct {
            distinct_rows(projected_rows)
        } else {
            projected_rows
        };
        Ok(Selection { headers, rows })
    }
}

impl Database {
    /// Runs a query on the table `name`: the requested columns of every row, in row
    /// order, and only the first of equal rows where `distinct` is set.
    pub fn select_from_table(&self, name: String, distinct: bool, columns: Vec<String>) -> (r: Result<
        Selection,
        SqlError,
    >)
        requires
            self.wf(),
        ensures
            match r {
                Ok(found) => select_result(self.deep_view(), name@, distinct, columns.deep_view())
                    == Ok::<SelectionView, SqlError>(found.deep_view()),
                Err(e) => select_result(self.deep_view(), name@, distinct, columns.deep_view())
                    == Err::<SelectionView, SqlError>(e),
            },
    {
        let i = self.find(&name);
        if i >= self.names.len() {
            return Err(SqlError::TableNotFound);
        }
        self.tables[i].select(distinct, &columns)
    }
}

} // verus!
