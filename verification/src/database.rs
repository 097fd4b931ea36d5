use vstd::prelude::*;
use crate::storage::{
    backfilled, cell_equal, empty_table, lemma_position, lemma_position_is, position, truncated, with_column, Cell,
    CellView, Table, TableView,
};
use crate::syntax::{Column, ColumnView, SqlError};

verus! {

/// The tables of one run, each under its name. The name at a slot of `names` is that of
/// the table at the same slot of `tables`; `wf` says that no name stands twice, which
/// makes the whole a map from names to tables.
#[derive(Debug)]
pub struct Database {
    pub names: Vec<String>,
    pub tables: Vec<Table>,
}

/// The tables of `db`, each replaced by what `change` makes of its name and value.
pub open spec fn mapped(
    db: Map<Seq<char>, TableView>,
    change: spec_fn(Seq<char>, TableView) -> TableView,
) -> Map<Seq<char>, TableView> {
    Map::new(|n: Seq<char>| db.contains_key(n), |n: Seq<char>| change(n, db[n]))
}

/// `db` after `column` was added to the table `name`: that table has the column, and
/// every row of every table has the column's default cell at its end.
pub open spec fn widened(db: Map<Seq<char>, TableView>, name: Seq<char>, column: ColumnView) -> Map<
    Seq<char>,
    TableView,
> {
    mapped(
        db,
        |n: Seq<char>, t: TableView|
            backfilled(
                if n == name {
                    with_column(t, column)
                } else {
                    t
                },
                column,
            ),
    )
}

impl DeepView for Database {
    type V = Map<Seq<char>, TableView>;

    open spec fn deep_view(&self) -> Map<Seq<char>, TableView> {
        Map::new(
            |n: Seq<char>| position(self.names.deep_view(), n, 0) < self.names.len(),
            |n: Seq<char>| self.tables.deep_view()[position(self.names.deep_view(), n, 0)],
        )
    }
}

impl Database {
    /// Every name has its table, and no name stands twice.
    pub open spec fn wf(&self) -> bool {
        &&& self.names.len() == self.tables.len()
        &&& forall|i: int, j: int|
            0 <= i < j < self.names.len() ==> self.names.deep_view()[i] != self.names.deep_view()[j]
    }

    /// Under `wf`, the table at slot `i` is the one that the view holds under the name at
    /// slot `i`.
    pub proof fn lemma_slot(&self, i: int)
        requires
            self.wf(),
            0 <= i < self.names.len(),
        ensures
            self.deep_view().contains_key(self.names.deep_view()[i]),
            self.deep_view()[self.names.deep_view()[i]] == self.tables.deep_view()[i],
            position(self.names.deep_view(), self.names.deep_view()[i], 0) == i,
    {
        lemma_position(self.names.deep_view(), self.names.deep_view()[i], 0);
    }

    /// A database whose names are those of `self`, and whose tables are those of `self`
    /// changed slot by slot, has the view of `self` changed name by name.
    pub proof fn lemma_mapped(
        &self,
        after: &Database,
        change: spec_fn(Seq<char>, TableView) -> TableView,
    )
        requires
            self.wf(),
            after.names.deep_view() == self.names.deep_view(),
            after.tables.len() == self.tables.len(),
            forall|i: int|
                0 <= i < self.tables.len() ==> after.tables.deep_view()[i] == change(
                    self.names.deep_view()[i],
                    #[trigger] self.tables.deep_view()[i],
                ),
        ensures
            after.wf(),
            after.deep_view() == mapped(self.deep_view(), change),
    {
        let names = self.names.deep_view();
        assert(after.names.len() == names.len());
        assert forall|n: Seq<char>| self.deep_view().contains_key(n) implies after.deep_view()[n]
            == change(n, self.deep_view()[n]) by {
            lemma_position(names, n, 0);
            let p = position(names, n, 0);
            assert(after.tables.deep_view()[p] == change(names[p], self.tables.deep_view()[p]));
        }
        assert(after.deep_view() =~= mapped(self.deep_view(), change));
    }

    /// A database without tables.
    pub fn new() -> (db: Database)
        ensures
            db.wf(),
            db.deep_view() == Map::<Seq<char>, TableView>::empty(),
    {
        let db = Database { names: Vec::new(), tables: Vec::new() };
        assert(db.deep_view() =~= Map::<Seq<char>, TableView>::empty());
        db
    }

    /// The slot of the table called `name`, or the number of tables where there is none.
    pub fn find(&self, name: &String) -> (i: usize)
        requires
            self.wf(),
        ensures
            i == position(self.names.deep_view(), name@, 0),
            i <= self.names.len(),
            i < self.names.len() <==> self.deep_view().contains_key(name@),
            i < self.names.len() ==> self.names.deep_view()[i as int] == name@
                && self.deep_view()[name@] == self.tables.deep_view()[i as int],
    {
        let mut i: usize = 0;
        while i < self.names.len()
            invariant
                i <= self.names.len(),
                position(self.names.deep_view(), name@, 0) == position(
                    self.names.deep_view(),
                    name@,
                    i as int,
                ),
            decreases self.names.len() - i,
        {
            if self.names[i] == *name {
                return i;
            }
            i += 1;
        }
        i
    }

    /// Whether two cells are equal: the same kind and the same value.
    pub fn compareEqCells(&self, cell1: &Cell, cell2: &Cell) -> (r: bool)
        ensures
            r == cell_equal(cell1.deep_view(), cell2.deep_view()),
    {
        match cell1 {
            Cell::INT(value1, _, _) => match cell2 {
                Cell::INT(value2, _, _) => *value1 == *value2,
                Cell::STRING(_, _, _) => false,
            },
            Cell::STRING(value1, _, _) => match cell2 {
                Cell::INT(_, _, _) => false,
                Cell::STRING(value2, _, _) => *value1 == *value2,
            },
        }
    }

    /// The table called `name`, if there is one.
    pub fn get_table(&self, name: String) -> (r: Option<&Table>)
        requires
            self.wf(),
        ensures
            r is Some <==> self.deep_view().contains_key(name@),
            r matches Some(table) ==> table.deep_view() == self.deep_view()[name@],
    {
        let i = self.find(&name);
        if i < self.names.len() {
            Some(&self.tables[i])
        } else {
            None
        }
    }

    /// Puts an empty table under `name`, in place of any table that stood there.
    pub fn create_table(&mut self, name: String)
        requires
            old(self).wf(),
        ensures
            final(self).wf(),
            final(self).deep_view() == old(self).deep_view().insert(name@, empty_table()),
    {
        let i = self.find(&name);
        let table = Table::new();
        if i < self.names.len() {
            self.tables[i] = table;
            proof {
                assert forall|j: int| 0 <= j < old(self).tables.len() implies (
                old(self).names.deep_view()[j] == name@ <==> j == i) by {
                    old(self).lemma_slot(j);
                }
                old(self).lemma_mapped(
                    self,
                    |n: Seq<char>, t: TableView|
                        if n == name@ {
                            empty_table()
                        } else {
                            t
                        },
                );
                assert(self.deep_view() =~= old(self).deep_view().insert(name@, empty_table()));
            }
        } else {
            self.names.push(name);
            self.tables.push(table);
            proof {
                let before = old(self).names.deep_view();
                let after = self.names.deep_view();
                assert(after =~= before.push(name@));
                lemma_position(before, name@, 0);
                assert(self.tables.deep_view() =~= old(self).tables.deep_view().push(
                    empty_table(),
                ));
                assert forall|n: Seq<char>| #[trigger] position(after, n, 0) == (if position(before, n, 0)
                    < before.len() {
                    position(before, n, 0)
                } else if n == name@ {
                    before.len() as int
                } else {
                    after.len() as int
                }) by {
                    lemma_position(before, n, 0);
                    let found = position(before, n, 0);
                    if found < before.len() {
                        lemma_position_is(after, n, found);
                    } else if n == name@ {
                        lemma_position_is(after, n, before.len() as int);
                    } else {
                        lemma_position_is(after, n, after.len() as int);
                    }
                }
                assert forall|n: Seq<char>|
                    old(self).deep_view().insert(name@, empty_table()).contains_key(
                        n,
                    ) implies #[trigger] self.deep_view().contains_key(n) && self.deep_view()[n]
                    == old(self).deep_view().insert(name@, empty_table())[n] by {
                    let found = position(after, n, 0);
                    lemma_position(before, n, 0);
                    assert(self.deep_view()[n] == self.tables.deep_view()[found]);
                }
                assert forall|n: Seq<char>| #[trigger]
                    self.deep_view().contains_key(n) implies old(self).deep_view().insert(
                    name@,
                    empty_table(),
                ).contains_key(n) by {
                    let found = position(after, n, 0);
                }
                assert(self.deep_view() =~= old(self).deep_view().insert(name@, empty_table()));
            }
        }
    }

    /// Removes the table called `name`, if there is one.
    pub fn drop_table(&mut self, name: String)
        requires
            old(self).wf(),
        ensures
            final(self).wf(),
            final(self).deep_view() == old(self).deep_view().remove(name@),
    {
        let i = self.find(&name);
        if i < self.names.len() {
            self.names.remove(i);
            self.tables.remove(i);
            proof {
                let before = old(self).names.deep_view();
                let after = self.names.deep_view();
                assert(after =~= before.remove(i as int));
                assert(self.tables.deep_view() =~= old(self).tables.deep_view().remove(i as int));
                assert forall|n: Seq<char>| #[trigger] position(after, n, 0) == (if position(before, n, 0)
                    < i {
                    position(before, n, 0)
                } else if position(before, n, 0) == i {
                    after.len() as int
                } else {
                    position(before, n, 0) - 1
                }) by {
                    lemma_position(before, n, 0);
                    let found = position(before, n, 0);
                    if found < i {
                        lemma_position_is(after, n, found);
                    } else if found == i {
                        assert forall|j: int| 0 <= j < after.len() implies after[j] != n by {
                            if j < i {
                                assert(before[j] != before[i as int]);
                            } else {
                                assert(before[i as int] != before[j + 1]);
                            }
                        }
                        lemma_position_is(after, n, after.len() as int);
                    } else {
                        lemma_position_is(after, n, found - 1);
                    }
                }
                assert forall|n: Seq<char>|
                    old(self).deep_view().remove(name@).contains_key(
                        n,
                    ) implies #[trigger] self.deep_view().contains_key(n) && self.deep_view()[n]
                    == old(self).deep_view()[n] by {
                    let found = position(after, n, 0);
                    lemma_position(before, n, 0);
                }
                assert forall|n: Seq<char>| #[trigger]
                    self.deep_view().contains_key(n) implies old(self).deep_view().remove(
                    name@,
                ).contains_key(n) by {
                    let found = position(after, n, 0);
                    lemma_position(before, n, 0);
                }
                assert(self.deep_view() =~= old(self).deep_view().remove(name@));
            }
        } else {
            assert(self.deep_view() =~= old(self).deep_view().remove(name@));
        }
    }

    /// Removes every row of the table called `name`; its columns stay.
    pub fn truncate_table(&mut self, name: String) -> (r: Result<(), SqlError>)
        requires
            old(self).wf(),
        ensures
            final(self).wf(),
            match r {
                Ok(()) => old(self).deep_view().contains_key(name@) && final(self).deep_view()
                    == old(self).deep_view().insert(
                    name@,
                    truncated(old(self).deep_view()[name@]),
                ),
                Err(e) => e == SqlError::TableNotFound && !old(self).deep_view().contains_key(
                    name@,
                ) && final(self).deep_view() == old(self).deep_view(),
            },
    {
        let i = self.find(&name);
        if i >= self.names.len() {
            return Err(SqlError::TableNotFound);
        }
        self.tables[i].clear_rows();
        proof {
            old(self).lemma_mapped(
                self,
                |n: Seq<char>, t: TableView|
                    if n == name@ {
                        truncated(t)
                    } else {
                        t
                    },
            );
            assert(self.deep_view() =~= old(self).deep_view().insert(
                name@,
                truncated(old(self).deep_view()[name@]),
            ));
        }
        Ok(())
    }

    /// Adds `column` to the table called `name`, then puts the column's default cell at
    /// the end of every row of every table.
    pub fn add_table_column(&mut self, name: String, column: Column) -> (r: Result<(), SqlError>)
        requires
            old(self).wf(),
        ensures
            final(self).wf(),
            match r {
                Ok(()) => old(self).deep_view().contains_key(name@) && final(self).deep_view()
                    == widened(old(self).deep_view(), name@, column.deep_view()),
                Err(e) => e == SqlError::TableNotFound && !old(self).deep_view().contains_key(
                    name@,
                ) && final(self).deep_view() == old(self).deep_view(),
            },
    {
        let i = self.find(&name);
        if i >= self.names.len() {
            return Err(SqlError::TableNotFound);
        }
        self.tables[i].push_column(column.clone());
        let ghost grown = self.tables.deep_view();
        let ghost added = column.deep_view();
        let mut k: usize = 0;
        while k < self.tables.len()
            invariant
                self.names == old(self).names,
                self.tables.len() == grown.len(),
                grown.len() == old(self).tables.len(),
                added == column.deep_view(),
                k <= self.tables.len(),
                forall|j: int| 0 <= j < k ==> self.tables.deep_view()[j] == backfilled(grown[j], added),
                forall|j: int| k <= j < grown.len() ==> self.tables.deep_view()[j] == grown[j],
            decreases self.tables.len() - k,
        {
            let ghost tables_before = self.tables.deep_view();
            assert(tables_before[k as int] == grown[k as int]);
            self.tables[k].backfill(&column);
            assert forall|j: int| 0 <= j < grown.len() implies self.tables.deep_view()[j] == (if j
                <= k {
                backfilled(grown[j], added)
            } else {
                grown[j]
            }) by {
                if j != k {
                    assert(self.tables.deep_view()[j] == tables_before[j]);
                }
            }
            k += 1;
        }
        proof {
            let change = |n: Seq<char>, t: TableView|
                backfilled(
                    if n == name@ {
                        with_column(t, added)
                    } else {
                        t
                    },
                    added,
                );
            assert forall|j: int| 0 <= j < old(self).tables.len() implies self.tables.deep_view()[j]
                == change(old(self).names.deep_view()[j], #[trigger] old(self).tables.deep_view()[j]) by {
                old(self).lemma_slot(j);
                old(self).lemma_slot(i as int);
                assert(self.tables.deep_view()[j] == backfilled(grown[j], added));
            }
            old(self).lemma_mapped(self, change);
        }
        Ok(())
    }
}

} // verus!
