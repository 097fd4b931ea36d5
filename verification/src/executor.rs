use vstd::prelude::*;
use crate::database::{widened, Database};
use crate::insert::after_insert;
use crate::listing::{is_listing, TableSummary};
use crate::select::{select_result, Selection, SelectionView};
use crate::storage::{empty_table, truncated, TableView};
use crate::syntax::{ASTNode, Column, ColumnView, SqlError, StatementView};

verus! {

/// What a statement hands back besides its effect on the database.
#[derive(Debug)]
pub enum Output {
    /// Nothing: the statement only changed the database.
    Done,
    /// The listing of a `SHOW TABLES`.
    Tables(Vec<TableSummary>),
    /// The result of a `SELECT`.
    Rows(Selection),
}

/// `db` after the columns `columns[k..]` were added to the table `name`, one by one.
pub open spec fn columns_added(
    db: Map<Seq<char>, TableView>,
    name: Seq<char>,
    columns: Seq<ColumnView>,
    k: int,
) -> Map<Seq<char>, TableView>
    decreases columns.len() - k,
{
    if k < 0 || k >= columns.len() {
        db
    } else {
        columns_added(widened(db, name, columns[k]), name, columns, k + 1)
    }
}

/// The database after a statement, or the error that rejects the statement.
pub open spec fn executed(db: Map<Seq<char>, TableView>, statement: StatementView) -> Result<
    Map<Seq<char>, TableView>,
    SqlError,
> {
    match statement {
        StatementView::Create { table, columns_to_add } => if db.contains_key(table) {
            Err(SqlError::TableExists)
        } else {
            Ok(columns_added(db.insert(table, empty_table()), table, columns_to_add, 0))
        },
        StatementView::Drop { table } => if db.contains_key(table) {
            Ok(db.remove(table))
        } else {
            Err(SqlError::TableNotFound)
        },
        StatementView::Truncate { table } => if db.contains_key(table) {
            Ok(db.insert(table, truncated(db[table])))
        } else {
            Err(SqlError::TableNotFound)
        },
        StatementView::Alter { table, columns_to_add } => if db.contains_key(table) {
            Ok(columns_added(db, table, columns_to_add, 0))
        } else {
            Err(SqlError::TableNotFound)
        },
        StatementView::Insert { table, columns, values } => after_insert(
            db,
            table,
            columns,
            values,
        ),
        StatementView::Select { table, distinct, columns } => match select_result(
            db,
            table,
            distinct,
            columns,
        ) {
            Ok(_) => Ok(db),
            Err(e) => Err(e),
        },
        StatementView::ShowTables => Ok(db),
    }
}

/// Whether `out` is what `statement` hands back on `db`: the rows of a query, the listing
/// of the tables, or nothing.
pub open spec fn output_fits(
    db: Map<Seq<char>, TableView>,
    statement: StatementView,
    out: Output,
) -> bool {
    match statement {
        StatementView::Select { table, distinct, columns } => out matches Output::Rows(found)
            && select_result(db, table, distinct, columns) == Ok::<SelectionView, SqlError>(
            found.deep_view(),
        ),
        StatementView::ShowTables => out matches Output::Tables(lines) && is_listing(
            db,
            lines.deep_view(),
        ),
        _ => out is Done,
    }
}

impl Database {
    /// Adds `columns` to the table `name`, one by one.
    pub fn add_columns(&mut self, name: &String, columns: &Vec<Column>) -> (r: Result<(), SqlError>)
        requires
            old(self).wf(),
        ensures
            final(self).wf(),
            match r {
                Ok(()) => (columns.len() == 0 || old(self).deep_view().contains_key(name@))
                    && final(self).deep_view() == columns_added(
                    old(self).deep_view(),
                    name@,
                    columns.deep_view(),
                    0,
                ),
                Err(e) => e == SqlError::TableNotFound && columns.len() > 0 && !old(
                    self,
                ).deep_view().contains_key(name@) && final(self).deep_view() == old(
                    self,
                ).deep_view(),
            },
    {
        let mut k: usize = 0;
        while k < columns.len()
            invariant
                self.wf(),
                k <= columns.len(),
                k == 0 ==> self.deep_view() == old(self).deep_view(),
                k > 0 ==> self.deep_view().contains_key(name@) && old(self).deep_view().contains_key(
                    name@,
                ),
                columns_added(old(self).deep_view(), name@, columns.deep_view(), 0)
                    == columns_added(self.deep_view(), name@, columns.deep_view(), k as int),
            decreases columns.len() - k,
        {
            match self.add_table_column(name.clone(), columns[k].clone()) {
                Err(e) => {
                    return Err(e);
                },
                Ok(()) => {},
            }
            k += 1;
        }
        Ok(())
    }

    /// Applies one statement to the database.
    pub fn execute(&mut self, node: ASTNode) -> (r: Result<Output, SqlError>)
        requires
            old(self).wf(),
        ensures
            final(self).wf(),
            match r {
                Ok(out) => executed(old(self).deep_view(), node.deep_view()) == Ok::<
                    Map<Seq<char>, TableView>,
                    SqlError,
                >(final(self).deep_view()) && output_fits(
                    old(self).deep_view(),
                    node.deep_view(),
                    out,
                ),
                Err(e) => executed(old(self).deep_view(), node.deep_view()) == Err::<
                    Map<Seq<char>, TableView>,
                    SqlError,
                >(e) && final(self).deep_view() == old(self).deep_view(),
            },
    {
        match node {
            ASTNode::CreateStatement { table_name, columns_to_add } => {
                if self.find(&table_name) < self.names.len() {
                    return Err(SqlError::TableExists);
                }
                self.create_table(table_name.clone());
                match self.add_columns(&table_name, &columns_to_add) {
                    Ok(()) => Ok(Output::Done),
                    Err(e) => Err(e),
                }
            },
            ASTNode::DropStatement { table_name } => {
                if self.find(&table_name) >= self.names.len() {
                    return Err(SqlError::TableNotFound);
                }
                self.drop_table(table_name);
                Ok(Output::Done)
            },
            ASTNode::TruncateTableStatement { table_name } => {
                match self.truncate_table(table_name) {
                    Ok(()) => Ok(Output::Done),
                    Err(e) => Err(e),
                }
            },
            ASTNode::AlterTableStatement { table_name, columns_to_add } => {
                if self.find(&table_name) >= self.names.len() {
                    return Err(SqlError::TableNotFound);
                }
                match self.add_columns(&table_name, &columns_to_add) {
                    Ok(()) => Ok(Output::Done),
                    Err(e) => Err(e),
                }
            },
            ASTNode::InsertStatement { table_name, columns, values } => {
                match self.insert_into_table(table_name, columns, values) {
                    Ok(()) => Ok(Output::Done),
                    Err(e) => Err(e),
                }
            },
            ASTNode::SelectStatement { table_name, distinct, columns } => {
                match self.select_from_table(table_name, distinct, columns) {
                    Ok(found) => Ok(Output::Rows(found)),
                    Err(e) => Err(e),
                }
            },
            ASTNode::ShowTablesStatement => Ok(Output::Tables(self.describe_tables())),
        }
    }
}

} // verus!
