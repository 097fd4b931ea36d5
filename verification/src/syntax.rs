use vstd::prelude::*;

verus! {

/// The two kinds of value a column can hold.
#[derive(PartialEq, Eq, Debug, Clone, Copy, Structural)]
pub enum DataType {
    INT,
    STRING,
}

/// Why a script was rejected.
#[derive(PartialEq, Eq, Debug, Clone, Copy, Structural)]
pub enum SqlError {
    TableExists,
    TableNotFound,
    ColumnNotFound,
    ParseError,
    ValueParseError,
}

/// A column definition.
#[derive(PartialEq, Debug)]
pub struct Column {
    pub name: String,
    pub data_type: DataType,
    pub size: u32,
    pub nullable: bool,
}

/// The mathematical value of a [`Column`].
pub struct ColumnView {
    pub name: Seq<char>,
    pub data_type: DataType,
    pub size: u32,
    pub nullable: bool,
}

impl DeepView for Column {
    type V = ColumnView;

    open spec fn deep_view(&self) -> ColumnView {
        ColumnView {
            name: self.name@,
            data_type: self.data_type,
            size: self.size,
            nullable: self.nullable,
        }
    }
}

impl Clone for Column {
    fn clone(&self) -> (r: Column)
        ensures
            r.deep_view() == self.deep_view(),
    {
        Column {
            name: self.name.clone(),
            data_type: self.data_type,
            size: self.size,
            nullable: self.nullable,
        }
    }
}

/// One parsed statement.
#[derive(PartialEq, Debug)]
pub enum ASTNode {
    CreateStatement { table_name: String, columns_to_add: Vec<Column> },
    DropStatement { table_name: String },
    SelectStatement { table_name: String, distinct: bool, columns: Vec<String> },
    InsertStatement { table_name: String, columns: Vec<String>, values: Vec<String> },
    ShowTablesStatement,
    AlterTableStatement { table_name: String, columns_to_add: Vec<Column> },
    TruncateTableStatement { table_name: String },
}

/// The mathematical value of an [`ASTNode`].
pub enum StatementView {
    Create { table: Seq<char>, columns_to_add: Seq<ColumnView> },
    Drop { table: Seq<char> },
    Select { table: Seq<char>, distinct: bool, columns: Seq<Seq<char>> },
    Insert { table: Seq<char>, columns: Seq<Seq<char>>, values: Seq<Seq<char>> },
    ShowTables,
    Alter { table: Seq<char>, columns_to_add: Seq<ColumnView> },
    Truncate { table: Seq<char> },
}

impl DeepView for ASTNode {
    type V = StatementView;

    open spec fn deep_view(&self) -> StatementView {
        match self {
            ASTNode::CreateStatement { table_name, columns_to_add } => StatementView::Create {
                table: table_name@,
                columns_to_add: columns_to_add.deep_view(),
            },
            ASTNode::DropStatement { table_name } => StatementView::Drop { table: table_name@ },
            ASTNode::SelectStatement { table_name, distinct, columns } => StatementView::Select {
                table: table_name@,
                distinct: *distinct,
                columns: columns.deep_view(),
            },
            ASTNode::InsertStatement { table_name, columns, values } => StatementView::Insert {
                table: table_name@,
                columns: columns.deep_view(),
                values: values.deep_view(),
            },
            ASTNode::ShowTablesStatement => StatementView::ShowTables,
            ASTNode::AlterTableStatement { table_name, columns_to_add } => StatementView::Alter {
                table: table_name@,
                columns_to_add: columns_to_add.deep_view(),
            },
            ASTNode::TruncateTableStatement { table_name } => StatementView::Truncate {
                table: table_name@,
            },
        }
    }
}

} // verus!
