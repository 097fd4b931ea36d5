use minisql::database::Database;
use minisql::executor::Output;
use minisql::listing::TableSummary;
use minisql::parser::Parser;
use minisql::select::Selection;
use minisql::storage::{Cell, Table};
use minisql::syntax::{Column, DataType, SqlError};

fn strings(items: &[&str]) -> Vec<String> {
    items.iter().map(|s| s.to_string()).collect()
}

fn run(db: &mut Database, script: &str) -> Result<Vec<Output>, SqlError> {
    let mut parser = Parser { tokens: Vec::new(), cursor: 0 };
    let chain = parser.generate_ast(script.to_string())?;
    let mut outputs = Vec::new();
    for node in chain {
        outputs.push(db.execute(node)?);
    }
    Ok(outputs)
}

fn rows_of(output: &Output) -> &Selection {
    match output {
        Output::Rows(found) => found,
        other => panic!("expected rows, got {:?}", other),
    }
}

fn int_of(cell: &Cell) -> i32 {
    match cell {
        Cell::INT(value, _, _) => *value,
        other => panic!("expected an integer cell, got {:?}", other),
    }
}

fn text_of(cell: &Cell) -> &str {
    match cell {
        Cell::STRING(value, _, _) => value.as_str(),
        other => panic!("expected a text cell, got {:?}", other),
    }
}

#[test]
fn insert_truncates_text_and_select_returns_it() {
    let mut db = Database::new();
    let out = run(
        &mut db,
        "CREATE TABLE t (id INT, name VARCHAR(5));\nINSERT INTO t (id, name) VALUES (1, helloworld);\nSELECT * FROM t;\n",
    )
    .unwrap();
    assert_eq!(out.len(), 3);
    let found = rows_of(&out[2]);
    assert_eq!(found.headers, strings(&["id", "name"]));
    assert_eq!(found.rows.len(), 1);
    assert_eq!(int_of(&found.rows[0][0]), 1);
    assert_eq!(text_of(&found.rows[0][1]), "hello");
    let table = db.get_table("t".to_string()).unwrap();
    assert_eq!(table.row_count, 1);
    match &table.rows[0][1] {
        Cell::STRING(value, size, nullable) => {
            assert_eq!(value, "hello");
            assert_eq!(*size, 5);
            assert!(!*nullable);
        }
        other => panic!("unexpected cell {:?}", other),
    }
}

#[test]
fn text_is_cut_by_characters_not_bytes() {
    let mut db = Database::new();
    run(&mut db, "CREATE TABLE t (name VARCHAR(2));").unwrap();
    db.insert_into_table("t".to_string(), strings(&["name"]), strings(&["h\u{e9}llo"])).unwrap();
    db.insert_into_table("t".to_string(), strings(&["name"]), strings(&["\u{e9}\u{e9}"])).unwrap();
    let table = db.get_table("t".to_string()).unwrap();
    assert_eq!(text_of(&table.rows[0][0]), "h\u{e9}");
    assert_eq!(text_of(&table.rows[1][0]), "\u{e9}\u{e9}");
}

#[test]
fn non_numeric_value_for_integer_column_is_rejected() {
    let mut db = Database::new();
    run(&mut db, "CREATE TABLE t (id INT);").unwrap();
    assert_eq!(run(&mut db, "INSERT INTO t (id) VALUES (abc);").err(), Some(SqlError::ValueParseError));
    assert_eq!(db.get_table("t".to_string()).unwrap().rows.len(), 0);
    assert_eq!(db.get_table("t".to_string()).unwrap().row_count, 0);
}

#[test]
fn integer_values_at_the_limits() {
    let mut db = Database::new();
    run(&mut db, "CREATE TABLE t (id INT);").unwrap();
    for (text, value) in
        [("2147483647", i32::MAX), ("-2147483648", i32::MIN), ("+17", 17), ("-0", 0), ("0042", 42)]
    {
        db.insert_into_table("t".to_string(), strings(&["id"]), strings(&[text])).unwrap();
        let table = db.get_table("t".to_string()).unwrap();
        assert_eq!(int_of(&table.rows[table.rows.len() - 1][0]), value);
    }
    for text in ["2147483648", "-2147483649", "", "+", "-", "1 ", "1.5", "0x10"] {
        assert_eq!(
            db.insert_into_table("t".to_string(), strings(&["id"]), strings(&[text])),
            Err(SqlError::ValueParseError)
        );
    }
    assert_eq!(db.get_table("t".to_string()).unwrap().row_count, 5);
}

#[test]
fn missing_value_is_rejected() {
    let mut db = Database::new();
    run(&mut db, "CREATE TABLE t (a INT, b INT);").unwrap();
    assert_eq!(
        db.insert_into_table("t".to_string(), strings(&["a", "b"]), strings(&["1"])),
        Err(SqlError::ValueParseError)
    );
}

#[test]
fn insert_pairs_values_by_list_position() {
    let mut db = Database::new();
    run(&mut db, "CREATE TABLE t (a INT, b VARCHAR(4));\nINSERT INTO t (b, a) VALUES (xy, 7);")
        .unwrap();
    let table = db.get_table("t".to_string()).unwrap();
    assert_eq!(int_of(&table.rows[0][0]), 7);
    assert_eq!(text_of(&table.rows[0][1]), "xy");
}

#[test]
fn insert_with_omitted_column_gives_short_row() {
    let mut db = Database::new();
    run(&mut db, "CREATE TABLE t (a INT, b INT);\nINSERT INTO t (b) VALUES (3);").unwrap();
    let table = db.get_table("t".to_string()).unwrap();
    assert_eq!(table.rows[0].len(), 1);
    assert_eq!(int_of(&table.rows[0][0]), 3);
}

#[test]
fn insert_into_unknown_table_or_column_is_rejected() {
    let mut db = Database::new();
    assert_eq!(run(&mut db, "INSERT INTO t (a) VALUES (1);").err(), Some(SqlError::TableNotFound));
    run(&mut db, "CREATE TABLE t (a INT);").unwrap();
    assert_eq!(run(&mut db, "INSERT INTO t (a, zz) VALUES (1, 2);").err(), Some(SqlError::ColumnNotFound));
    assert_eq!(db.get_table("t".to_string()).unwrap().rows.len(), 0);
}

#[test]
fn create_existing_table_is_rejected() {
    let mut db = Database::new();
    run(&mut db, "CREATE TABLE t (a INT);").unwrap();
    assert_eq!(run(&mut db, "CREATE TABLE t (b INT);").err(), Some(SqlError::TableExists));
    assert_eq!(db.get_table("t".to_string()).unwrap().columns[0].name, "a");
}

#[test]
fn select_distinct_keeps_first_of_equal_rows() {
    let mut db = Database::new();
    let out = run(
        &mut db,
        "CREATE TABLE t (a INT, b VARCHAR(3));\n\
         INSERT INTO t (a, b) VALUES (1, x);\n\
         INSERT INTO t (a, b) VALUES (2, x);\n\
         INSERT INTO t (a, b) VALUES (1, x);\n\
         INSERT INTO t (a, b) VALUES (1, y);\n\
         SELECT DISTINCT a, b FROM t;\n\
         SELECT DISTINCT b FROM t;\n\
         SELECT a, b FROM t;\n",
    )
    .unwrap();
    let both = rows_of(&out[5]);
    assert_eq!(both.rows.len(), 3);
    assert_eq!(int_of(&both.rows[0][0]), 1);
    assert_eq!(text_of(&both.rows[0][1]), "x");
    assert_eq!(int_of(&both.rows[1][0]), 2);
    assert_eq!(text_of(&both.rows[1][1]), "x");
    assert_eq!(int_of(&both.rows[2][0]), 1);
    assert_eq!(text_of(&both.rows[2][1]), "y");
    let only_b = rows_of(&out[6]);
    assert_eq!(only_b.rows.len(), 2);
    assert_eq!(text_of(&only_b.rows[0][0]), "x");
    assert_eq!(text_of(&only_b.rows[1][0]), "y");
    assert_eq!(rows_of(&out[7]).rows.len(), 4);
}

#[test]
fn select_repeats_a_column_named_twice_and_expands_the_wildcard() {
    let mut db = Database::new();
    let out = run(
        &mut db,
        "CREATE TABLE t (a INT, b INT);\nINSERT INTO t (a, b) VALUES (1, 2);\nSELECT b, *, b FROM t;",
    )
    .unwrap();
    let found = rows_of(&out[2]);
    assert_eq!(found.headers, strings(&["b", "a", "b", "b"]));
    let row: Vec<i32> = found.rows[0].iter().map(int_of).collect();
    assert_eq!(row, vec![2, 1, 2, 2]);
}

#[test]
fn select_strips_size_and_nullability() {
    let mut db = Database::new();
    let out = run(
        &mut db,
        "CREATE TABLE t (b VARCHAR(9));\nINSERT INTO t (b) VALUES (abc);\nSELECT b FROM t;",
    )
    .unwrap();
    match &rows_of(&out[2]).rows[0][0] {
        Cell::STRING(value, size, nullable) => {
            assert_eq!(value, "abc");
            assert_eq!(*size, 0);
            assert!(!*nullable);
        }
        other => panic!("unexpected cell {:?}", other),
    }
}

#[test]
fn select_unknown_table_or_column_is_rejected() {
    let mut db = Database::new();
    assert_eq!(run(&mut db, "SELECT * FROM t;").err(), Some(SqlError::TableNotFound));
    run(&mut db, "CREATE TABLE t (a INT);").unwrap();
    assert_eq!(run(&mut db, "SELECT a, nope FROM t;").err(), Some(SqlError::ColumnNotFound));
}

#[test]
fn alter_widens_the_rows_of_every_table() {
    let mut db = Database::new();
    run(
        &mut db,
        "CREATE TABLE t (a INT);\nINSERT INTO t (a) VALUES (1);\n",
    )
    .unwrap();
    db.create_table("u".to_string());
    let slot = db.find(&"u".to_string());
    db.tables[slot].insert_row(vec![Cell::INT(9, 0, false)]);
    run(&mut db, "ALTER TABLE t ADD extra INT;\nALTER TABLE t ADD note VARCHAR(4);").unwrap();
    let t = db.get_table("t".to_string()).unwrap();
    assert_eq!(t.columns.len(), 3);
    assert_eq!(t.rows[0].len(), 3);
    assert_eq!(int_of(&t.rows[0][1]), 0);
    match &t.rows[0][2] {
        Cell::STRING(value, size, _) => {
            assert_eq!(value, "");
            assert_eq!(*size, 4);
        }
        other => panic!("unexpected cell {:?}", other),
    }
    let u = db.get_table("u".to_string()).unwrap();
    assert_eq!(u.columns.len(), 0);
    assert_eq!(u.rows[0].len(), 3);
    assert_eq!(int_of(&u.rows[0][1]), 0);
    assert_eq!(text_of(&u.rows[0][2]), "");
}

#[test]
fn alter_unknown_table_is_rejected() {
    let mut db = Database::new();
    assert_eq!(run(&mut db, "ALTER TABLE t ADD extra INT;").err(), Some(SqlError::TableNotFound));
}

#[test]
fn dropped_table_is_gone() {
    let mut db = Database::new();
    run(&mut db, "CREATE TABLE t (a INT);\nCREATE TABLE u (a INT);\nDROP TABLE t;").unwrap();
    assert_eq!(run(&mut db, "SELECT * FROM t;").err(), Some(SqlError::TableNotFound));
    assert_eq!(run(&mut db, "INSERT INTO t (a) VALUES (1);").err(), Some(SqlError::TableNotFound));
    assert_eq!(run(&mut db, "DROP TABLE t;").err(), Some(SqlError::TableNotFound));
    assert_eq!(run(&mut db, "TRUNCATE TABLE t;").err(), Some(SqlError::TableNotFound));
    assert!(db.get_table("t".to_string()).is_none());
    let listing = db.describe_tables();
    assert_eq!(
        listing,
        vec![TableSummary { name: "u".to_string(), row_count: 0, column_count: 1 }]
    );
}

#[test]
fn truncate_clears_rows_and_keeps_columns() {
    let mut db = Database::new();
    run(
        &mut db,
        "CREATE TABLE t (a INT);\nINSERT INTO t (a) VALUES (1);\nINSERT INTO t (a) VALUES (2);\nTRUNCATE TABLE t;",
    )
    .unwrap();
    let t = db.get_table("t".to_string()).unwrap();
    assert_eq!(t.rows.len(), 0);
    assert_eq!(t.row_count, 0);
    assert_eq!(t.columns.len(), 1);
}

#[test]
fn show_tables_lists_in_order_of_names() {
    let mut db = Database::new();
    let out = run(
        &mut db,
        "CREATE TABLE b (x INT, y INT);\nCREATE TABLE a (x INT);\nCREATE TABLE B (z INT);\nCREATE TABLE ab (z INT);\n\
         INSERT INTO a (x) VALUES (5);\nSHOW TABLES;",
    )
    .unwrap();
    match &out[5] {
        Output::Tables(lines) => assert_eq!(
            lines,
            &vec![
                TableSummary { name: "B".to_string(), row_count: 0, column_count: 1 },
                TableSummary { name: "a".to_string(), row_count: 1, column_count: 1 },
                TableSummary { name: "ab".to_string(), row_count: 0, column_count: 1 },
                TableSummary { name: "b".to_string(), row_count: 0, column_count: 2 },
            ]
        ),
        other => panic!("expected a listing, got {:?}", other),
    }
}

#[test]
fn rows_are_as_wide_as_the_columns_without_alter() {
    let mut db = Database::new();
    run(
        &mut db,
        "CREATE TABLE t (a INT, b VARCHAR(2), c INT);\n\
         INSERT INTO t (a, b, c) VALUES (1, xx, 2);\n\
         INSERT INTO t (c, a, b) VALUES (3, 4, yyyy);\n",
    )
    .unwrap();
    let t = db.get_table("t".to_string()).unwrap();
    assert_eq!(t.rows.len(), 2);
    for row in &t.rows {
        assert_eq!(row.len(), t.columns.len());
    }
}

#[test]
fn cells_compare_by_kind_and_value_only() {
    let db = Database::new();
    assert!(db.compareEqCells(&Cell::INT(3, 0, false), &Cell::INT(3, 8, true)));
    assert!(!db.compareEqCells(&Cell::INT(3, 0, false), &Cell::INT(4, 0, false)));
    assert!(db.compareEqCells(
        &Cell::STRING("a".to_string(), 1, false),
        &Cell::STRING("a".to_string(), 5, true)
    ));
    assert!(!db.compareEqCells(
        &Cell::STRING("3".to_string(), 0, false),
        &Cell::INT(3, 0, false)
    ));
    assert!(!db.compareEqCells(
        &Cell::INT(3, 0, false),
        &Cell::STRING("3".to_string(), 0, false)
    ));
}

#[test]
fn table_rows_can_be_inserted_and_deleted() {
    let mut table = Table::new();
    table.insert_row(vec![Cell::INT(1, 0, false)]);
    table.insert_row(vec![Cell::INT(2, 0, false)]);
    table.insert_row(vec![Cell::INT(3, 0, false)]);
    assert_eq!(table.row_count, 3);
    table.delete_row(1);
    assert_eq!(table.row_count, 2);
    assert_eq!(int_of(&table.rows[0][0]), 1);
    assert_eq!(int_of(&table.rows[1][0]), 3);
}

#[test]
fn find_column_gives_the_first_of_that_name() {
    let mut table = Table::new();
    table.push_column(Column { name: "a".to_string(), data_type: DataType::INT, size: 0, nullable: false });
    table.push_column(Column { name: "b".to_string(), data_type: DataType::STRING, size: 3, nullable: false });
    table.push_column(Column { name: "b".to_string(), data_type: DataType::INT, size: 0, nullable: false });
    assert_eq!(table.find_column("b".to_string()).unwrap().size, 3);
    assert!(table.find_column("c".to_string()).is_none());
}

#[test]
fn create_table_replaces_and_drop_table_ignores_absence() {
    let mut db = Database::new();
    db.create_table("t".to_string());
    db.add_table_column(
        "t".to_string(),
        Column { name: "a".to_string(), data_type: DataType::INT, size: 0, nullable: false },
    )
    .unwrap();
    db.create_table("t".to_string());
    assert_eq!(db.get_table("t".to_string()).unwrap().columns.len(), 0);
    db.drop_table("nothing".to_string());
    assert_eq!(db.names.len(), 1);
    assert_eq!(
        db.add_table_column(
            "nothing".to_string(),
            Column { name: "a".to_string(), data_type: DataType::INT, size: 0, nullable: false },
        ),
        Err(SqlError::TableNotFound)
    );
}

#[test]
fn select_skips_positions_behind_the_end_of_a_short_row() {
    let mut db = Database::new();
    let out = run(
        &mut db,
        "CREATE TABLE t (a INT, b INT);\nINSERT INTO t (a) VALUES (1);\nINSERT INTO t (a, b) VALUES (2, 3);\nSELECT b, a FROM t;\nSELECT DISTINCT a FROM t;",
    )
    .unwrap();
    let found = rows_of(&out[3]);
    assert_eq!(found.headers, strings(&["b", "a"]));
    assert_eq!(found.rows[0].iter().map(int_of).collect::<Vec<i32>>(), vec![1]);
    assert_eq!(found.rows[1].iter().map(int_of).collect::<Vec<i32>>(), vec![3, 2]);
    assert_eq!(rows_of(&out[4]).rows.len(), 2);
}

#[test]
fn distinct_tells_rows_of_different_width_apart() {
    let rows = vec![
        vec![Cell::INT(1, 0, false)],
        vec![Cell::INT(1, 0, false), Cell::INT(1, 0, false)],
        vec![Cell::INT(1, 4, true)],
        vec![],
        vec![],
    ];
    let kept = minisql::select::distinct_rows(rows);
    assert_eq!(kept.len(), 3);
    assert_eq!(kept[0].len(), 1);
    assert_eq!(kept[1].len(), 2);
    assert_eq!(kept[2].len(), 0);
}

#[test]
fn create_with_columns_widens_rows_of_other_tables() {
    let mut db = Database::new();
    run(
        &mut db,
        "CREATE TABLE a (x INT);\nINSERT INTO a (x) VALUES (1);\nCREATE TABLE b (y INT);",
    )
    .unwrap();
    let a = db.get_table("a".to_string()).unwrap();
    assert_eq!(a.columns.len(), 1);
    assert_eq!(a.rows[0].len(), 2);
}

#[test]
fn alter_of_unknown_table_is_rejected_whatever_its_columns() {
    let mut db = Database::new();
    let node = minisql::syntax::ASTNode::AlterTableStatement {
        table_name: "t".to_string(),
        columns_to_add: vec![],
    };
    assert_eq!(db.execute(node).err(), Some(SqlError::TableNotFound));
    db.create_table("t".to_string());
    let node = minisql::syntax::ASTNode::AlterTableStatement {
        table_name: "t".to_string(),
        columns_to_add: vec![],
    };
    assert!(matches!(db.execute(node), Ok(Output::Done)));
    assert_eq!(db.get_table("t".to_string()).unwrap().columns.len(), 0);
}

#[test]
fn indented_script_runs() {
    let mut db = Database::new();
    let out = run(
        &mut db,
        "CREATE  TABLE t ( id INT , name VARCHAR ( 3 ) ) ;\n  INSERT INTO t ( id , name ) VALUES ( 7 , abcdef ) ;\n\tSELECT  name , id  FROM  t ;\n",
    )
    .unwrap();
    assert_eq!(out.len(), 3);
    let found = rows_of(&out[2]);
    assert_eq!(found.headers, strings(&["name", "id"]));
    assert_eq!(text_of(&found.rows[0][0]), "abc");
    assert_eq!(int_of(&found.rows[0][1]), 7);
}
