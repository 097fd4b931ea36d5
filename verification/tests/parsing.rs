use minisql::lexer::tokenize;
use minisql::parser::Parser;
use minisql::syntax::{ASTNode, Column, DataType, SqlError};

fn parse(text: &str) -> Result<Vec<ASTNode>, SqlError> {
    let mut parser = Parser { tokens: Vec::new(), cursor: 0 };
    parser.generate_ast(text.to_string())
}

fn strings(items: &[&str]) -> Vec<String> {
    items.iter().map(|s| s.to_string()).collect()
}

#[test]
fn tokenizes_create_statement() {
    let tokens = tokenize("CREATE TABLE t (a INT);");
    assert_eq!(
        tokens,
        strings(&["CREATE", " ", "TABLE", " ", "t", " ", "(", "a", " ", "INT", ")", ";"])
    );
}

#[test]
fn tokenizer_keeps_every_blank_of_a_run() {
    let tokens = tokenize("SHOW  \tTABLES;");
    assert_eq!(tokens, strings(&["SHOW", " ", " ", "\t", "TABLES", ";"]));
}

#[test]
fn tokenizer_drops_newlines_and_flushes_the_word_before_them() {
    let tokens = tokenize("DROP\nTABLE t\n;\n");
    assert_eq!(tokens, strings(&["DROP", "TABLE", " ", "t", ";"]));
}

#[test]
fn tokenizer_emits_star_and_comma() {
    let tokens = tokenize("SELECT *,a FROM t;");
    assert_eq!(
        tokens,
        strings(&["SELECT", " ", "*", ",", "a", " ", "FROM", " ", "t", ";"])
    );
}

#[test]
fn tokenizer_leaves_out_an_unfinished_last_word() {
    assert_eq!(tokenize("SHOW TABLES"), strings(&["SHOW", " "]));
    assert_eq!(tokenize(""), Vec::<String>::new());
}

#[test]
fn tokenizer_method_agrees_with_function() {
    let parser = Parser::new();
    assert_eq!(
        parser.tokenizer("a,b;".to_string()),
        strings(&["a", ",", "b", ";"])
    );
}

#[test]
fn empty_script_gives_empty_chain() {
    assert_eq!(parse(""), Ok(vec![]));
}

#[test]
fn unrecognized_leading_token_gives_empty_chain() {
    assert_eq!(parse("EXPLAIN TABLE t;"), Ok(vec![]));
    assert_eq!(parse(";"), Ok(vec![]));
}

#[test]
fn trailing_garbage_ends_the_chain() {
    assert_eq!(
        parse("SHOW TABLES;\nnonsense here;"),
        Ok(vec![ASTNode::ShowTablesStatement])
    );
}

#[test]
fn parses_create_table() {
    let chain = parse("CREATE TABLE t (id INT, name VARCHAR(5));").unwrap();
    assert_eq!(
        chain,
        vec![ASTNode::CreateStatement {
            table_name: "t".to_string(),
            columns_to_add: vec![
                Column { name: "id".to_string(), data_type: DataType::INT, size: 0, nullable: false },
                Column {
                    name: "name".to_string(),
                    data_type: DataType::STRING,
                    size: 5,
                    nullable: false
                },
            ],
        }]
    );
}

#[test]
fn rejects_create_table_without_columns() {
    assert_eq!(parse("CREATE TABLE t;"), Err(SqlError::ParseError));
    assert_eq!(parse("CREATE TABLE t ();"), Err(SqlError::ParseError));
    assert_eq!(parse("CREATE TABLE t (a INT,);"), Err(SqlError::ParseError));
}

#[test]
fn parses_varchar_size_with_sign_and_zeros() {
    let chain = parse("CREATE TABLE t (a VARCHAR(+007));").unwrap();
    match &chain[0] {
        ASTNode::CreateStatement { columns_to_add, .. } => assert_eq!(columns_to_add[0].size, 7),
        other => panic!("unexpected node {:?}", other),
    }
    let chain = parse("CREATE TABLE t (a VARCHAR( 5 ));").unwrap();
    match &chain[0] {
        ASTNode::CreateStatement { columns_to_add, .. } => assert_eq!(columns_to_add[0].size, 5),
        other => panic!("unexpected node {:?}", other),
    }
    let chain = parse("CREATE TABLE t (a VARCHAR(4294967295));").unwrap();
    match &chain[0] {
        ASTNode::CreateStatement { columns_to_add, .. } => {
            assert_eq!(columns_to_add[0].size, 4294967295)
        }
        other => panic!("unexpected node {:?}", other),
    }
}

#[test]
fn rejects_bad_varchar_size() {
    assert_eq!(parse("CREATE TABLE t (a VARCHAR(x));"), Err(SqlError::ParseError));
    assert_eq!(parse("CREATE TABLE t (a VARCHAR(-1));"), Err(SqlError::ParseError));
    assert_eq!(parse("CREATE TABLE t (a VARCHAR(4294967296));"), Err(SqlError::ParseError));
    assert_eq!(parse("CREATE TABLE t (a VARCHAR());"), Err(SqlError::ParseError));
}

#[test]
fn rejects_unknown_data_type() {
    assert_eq!(parse("CREATE TABLE t (a FLOAT);"), Err(SqlError::ParseError));
}

#[test]
fn rejects_missing_semicolon_and_missing_keyword() {
    assert_eq!(parse("DROP TABLE t"), Err(SqlError::ParseError));
    assert_eq!(parse("DROP t;"), Err(SqlError::ParseError));
    assert_eq!(parse("SHOW TABLE;"), Err(SqlError::ParseError));
    assert_eq!(parse("INSERT t (a) VALUES (1);"), Err(SqlError::ParseError));
}

#[test]
fn rejects_list_cut_short_by_the_end() {
    assert_eq!(parse("SELECT a, b "), Err(SqlError::ParseError));
    assert_eq!(parse("INSERT INTO t (a, b "), Err(SqlError::ParseError));
    assert_eq!(parse("CREATE TABLE t (a INT, "), Err(SqlError::ParseError));
}

#[test]
fn parses_drop_truncate_show() {
    assert_eq!(
        parse("DROP TABLE a;\nTRUNCATE TABLE b;\nSHOW TABLES;\n"),
        Ok(vec![
            ASTNode::DropStatement { table_name: "a".to_string() },
            ASTNode::TruncateTableStatement { table_name: "b".to_string() },
            ASTNode::ShowTablesStatement,
        ])
    );
}

#[test]
fn parses_alter() {
    assert_eq!(
        parse("ALTER TABLE t ADD extra INT, note VARCHAR(3);"),
        Ok(vec![ASTNode::AlterTableStatement {
            table_name: "t".to_string(),
            columns_to_add: vec![
                Column {
                    name: "extra".to_string(),
                    data_type: DataType::INT,
                    size: 0,
                    nullable: false
                },
                Column {
                    name: "note".to_string(),
                    data_type: DataType::STRING,
                    size: 3,
                    nullable: false
                },
            ],
        }])
    );
}

#[test]
fn parses_insert() {
    assert_eq!(
        parse("INSERT INTO t (id, name) VALUES (1, helloworld);"),
        Ok(vec![ASTNode::InsertStatement {
            table_name: "t".to_string(),
            columns: strings(&["id", "name"]),
            values: strings(&["1", "helloworld"]),
        }])
    );
}

#[test]
fn parses_select_forms() {
    assert_eq!(
        parse("SELECT * FROM t;\nSELECT DISTINCT a, b FROM t;\nSELECT a,a FROM u;"),
        Ok(vec![
            ASTNode::SelectStatement {
                table_name: "t".to_string(),
                distinct: false,
                columns: strings(&["*"]),
            },
            ASTNode::SelectStatement {
                table_name: "t".to_string(),
                distinct: true,
                columns: strings(&["a", "b"]),
            },
            ASTNode::SelectStatement {
                table_name: "u".to_string(),
                distinct: false,
                columns: strings(&["a", "a"]),
            },
        ])
    );
}

#[test]
fn cursor_stays_on_the_last_token() {
    let mut parser = Parser { tokens: strings(&["a", "b"]), cursor: 0 };
    parser.next();
    assert_eq!(parser.cursor, 1);
    parser.next();
    assert_eq!(parser.cursor, 1);
    assert_eq!(parser.current(), "b");
    assert!(parser.accept(&"b".to_string()));
    assert_eq!(parser.expect(&"a".to_string()), Err(SqlError::ParseError));
    assert_eq!(parser.expect(&"b".to_string()), Ok(()));
}

#[test]
fn indentation_is_passed_over_whole() {
    let mut parser = Parser { tokens: strings(&[" ", "\t", " ", "x", "y"]), cursor: 0 };
    parser.accept_indentation();
    assert_eq!(parser.cursor, 3);
    parser.accept_indentation();
    assert_eq!(parser.cursor, 3);
    let mut parser = Parser { tokens: strings(&["x", " ", " "]), cursor: 1 };
    parser.accept_indentation();
    assert_eq!(parser.cursor, 2);
}

#[test]
fn parses_one_column_definition() {
    let mut parser =
        Parser { tokens: strings(&["name", " ", "VARCHAR", "(", "12", ")", ","]), cursor: 0 };
    assert_eq!(
        parser.parseNewColumn(),
        Ok(Column { name: "name".to_string(), data_type: DataType::STRING, size: 12, nullable: false })
    );
    assert_eq!(parser.cursor, 6);
}

#[test]
fn rejects_a_delimiter_where_a_name_is_required() {
    assert_eq!(parse("DROP TABLE ;"), Err(SqlError::ParseError));
    assert_eq!(parse("DROP TABLE;"), Err(SqlError::ParseError));
    assert_eq!(parse("TRUNCATE TABLE *;"), Err(SqlError::ParseError));
    assert_eq!(parse("SELECT a FROM ;"), Err(SqlError::ParseError));
    assert_eq!(parse("INSERT INTO (a) VALUES (1);"), Err(SqlError::ParseError));
    assert_eq!(parse("CREATE TABLE t (, INT);"), Err(SqlError::ParseError));
    assert_eq!(parse("INSERT INTO t (a) VALUES (*);"), Err(SqlError::ParseError));
}

#[test]
fn broken_later_statement_rejects_the_script() {
    assert_eq!(parse("SHOW TABLES;\nDROP t;"), Err(SqlError::ParseError));
    assert_eq!(parse("CREATE TABLE t (a INT);\nSELECT a FROM t"), Err(SqlError::ParseError));
}

#[test]
fn parse_with_cursor_behind_the_tokens_gives_empty_chain() {
    let mut parser = Parser { tokens: strings(&["SHOW", " ", "TABLES", ";"]), cursor: 9 };
    assert_eq!(parser.parse(), Ok(vec![]));
    let mut parser = Parser { tokens: strings(&["SHOW", " ", "TABLES", ";"]), cursor: 0 };
    assert_eq!(parser.parse(), Ok(vec![ASTNode::ShowTablesStatement]));
}

#[test]
fn generate_ast_keeps_the_tokens_and_starts_at_the_first() {
    let mut parser = Parser { tokens: strings(&["x"]), cursor: 7 };
    assert_eq!(
        parser.generate_ast("TRUNCATE TABLE t;".to_string()),
        Ok(vec![ASTNode::TruncateTableStatement { table_name: "t".to_string() }])
    );
    assert_eq!(parser.tokens, strings(&["TRUNCATE", " ", "TABLE", " ", "t", ";"]));
}

#[test]
fn blanks_around_commas_and_brackets_carry_no_weight() {
    assert_eq!(
        parse("INSERT  INTO t ( a , b )  VALUES ( 1 ,\t2 ) ;"),
        Ok(vec![ASTNode::InsertStatement {
            table_name: "t".to_string(),
            columns: strings(&["a", "b"]),
            values: strings(&["1", "2"]),
        }])
    );
    assert_eq!(
        parse("CREATE TABLE t ( a  INT , b VARCHAR ( 5 ) ) ;"),
        parse("CREATE TABLE t (a INT,b VARCHAR(5));")
    );
    assert!(parse("CREATE TABLE t ( a  INT , b VARCHAR ( 5 ) ) ;").is_ok());
}

#[test]
fn run_of_blanks_between_keywords_is_accepted() {
    assert_eq!(
        parse("DROP  TABLE t;"),
        Ok(vec![ASTNode::DropStatement { table_name: "t".to_string() }])
    );
    assert_eq!(parse("SHOW \t TABLES  ;"), Ok(vec![ASTNode::ShowTablesStatement]));
}

#[test]
fn blanks_between_statements_are_passed_over() {
    assert_eq!(
        parse("SHOW TABLES;  DROP TABLE t; "),
        Ok(vec![
            ASTNode::ShowTablesStatement,
            ASTNode::DropStatement { table_name: "t".to_string() },
        ])
    );
}

#[test]
fn rejects_list_without_commas_or_without_items() {
    assert_eq!(parse("CREATE TABLE t (a INT b INT);"), Err(SqlError::ParseError));
    assert_eq!(parse("SELECT a b FROM t;"), Err(SqlError::ParseError));
    assert_eq!(parse("SELECT FROM t;"), Err(SqlError::ParseError));
    assert_eq!(parse("SELECT a, FROM t;"), Err(SqlError::ParseError));
    assert_eq!(parse("INSERT INTO t () VALUES ();"), Err(SqlError::ParseError));
    assert_eq!(parse("INSERT INTO t (a) VALUES (1 2);"), Err(SqlError::ParseError));
}

#[test]
fn parse_leaves_the_cursor_on_the_first_token_that_opens_no_statement() {
    let mut parser = Parser { tokens: strings(&["FOO"]), cursor: 0 };
    assert_eq!(parser.parse(), Ok(vec![]));
    assert_eq!(parser.cursor, 0);
    assert_eq!(parser.tokens, strings(&["FOO"]));
    let mut parser = Parser { tokens: strings(&[" ", "SHOW", " ", "TABLES", ";"]), cursor: 0 };
    assert_eq!(parser.parse(), Ok(vec![]));
    assert_eq!(parser.cursor, 0);
    let mut parser = Parser::new();
    assert_eq!(
        parser.generate_ast("SHOW TABLES; FOO BAR;".to_string()),
        Ok(vec![ASTNode::ShowTablesStatement])
    );
    assert_eq!(parser.cursor, 5);
    assert_eq!(parser.current(), "FOO");
}

#[test]
fn select_accepts_blank_before_comma() {
    assert_eq!(
        parse("SELECT a , b FROM t;"),
        Ok(vec![ASTNode::SelectStatement {
            table_name: "t".to_string(),
            distinct: false,
            columns: strings(&["a", "b"]),
        }])
    );
}

#[test]
fn rejects_alter_without_columns() {
    assert_eq!(parse("ALTER TABLE t ADD;"), Err(SqlError::ParseError));
    assert_eq!(parse("ALTER TABLE t ADD ;"), Err(SqlError::ParseError));
    assert_eq!(parse("ALTER TABLE t extra INT;"), Err(SqlError::ParseError));
}
