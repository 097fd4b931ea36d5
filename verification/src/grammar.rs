use vstd::prelude::*;
use crate::lexer::is_delimiter;
use crate::numeric::decimal_u32;
use crate::syntax::{ColumnView, DataType, StatementView};

verus! {

/// The cursor after one step forward: it never leaves the last token.
pub open spec fn advance(t: Seq<Seq<char>>, c: int) -> int {
    if c + 1 < t.len() {
        c + 1
    } else {
        c
    }
}

/// Whether a token is a space or a tab.
pub open spec fn is_blank(tok: Seq<char>) -> bool {
    tok == " "@ || tok == "\t"@
}

/// The cursor after every blank at it has been passed over. Blanks carry no weight: the
/// grammar passes over them between any two of its tokens.
pub open spec fn skip_blank(t: Seq<Seq<char>>, c: int) -> int
    decreases t.len() - c,
{
    if 0 <= c && c + 1 < t.len() && is_blank(t[c]) {
        skip_blank(t, c + 1)
    } else {
        c
    }
}

/// One step forward, then the blanks there passed over.
pub open spec fn step(t: Seq<Seq<char>>, c: int) -> int {
    skip_blank(t, advance(t, c))
}

/// Whether a token can be a name or a value: it has a character and is no single
/// delimiter.
pub open spec fn is_name(tok: Seq<char>) -> bool {
    tok.len() > 0 && !(tok.len() == 1 && is_delimiter(tok[0]))
}

/// A column definition at `c`: a name, then `INT` or `VARCHAR ( n )`.
pub open spec fn column_at(t: Seq<Seq<char>>, c: int) -> Option<(ColumnView, int)> {
    let name = t[c];
    let c1 = step(t, c);
    if !is_name(name) {
        None
    } else if t[c1] == "INT"@ {
        Some((ColumnView { name, data_type: DataType::INT, size: 0, nullable: false }, step(t, c1)))
    } else if t[c1] == "VARCHAR"@ {
        let c2 = step(t, c1);
        let c3 = step(t, c2);
        let c4 = step(t, c3);
        match decimal_u32(t[c3]) {
            Some(size) if t[c2] == "("@ && t[c4] == ")"@ => Some(
                (
                    ColumnView { name, data_type: DataType::STRING, size, nullable: false },
                    step(t, c4),
                ),
            ),
            _ => None,
        }
    } else {
        None
    }
}

/// One or more column definitions from `c` on, with a comma between each two, up to the
/// token `stop`, added to `acc`; the cursor is left on `stop`.
pub open spec fn column_list(
    t: Seq<Seq<char>>,
    c: int,
    stop: Seq<char>,
    acc: Seq<ColumnView>,
) -> Option<(Seq<ColumnView>, int)>
    decreases t.len() - c,
{
    if !(0 <= c < t.len()) {
        None
    } else {
        match column_at(t, c) {
            None => None,
            Some((column, c1)) => {
                let c2 = step(t, c1);
                if t[c1] == stop {
                    Some((acc.push(column), c1))
                } else if t[c1] == ","@ && c < c2 < t.len() {
                    column_list(t, c2, stop, acc.push(column))
                } else {
                    None
                }
            },
        }
    }
}

/// Whether a token can stand in a list of words: a name, or the wildcard where the list
/// takes it.
pub open spec fn is_item(tok: Seq<char>, wildcard: bool) -> bool {
    is_name(tok) || (wildcard && tok == "*"@)
}

/// One or more words from `c` on, with a comma between each two, up to the token `stop`,
/// added to `acc`; the cursor is left on `stop`.
pub open spec fn word_list(
    t: Seq<Seq<char>>,
    c: int,
    stop: Seq<char>,
    wildcard: bool,
    acc: Seq<Seq<char>>,
) -> Option<(Seq<Seq<char>>, int)>
    decreases t.len() - c,
{
    if !(0 <= c < t.len()) || !is_item(t[c], wildcard) {
        None
    } else {
        let c1 = step(t, c);
        let c2 = step(t, c1);
        if t[c1] == stop {
            Some((acc.push(t[c]), c1))
        } else if t[c1] == ","@ && c < c2 < t.len() {
            word_list(t, c2, stop, wildcard, acc.push(t[c]))
        } else {
            None
        }
    }
}

/// The closing `;` at `c`, which completes `node`; the blanks behind it are passed over.
pub open spec fn finish(t: Seq<Seq<char>>, c: int, node: StatementView) -> Option<
    (StatementView, int),
> {
    if t[c] == ";"@ {
        Some((node, step(t, c)))
    } else {
        None
    }
}

/// `KEYWORD TABLE name` at `c`: the name and the cursor behind it.
pub open spec fn table_clause(t: Seq<Seq<char>>, c: int, keyword: Seq<char>) -> Option<
    (Seq<char>, int),
> {
    let c1 = step(t, c);
    let c2 = step(t, c1);
    if t[c] == keyword && t[c1] == "TABLE"@ && is_name(t[c2]) {
        Some((t[c2], step(t, c2)))
    } else {
        None
    }
}

/// `CREATE TABLE name ( column, ... ) ;`
pub open spec fn create_at(t: Seq<Seq<char>>, c: int) -> Option<(StatementView, int)> {
    match table_clause(t, c, "CREATE"@) {
        None => None,
        Some((table, c1)) => if t[c1] == "("@ {
            match column_list(t, step(t, c1), ")"@, Seq::empty()) {
                None => None,
                Some((columns, c2)) => finish(
                    t,
                    step(t, c2),
                    StatementView::Create { table, columns_to_add: columns },
                ),
            }
        } else {
            None
        },
    }
}

/// `DROP TABLE name ;`
pub open spec fn drop_at(t: Seq<Seq<char>>, c: int) -> Option<(StatementView, int)> {
    match table_clause(t, c, "DROP"@) {
        None => None,
        Some((table, c1)) => finish(t, c1, StatementView::Drop { table }),
    }
}

/// `TRUNCATE TABLE name ;`
pub open spec fn truncate_at(t: Seq<Seq<char>>, c: int) -> Option<(StatementView, int)> {
    match table_clause(t, c, "TRUNCATE"@) {
        None => None,
        Some((table, c1)) => finish(t, c1, StatementView::Truncate { table }),
    }
}

/// `ALTER TABLE name ADD column, ... ;`
pub open spec fn alter_at(t: Seq<Seq<char>>, c: int) -> Option<(StatementView, int)> {
    match table_clause(t, c, "ALTER"@) {
        None => None,
        Some((table, c1)) => if t[c1] == "ADD"@ {
            match column_list(t, step(t, c1), ";"@, Seq::empty()) {
                None => None,
                Some((columns, c2)) => finish(
                    t,
                    c2,
                    StatementView::Alter { table, columns_to_add: columns },
                ),
            }
        } else {
            None
        },
    }
}

/// `SHOW TABLES ;`
pub open spec fn show_at(t: Seq<Seq<char>>, c: int) -> Option<(StatementView, int)> {
    let c1 = step(t, c);
    if t[c] == "SHOW"@ && t[c1] == "TABLES"@ {
        finish(t, step(t, c1), StatementView::ShowTables)
    } else {
        None
    }
}

/// `SELECT [DISTINCT] word, ... FROM name ;`, where a word may be the wildcard.
pub open spec fn select_at(t: Seq<Seq<char>>, c: int) -> Option<(StatementView, int)> {
    let c1 = step(t, c);
    let distinct = t[c1] == "DISTINCT"@;
    let c2 = if distinct {
        step(t, c1)
    } else {
        c1
    };
    if t[c] == "SELECT"@ {
        match word_list(t, c2, "FROM"@, true, Seq::empty()) {
            None => None,
            Some((columns, c3)) => {
                let c4 = step(t, c3);
                if is_name(t[c4]) {
                    finish(t, step(t, c4), StatementView::Select { table: t[c4], distinct, columns })
                } else {
                    None
                }
            },
        }
    } else {
        None
    }
}

/// `INSERT INTO name ( word, ... ) VALUES ( word, ... ) ;`
pub open spec fn insert_at(t: Seq<Seq<char>>, c: int) -> Option<(StatementView, int)> {
    let c1 = step(t, c);
    let c2 = step(t, c1);
    let c3 = step(t, c2);
    if t[c] == "INSERT"@ && t[c1] == "INTO"@ && is_name(t[c2]) && t[c3] == "("@ {
        match word_list(t, step(t, c3), ")"@, false, Seq::empty()) {
            None => None,
            Some((columns, c4)) => {
                let c5 = step(t, c4);
                let c6 = step(t, c5);
                if t[c5] == "VALUES"@ && t[c6] == "("@ {
                    match word_list(t, step(t, c6), ")"@, false, Seq::empty()) {
                        None => None,
                        Some((values, c7)) => finish(
                            t,
                            step(t, c7),
                            StatementView::Insert { table: t[c2], columns, values },
                        ),
                    }
                } else {
                    None
                }
            },
        }
    } else {
        None
    }
}

/// Whether a token opens one of the seven statements.
pub open spec fn opens_statement(tok: Seq<char>) -> bool {
    tok == "CREATE"@ || tok == "SHOW"@ || tok == "SELECT"@ || tok == "INSERT"@ || tok == "DROP"@
        || tok == "ALTER"@ || tok == "TRUNCATE"@
}

/// The statement that begins at `c`, chosen by its first token.
pub open spec fn statement_at(t: Seq<Seq<char>>, c: int) -> Option<(StatementView, int)> {
    if t[c] == "CREATE"@ {
        create_at(t, c)
    } else if t[c] == "SHOW"@ {
        show_at(t, c)
    } else if t[c] == "SELECT"@ {
        select_at(t, c)
    } else if t[c] == "INSERT"@ {
        insert_at(t, c)
    } else if t[c] == "DROP"@ {
        drop_at(t, c)
    } else if t[c] == "ALTER"@ {
        alter_at(t, c)
    } else {
        truncate_at(t, c)
    }
}

/// The statements from `c` on, added to `acc`. A token that opens no statement ends the
/// script; a statement that breaks the grammar rejects all of it.
pub open spec fn statements(t: Seq<Seq<char>>, c: int, acc: Seq<StatementView>) -> Option<
    Seq<StatementView>,
>
    decreases t.len() - c,
{
    if !(0 <= c < t.len()) || !opens_statement(t[c]) {
        Some(acc)
    } else {
        match statement_at(t, c) {
            None => None,
            Some((node, c1)) => {
                if c < c1 < t.len() {
                    statements(t, c1, acc.push(node))
                } else {
                    None
                }
            },
        }
    }
}

/// Where the cursor stands after the statements from `c` on: on the first token behind
/// them that opens no statement, and at `c` itself where the token there opens none.
pub open spec fn statements_end(t: Seq<Seq<char>>, c: int) -> int
    decreases t.len() - c,
{
    if !(0 <= c < t.len()) || !opens_statement(t[c]) {
        c
    } else {
        match statement_at(t, c) {
            None => c,
            Some((_, c1)) => {
                if c < c1 < t.len() {
                    statements_end(t, c1)
                } else {
                    c
                }
            },
        }
    }
}

/// What parsing a token sequence from its first token yields.
pub open spec fn script(t: Seq<Seq<char>>) -> Option<Seq<StatementView>> {
    statements(t, 0, Seq::empty())
}

} // verus!
