use vstd::prelude::*;
use vstd::string::*;
use crate::grammar::{
    advance, alter_at, column_at, column_list, create_at, drop_at, insert_at, is_blank, is_item,
    is_name, script, select_at, show_at, skip_blank, statement_at, statements, statements_end,
    step, truncate_at, word_list,
};
use crate::lexer::{delimiter, token_texts, tokenize};
use crate::numeric::parse_u32;
use crate::syntax::{ASTNode, Column, DataType, SqlError, StatementView};

verus! {

/// A token sequence and the position of the token being looked at.
pub struct Parser {
    pub tokens: Vec<String>,
    pub cursor: usize,
}

/// Whether `r` reports what the grammar yields: a value and the cursor behind it, or the
/// parse error where the grammar rejects the tokens.
pub open spec fn outcome<T: DeepView>(
    r: Result<T, SqlError>,
    expected: Option<(T::V, int)>,
    pos: int,
) -> bool {
    match r {
        Ok(v) => expected == Some((v.deep_view(), pos)),
        Err(e) => e == SqlError::ParseError && expected is None,
    }
}

/// An owned copy of a literal.
pub fn word(s: &str) -> (r: String)
    ensures
        r@ == s@,
{
    String::from_str(s)
}

impl Parser {
    /// The tokens as plain texts.
    pub open spec fn texts(&self) -> Seq<Seq<char>> {
        self.tokens.deep_view()
    }

    /// Whether the cursor stands on a token.
    pub open spec fn ready(&self) -> bool {
        self.cursor < self.tokens.len()
    }

    /// Whether `next` holds the tokens of `self`, with its cursor on the token at `pos`.
    pub open spec fn moved_to(&self, next: &Parser, pos: int) -> bool {
        next.tokens == self.tokens && next.cursor == pos && next.ready()
    }

    /// A parser with no tokens.
    pub fn new() -> (p: Parser)
        ensures
            p.tokens@.len() == 0,
            p.cursor == 0,
    {
        Parser { tokens: Vec::new(), cursor: 0 }
    }

    /// The token under the cursor.
    pub fn current(&self) -> (r: &String)
        requires
            self.ready(),
        ensures
            r@ == self.texts()[self.cursor as int],
            *r == self.tokens@[self.cursor as int],
    {
        &self.tokens[self.cursor]
    }

    /// Whether the token under the cursor is `expected`.
    pub fn accept(&self, expected: &String) -> (r: bool)
        requires
            self.ready(),
        ensures
            r == (self.texts()[self.cursor as int] == expected@),
    {
        *self.current() == *expected
    }

    /// Succeeds exactly when the token under the cursor is `expected`.
    pub fn expect(&self, expected: &String) -> (r: Result<(), SqlError>)
        requires
            self.ready(),
        ensures
            r is Ok <==> self.texts()[self.cursor as int] == expected@,
            r is Err ==> r == Err::<(), SqlError>(SqlError::ParseError),
    {
        if self.accept(expected) {
            Ok(())
        } else {
            Err(SqlError::ParseError)
        }
    }

    /// Moves the cursor one token forward, unless it stands on the last one.
    pub fn next(&mut self)
        requires
            old(self).ready(),
        ensures
            old(self).moved_to(final(self), advance(old(self).texts(), old(self).cursor as int)),
            final(self).cursor >= old(self).cursor,
    {
        if self.cursor < self.tokens.len() - 1 {
            self.cursor += 1;
        }
    }

    /// Whether the token under the cursor is a space or a tab.
    pub fn at_blank(&self) -> (r: bool)
        requires
            self.ready(),
        ensures
            r == is_blank(self.texts()[self.cursor as int]),
    {
        self.accept(&word(" ")) || self.accept(&word("\t"))
    }

    /// Whether the token under the cursor can be a name or a value.
    pub fn at_name(&self) -> (r: bool)
        requires
            self.ready(),
        ensures
            r == is_name(self.texts()[self.cursor as int]),
    {
        let text = self.current().as_str();
        let n: usize = text.unicode_len();
        n > 0 && !(n == 1 && delimiter(text.get_char(0)))
    }

    /// Passes over every space and tab at the cursor.
    pub fn accept_indentation(&mut self)
        requires
            old(self).ready(),
        ensures
            old(self).moved_to(final(self), skip_blank(old(self).texts(), old(self).cursor as int)),
            final(self).cursor >= old(self).cursor,
    {
        while self.cursor + 1 < self.tokens.len() && self.at_blank()
            invariant
                self.tokens == old(self).tokens,
                self.ready(),
                self.cursor >= old(self).cursor,
                skip_blank(old(self).texts(), old(self).cursor as int) == skip_blank(
                    self.texts(),
                    self.cursor as int,
                ),
            decreases self.tokens.len() - self.cursor,
        {
            self.cursor += 1;
        }
    }

    /// Moves one token forward and passes over the blanks there.
    pub fn step(&mut self)
        requires
            old(self).ready(),
        ensures
            old(self).moved_to(final(self), step(old(self).texts(), old(self).cursor as int)),
            final(self).cursor >= old(self).cursor,
    {
        self.next();
        self.accept_indentation();
    }

    /// Splits a script into tokens. The parser itself is left as it was.
    pub fn tokenizer(&self, input: String) -> (list: Vec<String>)
        ensures
            list.deep_view() == token_texts(input@),
    {
        tokenize(input.as_str())
    }

    /// Parses one column definition.
    pub fn parseNewColumn(&mut self) -> (r: Result<Column, SqlError>)
        requires
            old(self).ready(),
        ensures
            final(self).tokens == old(self).tokens,
            final(self).ready(),
            final(self).cursor >= old(self).cursor,
            outcome(
                r,
                column_at(old(self).texts(), old(self).cursor as int),
                final(self).cursor as int,
            ),
    {
        if !self.at_name() {
            return Err(SqlError::ParseError);
        }
        let column_name = self.current().clone();
        self.step();
        if self.accept(&word("INT")) {
            self.step();
            Ok(Column { name: column_name, data_type: DataType::INT, size: 0, nullable: false })
        } else if self.accept(&word("VARCHAR")) {
            self.step();
            if !self.accept(&word("(")) {
                return Err(SqlError::ParseError);
            }
            self.step();
            let data_size = match parse_u32(self.current().as_str()) {
                Some(size) => size,
                None => {
                    return Err(SqlError::ParseError);
                },
            };
            self.step();
            if !self.accept(&word(")")) {
                return Err(SqlError::ParseError);
            }
            self.step();
            Ok(
                Column {
                    name: column_name,
                    data_type: DataType::STRING,
                    size: data_size,
                    nullable: false,
                },
            )
        } else {
            Err(SqlError::ParseError)
        }
    }
}

impl Parser {
    /// Parses one or more column definitions, with a comma between each two, up to the
    /// token `stop`, on which the cursor is left.
    pub fn parse_column_list(&mut self, stop: &String) -> (r: Result<Vec<Column>, SqlError>)
        requires
            old(self).ready(),
        ensures
            final(self).tokens == old(self).tokens,
            final(self).ready(),
            final(self).cursor >= old(self).cursor,
            r is Ok ==> final(self).texts()[final(self).cursor as int] == stop@,
            outcome(
                r,
                column_list(old(self).texts(), old(self).cursor as int, stop@, Seq::empty()),
                final(self).cursor as int,
            ),
    {
        let ghost t = self.texts();
        let ghost first = self.cursor as int;
        let mut columns: Vec<Column> = Vec::new();
        assert(columns.deep_view() =~= Seq::empty());
        loop
            invariant
                t == old(self).texts(),
                first == old(self).cursor,
                self.tokens == old(self).tokens,
                self.texts() == t,
                self.ready(),
                self.cursor >= first,
                column_list(t, first, stop@, Seq::empty()) == column_list(
                    t,
                    self.cursor as int,
                    stop@,
                    columns.deep_view(),
                ),
            decreases self.tokens.len() - self.cursor,
        {
            let before: usize = self.cursor;
            let ghost seen = columns.deep_view();
            let column = match self.parseNewColumn() {
                Err(e) => {
                    return Err(e);
                },
                Ok(column) => column,
            };
            columns.push(column);
            assert(columns.deep_view() =~= seen.push(column.deep_view()));
            if self.accept(stop) {
                return Ok(columns);
            }
            if !self.accept(&word(",")) {
                return Err(SqlError::ParseError);
            }
            self.step();
            if self.cursor <= before {
                return Err(SqlError::ParseError);
            }
        }
    }

    /// Whether the token under the cursor can stand in a list of words.
    pub fn at_item(&self, wildcard: bool) -> (r: bool)
        requires
            self.ready(),
        ensures
            r == is_item(self.texts()[self.cursor as int], wildcard),
    {
        self.at_name() || (wildcard && self.accept(&word("*")))
    }

    /// Parses one or more words, with a comma between each two, up to the token `stop`,
    /// on which the cursor is left. The wildcard counts as a word where `wildcard` is set.
    pub fn parse_word_list(&mut self, stop: &String, wildcard: bool) -> (r: Result<
        Vec<String>,
        SqlError,
    >)
        requires
            old(self).ready(),
        ensures
            final(self).tokens == old(self).tokens,
            final(self).ready(),
            final(self).cursor >= old(self).cursor,
            r is Ok ==> final(self).texts()[final(self).cursor as int] == stop@,
            outcome(
                r,
                word_list(old(self).texts(), old(self).cursor as int, stop@, wildcard, Seq::empty()),
                final(self).cursor as int,
            ),
    {
        let ghost t = self.texts();
        let ghost first = self.cursor as int;
        let mut words: Vec<String> = Vec::new();
        assert(words.deep_view() =~= Seq::empty());
        loop
            invariant
                t == old(self).texts(),
                first == old(self).cursor,
                self.tokens == old(self).tokens,
                self.texts() == t,
                self.ready(),
                self.cursor >= first,
                word_list(t, first, stop@, wildcard, Seq::empty()) == word_list(
                    t,
                    self.cursor as int,
                    stop@,
                    wildcard,
                    words.deep_view(),
                ),
            decreases self.tokens.len() - self.cursor,
        {
            let before: usize = self.cursor;
            let ghost seen = words.deep_view();
            if !self.at_item(wildcard) {
                return Err(SqlError::ParseError);
            }
            let item = self.current().clone();
            self.step();
            words.push(item);
            assert(words.deep_view() =~= seen.push(item@));
            if self.accept(stop) {
                return Ok(words);
            }
            if !self.accept(&word(",")) {
                return Err(SqlError::ParseError);
            }
            self.step();
            if self.cursor <= before {
                return Err(SqlError::ParseError);
            }
        }
    }

    /// Succeeds on the closing `;`, and passes over it and the blanks behind it.
    pub fn parse_end(&mut self) -> (r: Result<(), SqlError>)
        requires
            old(self).ready(),
        ensures
            final(self).tokens == old(self).tokens,
            final(self).ready(),
            final(self).cursor >= old(self).cursor,
            r is Ok <==> old(self).texts()[old(self).cursor as int] == ";"@,
            r is Ok ==> final(self).cursor == step(old(self).texts(), old(self).cursor as int)
                && final(self).cursor >= advance(old(self).texts(), old(self).cursor as int),
            r is Err ==> r == Err::<(), SqlError>(SqlError::ParseError),
    {
        match self.expect(&word(";")) {
            Err(e) => Err(e),
            Ok(()) => {
                self.next();
                self.accept_indentation();
                Ok(())
            },
        }
    }

    /// Parses `keyword TABLE name` and returns the name.
    pub fn parse_table_clause(&mut self, keyword: &String) -> (r: Result<String, SqlError>)
        requires
            old(self).ready(),
        ensures
            final(self).tokens == old(self).tokens,
            final(self).ready(),
            final(self).cursor >= old(self).cursor,
            outcome(
                r,
                crate::grammar::table_clause(old(self).texts(), old(self).cursor as int, keyword@),
                final(self).cursor as int,
            ),
    {
        if !self.accept(keyword) {
            return Err(SqlError::ParseError);
        }
        self.step();
        if !self.accept(&word("TABLE")) {
            return Err(SqlError::ParseError);
        }
        self.step();
        if !self.at_name() {
            return Err(SqlError::ParseError);
        }
        let table_name = self.current().clone();
        self.step();
        Ok(table_name)
    }

    /// Parses a `CREATE TABLE` statement.
    pub fn parse_create_table(&mut self) -> (r: Result<ASTNode, SqlError>)
        requires
            old(self).ready(),
        ensures
            final(self).tokens == old(self).tokens,
            final(self).ready(),
            r is Ok ==> final(self).cursor > old(self).cursor,
            outcome(
                r,
                create_at(old(self).texts(), old(self).cursor as int),
                final(self).cursor as int,
            ),
    {
        proof {
            reveal_strlit("CREATE");
            reveal_strlit(";");
            assert("CREATE"@.len() == 6 && ";"@.len() == 1);
        }
        let table_name = match self.parse_table_clause(&word("CREATE")) {
            Ok(name) => name,
            Err(e) => {
                return Err(e);
            },
        };
        if !self.accept(&word("(")) {
            return Err(SqlError::ParseError);
        }
        self.step();
        let columns_to_add = match self.parse_column_list(&word(")")) {
            Ok(columns) => columns,
            Err(e) => {
                return Err(e);
            },
        };
        self.step();
        match self.parse_end() {
            Ok(()) => Ok(ASTNode::CreateStatement { table_name, columns_to_add }),
            Err(e) => Err(e),
        }
    }

    /// Parses a `DROP TABLE` statement.
    pub fn parse_drop_table(&mut self) -> (r: Result<ASTNode, SqlError>)
        requires
            old(self).ready(),
        ensures
            final(self).tokens == old(self).tokens,
            final(self).ready(),
            r is Ok ==> final(self).cursor > old(self).cursor,
            outcome(
                r,
                drop_at(old(self).texts(), old(self).cursor as int),
                final(self).cursor as int,
            ),
    {
        proof {
            reveal_strlit("DROP");
            reveal_strlit(";");
            assert("DROP"@.len() == 4 && ";"@.len() == 1);
        }
        let table_name = match self.parse_table_clause(&word("DROP")) {
            Ok(name) => name,
            Err(e) => {
                return Err(e);
            },
        };
        match self.parse_end() {
            Ok(()) => Ok(ASTNode::DropStatement { table_name }),
            Err(e) => Err(e),
        }
    }

    /// Parses a `TRUNCATE TABLE` statement.
    pub fn parseTruncateTable(&mut self) -> (r: Result<ASTNode, SqlError>)
        requires
            old(self).ready(),
        ensures
            final(self).tokens == old(self).tokens,
            final(self).ready(),
            r is Ok ==> final(self).cursor > old(self).cursor,
            outcome(
                r,
                truncate_at(old(self).texts(), old(self).cursor as int),
                final(self).cursor as int,
            ),
    {
        proof {
            reveal_strlit("TRUNCATE");
            reveal_strlit(";");
            assert("TRUNCATE"@.len() == 8 && ";"@.len() == 1);
        }
        let table_name = match self.parse_table_clause(&word("TRUNCATE")) {
            Ok(name) => name,
            Err(e) => {
                return Err(e);
            },
        };
        match self.parse_end() {
            Ok(()) => Ok(ASTNode::TruncateTableStatement { table_name }),
            Err(e) => Err(e),
        }
    }

    /// Parses a `SHOW TABLES` statement.
    pub fn parse_show_tables(&mut self) -> (r: Result<ASTNode, SqlError>)
        requires
            old(self).ready(),
        ensures
            final(self).tokens == old(self).tokens,
            final(self).ready(),
            r is Ok ==> final(self).cursor > old(self).cursor,
            outcome(
                r,
                show_at(old(self).texts(), old(self).cursor as int),
                final(self).cursor as int,
            ),
    {
        proof {
            reveal_strlit("SHOW");
            reveal_strlit(";");
            assert("SHOW"@.len() == 4 && ";"@.len() == 1);
        }
        if !self.accept(&word("SHOW")) {
            return Err(SqlError::ParseError);
        }
        self.step();
        if !self.accept(&word("TABLES")) {
            return Err(SqlError::ParseError);
        }
        self.step();
        match self.parse_end() {
            Ok(()) => Ok(ASTNode::ShowTablesStatement),
            Err(e) => Err(e),
        }
    }

    /// Parses an `ALTER TABLE` statement.
    pub fn parse_alter_statement(&mut self) -> (r: Result<ASTNode, SqlError>)
        requires
            old(self).ready(),
        ensures
            final(self).tokens == old(self).tokens,
            final(self).ready(),
            r is Ok ==> final(self).cursor > old(self).cursor,
            outcome(
                r,
                alter_at(old(self).texts(), old(self).cursor as int),
                final(self).cursor as int,
            ),
    {
        proof {
            reveal_strlit("ALTER");
            reveal_strlit(";");
            assert("ALTER"@.len() == 5 && ";"@.len() == 1);
        }
        let table_name = match self.parse_table_clause(&word("ALTER")) {
            Ok(name) => name,
            Err(e) => {
                return Err(e);
            },
        };
        if !self.accept(&word("ADD")) {
            return Err(SqlError::ParseError);
        }
        self.step();
        let columns_to_add = match self.parse_column_list(&word(";")) {
            Ok(columns) => columns,
            Err(e) => {
                return Err(e);
            },
        };
        match self.parse_end() {
            Ok(()) => Ok(ASTNode::AlterTableStatement { table_name, columns_to_add }),
            Err(e) => Err(e),
        }
    }

    /// Parses a `SELECT` statement.
    pub fn parse_select_statement(&mut self) -> (r: Result<ASTNode, SqlError>)
        requires
            old(self).ready(),
        ensures
            final(self).tokens == old(self).tokens,
            final(self).ready(),
            r is Ok ==> final(self).cursor > old(self).cursor,
            outcome(
                r,
                select_at(old(self).texts(), old(self).cursor as int),
                final(self).cursor as int,
            ),
    {
        proof {
            reveal_strlit("SELECT");
            reveal_strlit(";");
            assert("SELECT"@.len() == 6 && ";"@.len() == 1);
        }
        if !self.accept(&word("SELECT")) {
            return Err(SqlError::ParseError);
        }
        self.step();
        let distinct = self.accept(&word("DISTINCT"));
        if distinct {
            self.step();
        }
        let columns = match self.parse_word_list(&word("FROM"), true) {
            Ok(words) => words,
            Err(e) => {
                return Err(e);
            },
        };
        self.step();
        if !self.at_name() {
            return Err(SqlError::ParseError);
        }
        let table_name = self.current().clone();
        self.step();
        match self.parse_end() {
            Ok(()) => Ok(ASTNode::SelectStatement { table_name, distinct, columns }),
            Err(e) => Err(e),
        }
    }

    /// Parses an `INSERT INTO` statement.
    pub fn parse_insert_statement(&mut self) -> (r: Result<ASTNode, SqlError>)
        requires
            old(self).ready(),
        ensures
            final(self).tokens == old(self).tokens,
            final(self).ready(),
            r is Ok ==> final(self).cursor > old(self).cursor,
            outcome(
                r,
                insert_at(old(self).texts(), old(self).cursor as int),
                final(self).cursor as int,
            ),
    {
        proof {
            reveal_strlit("INSERT");
            reveal_strlit(";");
            assert("INSERT"@.len() == 6 && ";"@.len() == 1);
        }
        if !self.accept(&word("INSERT")) {
            return Err(SqlError::ParseError);
        }
        self.step();
        if !self.accept(&word("INTO")) {
            return Err(SqlError::ParseError);
        }
        self.step();
        if !self.at_name() {
            return Err(SqlError::ParseError);
        }
        let table_name = self.current().clone();
        self.step();
        if !self.accept(&word("(")) {
            return Err(SqlError::ParseError);
        }
        self.step();
        let columns = match self.parse_word_list(&word(")"), false) {
            Ok(words) => words,
            Err(e) => {
                return Err(e);
            },
        };
        self.step();
        if !self.accept(&word("VALUES")) {
            return Err(SqlError::ParseError);
        }
        self.step();
        if !self.accept(&word("(")) {
            return Err(SqlError::ParseError);
        }
        self.step();
        let values = match self.parse_word_list(&word(")"), false) {
            Ok(words) => words,
            Err(e) => {
                return Err(e);
            },
        };
        self.step();
        match self.parse_end() {
            Ok(()) => Ok(ASTNode::InsertStatement { table_name, columns, values }),
            Err(e) => Err(e),
        }
    }

    /// Whether the token under the cursor opens a statement.
    pub fn at_statement(&self) -> (r: bool)
        requires
            self.ready(),
        ensures
            r == crate::grammar::opens_statement(self.texts()[self.cursor as int]),
    {
        self.accept(&word("CREATE")) || self.accept(&word("SHOW")) || self.accept(&word("SELECT"))
            || self.accept(&word("INSERT")) || self.accept(&word("DROP")) || self.accept(
            &word("ALTER"),
        ) || self.accept(&word("TRUNCATE"))
    }

    /// Parses the statement that the token under the cursor opens.
    pub fn parse_statement(&mut self) -> (r: Result<ASTNode, SqlError>)
        requires
            old(self).ready(),
        ensures
            final(self).tokens == old(self).tokens,
            final(self).ready(),
            r is Ok ==> final(self).cursor > old(self).cursor,
            outcome(
                r,
                statement_at(old(self).texts(), old(self).cursor as int),
                final(self).cursor as int,
            ),
    {
        if self.accept(&word("CREATE")) {
            self.parse_create_table()
        } else if self.accept(&word("SHOW")) {
            self.parse_show_tables()
        } else if self.accept(&word("SELECT")) {
            self.parse_select_statement()
        } else if self.accept(&word("INSERT")) {
            self.parse_insert_statement()
        } else if self.accept(&word("DROP")) {
            self.parse_drop_table()
        } else if self.accept(&word("ALTER")) {
            self.parse_alter_statement()
        } else {
            self.parseTruncateTable()
        }
    }

    /// Parses the statements from the cursor on, up to the first token that opens none,
    /// on which the cursor is left. Where the token under the cursor opens no statement,
    /// the chain is empty and the cursor stays.
    pub fn parse(&mut self) -> (r: Result<Vec<ASTNode>, SqlError>)
        ensures
            final(self).tokens == old(self).tokens,
            match r {
                Ok(chain) => statements(old(self).texts(), old(self).cursor as int, Seq::empty())
                    == Some(chain.deep_view()) && final(self).cursor == statements_end(
                    old(self).texts(),
                    old(self).cursor as int,
                ),
                Err(e) => e == SqlError::ParseError && statements(
                    old(self).texts(),
                    old(self).cursor as int,
                    Seq::empty(),
                ) is None,
            },
    {
        let ghost t = self.texts();
        let ghost first = self.cursor as int;
        let mut chain: Vec<ASTNode> = Vec::new();
        assert(chain.deep_view() =~= Seq::empty());
        while self.cursor < self.tokens.len() && self.at_statement()
            invariant
                t == old(self).texts(),
                first == old(self).cursor,
                self.tokens == old(self).tokens,
                self.texts() == t,
                statements(t, first, Seq::empty()) == statements(
                    t,
                    self.cursor as int,
                    chain.deep_view(),
                ),
                statements_end(t, first) == statements_end(t, self.cursor as int),
            decreases self.tokens.len() - self.cursor,
        {
            let ghost seen = chain.deep_view();
            match self.parse_statement() {
                Err(e) => {
                    return Err(e);
                },
                Ok(node) => {
                    chain.push(node);
                    assert(chain.deep_view() =~= seen.push(node.deep_view()));
                },
            }
        }
        Ok(chain)
    }

    /// Tokenizes `query`, keeps the tokens, and parses them from the first one.
    pub fn generate_ast(&mut self, query: String) -> (r: Result<Vec<ASTNode>, SqlError>)
        ensures
            final(self).texts() == token_texts(query@),
            match r {
                Ok(chain) => script(token_texts(query@)) == Some(chain.deep_view())
                    && final(self).cursor == statements_end(token_texts(query@), 0),
                Err(e) => e == SqlError::ParseError && script(token_texts(query@)) is None,
            },
    {
        self.tokens = self.tokenizer(query);
        self.cursor = 0;
        self.parse()
    }
}

} // verus!
