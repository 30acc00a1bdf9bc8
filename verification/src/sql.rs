//! Building SQL text: quoting, binding values to placeholders, and the
//! statements of the message store and its migrations.

use crate::text::{decimal, decimal_digits, find_char, first_index_of, from_chars, to_chars};
use vstd::prelude::*;
use vstd::string::StringSliceAdditionalSpecFns;

verus! {

/// `s` with every single quote doubled.
pub open spec fn escape_quotes(s: Seq<char>) -> Seq<char>
    decreases s.len(),
{
    if s.len() == 0 {
        Seq::empty()
    } else if s.last() == '\'' {
        escape_quotes(s.drop_last()) + seq!['\'', '\'']
    } else {
        escape_quotes(s.drop_last()).push(s.last())
    }
}

/// `s` as an SQL text literal: in single quotes, its own quotes doubled.
pub open spec fn quoted(s: Seq<char>) -> Seq<char> {
    seq!['\''] + escape_quotes(s) + seq!['\'']
}

/// The decimal numeral of `v`, with a minus sign where it is negative.
pub open spec fn signed_decimal(v: int) -> Seq<char> {
    if v < 0 {
        seq!['-'] + decimal((-v) as nat)
    } else {
        decimal(v as nat)
    }
}

/// The characters of `chars` with every single quote doubled.
fn escaped_chars(chars: &Vec<char>) -> (out: Vec<char>)
    ensures
        out@ == escape_quotes(chars@),
{
    let mut out: Vec<char> = Vec::new();
    let mut i: usize = 0;
    assert(chars@.take(0) =~= Seq::<char>::empty());
    while i < chars.len()
        invariant
            i <= chars.len(),
            out@ == escape_quotes(chars@.take(i as int)),
        decreases chars.len() - i,
    {
        let ghost before = chars@.take(i as int);
        let ghost after = chars@.take(i + 1);
        assert(after.drop_last() =~= before);
        assert(after.last() == chars[i as int]);
        if chars[i] == '\'' {
            out.push('\'');
            out.push('\'');
            assert(out@ =~= escape_quotes(before) + seq!['\'', '\'']);
        } else {
            out.push(chars[i]);
        }
        i = i + 1;
    }
    assert(chars@.take(i as int) =~= chars@);
    out
}

/// The string that holds exactly these characters.
fn string_of(chars: &Vec<char>) -> (s: String)
    ensures
        s@ == chars@,
{
    let s = from_chars(chars, 0, chars.len());
    assert(chars@.subrange(0, chars.len() as int) =~= chars@);
    s
}

/// Doubles every single quote, so that the text can stand inside an SQL
/// text literal.
pub fn escape_sql_string(s: &str) -> (escaped: String)
    ensures
        escaped@ == escape_quotes(s@),
{
    let chars = to_chars(s);
    string_of(&escaped_chars(&chars))
}

/// The text as an SQL literal: quoted and escaped.
pub fn format_sql_value(value: &str) -> (literal: String)
    ensures
        literal@ == quoted(value@),
{
    proof {
        reveal_strlit("'");
    }
    let literal = String::from_str("'");
    let literal = literal.concat(escape_sql_string(value).as_str());
    let literal = literal.concat("'");
    assert(literal@ =~= quoted(value@));
    literal
}

/// The digits of `v`, with a minus sign where it is negative.
fn signed_digits(v: i64) -> (out: Vec<char>)
    ensures
        out@ == signed_decimal(v as int),
{
    if v < 0 {
        let magnitude: u64 = (-(v as i128)) as u64;
        let mut out: Vec<char> = Vec::new();
        out.push('-');
        let mut digits = decimal_digits(magnitude);
        out.append(&mut digits);
        assert(out@ =~= signed_decimal(v as int));
        out
    } else {
        decimal_digits(v as u64)
    }
}

/// The number as SQL text: its decimal numeral.
pub fn format_sql_number(value: i64) -> (text: String)
    ensures
        text@ == signed_decimal(value as int),
{
    string_of(&signed_digits(value))
}

/// A value bound to a placeholder of a statement.
#[derive(Debug, PartialEq, Eq)]
pub enum SqlValue {
    Null,
    Bool(bool),
    Integer(i64),
    Text(String),
}

/// Mathematical content of an `SqlValue`.
pub enum SqlValueModel {
    Null,
    Bool(bool),
    Integer(i64),
    Text(Seq<char>),
}

impl DeepView for SqlValue {
    type V = SqlValueModel;

    open spec fn deep_view(&self) -> SqlValueModel {
        match self {
            SqlValue::Null => SqlValueModel::Null,
            SqlValue::Bool(b) => SqlValueModel::Bool(*b),
            SqlValue::Integer(n) => SqlValueModel::Integer(*n),
            SqlValue::Text(t) => SqlValueModel::Text(t@),
        }
    }
}

impl View for SqlValue {
    type V = SqlValueModel;

    open spec fn view(&self) -> SqlValueModel {
        self.deep_view()
    }
}

/// The value as it stands in SQL text: `NULL`, `1` or `0`, a decimal
/// numeral, or a quoted and escaped text.
pub open spec fn rendered(value: SqlValueModel) -> Seq<char> {
    match value {
        SqlValueModel::Null => seq!['N', 'U', 'L', 'L'],
        SqlValueModel::Bool(b) => if b {
            seq!['1']
        } else {
            seq!['0']
        },
        SqlValueModel::Integer(n) => signed_decimal(n as int),
        SqlValueModel::Text(t) => quoted(t),
    }
}

/// The characters of the value as it stands in SQL text.
fn render_chars(value: &SqlValue) -> (out: Vec<char>)
    ensures
        out@ == rendered(value@),
{
    match value {
        SqlValue::Null => {
            let mut out: Vec<char> = Vec::new();
            out.push('N');
            out.push('U');
            out.push('L');
            out.push('L');
            assert(out@ =~= rendered(value@));
            out
        },
        SqlValue::Bool(b) => {
            let mut out: Vec<char> = Vec::new();
            out.push(if *b { '1' } else { '0' });
            assert(out@ =~= rendered(value@));
            out
        },
        SqlValue::Integer(n) => signed_digits(*n),
        SqlValue::Text(t) => {
            let chars = to_chars(t.as_str());
            let mut out: Vec<char> = Vec::new();
            out.push('\'');
            let mut body = escaped_chars(&chars);
            out.append(&mut body);
            out.push('\'');
            assert(out@ =~= rendered(value@));
            out
        },
    }
}

/// The value as it stands in SQL text.
pub fn format_value(value: &SqlValue) -> (text: String)
    ensures
        text@ == rendered(value@),
{
    string_of(&render_chars(value))
}

/// Why values cannot be bound to a statement.
#[derive(Debug, PartialEq, Eq, Clone, Copy)]
pub enum BindError {
    /// A placeholder is left and no value for it.
    NotEnoughParameters,
    /// A value is left and no placeholder for it.
    TooManyParameters,
}

impl BindError {
    /// The message that goes with the error.
    pub fn message(&self) -> (text: &'static str)
        ensures
            text@ == match self {
                BindError::NotEnoughParameters => "Not enough parameters bound to query"@,
                BindError::TooManyParameters => "Too many parameters bound to query"@,
            },
    {
        match self {
            BindError::NotEnoughParameters => "Not enough parameters bound to query",
            BindError::TooManyParameters => "Too many parameters bound to query",
        }
    }
}

/// Position of the first question mark in `q`; its length where there is
/// none.
pub open spec fn first_placeholder(q: Seq<char>) -> int {
    first_index_of(q, '?')
}

/// The statement after the values from position `k` on are bound, one
/// after the other, each to the first question mark of the text as it then
/// stands. The search starts over at the front after every binding, so a
/// question mark inside a bound text is taken for a placeholder.
pub open spec fn bound(q: Seq<char>, values: Seq<SqlValueModel>, k: nat) -> Result<
    Seq<char>,
    BindError,
>
    decreases values.len() - k,
{
    let p = first_placeholder(q);
    if !(0 <= p < q.len()) {
        if k < values.len() {
            Err(BindError::TooManyParameters)
        } else {
            Ok(q)
        }
    } else if k >= values.len() {
        Err(BindError::NotEnoughParameters)
    } else {
        bound(q.take(p) + rendered(values[k as int]) + q.skip(p + 1), values, k + 1)
    }
}

/// Binds the values to the question marks of the statement, in order.
///
/// Fails when a question mark is left without a value, or a value without
/// a question mark.
pub fn build_query(query: &str, bindings: &Vec<SqlValue>) -> (built: Result<String, BindError>)
    ensures
        match bound(query@, bindings.deep_view(), 0) {
            Ok(text) => built matches Ok(s) && s@ == text,
            Err(e) => built == Err::<String, BindError>(e),
        },
{
    let mut text = to_chars(query);
    let mut k: usize = 0;
    let ghost values = bindings.deep_view();
    loop
        invariant
            k <= bindings.len(),
            values == bindings.deep_view(),
            bound(query@, values, 0) == bound(text@, values, k as nat),
        decreases bindings.len() - k,
    {
        let p = find_char(&text, 0, '?');
        assert(text@.skip(0) =~= text@);
        if p >= text.len() {
            if k < bindings.len() {
                return Err(BindError::TooManyParameters);
            }
            return Ok(string_of(&text));
        }
        if k >= bindings.len() {
            return Err(BindError::NotEnoughParameters);
        }
        let mut next: Vec<char> = Vec::new();
        let mut i: usize = 0;
        while i < p
            invariant
                i <= p < text.len(),
                next@ == text@.take(i as int),
            decreases p - i,
        {
            next.push(text[i]);
            i = i + 1;
            assert(next@ =~= text@.take(i as int));
        }
        let mut value = render_chars(&bindings[k]);
        next.append(&mut value);
        let ghost head = next@;
        let mut j: usize = p + 1;
        while j < text.len()
            invariant
                p < j <= text.len(),
                next@ == head + text@.subrange(p + 1, j as int),
            decreases text.len() - j,
        {
            next.push(text[j]);
            j = j + 1;
            assert(next@ =~= head + text@.subrange(p + 1, j as int));
        }
        assert(next@ =~= text@.take(p as int) + rendered(values[k as int]) + text@.skip(p + 1));
        text = next;
        k = k + 1;
    }
}

/// A statement with the values that are bound to its placeholders.
#[derive(Debug, PartialEq, Eq)]
pub struct PreparedStatement {
    pub query: String,
    pub bindings: Vec<SqlValue>,
}

impl PreparedStatement {
    /// A statement without bound values.
    pub fn new(query: String) -> (statement: PreparedStatement)
        ensures
            statement.query@ == query@,
            statement.bindings.deep_view() == Seq::<SqlValueModel>::empty(),
    {
        let statement = PreparedStatement { query, bindings: Vec::new() };
        assert(statement.bindings.deep_view() =~= Seq::<SqlValueModel>::empty());
        statement
    }

    /// The statement with these values in place of any bound before.
    pub fn bind(self, params: Vec<SqlValue>) -> (statement: PreparedStatement)
        ensures
            statement.query@ == self.query@,
            statement.bindings.deep_view() == params.deep_view(),
    {
        PreparedStatement { query: self.query, bindings: params }
    }

    /// The statement with one more value bound, behind those bound before.
    pub fn bind_value(self, value: SqlValue) -> (statement: PreparedStatement)
        ensures
            statement.query@ == self.query@,
            statement.bindings.deep_view() == self.bindings.deep_view().push(value@),
    {
        let ghost before = self.bindings.deep_view();
        let mut bindings = self.bindings;
        bindings.push(value);
        assert(bindings.deep_view() =~= before.push(value@));
        PreparedStatement { query: self.query, bindings }
    }

    /// The text of the statement with its values bound.
    pub fn build_query(&self) -> (built: Result<String, BindError>)
        ensures
            match bound(self.query@, self.bindings.deep_view(), 0) {
                Ok(text) => built matches Ok(s) && s@ == text,
                Err(e) => built == Err::<String, BindError>(e),
            },
    {
        build_query(self.query.as_str(), &self.bindings)
    }
}

/// One step in the history of the database schema.
#[derive(Debug, PartialEq, Eq, Clone, Copy)]
pub struct Migration {
    pub version: i32,
    pub name: &'static str,
    pub sql: &'static str,
}

/// Creates the table that records the migrations applied so far.
pub const CREATE_MIGRATIONS_TABLE: &'static str =
    "CREATE TABLE IF NOT EXISTS __migrations (version INTEGER PRIMARY KEY, name TEXT NOT NULL, applied_at DATETIME DEFAULT CURRENT_TIMESTAMP)";

/// Asks for the version of the last migration applied; zero when none was.
pub const CURRENT_VERSION_QUERY: &'static str =
    "SELECT COALESCE(MAX(version), 0) as version FROM __migrations";

/// The statement that records a migration as applied.
pub open spec fn migration_record(version: i32, name: Seq<char>) -> Seq<char> {
    "INSERT INTO __migrations (version, name) VALUES ("@ + signed_decimal(version as int)
        + seq![',', ' '] + quoted(name) + seq![')']
}

/// The statements that bring a database at `current_version` up to date
/// with the first `n` migrations: for each migration of a later version,
/// in order, its own statement and then the statement that records it.
pub open spec fn pending(migrations: Seq<Migration>, n: nat, current_version: i32) -> Seq<Seq<char>>
    recommends
        n <= migrations.len(),
    decreases n,
{
    if n == 0 {
        Seq::empty()
    } else {
        let before = pending(migrations, (n - 1) as nat, current_version);
        let m = migrations[n - 1];
        if m.version > current_version {
            before.push(m.sql@).push(migration_record(m.version, m.name@))
        } else {
            before
        }
    }
}

/// The statement that records a migration as applied.
pub fn migration_record_sql(migration: &Migration) -> (sql: String)
    ensures
        sql@ == migration_record(migration.version, migration.name@),
{
    proof {
        reveal_strlit(", ");
        reveal_strlit(")");
    }
    let sql = String::from_str("INSERT INTO __migrations (version, name) VALUES (");
    let sql = sql.concat(format_sql_number(migration.version as i64).as_str());
    let sql = sql.concat(", ");
    let sql = sql.concat(format_sql_value(migration.name).as_str());
    let sql = sql.concat(")");
    assert(sql@ =~= migration_record(migration.version, migration.name@));
    sql
}

/// The statements to run, in order, on a database whose last applied
/// migration has version `current_version`.
pub fn pending_statements(migrations: &[Migration], current_version: i32) -> (statements: Vec<
    String,
>)
    ensures
        statements.deep_view() == pending(migrations@, migrations@.len(), current_version),
{
    let mut statements: Vec<String> = Vec::new();
    let mut i: usize = 0;
    assert(statements.deep_view() =~= pending(migrations@, 0, current_version));
    while i < migrations.len()
        invariant
            i <= migrations.len(),
            statements.deep_view() == pending(migrations@, i as nat, current_version),
        decreases migrations.len() - i,
    {
        let ghost before = statements.deep_view();
        let migration = migrations[i];
        if migration.version > current_version {
            statements.push(String::from_str(migration.sql));
            statements.push(migration_record_sql(&migration));
            assert(statements.deep_view() =~= before.push(migration.sql@).push(
                migration_record(migration.version, migration.name@),
            ));
        }
        i = i + 1;
    }
    statements
}

/// One stored message.
#[derive(Debug, PartialEq, Eq)]
pub struct Message {
    pub id: Option<i64>,
    pub timestamp: i64,
    pub content: String,
    pub user_id: String,
}

/// Mathematical content of a `Message`.
pub struct MessageModel {
    pub id: Option<i64>,
    pub timestamp: i64,
    pub content: Seq<char>,
    pub user_id: Seq<char>,
}

impl DeepView for Message {
    type V = MessageModel;

    open spec fn deep_view(&self) -> MessageModel {
        MessageModel {
            id: self.id,
            timestamp: self.timestamp,
            content: self.content@,
            user_id: self.user_id@,
        }
    }
}

impl View for Message {
    type V = MessageModel;

    open spec fn view(&self) -> MessageModel {
        self.deep_view()
    }
}

/// The statement that stores a message and asks for its id.
pub open spec fn insert_message(timestamp: i64, content: Seq<char>, user_id: Seq<char>) -> Seq<
    char,
> {
    "INSERT INTO messages (timestamp, content, user_id) VALUES ("@ + signed_decimal(
        timestamp as int,
    ) + seq![',', ' '] + quoted(content) + seq![',', ' '] + quoted(user_id)
        + seq![')'] + " RETURNING id"@
}

/// The statement that stores a message and asks for its id.
pub fn insert_message_sql(timestamp: i64, content: &str, user_id: &str) -> (sql: String)
    ensures
        sql@ == insert_message(timestamp, content@, user_id@),
{
    proof {
        reveal_strlit(", ");
        reveal_strlit(")");
    }
    let sql = String::from_str("INSERT INTO messages (timestamp, content, user_id) VALUES (");
    let sql = sql.concat(format_sql_number(timestamp).as_str());
    let sql = sql.concat(", ");
    let sql = sql.concat(format_sql_value(content).as_str());
    let sql = sql.concat(", ");
    let sql = sql.concat(format_sql_value(user_id).as_str());
    let sql = sql.concat(")");
    let sql = sql.concat(" RETURNING id");
    assert(sql@ =~= insert_message(timestamp, content@, user_id@));
    sql
}

/// The statement that reads the newest messages, at most `limit` of them.
pub fn recent_messages_sql(limit: u32) -> (sql: String)
    ensures
        sql@ == "SELECT * FROM messages ORDER BY timestamp DESC LIMIT "@ + decimal(limit as nat),
{
    let sql = String::from_str("SELECT * FROM messages ORDER BY timestamp DESC LIMIT ");
    sql.concat(format_sql_number(limit as i64).as_str())
}

/// The statement that reads the messages of one user, newest first.
pub fn user_messages_sql(user_id: &str) -> (sql: String)
    ensures
        sql@ == "SELECT * FROM messages WHERE user_id = "@ + quoted(user_id@)
            + " ORDER BY timestamp DESC"@,
{
    let sql = String::from_str("SELECT * FROM messages WHERE user_id = ");
    let sql = sql.concat(format_sql_value(user_id).as_str());
    sql.concat(" ORDER BY timestamp DESC")
}

/// The line of a dump that restores one message; a message without an id
/// gets the id zero.
pub open spec fn dump_line(m: MessageModel) -> Seq<char> {
    "INSERT INTO messages (id, timestamp, content, user_id) VALUES ("@ + signed_decimal(
        match m.id {
            Some(id) => id as int,
            None => 0,
        },
    ) + seq![',', ' '] + signed_decimal(m.timestamp as int) + seq![',', ' '] + quoted(m.content)
        + seq![',', ' '] + quoted(m.user_id) + seq![')', ';', '\n']
}

/// The schema part of a dump for the first `n` schema statements: each
/// statement, a semicolon and an empty line.
pub open spec fn dump_schema(schema: Seq<Seq<char>>, n: nat) -> Seq<char>
    recommends
        n <= schema.len(),
    decreases n,
{
    if n == 0 {
        Seq::empty()
    } else {
        dump_schema(schema, (n - 1) as nat) + schema[n - 1] + seq![';', '\n', '\n']
    }
}

/// The data part of a dump for the first `n` messages.
pub open spec fn dump_data(messages: Seq<MessageModel>, n: nat) -> Seq<char>
    recommends
        n <= messages.len(),
    decreases n,
{
    if n == 0 {
        Seq::empty()
    } else {
        dump_data(messages, (n - 1) as nat) + dump_line(messages[n - 1])
    }
}

/// A dump of the database as SQL text: a comment header, the schema
/// statements, and one line per message.
pub open spec fn dump_of(schema: Seq<Seq<char>>, messages: Seq<MessageModel>) -> Seq<char> {
    "-- SQLite database export\n"@ + "-- Generated from Cloudflare Durable Object\n\n"@
        + dump_schema(schema, schema.len()) + "-- Message data\n"@ + dump_data(
        messages,
        messages.len(),
    )
}

/// The line of a dump that restores one message.
pub fn dump_line_sql(message: &Message) -> (line: String)
    ensures
        line@ == dump_line(message@),
{
    proof {
        reveal_strlit(", ");
        reveal_strlit(");\n");
    }
    let id: i64 = match message.id {
        Some(id) => id,
        None => 0,
    };
    let line = String::from_str("INSERT INTO messages (id, timestamp, content, user_id) VALUES (");
    let line = line.concat(format_sql_number(id).as_str());
    let line = line.concat(", ");
    let line = line.concat(format_sql_number(message.timestamp).as_str());
    let line = line.concat(", ");
    let line = line.concat(format_sql_value(message.content.as_str()).as_str());
    let line = line.concat(", ");
    let line = line.concat(format_sql_value(message.user_id.as_str()).as_str());
    let line = line.concat(");\n");
    assert(line@ =~= dump_line(message@));
    line
}

/// A dump of the database as SQL text.
pub fn export_dump(schema: &Vec<String>, messages: &Vec<Message>) -> (dump: String)
    ensures
        dump@ == dump_of(schema.deep_view(), messages.deep_view()),
{
    let ghost head = "-- SQLite database export\n"@
        + "-- Generated from Cloudflare Durable Object\n\n"@;
    let mut dump = String::from_str("-- SQLite database export\n");
    dump.append("-- Generated from Cloudflare Durable Object\n\n");
    let mut i: usize = 0;
    assert(dump@ =~= head + dump_schema(schema.deep_view(), 0));
    while i < schema.len()
        invariant
            i <= schema.len(),
            dump@ == head + dump_schema(schema.deep_view(), i as nat),
        decreases schema.len() - i,
    {
        let ghost before = dump_schema(schema.deep_view(), i as nat);
        proof {
            reveal_strlit(";\n\n");
        }
        dump.append(schema[i].as_str());
        dump.append(";\n\n");
        assert(schema.deep_view()[i as int] == schema[i as int]@);
        assert(dump@ =~= head + (before + schema.deep_view()[i as int] + seq![';', '\n', '\n']));
        i = i + 1;
    }
    dump.append("-- Message data\n");
    let ghost middle = head + dump_schema(schema.deep_view(), schema.len() as nat)
        + "-- Message data\n"@;
    let mut j: usize = 0;
    assert(dump@ =~= middle + dump_data(messages.deep_view(), 0));
    while j < messages.len()
        invariant
            j <= messages.len(),
            dump@ == middle + dump_data(messages.deep_view(), j as nat),
        decreases messages.len() - j,
    {
        let ghost before = dump_data(messages.deep_view(), j as nat);
        dump.append(dump_line_sql(&messages[j]).as_str());
        assert(messages.deep_view()[j as int] == messages[j as int]@);
        assert(dump@ =~= middle + (before + dump_line(messages.deep_view()[j as int])));
        j = j + 1;
    }
    dump
}

/// The dump wrapped as a database file: the file signature, then the dump
/// between two marker lines.
pub fn wrap_database_file(dump: &[u8]) -> (file: Vec<u8>)
    ensures
        file@ == "SQLite format 3\0".spec_bytes() + "\n-- BEGIN SQL DUMP\n".spec_bytes() + dump@
            + "\n-- END SQL DUMP\n".spec_bytes(),
{
    let mut file: Vec<u8> = Vec::new();
    file.extend_from_slice("SQLite format 3\0".as_bytes());
    file.extend_from_slice("\n-- BEGIN SQL DUMP\n".as_bytes());
    file.extend_from_slice(dump);
    file.extend_from_slice("\n-- END SQL DUMP\n".as_bytes());
    file
}

} // verus!
