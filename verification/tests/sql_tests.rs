use cloudflare_showcase::sql::{
    build_query, escape_sql_string, export_dump, format_sql_number, format_sql_value,
    format_value, insert_message_sql, migration_record_sql, pending_statements,
    recent_messages_sql, user_messages_sql, wrap_database_file, BindError, Message, Migration,
    SqlValue, PreparedStatement, CREATE_MIGRATIONS_TABLE, CURRENT_VERSION_QUERY,
};

const MIGRATIONS: [Migration; 3] = [
    Migration { version: 1, name: "create_messages_table", sql: "CREATE TABLE messages (id INTEGER)" },
    Migration { version: 2, name: "create_indexes", sql: "CREATE INDEX idx ON messages(id)" },
    Migration { version: 3, name: "it's new", sql: "ALTER TABLE messages ADD c TEXT" },
];

#[test]
fn quotes_are_doubled() {
    assert_eq!(escape_sql_string("it's"), "it''s");
    assert_eq!(escape_sql_string("''"), "''''");
    assert_eq!(escape_sql_string("plain"), "plain");
    assert_eq!(escape_sql_string(""), "");
    assert_eq!(escape_sql_string("\"a\""), "\"a\"");
}

#[test]
fn value_is_quoted_and_escaped() {
    assert_eq!(format_sql_value("it's"), "'it''s'");
    assert_eq!(format_sql_value(""), "''");
}

#[test]
fn numbers_are_decimal() {
    assert_eq!(format_sql_number(0), "0");
    assert_eq!(format_sql_number(42), "42");
    assert_eq!(format_sql_number(-7), "-7");
    assert_eq!(format_sql_number(i64::MAX), "9223372036854775807");
    assert_eq!(format_sql_number(i64::MIN), "-9223372036854775808");
}

#[test]
fn values_are_rendered_by_kind() {
    assert_eq!(format_value(&SqlValue::Null), "NULL");
    assert_eq!(format_value(&SqlValue::Bool(true)), "1");
    assert_eq!(format_value(&SqlValue::Bool(false)), "0");
    assert_eq!(format_value(&SqlValue::Integer(-12)), "-12");
    assert_eq!(format_value(&SqlValue::Text("o'k".to_string())), "'o''k'");
}

#[test]
fn placeholders_are_bound_in_order() {
    let bindings = vec![
        SqlValue::Integer(1_700_000_000_000),
        SqlValue::Text("hi there".to_string()),
        SqlValue::Text("u'1".to_string()),
    ];
    assert_eq!(
        build_query("INSERT INTO messages (timestamp, content, user_id) VALUES (?, ?, ?)", &bindings),
        Ok("INSERT INTO messages (timestamp, content, user_id) VALUES (1700000000000, 'hi there', 'u''1')"
            .to_string())
    );
}

#[test]
fn statement_without_placeholders_and_values() {
    assert_eq!(build_query("SELECT 1", &vec![]), Ok("SELECT 1".to_string()));
    assert_eq!(build_query("", &vec![]), Ok(String::new()));
}

#[test]
fn missing_value_is_an_error() {
    assert_eq!(
        build_query("SELECT ? + ?", &vec![SqlValue::Integer(1)]),
        Err(BindError::NotEnoughParameters)
    );
    assert_eq!(build_query("?", &vec![]), Err(BindError::NotEnoughParameters));
}

#[test]
fn surplus_value_is_an_error() {
    assert_eq!(
        build_query("SELECT ?", &vec![SqlValue::Integer(1), SqlValue::Integer(2)]),
        Err(BindError::TooManyParameters)
    );
    assert_eq!(build_query("SELECT 1", &vec![SqlValue::Null]), Err(BindError::TooManyParameters));
}

#[test]
fn question_mark_in_a_bound_text_is_taken_for_a_placeholder() {
    let bindings = vec![SqlValue::Text("why?".to_string()), SqlValue::Integer(5)];
    assert_eq!(build_query("SELECT ?", &bindings), Ok("SELECT 'why5'".to_string()));
    assert_eq!(
        build_query("SELECT ?", &vec![SqlValue::Text("why?".to_string())]),
        Err(BindError::NotEnoughParameters)
    );
}

#[test]
fn bind_errors_have_messages() {
    assert_eq!(BindError::NotEnoughParameters.message(), "Not enough parameters bound to query");
    assert_eq!(BindError::TooManyParameters.message(), "Too many parameters bound to query");
}

#[test]
fn statement_collects_its_values() {
    let statement = PreparedStatement::new("SELECT * FROM messages WHERE user_id = ? LIMIT ?".to_string())
        .bind_value(SqlValue::Text("u1".to_string()))
        .bind_value(SqlValue::Integer(10));
    assert_eq!(
        statement.build_query(),
        Ok("SELECT * FROM messages WHERE user_id = 'u1' LIMIT 10".to_string())
    );
    let rebound = statement.bind(vec![SqlValue::Null, SqlValue::Bool(true)]);
    assert_eq!(
        rebound.build_query(),
        Ok("SELECT * FROM messages WHERE user_id = NULL LIMIT 1".to_string())
    );
    assert_eq!(PreparedStatement::new("SELECT 1".to_string()).bindings, vec![]);
}

#[test]
fn migration_is_recorded_with_its_name_escaped() {
    assert_eq!(
        migration_record_sql(&MIGRATIONS[0]),
        "INSERT INTO __migrations (version, name) VALUES (1, 'create_messages_table')"
    );
    assert_eq!(
        migration_record_sql(&MIGRATIONS[2]),
        "INSERT INTO __migrations (version, name) VALUES (3, 'it''s new')"
    );
}

#[test]
fn only_later_migrations_are_pending() {
    assert_eq!(pending_statements(&MIGRATIONS, 3), Vec::<String>::new());
    assert_eq!(
        pending_statements(&MIGRATIONS, 1),
        vec![
            "CREATE INDEX idx ON messages(id)".to_string(),
            "INSERT INTO __migrations (version, name) VALUES (2, 'create_indexes')".to_string(),
            "ALTER TABLE messages ADD c TEXT".to_string(),
            "INSERT INTO __migrations (version, name) VALUES (3, 'it''s new')".to_string(),
        ]
    );
    assert_eq!(pending_statements(&MIGRATIONS, 0).len(), 6);
    assert_eq!(pending_statements(&[], 0), Vec::<String>::new());
    assert!(CREATE_MIGRATIONS_TABLE.starts_with("CREATE TABLE IF NOT EXISTS __migrations"));
    assert!(CURRENT_VERSION_QUERY.contains("MAX(version)"));
}

#[test]
fn message_statements() {
    assert_eq!(
        insert_message_sql(17, "it's", "u1"),
        "INSERT INTO messages (timestamp, content, user_id) VALUES (17, 'it''s', 'u1') RETURNING id"
    );
    assert_eq!(
        recent_messages_sql(50),
        "SELECT * FROM messages ORDER BY timestamp DESC LIMIT 50"
    );
    assert_eq!(
        user_messages_sql("o'neil"),
        "SELECT * FROM messages WHERE user_id = 'o''neil' ORDER BY timestamp DESC"
    );
}

#[test]
fn dump_lists_schema_and_messages() {
    let schema = vec!["CREATE TABLE messages (id INTEGER)".to_string()];
    let messages = vec![
        Message { id: Some(1), timestamp: 17, content: "it's".to_string(), user_id: "u1".to_string() },
        Message { id: None, timestamp: -1, content: String::new(), user_id: "u2".to_string() },
    ];
    assert_eq!(
        export_dump(&schema, &messages),
        "-- SQLite database export\n-- Generated from Cloudflare Durable Object\n\n\
         CREATE TABLE messages (id INTEGER);\n\n\
         -- Message data\n\
         INSERT INTO messages (id, timestamp, content, user_id) VALUES (1, 17, 'it''s', 'u1');\n\
         INSERT INTO messages (id, timestamp, content, user_id) VALUES (0, -1, '', 'u2');\n"
    );
    assert_eq!(
        export_dump(&vec![], &vec![]),
        "-- SQLite database export\n-- Generated from Cloudflare Durable Object\n\n-- Message data\n"
    );
}

#[test]
fn database_file_wraps_the_dump() {
    assert_eq!(
        wrap_database_file(b"DUMP"),
        b"SQLite format 3\0\n-- BEGIN SQL DUMP\nDUMP\n-- END SQL DUMP\n".to_vec()
    );
}
