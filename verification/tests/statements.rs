use esrs::aggregate::Aggregate;
use esrs::postgres::index::{create_aggregate_id_index_statement, create_id_index_statement};
use esrs::postgres::projector::ProjectorPersistence;
use esrs::postgres::setup::setup_statements;
use esrs::rebuilder::aggregate_ids_statement;
use esrs::sql::migrations::Migrations;
use esrs::sql::statements::{
    create_index_statement, create_table_statement, create_unique_constraint_statement,
    delete_by_aggregate_id_statement, insert_statement, select_all_statement,
    select_by_aggregate_id_statement, table_name, table_name_of,
};
use esrs::text::{chars_of, is_white_space, surround, surround_twice};

struct TestAggregate;

impl Aggregate for TestAggregate {
    const NAME: &'static str = "test";
    type State = ();
    type Command = ();
    type Event = ();
    type Error = ();

    fn handle_command(_state: &(), _command: ()) -> Result<Vec<()>, ()> {
        Ok(vec![])
    }

    fn apply_event(_state: (), _payload: ()) {}
}

const CREATE_TABLE: &str = "CREATE TABLE IF NOT EXISTS test_events (id uuid NOT NULL, aggregate_id uuid NOT NULL, payload jsonb NOT NULL, occurred_on TIMESTAMPTZ NOT NULL DEFAULT current_timestamp, sequence_number INT NOT NULL DEFAULT 1, CONSTRAINT test_events_pkey PRIMARY KEY (id))";
const CREATE_INDEX: &str = "CREATE INDEX IF NOT EXISTS test_events_aggregate_id ON test_events USING btree (aggregate_id)";
const CREATE_UNIQUE: &str = "CREATE UNIQUE INDEX IF NOT EXISTS test_events_aggregate_id_sequence_number ON test_events(aggregate_id, sequence_number)";

#[test]
fn surround_puts_the_middle_between() {
    assert_eq!(surround("a", "b", "c"), "abc");
    assert_eq!(surround("", "", ""), "");
    assert_eq!(surround_twice("<", "x", "|", ">"), "<x|x>");
}

#[test]
fn white_space_is_what_trim_removes() {
    for c in ['\t', '\n', '\r', ' ', '\u{85}', '\u{a0}', '\u{2003}', '\u{3000}'] {
        assert!(is_white_space(c), "{:?}", c);
        assert_eq!(is_white_space(c), c.is_whitespace());
    }
    for c in ['a', '-', ';', '0', '\u{200b}'] {
        assert!(!is_white_space(c), "{:?}", c);
        assert_eq!(is_white_space(c), c.is_whitespace());
    }
}

#[test]
fn chars_of_gives_every_char() {
    assert_eq!(chars_of("aé;"), vec!['a', 'é', ';']);
    assert!(chars_of("").is_empty());
}

#[test]
fn table_name_of_appends_events() {
    assert_eq!(table_name_of::<TestAggregate>(), "test_events");
    assert_eq!(table_name("shop"), "shop_events");
    assert_eq!(table_name(""), "_events");
}

#[test]
fn sql_statement_texts() {
    assert_eq!(create_table_statement("test_events"), CREATE_TABLE);
    assert_eq!(create_index_statement("test_events"), CREATE_INDEX);
    assert_eq!(create_unique_constraint_statement("test_events"), CREATE_UNIQUE);
    assert_eq!(
        select_by_aggregate_id_statement("t"),
        "SELECT * FROM t WHERE aggregate_id = $1 ORDER BY sequence_number ASC"
    );
    assert_eq!(select_all_statement("t"), "SELECT * FROM t ORDER BY sequence_number ASC");
    assert_eq!(
        insert_statement("t"),
        "INSERT INTO t (id, aggregate_id, payload, occurred_on, sequence_number) VALUES ($1, $2, $3, $4, $5)"
    );
    assert_eq!(delete_by_aggregate_id_statement("t"), "DELETE FROM t WHERE aggregate_id = $1");
    assert_eq!(aggregate_ids_statement("t"), "SELECT DISTINCT(aggregate_id) FROM t");
}

#[test]
fn sql_statements_address_the_aggregate_table() {
    let statements = esrs::sql::statements::Statements::new::<TestAggregate>();
    assert_eq!(statements.table_name(), "test_events");
    assert_eq!(
        statements.by_aggregate_id(),
        "SELECT * FROM test_events WHERE aggregate_id = $1 ORDER BY sequence_number ASC"
    );
    assert_eq!(statements.select_all(), "SELECT * FROM test_events ORDER BY sequence_number ASC");
    assert_eq!(
        statements.insert(),
        "INSERT INTO test_events (id, aggregate_id, payload, occurred_on, sequence_number) VALUES ($1, $2, $3, $4, $5)"
    );
    assert_eq!(statements.delete_by_aggregate_id(), "DELETE FROM test_events WHERE aggregate_id = $1");
}

#[test]
fn migrations_statements_in_order() {
    let statements = Migrations::statements::<TestAggregate>();
    assert_eq!(statements, vec![CREATE_TABLE.to_string(), CREATE_INDEX.to_string(), CREATE_UNIQUE.to_string()]);
}

#[test]
fn postgres_statements_and_migration_pieces() {
    let statements = esrs::postgres::statement::Statements::new::<TestAggregate>();
    assert_eq!(statements.create_table(), CREATE_TABLE);
    assert_eq!(statements.create_index(), CREATE_INDEX);
    assert_eq!(statements.create_unique_constraint(), CREATE_UNIQUE);
    assert_eq!(statements.select_all(), "SELECT * FROM test_events ORDER BY sequence_number ASC");
    assert_eq!(statements.delete_by_aggregate_id(), "DELETE FROM test_events WHERE aggregate_id = $1");
    let pieces = statements.migrations();
    let index_piece = format!("\n{}", CREATE_INDEX);
    let unique_piece = format!("\n{}", CREATE_UNIQUE);
    assert_eq!(pieces, vec![CREATE_TABLE, index_piece.as_str(), unique_piece.as_str()]);
    // The pieces are what `split(';')` gives, less the comments and the blank ones.
    let script = format!("{};\n{};\n{};\n", CREATE_TABLE, CREATE_INDEX, CREATE_UNIQUE);
    let expected: Vec<&str> =
        script.split(';').filter(|v| !v.starts_with("--")).filter(|v| !v.trim().is_empty()).collect();
    assert_eq!(pieces, expected);
}

#[test]
fn index_statements_of_an_aggregate() {
    assert_eq!(
        create_id_index_statement("shop"),
        "CREATE INDEX IF NOT EXISTS shop_events_aggregate_id ON public.shop_events USING btree (((payload ->> 'id'::text)))"
    );
    assert_eq!(
        create_aggregate_id_index_statement("shop"),
        "CREATE UNIQUE INDEX IF NOT EXISTS shop_events_aggregate_id_sequence_number ON shop_events(aggregate_id, sequence_number)"
    );
}

#[test]
fn setup_creates_the_table_then_two_indexes() {
    let statements = setup_statements("test");
    assert_eq!(statements.len(), 3);
    let table = format!(
        "
        CREATE TABLE IF NOT EXISTS {0}_events
        (
          id uuid NOT NULL,
          aggregate_id uuid NOT NULL,
          payload jsonb NOT NULL,
          occurred_on TIMESTAMPTZ NOT NULL DEFAULT current_timestamp,
          sequence_number INT NOT NULL DEFAULT 1,
          CONSTRAINT {0}_events_pkey PRIMARY KEY (id)
        )
        ",
        "test"
    );
    assert_eq!(statements[0], table);
    assert_eq!(
        statements[1],
        "CREATE INDEX IF NOT EXISTS test_events_aggregate_id ON test_events USING btree (((payload ->> 'id'::text)))"
    );
    assert_eq!(
        statements[2],
        "CREATE UNIQUE INDEX IF NOT EXISTS test_events_aggregate_id_sequence_number ON test_events(aggregate_id, sequence_number)"
    );
}

#[test]
fn projector_persistence_labels() {
    assert_eq!(ProjectorPersistence::Mandatory.as_ref(), "mandatory");
    assert_eq!(ProjectorPersistence::Fallible.as_ref(), "fallible");
}
