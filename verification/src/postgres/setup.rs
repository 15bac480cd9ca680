//! The statements that prepare an aggregate's event table.
use vstd::prelude::*;

use crate::text::surround_twice;

verus! {

/// The event table of an aggregate, as the setup creates it.
pub open spec fn table_sql(aggregate_name: Seq<char>) -> Seq<char> {
    "\n        CREATE TABLE IF NOT EXISTS "@ + aggregate_name
        + "_events\n        (\n          id uuid NOT NULL,\n          aggregate_id uuid NOT NULL,\n          payload jsonb NOT NULL,\n          occurred_on TIMESTAMPTZ NOT NULL DEFAULT current_timestamp,\n          sequence_number INT NOT NULL DEFAULT 1,\n          CONSTRAINT "@
        + aggregate_name + "_events_pkey PRIMARY KEY (id)\n        )\n        "@
}

/// The index over the `id` field of the payload.
pub open spec fn id_index_sql(aggregate_name: Seq<char>) -> Seq<char> {
    "CREATE INDEX IF NOT EXISTS "@ + aggregate_name + "_events_aggregate_id ON "@
        + aggregate_name + "_events USING btree (((payload ->> 'id'::text)))"@
}

/// The unique index over `(aggregate_id, sequence_number)`.
pub open spec fn aggregate_id_index_sql(aggregate_name: Seq<char>) -> Seq<char> {
    "CREATE UNIQUE INDEX IF NOT EXISTS "@ + aggregate_name
        + "_events_aggregate_id_sequence_number ON "@ + aggregate_name
        + "_events(aggregate_id, sequence_number)"@
}

/// What the setup runs, in its order: the table, then the two indexes.
pub open spec fn setup_sql(aggregate_name: Seq<char>) -> Seq<Seq<char>> {
    seq![
        table_sql(aggregate_name),
        id_index_sql(aggregate_name),
        aggregate_id_index_sql(aggregate_name),
    ]
}

fn create_table_statement(aggregate_name: &str) -> (s: String)
    ensures
        s@ == table_sql(aggregate_name@),
{
    surround_twice(
        "\n        CREATE TABLE IF NOT EXISTS ",
        aggregate_name,
        "_events\n        (\n          id uuid NOT NULL,\n          aggregate_id uuid NOT NULL,\n          payload jsonb NOT NULL,\n          occurred_on TIMESTAMPTZ NOT NULL DEFAULT current_timestamp,\n          sequence_number INT NOT NULL DEFAULT 1,\n          CONSTRAINT ",
        "_events_pkey PRIMARY KEY (id)\n        )\n        ",
    )
}

fn create_id_index_statement(aggregate_name: &str) -> (s: String)
    ensures
        s@ == id_index_sql(aggregate_name@),
{
    surround_twice(
        "CREATE INDEX IF NOT EXISTS ",
        aggregate_name,
        "_events_aggregate_id ON ",
        "_events USING btree (((payload ->> 'id'::text)))",
    )
}

fn create_aggregate_id_index_statement(aggregate_name: &str) -> (s: String)
    ensures
        s@ == aggregate_id_index_sql(aggregate_name@),
{
    surround_twice(
        "CREATE UNIQUE INDEX IF NOT EXISTS ",
        aggregate_name,
        "_events_aggregate_id_sequence_number ON ",
        "_events(aggregate_id, sequence_number)",
    )
}

/// The statements that the setup of an aggregate's event store executes, in order:
/// create the table if it does not exist, then the two indexes if they do not exist.
pub fn setup_statements(aggregate_name: &str) -> (statements: Vec<String>)
    ensures
        statements@.len() == 3,
        forall|i: int| 0 <= i < 3 ==> #[trigger] statements@[i]@ == setup_sql(aggregate_name@)[i],
{
    let mut statements: Vec<String> = Vec::new();
    statements.push(create_table_statement(aggregate_name));
    statements.push(create_id_index_statement(aggregate_name));
    statements.push(create_aggregate_id_index_statement(aggregate_name));
    statements
}

} // verus!
