//! The statements that read and write an aggregate's event table.
use vstd::prelude::*;
use vstd::string::*;

use crate::aggregate::Aggregate;
use crate::text::surround;
use crate::text::surround_twice;

verus! {

/// The event table of an aggregate named `name`: `{name}_events`.
pub open spec fn table_of(name: Seq<char>) -> Seq<char> {
    name + "_events"@
}

pub open spec fn create_table_sql(table: Seq<char>) -> Seq<char> {
    "CREATE TABLE IF NOT EXISTS "@ + table
        + " (id uuid NOT NULL, aggregate_id uuid NOT NULL, payload jsonb NOT NULL, occurred_on TIMESTAMPTZ NOT NULL DEFAULT current_timestamp, sequence_number INT NOT NULL DEFAULT 1, CONSTRAINT "@
        + table + "_pkey PRIMARY KEY (id))"@
}

pub open spec fn create_index_sql(table: Seq<char>) -> Seq<char> {
    "CREATE INDEX IF NOT EXISTS "@ + table + "_aggregate_id ON "@ + table
        + " USING btree (aggregate_id)"@
}

pub open spec fn create_unique_constraint_sql(table: Seq<char>) -> Seq<char> {
    "CREATE UNIQUE INDEX IF NOT EXISTS "@ + table + "_aggregate_id_sequence_number ON "@ + table
        + "(aggregate_id, sequence_number)"@
}

pub open spec fn select_by_aggregate_id_sql(table: Seq<char>) -> Seq<char> {
    "SELECT * FROM "@ + table + " WHERE aggregate_id = $1 ORDER BY sequence_number ASC"@
}

pub open spec fn select_all_sql(table: Seq<char>) -> Seq<char> {
    "SELECT * FROM "@ + table + " ORDER BY sequence_number ASC"@
}

pub open spec fn insert_sql(table: Seq<char>) -> Seq<char> {
    "INSERT INTO "@ + table
        + " (id, aggregate_id, payload, occurred_on, sequence_number) VALUES ($1, $2, $3, $4, $5)"@
}

pub open spec fn delete_by_aggregate_id_sql(table: Seq<char>) -> Seq<char> {
    "DELETE FROM "@ + table + " WHERE aggregate_id = $1"@
}

/// The name of the event table of the aggregate named `aggregate_name`.
pub fn table_name(aggregate_name: &str) -> (table: String)
    ensures
        table@ == table_of(aggregate_name@),
{
    String::from_str(aggregate_name).concat("_events")
}

/// The name of the event table of the aggregate `A`.
pub fn table_name_of<A: Aggregate>() -> (table: String)
    ensures
        table@ == table_of(A::NAME@),
{
    table_name(A::NAME)
}

pub fn create_table_statement(table: &str) -> (s: String)
    ensures
        s@ == create_table_sql(table@),
{
    surround_twice(
        "CREATE TABLE IF NOT EXISTS ",
        table,
        " (id uuid NOT NULL, aggregate_id uuid NOT NULL, payload jsonb NOT NULL, occurred_on TIMESTAMPTZ NOT NULL DEFAULT current_timestamp, sequence_number INT NOT NULL DEFAULT 1, CONSTRAINT ",
        "_pkey PRIMARY KEY (id))",
    )
}

pub fn create_index_statement(table: &str) -> (s: String)
    ensures
        s@ == create_index_sql(table@),
{
    surround_twice("CREATE INDEX IF NOT EXISTS ", table, "_aggregate_id ON ", " USING btree (aggregate_id)")
}

pub fn create_unique_constraint_statement(table: &str) -> (s: String)
    ensures
        s@ == create_unique_constraint_sql(table@),
{
    surround_twice(
        "CREATE UNIQUE INDEX IF NOT EXISTS ",
        table,
        "_aggregate_id_sequence_number ON ",
        "(aggregate_id, sequence_number)",
    )
}

pub fn select_by_aggregate_id_statement(table: &str) -> (s: String)
    ensures
        s@ == select_by_aggregate_id_sql(table@),
{
    surround("SELECT * FROM ", table, " WHERE aggregate_id = $1 ORDER BY sequence_number ASC")
}

pub fn select_all_statement(table: &str) -> (s: String)
    ensures
        s@ == select_all_sql(table@),
{
    surround("SELECT * FROM ", table, " ORDER BY sequence_number ASC")
}

pub fn insert_statement(table: &str) -> (s: String)
    ensures
        s@ == insert_sql(table@),
{
    surround(
        "INSERT INTO ",
        table,
        " (id, aggregate_id, payload, occurred_on, sequence_number) VALUES ($1, $2, $3, $4, $5)",
    )
}

pub fn delete_by_aggregate_id_statement(table: &str) -> (s: String)
    ensures
        s@ == delete_by_aggregate_id_sql(table@),
{
    surround("DELETE FROM ", table, " WHERE aggregate_id = $1")
}

/// The statements with which the Postgres store reads and writes the event table of
/// one aggregate.
#[derive(Clone, Debug)]
pub struct Statements {
    table_name: String,
    select_by_aggregate_id: String,
    select_all: String,
    insert: String,
    delete_by_aggregate_id: String,
}

impl Statements {
    /// The event table's name, as the statements read.
    pub closed spec fn table(&self) -> Seq<char> {
        self.table_name@
    }

    /// Whether every statement addresses the event table that `table` names.
    pub open spec fn addresses(&self, table: Seq<char>) -> bool {
        &&& self.table() == table
        &&& self.by_aggregate_id_text() == select_by_aggregate_id_sql(table)
        &&& self.select_all_text() == select_all_sql(table)
        &&& self.insert_text() == insert_sql(table)
        &&& self.delete_by_aggregate_id_text() == delete_by_aggregate_id_sql(table)
    }

    pub closed spec fn by_aggregate_id_text(&self) -> Seq<char> {
        self.select_by_aggregate_id@
    }

    pub closed spec fn select_all_text(&self) -> Seq<char> {
        self.select_all@
    }

    pub closed spec fn insert_text(&self) -> Seq<char> {
        self.insert@
    }

    pub closed spec fn delete_by_aggregate_id_text(&self) -> Seq<char> {
        self.delete_by_aggregate_id@
    }

    /// The statements over the event table of the aggregate `A`, `{A::NAME}_events`.
    pub fn new<A: Aggregate>() -> (statements: Self)
        ensures
            statements.addresses(table_of(A::NAME@)),
    {
        let table_name = table_name_of::<A>();
        let select_by_aggregate_id = select_by_aggregate_id_statement(table_name.as_str());
        let select_all = select_all_statement(table_name.as_str());
        let insert = insert_statement(table_name.as_str());
        let delete_by_aggregate_id = delete_by_aggregate_id_statement(table_name.as_str());
        Statements { table_name, select_by_aggregate_id, select_all, insert, delete_by_aggregate_id }
    }

    pub fn table_name(&self) -> (s: &str)
        ensures
            s@ == self.table(),
    {
        self.table_name.as_str()
    }

    pub fn by_aggregate_id(&self) -> (s: &str)
        ensures
            s@ == self.by_aggregate_id_text(),
    {
        self.select_by_aggregate_id.as_str()
    }

    pub fn select_all(&self) -> (s: &str)
        ensures
            s@ == self.select_all_text(),
    {
        self.select_all.as_str()
    }

    pub fn insert(&self) -> (s: &str)
        ensures
            s@ == self.insert_text(),
    {
        self.insert.as_str()
    }

    pub fn delete_by_aggregate_id(&self) -> (s: &str)
        ensures
            s@ == self.delete_by_aggregate_id_text(),
    {
        self.delete_by_aggregate_id.as_str()
    }
}

} // verus!
