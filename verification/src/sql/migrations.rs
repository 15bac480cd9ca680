//! The migrations that prepare an aggregate's event table.
use vstd::prelude::*;

use crate::aggregate::Aggregate;
use crate::sql::statements::{
    create_index_sql, create_index_statement, create_table_sql, create_table_statement,
    create_unique_constraint_sql, create_unique_constraint_statement, table_name_of, table_of,
};

verus! {

/// The migrations of an event table, in the order in which they run.
pub open spec fn migrations_sql(table: Seq<char>) -> Seq<Seq<char>> {
    seq![create_table_sql(table), create_index_sql(table), create_unique_constraint_sql(table)]
}

/// The migrations of the Postgres event store.
pub struct Migrations;

impl Migrations {
    /// The statements that migrate the event table of the aggregate `A`, in order:
    /// create the table, the index over `aggregate_id`, and the unique constraint over
    /// `(aggregate_id, sequence_number)`. They run in one transaction.
    pub fn statements<A: Aggregate>() -> (statements: Vec<String>)
        ensures
            statements@.len() == 3,
            forall|i: int|
                0 <= i < 3 ==> #[trigger] statements@[i]@ == migrations_sql(table_of(A::NAME@))[i],
    {
        let table = table_name_of::<A>();
        let mut statements: Vec<String> = Vec::new();
        statements.push(create_table_statement(table.as_str()));
        statements.push(create_index_statement(table.as_str()));
        statements.push(create_unique_constraint_statement(table.as_str()));
        statements
    }
}

} // verus!
