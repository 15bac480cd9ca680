//! Index statements of an aggregate's event table.
use vstd::prelude::*;

use crate::text::surround_twice;

verus! {

/// The index over the `id` field of the payload, in the `public` schema.
pub open spec fn id_index_sql(aggregate_name: Seq<char>) -> Seq<char> {
    "CREATE INDEX IF NOT EXISTS "@ + aggregate_name + "_events_aggregate_id ON public."@
        + aggregate_name + "_events USING btree (((payload ->> 'id'::text)))"@
}

/// The unique index over `(aggregate_id, sequence_number)`.
pub open spec fn aggregate_id_index_sql(aggregate_name: Seq<char>) -> Seq<char> {
    "CREATE UNIQUE INDEX IF NOT EXISTS "@ + aggregate_name
        + "_events_aggregate_id_sequence_number ON "@ + aggregate_name
        + "_events(aggregate_id, sequence_number)"@
}

pub fn create_id_index_statement(aggregate_name: &str) -> (s: String)
    ensures
        s@ == id_index_sql(aggregate_name@),
{
    surround_twice(
        "CREATE INDEX IF NOT EXISTS ",
        aggregate_name,
        "_events_aggregate_id ON public.",
        "_events USING btree (((payload ->> 'id'::text)))",
    )
}

pub fn create_aggregate_id_index_statement(aggregate_name: &str) -> (s: String)
    ensures
        s@ == aggregate_id_index_sql(aggregate_name@),
{
    surround_twice(
        "CREATE UNIQUE INDEX IF NOT EXISTS ",
        aggregate_name,
        "_events_aggregate_id_sequence_number ON ",
        "_events(aggregate_id, sequence_number)",
    )
}

} // verus!
