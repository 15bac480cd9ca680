//! All the statements of the Postgres event store for one aggregate, migrations included.
use vstd::prelude::*;
use vstd::string::*;

use crate::aggregate::Aggregate;
use crate::sql::statements::{
    create_index_sql, create_index_statement, create_table_sql, create_table_statement,
    create_unique_constraint_sql, create_unique_constraint_statement,
    delete_by_aggregate_id_sql, delete_by_aggregate_id_statement, insert_sql, insert_statement,
    select_all_sql, select_all_statement, select_by_aggregate_id_sql,
    select_by_aggregate_id_statement, table_name_of, table_of,
};
use crate::text::{blank, chars_of, is_white_space, split_at, white_space};

verus! {

/// The migration script of an event table: its statements, each closed by `;`.
pub open spec fn migrations_script(table: Seq<char>) -> Seq<char> {
    create_table_sql(table) + ";\n"@ + create_index_sql(table) + ";\n"@
        + create_unique_constraint_sql(table) + ";\n"@
}

/// Whether a piece of a script is a comment: it starts with `--`.
pub open spec fn is_comment(piece: Seq<char>) -> bool {
    piece.len() >= 2 && piece[0] == '-' && piece[1] == '-'
}

/// Whether a piece of a script is a statement to run: neither a comment nor blank.
pub open spec fn runnable(piece: Seq<char>) -> bool {
    !is_comment(piece) && !blank(piece)
}

/// The runnable statements of a script: its `;`-separated pieces, in order, without
/// the comments and the blank pieces.
pub open spec fn runnable_pieces(script: Seq<char>) -> Seq<Seq<char>> {
    split_at(script, ';').filter(|p: Seq<char>| runnable(p))
}

/// The statements of the Postgres event store of one aggregate.
#[derive(Clone, Debug)]
pub struct Statements {
    create_table: String,
    create_index: String,
    create_unique_constraint: String,
    select_by_aggregate_id: String,
    select_all: String,
    insert: String,
    delete_by_aggregate_id: String,
    migrations: String,
}

impl Statements {
    pub closed spec fn create_table_text(&self) -> Seq<char> {
        self.create_table@
    }

    pub closed spec fn create_index_text(&self) -> Seq<char> {
        self.create_index@
    }

    pub closed spec fn create_unique_constraint_text(&self) -> Seq<char> {
        self.create_unique_constraint@
    }

    pub closed spec fn by_aggregate_id_text(&self) -> Seq<char> {
        self.select_by_aggregate_id@
    }

    pub closed spec fn select_all_text(&self) -> Seq<char> {
        self.select_all@
    }

    pub closed spec fn insert_text(&self) -> Seq<char> {
        self.insert@
    }

    pub closed spec fn delete_by_aggregate_id_text(&self) -> Seq<char> {
        self.delete_by_aggregate_id@
    }

    pub closed spec fn migrations_text(&self) -> Seq<char> {
        self.migrations@
    }

    /// Whether every statement addresses the event table `table`.
    pub open spec fn addresses(&self, table: Seq<char>) -> bool {
        &&& self.create_table_text() == create_table_sql(table)
        &&& self.create_index_text() == create_index_sql(table)
        &&& self.create_unique_constraint_text() == create_unique_constraint_sql(table)
        &&& self.by_aggregate_id_text() == select_by_aggregate_id_sql(table)
        &&& self.select_all_text() == select_all_sql(table)
        &&& self.insert_text() == insert_sql(table)
        &&& self.delete_by_aggregate_id_text() == delete_by_aggregate_id_sql(table)
        &&& self.migrations_text() == migrations_script(table)
    }

    /// The statements over the event table of the aggregate `A`, `{A::NAME}_events`.
    pub fn new<A: Aggregate>() -> (statements: Self)
        ensures
            statements.addresses(table_of(A::NAME@)),
    {
        let table = table_name_of::<A>();
        let t = table.as_str();
        let create_table = create_table_statement(t);
        let create_index = create_index_statement(t);
        let create_unique_constraint = create_unique_constraint_statement(t);
        let mut migrations = create_table.clone();
        migrations.append(";\n");
        migrations.append(create_index.as_str());
        migrations.append(";\n");
        migrations.append(create_unique_constraint.as_str());
        migrations.append(";\n");
        Statements {
            create_table,
            create_index,
            create_unique_constraint,
            select_by_aggregate_id: select_by_aggregate_id_statement(t),
            select_all: select_all_statement(t),
            insert: insert_statement(t),
            delete_by_aggregate_id: delete_by_aggregate_id_statement(t),
            migrations,
        }
    }

    pub fn create_table(&self) -> (s: &str)
        ensures
            s@ == self.create_table_text(),
    {
        self.create_table.as_str()
    }

    pub fn create_index(&self) -> (s: &str)
        ensures
            s@ == self.create_index_text(),
    {
        self.create_index.as_str()
    }

    pub fn create_unique_constraint(&self) -> (s: &str)
        ensures
            s@ == self.create_unique_constraint_text(),
    {
        self.create_unique_constraint.as_str()
    }

    pub fn by_aggregate_id(&self) -> (s: &str)
        ensures
            s@ == self.by_aggregate_id_text(),
    {
        self.select_by_aggregate_id.as_str()
    }

    pub fn select_all(&self) -> (s: &str)
        ensures
            s@ == self.select_all_text(),
    {
        self.select_all.as_str()
    }

    pub fn insert(&self) -> (s: &str)
        ensures
            s@ == self.insert_text(),
    {
        self.insert.as_str()
    }

    pub fn delete_by_aggregate_id(&self) -> (s: &str)
        ensures
            s@ == self.delete_by_aggregate_id_text(),
    {
        self.delete_by_aggregate_id.as_str()
    }

    /// The statements of the migration script to run, in order: its `;`-separated
    /// pieces that are neither comments (starting with `--`) nor blank.
    pub fn migrations(&self) -> (pieces: Vec<&str>)
        ensures
            pieces@.map_values(|p: &str| p@) == runnable_pieces(self.migrations_text()),
    {
        runnable_statements(self.migrations.as_str())
    }
}

/// Whether `cs[from..to]` is blank.
fn is_blank(cs: &Vec<char>, from: usize, to: usize) -> (b: bool)
    requires
        from <= to <= cs@.len(),
    ensures
        b == blank(cs@.subrange(from as int, to as int)),
{
    let mut k = from;
    while k < to
        invariant
            from <= k <= to <= cs@.len(),
            blank(cs@.subrange(from as int, k as int)),
        decreases to - k,
    {
        if !is_white_space(cs[k]) {
            assert(cs@.subrange(from as int, to as int)[k - from] == cs@[k as int]);
            return false;
        }
        assert forall|j: int| 0 <= j < k + 1 - from implies white_space(
            #[trigger] cs@.subrange(from as int, k + 1)[j],
        ) by {
            if j < k - from {
                assert(cs@.subrange(from as int, k + 1)[j] == cs@.subrange(from as int, k as int)[j]);
            }
        }
        k = k + 1;
    }
    true
}

/// Whether `cs[from..to]` is runnable.
fn is_runnable(cs: &Vec<char>, from: usize, to: usize) -> (b: bool)
    requires
        from <= to <= cs@.len(),
    ensures
        b == runnable(cs@.subrange(from as int, to as int)),
{
    let comment = to - from >= 2 && cs[from] == '-' && cs[from + 1] == '-';
    !comment && !is_blank(cs, from, to)
}

/// The runnable statements of a script, as slices of it.
fn runnable_statements(script: &str) -> (pieces: Vec<&str>)
    ensures
        pieces@.map_values(|p: &str| p@) == runnable_pieces(script@),
{
    let cs = chars_of(script);
    let n = cs.len();
    let ghost s = script@;
    let mut pieces: Vec<&str> = Vec::new();
    let mut start: usize = 0;
    let mut i: usize = 0;
    proof {
        assert(s.take(0) =~= Seq::<char>::empty());
        reveal(Seq::filter);
    }
    while i < n
        invariant
            n == cs@.len() == s.len(),
            s == script@,
            cs@ == s,
            0 <= start <= i <= n,
            split_at(s.take(i as int), ';').len() >= 1,
            pieces@.map_values(|p: &str| p@) == split_at(s.take(i as int), ';').drop_last().filter(
                |p: Seq<char>| runnable(p),
            ),
            split_at(s.take(i as int), ';').last() == s.subrange(start as int, i as int),
        decreases n - i,
    {
        let ghost before = split_at(s.take(i as int), ';');
        let ghost next_prefix = s.take(i + 1);
        proof {
            assert(next_prefix.drop_last() =~= s.take(i as int));
            assert(next_prefix.last() == s[i as int]);
        }
        if cs[i] == ';' {
            let ghost piece = s.subrange(start as int, i as int);
            let ghost kept_before = pieces@.map_values(|p: &str| p@);
            if is_runnable(&cs, start, i) {
                let p = script.substring_char(start, i);
                pieces.push(p);
                proof {
                    assert(pieces@.map_values(|p: &str| p@) =~= kept_before.push(piece));
                }
            }
            proof {
                let after = split_at(next_prefix, ';');
                assert(after == before.push(Seq::<char>::empty()));
                assert(after.drop_last() =~= before);
                assert(before =~= before.drop_last().push(piece));
                reveal(Seq::filter);
                assert(before.drop_last().push(piece).drop_last() =~= before.drop_last());
                assert(s.subrange(i + 1, i + 1) =~= Seq::<char>::empty());
            }
            start = i + 1;
        } else {
            proof {
                let after = split_at(next_prefix, ';');
                assert(after == before.update(before.len() - 1, before.last().push(s[i as int])));
                assert(after.drop_last() =~= before.drop_last());
                assert(s.subrange(start as int, i + 1) =~= s.subrange(start as int, i as int).push(
                    s[i as int],
                ));
            }
        }
        i = i + 1;
    }
    proof {
        assert(s.take(n as int) =~= s);
    }
    let ghost all = split_at(s, ';');
    let ghost kept_before = pieces@.map_values(|p: &str| p@);
    let ghost last_piece = s.subrange(start as int, n as int);
    if is_runnable(&cs, start, n) {
        let p = script.substring_char(start, n);
        pieces.push(p);
        proof {
            assert(pieces@.map_values(|p: &str| p@) =~= kept_before.push(last_piece));
        }
    }
    proof {
        assert(all =~= all.drop_last().push(last_piece));
        reveal(Seq::filter);
    }
    pieces
}

} // verus!
