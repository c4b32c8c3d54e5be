use vstd::prelude::*;
use crate::schema::text_eq;

verus! {

/// The table in which migrations record their own bookkeeping.
pub open spec fn migrations_table() -> Seq<char> {
    "_sqlx_migrations"@
}

/// A table is emitted unless it is the migration-bookkeeping table.
pub open spec fn emits(table: Seq<char>) -> bool {
    table != migrations_table()
}

/// Whether a record type is generated for this table.
pub fn should_emit(table_name: &str) -> (r: bool)
    ensures
        r == emits(table_name@),
        r == (table_name@ != "_sqlx_migrations"@),
{
    !text_eq(table_name, "_sqlx_migrations")
}

} // verus!
