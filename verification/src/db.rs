//! Indexes of the administration database.
use crate::error::{joined, joined3, DbFailure};
use vstd::prelude::*;

verus! {

/// The number of MySQL's error for a column name that is there already.
pub const DUPLICATE_COLUMN: u16 = 1060;

/// The number of MySQL's error for a key name that is there already.
pub const DUPLICATE_KEY: u16 = 1061;

/// Whether a failure to create an index says that the index or the column is there already.
pub open spec fn is_there_already(f: DbFailure) -> bool {
    f.number == Some(1060u16) || f.number == Some(1061u16)
}

/// What the attempt to create an index comes to: where the index is there already, nothing failed.
pub fn create_index_if_not_exists(outcome: Result<(), DbFailure>) -> (r: Result<(), DbFailure>)
    ensures
        match outcome {
            Err(f) => if is_there_already(f) {
                r is Ok
            } else {
                r == outcome
            },
            Ok(()) => r is Ok,
        },
{
    match outcome {
        Ok(()) => Ok(()),
        Err(f) => {
            if let Some(number) = f.number {
                if number == DUPLICATE_KEY || number == DUPLICATE_COLUMN {
                    return Ok(());
                }
            }
            Err(f)
        },
    }
}

/// The statement that drops an index.
pub open spec fn drop_statement(table: Seq<char>, index: Seq<char>) -> Seq<char> {
    "ALTER TABLE "@ + table + " DROP INDEX "@ + (index + ";"@)
}

/// The statement that drops an index, where the table has `count` of that name.
pub fn drop_unique_index_if_exists(table: &str, index: &str, count: i64) -> (r: Option<String>)
    ensures
        if count > 0 {
            r matches Some(sql) && sql@ == drop_statement(table@, index@)
        } else {
            r is None
        },
{
    if count > 0 {
        let start = joined3("ALTER TABLE ", table, " DROP INDEX ");
        let end = joined(index, ";");
        Some(joined(start.as_str(), end.as_str()))
    } else {
        None
    }
}

} // verus!
