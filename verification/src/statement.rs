//! Building the insert statement of a batch.

use crate::json::{encode_items, json_array_text};
use serde_json::Value;
use vstd::prelude::*;
use vstd::string::StringExecFns;

verus! {

/// A batch that could not be turned into a statement, because one of its items
/// cannot be written as JSON. Holds the encoder's description.
#[derive(Debug, PartialEq, Eq)]
pub struct BuildError {
    pub message: String,
}

impl View for BuildError {
    type V = Seq<char>;

    open spec fn view(&self) -> Seq<char> {
        self.message@
    }
}

/// The statement that inserts `rows`, the JSON text of an array of items, into
/// `table`, and asks the store to send no record back.
pub open spec fn insert_statement(table: Seq<char>, rows: Seq<char>) -> Seq<char> {
    "INSERT INTO "@ + table + " "@ + rows + " RETURN NONE;"@
}

/// Writes the insert statement for `table` around `rows`, the JSON text of the
/// items of one batch.
pub fn render_insert_stmt(table: &str, rows: &str) -> (statement: String)
    ensures
        statement@ == insert_statement(table@, rows@),
{
    let mut statement = String::from_str("INSERT INTO ");
    statement.append(table);
    statement.append(" ");
    statement.append(rows);
    statement.append(" RETURN NONE;");
    statement
}

/// Builds the one statement that inserts the items of `batch` into `table`.
///
/// Fails only where the batch has no JSON text, and then says why.
pub fn build_insert_stmt(table: &str, batch: &[Value]) -> (built: Result<String, BuildError>)
    ensures
        match built {
            Ok(statement) => json_array_text(batch@) matches Some(rows) && statement@
                == insert_statement(table@, rows),
            Err(_) => json_array_text(batch@) is None,
        },
{
    match encode_items(batch) {
        Ok(rows) => Ok(render_insert_stmt(table, rows.as_str())),
        Err(e) => Err(BuildError { message: e.to_string() }),
    }
}

} // verus!
