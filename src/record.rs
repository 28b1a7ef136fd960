use vstd::prelude::*;

use crate::item::{LithiumError, Todo, TodoView};

verus! {

/// The key of a stored record: the table it lives in and its identifier
/// within that table.
#[derive(Debug, Clone, PartialEq)]
pub struct RecordId {
    pub tb: String,
    pub id: String,
}

/// A todo item as the store keeps it, keyed by a record identifier.
#[derive(Debug, Clone, PartialEq)]
pub struct TodoDatabaseResponse {
    pub id: RecordId,
    pub text: String,
    pub referance: u32,
    pub complete: bool,
}

/// The item that a stored record holds: the record's key within its table
/// becomes the item's identifier.
pub open spec fn record_todo(r: TodoDatabaseResponse) -> TodoView {
    TodoView { id: r.id.id@, text: r.text@, referance: r.referance, complete: r.complete }
}

/// The item that a stored record holds.
pub fn db_response_to_todo(response: &TodoDatabaseResponse) -> (t: Todo)
    ensures
        t@ == record_todo(*response),
{
    Todo {
        id: response.id.id.clone(),
        text: response.text.clone(),
        referance: response.referance,
        complete: response.complete,
    }
}

/// The item that a stored record holds, provided the record lives in the
/// `todo` table; a record of another table is a storage failure.
pub fn todo_from_record(record: &TodoDatabaseResponse) -> (r: Result<Todo, LithiumError>)
    ensures
        r is Ok <==> record.id.tb@ == "todo"@,
        r matches Ok(t) ==> t@ == record_todo(*record),
        r is Err ==> r matches Err(LithiumError::Db(_)),
{
    if record.id.tb == "todo".to_owned() {
        Ok(db_response_to_todo(record))
    } else {
        Err(LithiumError::Db("record outside the todo table".to_owned()))
    }
}

/// The record under which an item is stored, in the `todo` table.
pub fn todo_to_db_record(todo: &Todo) -> (r: TodoDatabaseResponse)
    ensures
        record_todo(r) == todo@,
        r.id.tb@ == "todo"@,
{
    TodoDatabaseResponse {
        id: RecordId { tb: "todo".to_owned(), id: todo.id.clone() },
        text: todo.text.clone(),
        referance: todo.referance,
        complete: todo.complete,
    }
}

} // verus!
