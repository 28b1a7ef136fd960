use vstd::prelude::*;

use crate::item::{views, CreateTodoPayload, LithiumError, Todo};
use crate::service::{
    complete_outcome, complete_todo_by_ref, create_outcome, create_todo, delete_outcome,
    delete_todo_by_ref,
};
use crate::store::TodoStore;

verus! {

/// The text of an item to create.
#[derive(Debug, Clone)]
pub struct CreateInput {
    pub input: String,
}

/// The reference of an item to complete.
#[derive(Debug, Clone)]
pub struct CompleteInput {
    pub referance: u32,
}

/// The reference of an item to delete.
#[derive(Debug, Clone)]
pub struct DeleteInput {
    pub referance: u32,
}

/// The subcommands of the command line.
#[derive(Debug, Clone)]
pub enum ActionType {
    /// List todos
    List,
    /// Create todo
    Create(CreateInput),
    /// Complete todo
    Complete(CompleteInput),
    /// Delete todo
    Delete(DeleteInput),
}

/// A parsed command line.
#[derive(Debug, Clone)]
pub struct Program {
    pub action: ActionType,
}

/// What a subcommand did, for the command line to report.
#[derive(Debug)]
pub enum ActionOutcome {
    /// Every item, in ascending reference order.
    Listed(Vec<Todo>),
    /// The created item, or why it was not created.
    Created(Result<Todo, LithiumError>),
    /// Whether the item was completed.
    Completed(Result<(), LithiumError>),
    /// Whether the item was deleted.
    Deleted(Result<(), LithiumError>),
}

/// Carries out the subcommand of `program` on the store.
pub fn run(store: &mut TodoStore, program: Program) -> (r: ActionOutcome)
    requires
        old(store).well_formed(),
    ensures
        final(store).well_formed(),
        match program.action {
            ActionType::List => {
                &&& r matches ActionOutcome::Listed(v)
                &&& views(v@) == old(store)@.todos
                &&& final(store)@ == old(store)@
            },
            ActionType::Create(c) => {
                &&& r matches ActionOutcome::Created(res)
                &&& create_outcome(old(store)@, c.input@, final(store)@, res)
            },
            ActionType::Complete(c) => {
                &&& r matches ActionOutcome::Completed(res)
                &&& complete_outcome(old(store)@, c.referance, final(store)@, res)
            },
            ActionType::Delete(d) => {
                &&& r matches ActionOutcome::Deleted(res)
                &&& delete_outcome(old(store)@, d.referance, final(store)@, res)
            },
        },
{
    match program.action {
        ActionType::List => ActionOutcome::Listed(store.list_all()),
        ActionType::Create(c) => ActionOutcome::Created(
            create_todo(store, CreateTodoPayload { text: c.input }),
        ),
        ActionType::Complete(c) => ActionOutcome::Completed(complete_todo_by_ref(store, c.referance)),
        ActionType::Delete(d) => ActionOutcome::Deleted(delete_todo_by_ref(store, d.referance)),
    }
}

} // verus!
