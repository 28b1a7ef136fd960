use vstd::prelude::*;

verus! {

/// One todo item: an opaque identifier, the human-facing reference number,
/// the text and whether it is done.
#[derive(Debug, Clone, PartialEq)]
pub struct Todo {
    pub id: String,
    pub text: String,
    pub referance: u32,
    pub complete: bool,
}

/// The mathematical value of a [`Todo`].
pub struct TodoView {
    pub id: Seq<char>,
    pub text: Seq<char>,
    pub referance: u32,
    pub complete: bool,
}

impl View for Todo {
    type V = TodoView;

    open spec fn view(&self) -> TodoView {
        TodoView { id: self.id@, text: self.text@, referance: self.referance, complete: self.complete }
    }
}

/// The values of a sequence of items, in the same order.
pub open spec fn views(s: Seq<Todo>) -> Seq<TodoView> {
    s.map_values(|t: Todo| t@)
}

impl Todo {
    /// A copy of the item, field by field.
    pub fn duplicate(&self) -> (r: Todo)
        ensures
            r@ == self@,
    {
        Todo {
            id: self.id.clone(),
            text: self.text.clone(),
            referance: self.referance,
            complete: self.complete,
        }
    }
}

/// What a caller hands in to create an item: its text.
#[derive(Debug, Clone)]
pub struct CreateTodoPayload {
    pub text: String,
}

/// The fields of an item as they are written when it is created.
#[derive(Debug)]
pub struct CreateTodoInput {
    pub text: String,
    pub referance: u32,
    pub complete: bool,
}

/// The two ways an operation can fail.
#[derive(Debug, Clone, PartialEq)]
pub enum LithiumError {
    /// The store could not complete a read or a write.
    Db(String),
    /// No item has the identifier or reference that was asked for.
    NotFound,
}

} // verus!
