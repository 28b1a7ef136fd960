use vstd::prelude::*;

use crate::identifier::new_todo_id;
use crate::item::{views, CreateTodoInput, CreateTodoPayload, LithiumError, Todo, TodoView};
use crate::store::{
    avoiding, completed_reference, created, removed_id, removed_reference, updated, StoreView,
    TodoStore,
};

verus! {

/// What a create on `pre` does. When the counter is exhausted the create
/// fails and nothing changes; otherwise it succeeds and stores the new item.
pub open spec fn create_outcome(
    pre: StoreView,
    text: Seq<char>,
    post: StoreView,
    r: Result<Todo, LithiumError>,
) -> bool {
    if pre.counter == Some(u32::MAX) {
        (r matches Err(LithiumError::Db(_))) && post == pre
    } else {
        r matches Ok(t) && created(pre, text, post, t@)
    }
}

/// What deleting reference `referance` on `pre` does: removes the item that
/// has it, or fails with `NotFound` and changes nothing when none has.
pub open spec fn delete_outcome(
    pre: StoreView,
    referance: u32,
    post: StoreView,
    r: Result<(), LithiumError>,
) -> bool {
    if pre.has_reference(referance) {
        r is Ok && removed_reference(pre, referance, post)
    } else {
        r == Err::<(), LithiumError>(LithiumError::NotFound) && post == pre
    }
}

/// What completing reference `referance` on `pre` does: marks the item that
/// has it complete, or fails with `NotFound` and changes nothing when none
/// has.
pub open spec fn complete_outcome(
    pre: StoreView,
    referance: u32,
    post: StoreView,
    r: Result<(), LithiumError>,
) -> bool {
    if pre.has_reference(referance) {
        r is Ok && completed_reference(pre, referance, post)
    } else {
        r == Err::<(), LithiumError>(LithiumError::NotFound) && post == pre
    }
}

/// Hands out the next reference: one on a store that never numbered an item,
/// else the counter's value, which then moves on by one. Fails, changing
/// nothing, only when the counter is at `u32::MAX`.
pub fn next_referance(store: &mut TodoStore) -> (r: Result<u32, LithiumError>)
    requires
        old(store).well_formed(),
    ensures
        final(store).well_formed(),
        r is Err <==> old(store)@.counter == Some(u32::MAX),
        r is Err ==> (r matches Err(LithiumError::Db(_))) && final(store)@ == old(store)@,
        r matches Ok(n) ==> {
            &&& n == old(store)@.next_reference()
            &&& final(store)@.todos == old(store)@.todos
            &&& final(store)@.retired == old(store)@.retired
            &&& final(store)@.counter is Some
            &&& final(store)@.next_reference() == old(store)@.next_reference() + 1
        },
{
    store.issue_reference()
}

/// Creates an item with the payload's text: takes the next reference, then
/// stores the incomplete item under identifier `id`, or, when a stored or
/// deleted item has already had `id`, under [`avoiding`] every identifier
/// given out so far.
pub fn create_todo_with_id(store: &mut TodoStore, payload: CreateTodoPayload, id: String) -> (r:
    Result<Todo, LithiumError>)
    requires
        old(store).well_formed(),
    ensures
        final(store).well_formed(),
        old(store)@.counter == Some(u32::MAX) ==> {
            &&& r matches Err(LithiumError::Db(_))
            &&& final(store)@ == old(store)@
        },
        old(store)@.counter != Some(u32::MAX) ==> {
            &&& r is Ok
            &&& r->Ok_0@.id == if old(store)@.id_used(id@) {
                avoiding(old(store)@.used_ids())
            } else {
                id@
            }
            &&& created(old(store)@, payload.text@, final(store)@, r->Ok_0@)
        },
{
    let referance = match next_referance(store) {
        Ok(n) => n,
        Err(e) => {
            return Err(e);
        },
    };
    assert(store@.todos == old(store)@.todos && store@.retired == old(store)@.retired);
    assert(store@.id_used(id@) == old(store)@.id_used(id@));
    assert(store@.used_ids() == old(store)@.used_ids());
    let fresh = store.fresh_id(id);
    assert(!old(store)@.id_used(fresh@));
    store.insert_with_id(fresh, CreateTodoInput { text: payload.text, referance, complete: false })
}

/// Creates an item with the payload's text and a new identifier: takes the
/// next reference, then stores the incomplete item. Fails, changing nothing,
/// only when the counter is exhausted.
pub fn create_todo(store: &mut TodoStore, payload: CreateTodoPayload) -> (r: Result<
    Todo,
    LithiumError,
>)
    requires
        old(store).well_formed(),
    ensures
        final(store).well_formed(),
        create_outcome(old(store)@, payload.text@, final(store)@, r),
{
    let id = new_todo_id();
    create_todo_with_id(store, payload, id)
}

/// Every item, in ascending reference order.
pub fn list_todos(store: &TodoStore) -> (r: Result<Vec<Todo>, LithiumError>)
    requires
        store.well_formed(),
    ensures
        r is Ok,
        r matches Ok(v) ==> views(v@) == store@.todos,
        r matches Ok(v) ==> forall|i: int, j: int|
            0 <= i < j < v@.len() ==> (#[trigger] v@[i]).referance < (#[trigger] v@[j]).referance,
{
    let todos = store.list_all();
    assert forall|i: int, j: int| 0 <= i < j < todos@.len() implies (#[trigger] todos@[i]).referance
        < (#[trigger] todos@[j]).referance by {
        assert(store@.todos[i] == todos@[i]@);
        assert(store@.todos[j] == todos@[j]@);
    }
    Ok(todos)
}

/// Gives the item with the payload's identifier the payload's text and
/// completion; the reference in the payload is not used, an item keeps the
/// one it was created with. Fails with `NotFound`, changing nothing, when no
/// item has that identifier.
pub fn update_todo(store: &mut TodoStore, payload: Todo) -> (r: Result<Todo, LithiumError>)
    requires
        old(store).well_formed(),
    ensures
        final(store).well_formed(),
        r is Ok <==> old(store)@.has_id(payload.id@),
        r is Err ==> r == Err::<Todo, LithiumError>(LithiumError::NotFound) && final(store)@
            == old(store)@,
        r matches Ok(t) ==> updated(
            old(store)@,
            payload.id@,
            payload.text@,
            payload.complete,
            final(store)@,
            t@,
        ),
{
    store.update(&payload.id, payload.text, payload.complete)
}

/// Removes the item with identifier `id` and hands it back. Fails with
/// `NotFound`, changing nothing, when no item has that identifier.
pub fn delete_todo_by_id(store: &mut TodoStore, id: String) -> (r: Result<Todo, LithiumError>)
    requires
        old(store).well_formed(),
    ensures
        final(store).well_formed(),
        r is Ok <==> old(store)@.has_id(id@),
        r is Err ==> r == Err::<Todo, LithiumError>(LithiumError::NotFound) && final(store)@
            == old(store)@,
        r matches Ok(t) ==> removed_id(old(store)@, id@, final(store)@, t@),
{
    store.delete_by_id(&id)
}

/// Removes the item with reference `referance`: looks it up by reference,
/// then removes it by its identifier. Fails with `NotFound`, changing
/// nothing, when no item has that reference.
pub fn delete_todo_by_ref(store: &mut TodoStore, referance: u32) -> (r: Result<(), LithiumError>)
    requires
        old(store).well_formed(),
    ensures
        final(store).well_formed(),
        delete_outcome(old(store)@, referance, final(store)@, r),
{
    match store.find_by_reference(referance) {
        None => Err(LithiumError::NotFound),
        Some(found) => {
            let ghost pre = store@;
            let gone = store.delete_by_id(&found.id);
            match gone {
                Ok(t) => {
                    proof {
                        let i = choose|i: int|
                            0 <= i < pre.todos.len() && pre.todos[i] == found@
                                && found@.referance == referance;
                        let j = choose|j: int|
                            0 <= j < pre.todos.len() && (#[trigger] pre.todos[j]) == t@ && t@.id
                                == found@.id && store@ == (StoreView {
                                todos: pre.todos.remove(j),
                                retired: pre.retired.push(found@.id),
                                counter: pre.counter,
                            });
                        assert(pre.todos[i].id == pre.todos[j].id);
                        assert(i == j);
                        assert(pre.todos[i].referance == referance);
                    }
                    Ok(())
                },
                Err(e) => Err(e),
            }
        },
    }
}

/// Marks the item with reference `referance` complete, keeping its text.
/// Fails with `NotFound`, changing nothing, when no item has that reference.
pub fn complete_todo_by_ref(store: &mut TodoStore, referance: u32) -> (r: Result<(), LithiumError>)
    requires
        old(store).well_formed(),
    ensures
        final(store).well_formed(),
        complete_outcome(old(store)@, referance, final(store)@, r),
{
    match store.find_by_reference(referance) {
        None => Err(LithiumError::NotFound),
        Some(found) => {
            let ghost pre = store@;
            let done = store.update(&found.id, found.text, true);
            match done {
                Ok(t) => {
                    proof {
                        let i = choose|i: int|
                            0 <= i < pre.todos.len() && pre.todos[i] == found@
                                && found@.referance == referance;
                        let j = choose|j: int|
                            0 <= j < pre.todos.len() && (#[trigger] pre.todos[j]).id == found@.id
                                && t@ == (TodoView {
                                id: found@.id,
                                text: found@.text,
                                referance: pre.todos[j].referance,
                                complete: true,
                            }) && store@ == (StoreView {
                                todos: pre.todos.update(j, t@),
                                retired: pre.retired,
                                counter: pre.counter,
                            });
                        assert(pre.todos[i].id == pre.todos[j].id);
                        assert(i == j);
                        assert(t@ == (TodoView { complete: true, ..pre.todos[i] }));
                    }
                    Ok(())
                },
                Err(e) => Err(e),
            }
        },
    }
}

} // verus!
