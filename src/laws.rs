use vstd::prelude::*;

use crate::item::{LithiumError, Todo, TodoView};
use crate::service::create_outcome;
use crate::store::{
    completed_reference, created, removed_id, removed_reference, updated, StoreView,
};

verus! {

/// After `k` successful creates in a row, the counter has moved on by `k`.
proof fn lemma_counter_after_creates(
    states: Seq<StoreView>,
    texts: Seq<Seq<char>>,
    results: Seq<Result<Todo, LithiumError>>,
    k: int,
)
    requires
        states.len() == results.len() + 1,
        texts.len() == results.len(),
        forall|m: int|
            0 <= m < results.len() ==> create_outcome(
                #[trigger] states[m],
                texts[m],
                states[m + 1],
                results[m],
            ),
        forall|m: int| 0 <= m < results.len() ==> (#[trigger] results[m]) is Ok,
        0 <= k <= results.len(),
    ensures
        states[k].next_reference() == states[0].next_reference() + k,
    decreases k,
{
    if k > 0 {
        lemma_counter_after_creates(states, texts, results, k - 1);
        assert(create_outcome(states[k - 1], texts[k - 1], states[k], results[k - 1]));
        assert(results[k - 1] is Ok);
    }
}

/// Creates that each run with the store to themselves, one after another in
/// whatever order they were serialised, and succeed, hand out the references
/// that follow the counter's value, one apart and all different: however
/// many are issued at once, none is skipped and none repeats.
pub proof fn lemma_serialised_creates_are_gapless(
    states: Seq<StoreView>,
    texts: Seq<Seq<char>>,
    results: Seq<Result<Todo, LithiumError>>,
)
    requires
        states.len() == results.len() + 1,
        texts.len() == results.len(),
        forall|m: int|
            0 <= m < results.len() ==> create_outcome(
                #[trigger] states[m],
                texts[m],
                states[m + 1],
                results[m],
            ),
        forall|m: int| 0 <= m < results.len() ==> (#[trigger] results[m]) is Ok,
    ensures
        forall|k: int|
            0 <= k < results.len() ==> (#[trigger] results[k])->Ok_0.referance
                == states[0].next_reference() + k,
        forall|k: int, l: int|
            0 <= k < results.len() && 0 <= l < results.len() && k != l ==> (#[trigger] results[k])->Ok_0.referance
                != (#[trigger] results[l])->Ok_0.referance,
{
    assert forall|k: int| 0 <= k < results.len() implies (#[trigger] results[k])->Ok_0.referance
        == states[0].next_reference() + k by {
        lemma_counter_after_creates(states, texts, results, k);
        assert(create_outcome(states[k], texts[k], states[k + 1], results[k]));
    }
}

/// On a store that never numbered an item, the first `k` creates succeed
/// and the counter then stands at `k + 1`.
proof fn lemma_creates_on_new_store_succeed(
    states: Seq<StoreView>,
    texts: Seq<Seq<char>>,
    results: Seq<Result<Todo, LithiumError>>,
    k: int,
)
    requires
        states.len() == results.len() + 1,
        texts.len() == results.len(),
        results.len() < u32::MAX,
        states[0].counter is None,
        forall|m: int|
            0 <= m < results.len() ==> create_outcome(
                #[trigger] states[m],
                texts[m],
                states[m + 1],
                results[m],
            ),
        0 <= k <= results.len(),
    ensures
        states[k].next_reference() == k + 1,
        forall|m: int| 0 <= m < k ==> (#[trigger] results[m]) is Ok,
    decreases k,
{
    if k > 0 {
        lemma_creates_on_new_store_succeed(states, texts, results, k - 1);
        assert(create_outcome(states[k - 1], texts[k - 1], states[k], results[k - 1]));
    }
}

/// Creating items one at a time on a store that never numbered an item
/// succeeds every time (fewer than `u32::MAX` creates) and hands out the
/// references 1, 2, ..., N in that order, each exactly once.
pub proof fn lemma_creates_on_new_store_number_from_one(
    states: Seq<StoreView>,
    texts: Seq<Seq<char>>,
    results: Seq<Result<Todo, LithiumError>>,
)
    requires
        states.len() == results.len() + 1,
        texts.len() == results.len(),
        results.len() < u32::MAX,
        states[0].counter is None,
        forall|m: int|
            0 <= m < results.len() ==> create_outcome(
                #[trigger] states[m],
                texts[m],
                states[m + 1],
                results[m],
            ),
    ensures
        forall|k: int| 0 <= k < results.len() ==> (#[trigger] results[k]) is Ok,
        forall|k: int| 0 <= k < results.len() ==> (#[trigger] results[k])->Ok_0.referance == k + 1,
        forall|k: int, l: int|
            0 <= k < results.len() && 0 <= l < results.len() && k != l ==> (#[trigger] results[k])->Ok_0.referance
                != (#[trigger] results[l])->Ok_0.referance,
{
    lemma_creates_on_new_store_succeed(states, texts, results, results.len() as int);
    lemma_serialised_creates_are_gapless(states, texts, results);
}

/// Once the item with reference `r` is deleted, no item has that reference
/// any more, and the next create hands out a different one: a reference is
/// never used twice.
pub proof fn lemma_deleted_reference_is_not_reused(
    before: StoreView,
    r: u32,
    after_delete: StoreView,
    text: Seq<char>,
    after_create: StoreView,
    item: TodoView,
)
    requires
        before.well_formed(),
        removed_reference(before, r, after_delete),
        created(after_delete, text, after_create, item),
    ensures
        !after_delete.has_reference(r),
        item.referance != r,
{
    let i = choose|i: int|
        0 <= i < before.todos.len() && (#[trigger] before.todos[i]).referance == r && after_delete
            == (StoreView {
                todos: before.todos.remove(i),
                retired: before.retired.push(before.todos[i].id),
                counter: before.counter,
            });
    assert(r < before.next_reference());
    if after_delete.has_reference(r) {
        let j = choose|j: int|
            0 <= j < after_delete.todos.len() && (#[trigger] after_delete.todos[j]).referance == r;
        if j < i {
            assert(after_delete.todos[j] == before.todos[j]);
        } else {
            assert(after_delete.todos[j] == before.todos[j + 1]);
        }
    }
}

/// A reference that was never handed out (zero, or not below the counter's
/// next value) belongs to no item, so deleting or completing by it fails
/// with `NotFound`.
pub proof fn lemma_unissued_reference_is_absent(s: StoreView, r: u32)
    requires
        s.well_formed(),
        r == 0 || r >= s.next_reference(),
    ensures
        !s.has_reference(r),
{
}

/// One operation took the store from `pre` to `post`: a create, an update, a delete by identifier or
/// by reference, a completion, or an operation that changed nothing (a
/// listing, a lookup, a failure).
pub open spec fn operation_step(pre: StoreView, post: StoreView) -> bool {
    ||| exists|text: Seq<char>, item: TodoView| #[trigger] created(pre, text, post, item)
    ||| exists|id: Seq<char>, text: Seq<char>, complete: bool, item: TodoView|
        #[trigger] updated(pre, id, text, complete, post, item)
    ||| exists|id: Seq<char>, item: TodoView| #[trigger] removed_id(pre, id, post, item)
    ||| exists|r: u32| #[trigger] removed_reference(pre, r, post)
    ||| exists|r: u32| #[trigger] completed_reference(pre, r, post)
    ||| post == pre
}

/// Every operation keeps a store well formed.
proof fn lemma_operation_keeps_well_formed(pre: StoreView, post: StoreView)
    requires
        pre.well_formed(),
        operation_step(pre, post),
    ensures
        post.well_formed(),
{
    if exists|text: Seq<char>, item: TodoView| #[trigger] created(pre, text, post, item) {
        let (text, item) = choose|text: Seq<char>, item: TodoView| #[trigger]
            created(pre, text, post, item);
        assert forall|i: int, j: int|
            0 <= i < post.todos.len() && 0 <= j < post.todos.len() && i != j implies (
            #[trigger] post.todos[i]).id != (#[trigger] post.todos[j]).id by {
            if i == pre.todos.len() {
                assert(post.todos[j] == pre.todos[j]);
            } else if j == pre.todos.len() {
                assert(post.todos[i] == pre.todos[i]);
            } else {
                assert(post.todos[i] == pre.todos[i]);
                assert(post.todos[j] == pre.todos[j]);
            }
        }
        assert forall|i: int, j: int| 0 <= i < j < post.todos.len() implies (
        #[trigger] post.todos[i]).referance < (#[trigger] post.todos[j]).referance by {
            assert(post.todos[i] == pre.todos[i]);
        }
    } else if exists|id: Seq<char>, text: Seq<char>, complete: bool, item: TodoView| #[trigger]
        updated(pre, id, text, complete, post, item) {
        let (id, text, complete, item) = choose|
            id: Seq<char>,
            text: Seq<char>,
            complete: bool,
            item: TodoView,
        | #[trigger] updated(pre, id, text, complete, post, item);
        let i = choose|i: int|
            0 <= i < pre.todos.len() && (#[trigger] pre.todos[i]).id == id && item == (TodoView {
                id,
                text,
                referance: pre.todos[i].referance,
                complete,
            }) && post == (StoreView {
                todos: pre.todos.update(i, item),
                retired: pre.retired,
                counter: pre.counter,
            });
        assert forall|a: int| 0 <= a < post.todos.len() implies (#[trigger] post.todos[a]).id
            == pre.todos[a].id && post.todos[a].referance == pre.todos[a].referance by {}
    } else if exists|id: Seq<char>, item: TodoView| #[trigger] removed_id(pre, id, post, item) {
        let (id, item) = choose|id: Seq<char>, item: TodoView| #[trigger]
            removed_id(pre, id, post, item);
        let i = choose|i: int|
            0 <= i < pre.todos.len() && (#[trigger] pre.todos[i]) == item && item.id == id && post
                == (StoreView {
                todos: pre.todos.remove(i),
                retired: pre.retired.push(id),
                counter: pre.counter,
            });
        assert forall|a: int| 0 <= a < post.todos.len() implies #[trigger] post.todos[a] == (if a
            < i {
            pre.todos[a]
        } else {
            pre.todos[a + 1]
        }) by {}
    } else if exists|r: u32| #[trigger] removed_reference(pre, r, post) {
        let r = choose|r: u32| #[trigger] removed_reference(pre, r, post);
        let i = choose|i: int|
            0 <= i < pre.todos.len() && (#[trigger] pre.todos[i]).referance == r && post == (
            StoreView {
                todos: pre.todos.remove(i),
                retired: pre.retired.push(pre.todos[i].id),
                counter: pre.counter,
            });
        assert forall|a: int| 0 <= a < post.todos.len() implies #[trigger] post.todos[a] == (if a
            < i {
            pre.todos[a]
        } else {
            pre.todos[a + 1]
        }) by {}
    } else if exists|r: u32| #[trigger] completed_reference(pre, r, post) {
        let r = choose|r: u32| #[trigger] completed_reference(pre, r, post);
        let i = choose|i: int|
            0 <= i < pre.todos.len() && (#[trigger] pre.todos[i]).referance == r && post == (
            StoreView {
                todos: pre.todos.update(i, TodoView { complete: true, ..pre.todos[i] }),
                retired: pre.retired,
                counter: pre.counter,
            });
        assert forall|a: int| 0 <= a < post.todos.len() implies (#[trigger] post.todos[a]).id
            == pre.todos[a].id && post.todos[a].referance == pre.todos[a].referance by {}
    }
}

/// Whatever operations follow one another, in whatever interleaving, every
/// store along the way is well formed, so its items, and every listing of
/// them, stand in strictly ascending reference order.
pub proof fn lemma_any_interleaving_lists_in_reference_order(states: Seq<StoreView>)
    requires
        states.len() >= 1,
        states[0].well_formed(),
        forall|k: int| 0 <= k < states.len() - 1 ==> operation_step(#[trigger] states[k], states[k + 1]),
    ensures
        forall|k: int| 0 <= k < states.len() ==> (#[trigger] states[k]).well_formed(),
        forall|k: int| 0 <= k < states.len() ==> (#[trigger] states[k]).sorted_by_reference(),
{
    assert forall|k: int| 0 <= k < states.len() implies (#[trigger] states[k]).well_formed() by {
        lemma_prefix_well_formed(states, k);
    }
}

/// The first `k + 1` stores of such a run are well formed.
proof fn lemma_prefix_well_formed(states: Seq<StoreView>, k: int)
    requires
        0 <= k < states.len(),
        states[0].well_formed(),
        forall|m: int| 0 <= m < states.len() - 1 ==> operation_step(#[trigger] states[m], states[m + 1]),
    ensures
        states[k].well_formed(),
    decreases k,
{
    if k > 0 {
        lemma_prefix_well_formed(states, k - 1);
        assert(operation_step(states[k - 1], states[k]));
        lemma_operation_keeps_well_formed(states[k - 1], states[k]);
    }
}

} // verus!
