use lithium::item::{CreateTodoPayload, LithiumError, Todo};
use lithium::service::{
    complete_todo_by_ref, create_todo, create_todo_with_id, delete_todo_by_id, delete_todo_by_ref,
    list_todos, next_referance, update_todo,
};
use lithium::store::TodoStore;

fn payload(text: &str) -> CreateTodoPayload {
    CreateTodoPayload { text: text.to_string() }
}

fn references(store: &TodoStore) -> Vec<u32> {
    list_todos(store).unwrap().iter().map(|t| t.referance).collect()
}

#[test]
fn end_to_end_scenario() {
    let mut store = TodoStore::new();
    let milk = create_todo(&mut store, payload("buy milk")).unwrap();
    assert_eq!(milk.referance, 1);
    assert_eq!(milk.text, "buy milk");
    assert!(!milk.complete);
    let dog = create_todo(&mut store, payload("walk dog")).unwrap();
    assert_eq!(dog.referance, 2);

    let listed = list_todos(&store).unwrap();
    assert_eq!(listed.len(), 2);
    assert_eq!((listed[0].referance, listed[0].text.as_str(), listed[0].complete), (1, "buy milk", false));
    assert_eq!((listed[1].referance, listed[1].text.as_str(), listed[1].complete), (2, "walk dog", false));

    let updated = update_todo(
        &mut store,
        Todo { id: milk.id.clone(), text: "buy milk".to_string(), referance: 1, complete: true },
    )
    .unwrap();
    assert_eq!(updated.referance, 1);
    assert!(updated.complete);

    assert_eq!(delete_todo_by_ref(&mut store, 2), Ok(()));
    let listed = list_todos(&store).unwrap();
    assert_eq!(listed.len(), 1);
    assert_eq!((listed[0].referance, listed[0].text.as_str(), listed[0].complete), (1, "buy milk", true));

    assert_eq!(delete_todo_by_ref(&mut store, 2), Err(LithiumError::NotFound));
}

#[test]
fn sequential_creates_number_from_one() {
    let mut store = TodoStore::new();
    let mut seen = Vec::new();
    for n in 0..25 {
        let t = create_todo(&mut store, payload(&format!("item {}", n))).unwrap();
        seen.push(t.referance);
    }
    let expected: Vec<u32> = (1..=25).collect();
    assert_eq!(seen, expected);
}

#[test]
fn creates_after_earlier_ones_stay_gapless() {
    let mut store = TodoStore::new();
    for n in 0..3 {
        create_todo(&mut store, payload(&format!("first {}", n))).unwrap();
    }
    delete_todo_by_ref(&mut store, 2).unwrap();
    let mut later = Vec::new();
    for n in 0..4 {
        later.push(create_todo(&mut store, payload(&format!("later {}", n))).unwrap().referance);
    }
    assert_eq!(later, vec![4, 5, 6, 7]);
}

#[test]
fn list_stays_sorted_after_mixed_operations() {
    let mut store = TodoStore::new();
    let a = create_todo(&mut store, payload("a")).unwrap();
    create_todo(&mut store, payload("b")).unwrap();
    create_todo(&mut store, payload("c")).unwrap();
    delete_todo_by_ref(&mut store, 1).unwrap();
    update_todo(&mut store, Todo { id: a.id.clone(), text: "a2".to_string(), referance: 99, complete: true })
        .unwrap_err();
    create_todo(&mut store, payload("d")).unwrap();
    complete_todo_by_ref(&mut store, 3).unwrap();
    delete_todo_by_ref(&mut store, 2).unwrap();
    create_todo(&mut store, payload("e")).unwrap();
    assert_eq!(references(&store), vec![3, 4, 5]);
}

#[test]
fn deleted_reference_is_gone_and_not_reused() {
    let mut store = TodoStore::new();
    create_todo(&mut store, payload("one")).unwrap();
    create_todo(&mut store, payload("two")).unwrap();
    assert!(store.find_by_reference(2).is_some());
    delete_todo_by_ref(&mut store, 2).unwrap();
    assert!(store.find_by_reference(2).is_none());
    let next = create_todo(&mut store, payload("three")).unwrap();
    assert_eq!(next.referance, 3);
}

#[test]
fn update_of_missing_id_is_not_found_and_changes_nothing() {
    let mut store = TodoStore::new();
    create_todo(&mut store, payload("keep")).unwrap();
    let before = list_todos(&store).unwrap();
    let result = update_todo(
        &mut store,
        Todo { id: "no-such-id".to_string(), text: "changed".to_string(), referance: 1, complete: true },
    );
    assert_eq!(result, Err(LithiumError::NotFound));
    assert_eq!(list_todos(&store).unwrap(), before);
}

#[test]
fn update_keeps_the_reference() {
    let mut store = TodoStore::new();
    let t = create_todo(&mut store, payload("old text")).unwrap();
    let u = update_todo(
        &mut store,
        Todo { id: t.id.clone(), text: "new text".to_string(), referance: 40, complete: false },
    )
    .unwrap();
    assert_eq!(u, Todo { id: t.id.clone(), text: "new text".to_string(), referance: 1, complete: false });
    assert_eq!(list_todos(&store).unwrap(), vec![u]);
}

#[test]
fn delete_of_never_issued_reference_is_not_found() {
    let mut store = TodoStore::new();
    assert_eq!(delete_todo_by_ref(&mut store, 1), Err(LithiumError::NotFound));
    create_todo(&mut store, payload("x")).unwrap();
    assert_eq!(delete_todo_by_ref(&mut store, 0), Err(LithiumError::NotFound));
    assert_eq!(delete_todo_by_ref(&mut store, 7), Err(LithiumError::NotFound));
    assert_eq!(references(&store), vec![1]);
}

#[test]
fn complete_by_reference_marks_the_item() {
    let mut store = TodoStore::new();
    create_todo(&mut store, payload("a")).unwrap();
    create_todo(&mut store, payload("b")).unwrap();
    assert_eq!(complete_todo_by_ref(&mut store, 2), Ok(()));
    let listed = list_todos(&store).unwrap();
    assert!(!listed[0].complete);
    assert!(listed[1].complete);
    assert_eq!(listed[1].text, "b");
    assert_eq!(complete_todo_by_ref(&mut store, 3), Err(LithiumError::NotFound));
}

#[test]
fn delete_by_id_hands_back_the_item() {
    let mut store = TodoStore::new();
    let t = create_todo(&mut store, payload("gone")).unwrap();
    assert_eq!(delete_todo_by_id(&mut store, t.id.clone()), Ok(t.clone()));
    assert_eq!(delete_todo_by_id(&mut store, t.id.clone()), Err(LithiumError::NotFound));
    assert!(list_todos(&store).unwrap().is_empty());
}

#[test]
fn next_reference_starts_at_one() {
    let mut store = TodoStore::new();
    assert_eq!(store.counter_record(), None);
    assert_eq!(next_referance(&mut store), Ok(1));
    assert_eq!(store.counter_record(), Some(2));
    assert_eq!(next_referance(&mut store), Ok(2));
    assert_eq!(create_todo(&mut store, payload("after")).unwrap().referance, 3);
}

#[test]
fn taken_identifier_is_replaced_by_a_new_one() {
    let mut store = TodoStore::new();
    let first = create_todo_with_id(&mut store, payload("a"), "abc".to_string()).unwrap();
    assert_eq!(first, Todo { id: "abc".to_string(), text: "a".to_string(), referance: 1, complete: false });
    let second = create_todo_with_id(&mut store, payload("b"), "abc".to_string()).unwrap();
    assert_eq!(second, Todo { id: "b".to_string(), text: "b".to_string(), referance: 2, complete: false });
    let third = create_todo_with_id(&mut store, payload("c"), "b".to_string()).unwrap();
    assert_eq!(third.id, "ba");
    assert_eq!(third.referance, 3);
    assert_eq!(references(&store), vec![1, 2, 3]);
}

#[test]
fn identifier_of_deleted_item_is_not_reused() {
    let mut store = TodoStore::new();
    create_todo_with_id(&mut store, payload("a"), "abc".to_string()).unwrap();
    delete_todo_by_ref(&mut store, 1).unwrap();
    assert_eq!(store.retired_ids(), vec!["abc".to_string()]);
    let again = create_todo_with_id(&mut store, payload("b"), "abc".to_string()).unwrap();
    assert_eq!(again.id, "b");
    assert_eq!(again.referance, 2);
}

#[test]
fn fresh_identifier_avoids_every_used_one() {
    let mut store = TodoStore::new();
    create_todo_with_id(&mut store, payload("a"), "a".to_string()).unwrap();
    create_todo_with_id(&mut store, payload("b"), "xa".to_string()).unwrap();
    delete_todo_by_ref(&mut store, 1).unwrap();
    assert_eq!(store.fresh_id("new".to_string()), "new");
    assert_eq!(store.fresh_id("xa".to_string()), "aa");
    assert_eq!(store.fresh_id("a".to_string()), "aa");
}

#[test]
fn new_identifiers_are_distinct_and_nonempty() {
    let mut store = TodoStore::new();
    let a = create_todo(&mut store, payload("a")).unwrap();
    let b = create_todo(&mut store, payload("b")).unwrap();
    assert!(!a.id.is_empty() && a.id.len() <= 24);
    assert_ne!(a.id, b.id);
}

#[test]
fn exhausted_counter_refuses_to_create() {
    let mut store = TodoStore::from_parts(Vec::new(), Vec::new(), Some(u32::MAX)).unwrap();
    assert!(matches!(create_todo(&mut store, payload("late")), Err(LithiumError::Db(_))));
    assert_eq!(store.counter_record(), Some(u32::MAX));
    assert!(list_todos(&store).unwrap().is_empty());

    let mut store = TodoStore::from_parts(Vec::new(), Vec::new(), Some(u32::MAX - 1)).unwrap();
    assert_eq!(create_todo(&mut store, payload("last")).unwrap().referance, u32::MAX - 1);
    assert_eq!(store.counter_record(), Some(u32::MAX));
}
