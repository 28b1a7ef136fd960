use lithium::cli::{run, ActionOutcome, ActionType, CompleteInput, CreateInput, DeleteInput, Program};
use lithium::http::{status_for, Route};
use lithium::item::{LithiumError, Todo};
use lithium::ordering::order_by_reference;
use lithium::record::{db_response_to_todo, todo_from_record, todo_to_db_record, RecordId, TodoDatabaseResponse};
use lithium::service::list_todos;
use lithium::store::TodoStore;

fn todo(id: &str, text: &str, referance: u32, complete: bool) -> Todo {
    Todo { id: id.to_string(), text: text.to_string(), referance, complete }
}

#[test]
fn restore_accepts_a_well_formed_store() {
    let items = vec![todo("a", "one", 1, false), todo("c", "three", 3, true)];
    let store = TodoStore::from_parts(items.clone(), Vec::new(), Some(4)).unwrap();
    assert_eq!(list_todos(&store).unwrap(), items);
    assert_eq!(store.counter_record(), Some(4));
    assert!(TodoStore::from_parts(Vec::new(), Vec::new(), None).is_ok());
}

#[test]
fn restore_refuses_broken_stores() {
    let bad = |items: Vec<Todo>, counter: Option<u32>| {
        matches!(TodoStore::from_parts(items, Vec::new(), counter), Err(LithiumError::Db(_)))
    };
    assert!(bad(vec![todo("a", "x", 1, false)], None));
    assert!(bad(Vec::new(), Some(1)));
    assert!(bad(vec![todo("a", "x", 2, false), todo("b", "y", 1, false)], Some(3)));
    assert!(bad(vec![todo("a", "x", 1, false), todo("b", "y", 1, false)], Some(3)));
    assert!(bad(vec![todo("a", "x", 1, false), todo("a", "y", 2, false)], Some(3)));
    assert!(bad(vec![todo("a", "x", 3, false)], Some(3)));
    assert!(bad(vec![todo("a", "x", 0, false)], Some(3)));
}

#[test]
fn restored_store_continues_the_sequence() {
    let mut store = TodoStore::from_parts(vec![todo("a", "x", 5, false)], vec!["old".to_string()], Some(9)).unwrap();
    let t = lithium::service::create_todo(
        &mut store,
        lithium::item::CreateTodoPayload { text: "next".to_string() },
    )
    .unwrap();
    assert_eq!(t.referance, 9);
    let refs: Vec<u32> = list_todos(&store).unwrap().iter().map(|t| t.referance).collect();
    assert_eq!(refs, vec![5, 9]);
    assert_eq!(store.retired_ids(), vec!["old".to_string()]);
    assert_ne!(t.id, "old");
}

#[test]
fn order_by_reference_sorts_and_keeps_every_item() {
    let items = vec![
        todo("c", "third", 7, false),
        todo("a", "first", 2, true),
        todo("d", "tie second", 4, false),
        todo("b", "tie first", 4, true),
    ];
    let sorted = order_by_reference(items);
    let ids: Vec<&str> = sorted.iter().map(|t| t.id.as_str()).collect();
    assert_eq!(ids, vec!["a", "d", "b", "c"]);
    assert!(order_by_reference(Vec::new()).is_empty());
}

#[test]
fn record_conversion_round_trips() {
    let t = todo("k1", "text", 12, true);
    let record = todo_to_db_record(&t);
    assert_eq!(record.id, RecordId { tb: "todo".to_string(), id: "k1".to_string() });
    assert_eq!(record.referance, 12);
    assert_eq!(db_response_to_todo(&record), t);
    let stored = TodoDatabaseResponse {
        id: RecordId { tb: "todo".to_string(), id: "zz".to_string() },
        text: "from disk".to_string(),
        referance: 3,
        complete: false,
    };
    assert_eq!(db_response_to_todo(&stored), todo("zz", "from disk", 3, false));
    assert_eq!(todo_from_record(&stored), Ok(todo("zz", "from disk", 3, false)));
    let elsewhere = TodoDatabaseResponse {
        id: RecordId { tb: "referance".to_string(), id: "static".to_string() },
        ..stored
    };
    assert!(matches!(todo_from_record(&elsewhere), Err(LithiumError::Db(_))));
}

#[test]
fn command_line_actions() {
    let mut store = TodoStore::new();
    let create = |text: &str| Program { action: ActionType::Create(CreateInput { input: text.to_string() }) };
    match run(&mut store, create("first")) {
        ActionOutcome::Created(Ok(t)) => assert_eq!((t.referance, t.text.as_str()), (1, "first")),
        other => panic!("unexpected outcome {:?}", other),
    }
    run(&mut store, create("second"));
    match run(&mut store, Program { action: ActionType::Complete(CompleteInput { referance: 1 }) }) {
        ActionOutcome::Completed(r) => assert_eq!(r, Ok(())),
        other => panic!("unexpected outcome {:?}", other),
    }
    match run(&mut store, Program { action: ActionType::Delete(DeleteInput { referance: 2 }) }) {
        ActionOutcome::Deleted(r) => assert_eq!(r, Ok(())),
        other => panic!("unexpected outcome {:?}", other),
    }
    match run(&mut store, Program { action: ActionType::Delete(DeleteInput { referance: 2 }) }) {
        ActionOutcome::Deleted(r) => assert_eq!(r, Err(LithiumError::NotFound)),
        other => panic!("unexpected outcome {:?}", other),
    }
    match run(&mut store, Program { action: ActionType::List }) {
        ActionOutcome::Listed(v) => {
            assert_eq!(v.len(), 1);
            assert_eq!((v[0].referance, v[0].text.as_str(), v[0].complete), (1, "first", true));
        }
        other => panic!("unexpected outcome {:?}", other),
    }
}

#[test]
fn route_status_codes() {
    assert_eq!(status_for(Route::List, true), 200);
    assert_eq!(status_for(Route::Create, true), 201);
    assert_eq!(status_for(Route::Update, true), 200);
    assert_eq!(status_for(Route::Delete, true), 200);
    assert_eq!(status_for(Route::Create, false), 500);
    assert_eq!(status_for(Route::Delete, false), 500);
    assert_eq!(status_for(Route::List, false), 500);
}

#[test]
fn create_todo() {
    let mut store = TodoStore::new();
    let input = lithium::item::CreateTodoPayload { text: String::from("a normal todo") };
    let result = lithium::service::create_todo(&mut store, input.clone()).unwrap();
    assert_eq!((result.text.as_str(), result.complete), ("a normal todo", false));
    assert_eq!(list_todos(&store).unwrap(), vec![result]);
}
