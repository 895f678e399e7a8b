use todo_store::{AppError, ErrorKind, RAMTodoList, Reply, Request, Task};

fn task(id: u32, completed: bool, description: &str) -> Task {
    Task { id, completed, description: description.to_string() }
}

#[test]
fn end_to_end_scenario() {
    let mut s = RAMTodoList::new();
    assert_eq!(s.new_task("buy milk".to_string()), Ok(0));
    assert_eq!(s.new_task("walk dog".to_string()), Ok(1));
    assert_eq!(s.get_tasks(), vec![task(0, false, "buy milk"), task(1, false, "walk dog")]);
    assert_eq!(s.mark_completed(0), Ok(()));
    assert_eq!(s.get_tasks(), vec![task(0, true, "buy milk"), task(1, false, "walk dog")]);
    assert_eq!(s.remove_task(1), Ok(()));
    assert_eq!(s.change_task(1, "x".to_string()), Err(AppError::not_found(1)));
}

#[test]
fn created_ids_increase() {
    let mut s = RAMTodoList::new();
    let mut last: Option<u32> = None;
    for i in 0..50u32 {
        let id = s.new_task(format!("task {}", i)).unwrap();
        if let Some(prev) = last {
            assert!(id > prev);
        }
        last = Some(id);
    }
    assert_eq!(last, Some(49));
}

#[test]
fn ids_not_reused_after_delete() {
    let mut s = RAMTodoList::new();
    assert_eq!(s.new_task("a".to_string()), Ok(0));
    assert_eq!(s.new_task("b".to_string()), Ok(1));
    assert_eq!(s.remove_task(1), Ok(()));
    assert_eq!(s.new_task("c".to_string()), Ok(2));
    assert_eq!(s.get_tasks(), vec![task(0, false, "a"), task(2, false, "c")]);
}

#[test]
fn create_then_list_has_one_entry() {
    let mut s = RAMTodoList::new();
    s.new_task("other".to_string()).unwrap();
    let id = s.new_task("read book".to_string()).unwrap();
    let l = s.get_tasks();
    let found: Vec<&Task> = l.iter().filter(|t| t.id == id).collect();
    assert_eq!(found.len(), 1);
    assert_eq!(found[0].description, "read book");
    assert!(!found[0].completed);
}

#[test]
fn empty_description_accepted() {
    let mut s = RAMTodoList::new();
    assert_eq!(s.new_task(String::new()), Ok(0));
    assert_eq!(s.get_tasks(), vec![task(0, false, "")]);
}

#[test]
fn empty_store_lists_nothing() {
    let s = RAMTodoList::new();
    assert_eq!(s.get_tasks(), Vec::<Task>::new());
}

#[test]
fn update_resets_completed() {
    let mut s = RAMTodoList::new();
    s.new_task("draft".to_string()).unwrap();
    s.new_task("keep".to_string()).unwrap();
    s.mark_completed(0).unwrap();
    assert_eq!(s.change_task(0, "final".to_string()), Ok(()));
    assert_eq!(s.get_tasks(), vec![task(0, false, "final"), task(1, false, "keep")]);
    assert_eq!(s.change_task(1, "kept".to_string()), Ok(()));
    assert_eq!(s.get_tasks(), vec![task(0, false, "final"), task(1, false, "kept")]);
}

#[test]
fn complete_keeps_description() {
    let mut s = RAMTodoList::new();
    s.new_task("wash car".to_string()).unwrap();
    assert_eq!(s.mark_completed(0), Ok(()));
    assert_eq!(s.mark_completed(0), Ok(()));
    assert_eq!(s.get_tasks(), vec![task(0, true, "wash car")]);
}

#[test]
fn deleted_task_is_gone() {
    let mut s = RAMTodoList::new();
    s.new_task("a".to_string()).unwrap();
    s.new_task("b".to_string()).unwrap();
    assert_eq!(s.remove_task(0), Ok(()));
    assert_eq!(s.get_tasks(), vec![task(1, false, "b")]);
    assert_eq!(s.change_task(0, "z".to_string()), Err(AppError::not_found(0)));
    assert_eq!(s.mark_completed(0), Err(AppError::not_found(0)));
    assert_eq!(s.remove_task(0), Err(AppError::not_found(0)));
    assert_eq!(s.get_tasks(), vec![task(1, false, "b")]);
}

#[test]
fn missing_ids_are_not_found() {
    let mut s = RAMTodoList::new();
    assert_eq!(s.change_task(7, "x".to_string()), Err(AppError { kind: ErrorKind::NotFound(7) }));
    assert_eq!(s.mark_completed(7), Err(AppError { kind: ErrorKind::NotFound(7) }));
    assert_eq!(s.remove_task(7), Err(AppError { kind: ErrorKind::NotFound(7) }));
    assert_eq!(s.get_tasks(), Vec::<Task>::new());
}

#[test]
fn list_sorted_after_mixed_operations() {
    let mut s = RAMTodoList::new();
    for i in 0..20u32 {
        s.new_task(format!("t{}", i)).unwrap();
    }
    for id in [3u32, 7, 0, 19, 12] {
        s.remove_task(id).unwrap();
    }
    s.change_task(5, "five".to_string()).unwrap();
    let l = s.get_tasks();
    assert_eq!(l.len(), 15);
    for w in l.windows(2) {
        assert!(w[0].id < w[1].id);
    }
    assert_eq!(l[0], task(1, false, "t1"));
    assert_eq!(l[3], task(5, false, "five"));
}

#[test]
fn error_status_codes() {
    assert_eq!(AppError::not_found(3).status_code(), 404);
    assert_eq!(AppError::invalid_input().status_code(), 400);
    assert_eq!(AppError::internal().status_code(), 500);
    assert!(AppError::not_found(3).is_not_found());
    assert!(!AppError::internal().is_not_found());
    assert_eq!(AppError::internal().kind, ErrorKind::Internal);
    assert_eq!(AppError::invalid_input().kind, ErrorKind::InvalidInput);
}

#[test]
fn requests_through_gateway() {
    let mut s = RAMTodoList::new();
    let r = s.handle(Request::Create("buy milk".to_string()));
    assert_eq!(r, Reply::Created(0));
    assert_eq!(r.status_code(), 201);
    let r = s.handle(Request::List);
    assert_eq!(r, Reply::Tasks(vec![task(0, false, "buy milk")]));
    assert_eq!(r.status_code(), 200);
    assert_eq!(s.handle(Request::Complete(0)), Reply::Done);
    assert_eq!(s.handle(Request::Update(0, "oat milk".to_string())), Reply::Done);
    assert_eq!(s.handle(Request::List), Reply::Tasks(vec![task(0, false, "oat milk")]));
    let r = s.handle(Request::Delete(4));
    assert_eq!(r, Reply::Failed(AppError::not_found(4)));
    assert_eq!(r.status_code(), 404);
    assert_eq!(s.handle(Request::Delete(0)), Reply::Done);
    assert_eq!(s.handle(Request::Complete(0)), Reply::Failed(AppError::not_found(0)));
    assert_eq!(s.handle(Request::List), Reply::Tasks(vec![]));
}

#[test]
fn task_constructor_and_snapshot() {
    let t = Task::new(9, "note".to_string());
    assert_eq!(t, task(9, false, "note"));
    let c = t.snapshot();
    assert_eq!(c, t);
}

#[test]
fn affected_rows_decide_not_found() {
    assert_eq!(todo_store::affected_reply(0, 5), Reply::Failed(AppError::not_found(5)));
    assert_eq!(todo_store::affected_reply(1, 5), Reply::Done);
    assert_eq!(todo_store::affected_reply(3, 5), Reply::Done);
}
