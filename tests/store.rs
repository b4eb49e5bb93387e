use task_queue::{
    error_message, task_from_row, tasks_from_rows, InsertTask, NewTask, Row, StoreError,
    TaskEntity, TaskRepository,
};

fn seeded(n: usize) -> TaskRepository {
    let mut repo = TaskRepository::new();
    for _ in 0..n {
        repo.insert_task(&InsertTask { status: "WAITING" }).expect("insert task");
    }
    repo
}

fn find(repo: &TaskRepository, status: &str, id: i32) -> Option<TaskEntity> {
    repo.query_tasks_by_status(status, 0, -1)
        .expect("query")
        .into_iter()
        .find(|t| t.id == id)
}

#[test]
fn insert_assigns_ids_in_order() {
    let mut repo = TaskRepository::new();
    assert_eq!(repo.insert_task(&InsertTask { status: "WAITING" }), Ok(1));
    assert_eq!(repo.insert_task(&NewTask { status: "WAITING" }), Ok(2));
    assert_eq!(repo.insert_task(&InsertTask { status: "WAITING" }), Ok(3));
    let tasks = repo.query_tasks_by_status("WAITING", 0, 100).unwrap();
    let ids: Vec<i32> = tasks.iter().map(|t| t.id).collect();
    assert_eq!(ids, vec![1, 2, 3]);
    for t in &tasks {
        assert_eq!(t.status, "WAITING");
        assert_eq!(t.errors, None);
    }
}

#[test]
fn insert_round_trips_status_and_errors() {
    let mut repo = TaskRepository::new();
    let id = repo.insert_task(&InsertTask { status: "naïve status ✓" }).unwrap();
    let t = find(&repo, "naïve status ✓", id as i32).expect("row");
    assert_eq!(t.status, "naïve status ✓");
    assert_eq!(t.errors, None);
    assert_eq!(repo.update_task_status(id as i32, "DONE"), Ok(1));
    let t = find(&repo, "DONE", id as i32).expect("row");
    assert_eq!(t.status, "DONE");
    assert_eq!(t.errors, None);
    assert!(find(&repo, "naïve status ✓", id as i32).is_none());
}

#[test]
fn update_twice_equals_once() {
    let mut once = seeded(3);
    let mut twice = seeded(3);
    assert_eq!(once.update_task_status(2, "SUCCESSFUL"), Ok(1));
    assert_eq!(twice.update_task_status(2, "SUCCESSFUL"), Ok(1));
    assert_eq!(twice.update_task_status(2, "SUCCESSFUL"), Ok(1));
    let a = once.query_tasks_by_status("SUCCESSFUL", 0, -1).unwrap();
    let b = twice.query_tasks_by_status("SUCCESSFUL", 0, -1).unwrap();
    assert_eq!(a.len(), 1);
    assert_eq!(b.len(), 1);
    assert_eq!((a[0].id, &a[0].status, &a[0].errors), (b[0].id, &b[0].status, &b[0].errors));
    assert_eq!(once.query_tasks_by_status("WAITING", 0, -1).unwrap().len(), 2);
    assert_eq!(twice.query_tasks_by_status("WAITING", 0, -1).unwrap().len(), 2);
}

#[test]
fn set_error_resets_to_waiting() {
    let mut repo = seeded(2);
    assert_eq!(repo.update_task_status(1, "SUCCESSFUL"), Ok(1));
    assert_eq!(repo.set_task_error(1, "disk on fire"), Ok(1));
    let t = find(&repo, "WAITING", 1).expect("row");
    assert_eq!(t.status, "WAITING");
    assert_eq!(t.errors, Some("disk on fire".to_string()));
    let other = find(&repo, "WAITING", 2).expect("row");
    assert_eq!(other.errors, None);
}

#[test]
fn missing_row_touches_nothing() {
    let mut repo = seeded(2);
    assert_eq!(repo.update_task_status(3, "SUCCESSFUL"), Ok(0));
    assert_eq!(repo.update_task_status(0, "SUCCESSFUL"), Ok(0));
    assert_eq!(repo.set_task_error(-4, "x"), Ok(0));
    assert_eq!(repo.query_tasks_by_status("WAITING", 0, -1).unwrap().len(), 2);
    assert!(repo.query_tasks_by_status("SUCCESSFUL", 0, -1).unwrap().is_empty());
}

#[test]
fn zero_limit_gives_empty_page() {
    let repo = seeded(5);
    assert!(repo.query_tasks_by_status("WAITING", 0, 0).unwrap().is_empty());
    assert!(TaskRepository::new().query_tasks_by_status("WAITING", 0, 0).unwrap().is_empty());
}

#[test]
fn pages_skip_and_bound() {
    let mut repo = seeded(6);
    assert_eq!(repo.update_task_status(2, "SUCCESSFUL"), Ok(1));
    let ids = |offset: i64, limit: i64| -> Vec<i32> {
        repo.query_tasks_by_status("WAITING", offset, limit)
            .unwrap()
            .iter()
            .map(|t| t.id)
            .collect()
    };
    assert_eq!(ids(0, 2), vec![1, 3]);
    assert_eq!(ids(1, 2), vec![3, 4]);
    assert_eq!(ids(3, 10), vec![5, 6]);
    assert_eq!(ids(5, 10), Vec::<i32>::new());
    assert_eq!(ids(40, 1), Vec::<i32>::new());
    assert_eq!(ids(-3, 2), vec![1, 3]);
    assert_eq!(ids(2, -1), vec![4, 5, 6]);
}

#[test]
fn row_with_wide_id_is_refused() {
    let row = Row { id: i32::MAX as i64 + 1, status: "WAITING".to_string(), errors: None };
    assert_eq!(
        task_from_row(&row).map(|t| t.id),
        Err(StoreError::IdOutOfRange { id: i32::MAX as i64 + 1 })
    );
    let ok = Row { id: 7, status: "S".to_string(), errors: Some("e".to_string()) };
    let t = task_from_row(&ok).unwrap();
    assert_eq!((t.id, t.status.as_str(), t.errors.as_deref()), (7, "S", Some("e")));
}

#[test]
fn rows_read_until_first_wide_id() {
    let rows = vec![
        Row { id: 1, status: "A".to_string(), errors: None },
        Row { id: -5_000_000_000, status: "B".to_string(), errors: None },
        Row { id: 5_000_000_000, status: "C".to_string(), errors: None },
    ];
    assert_eq!(
        tasks_from_rows(&rows).map(|v| v.len()),
        Err(StoreError::IdOutOfRange { id: -5_000_000_000 })
    );
    let good = vec![
        Row { id: 1, status: "A".to_string(), errors: None },
        Row { id: 2, status: "B".to_string(), errors: Some("bad".to_string()) },
    ];
    let tasks = tasks_from_rows(&good).unwrap();
    assert_eq!(tasks.len(), 2);
    assert_eq!((tasks[1].id, tasks[1].status.as_str(), tasks[1].errors.as_deref()), (2, "B", Some("bad")));
    assert!(tasks_from_rows(&Vec::new()).unwrap().is_empty());
}

#[test]
fn error_message_names_the_draw() {
    assert_eq!(error_message(7), "random error 7");
    assert_eq!(error_message(0), "random error 0");
    assert_eq!(error_message(9), "random error 9");
}
