use rand::rngs::StdRng;
use rand::SeedableRng;
use task_queue::{
    apply_draw, apply_draws, run_test, InsertTask, SqliteConnectionManager, TaskRepository,
    PAGE_SIZE, SQLITE_OPEN_CREATE, SQLITE_OPEN_READ_WRITE,
};

fn seeded(n: usize) -> TaskRepository {
    let mut repo = TaskRepository::new();
    for _ in 0..n {
        repo.insert_task(&InsertTask { status: "WAITING" }).expect("insert task");
    }
    repo
}

#[test]
fn even_draws_finish_three_tasks() {
    let mut repo = seeded(3);
    let page = repo.query_tasks_by_status("WAITING", 0, PAGE_SIZE).unwrap();
    assert_eq!(page.iter().map(|t| t.id).collect::<Vec<_>>(), vec![1, 2, 3]);
    assert_eq!(apply_draws(&mut repo, &page, &vec![0, 4, 8]), Ok(()));
    assert!(repo.query_tasks_by_status("WAITING", 0, 3).unwrap().is_empty());
    let done = repo.query_tasks_by_status("SUCCESSFUL", 0, 100).unwrap();
    assert_eq!(done.iter().map(|t| t.id).collect::<Vec<_>>(), vec![1, 2, 3]);
    assert!(done.iter().all(|t| t.errors.is_none()));
}

#[test]
fn odd_draw_seven_records_error() {
    let mut repo = seeded(1);
    assert_eq!(apply_draw(&mut repo, 1, 7), Ok(1));
    let page = repo.query_tasks_by_status("WAITING", 0, 100).unwrap();
    assert_eq!(page.len(), 1);
    assert_eq!(page[0].status, "WAITING");
    assert_eq!(page[0].errors.as_deref(), Some("random error 7"));
}

#[test]
fn mixed_draws_split_the_page() {
    let mut repo = seeded(4);
    let page = repo.query_tasks_by_status("WAITING", 0, PAGE_SIZE).unwrap();
    assert_eq!(apply_draws(&mut repo, &page, &vec![1, 2, 3, 6]), Ok(()));
    let waiting = repo.query_tasks_by_status("WAITING", 0, 100).unwrap();
    let w: Vec<(i32, Option<&str>)> = waiting.iter().map(|t| (t.id, t.errors.as_deref())).collect();
    assert_eq!(w, vec![(1, Some("random error 1")), (3, Some("random error 3"))]);
    assert_eq!(repo.query_tasks_by_status("SUCCESSFUL", 0, 100).unwrap().len(), 2);
}

#[test]
fn seeded_loop_drains_all_tasks() {
    let n: usize = 250;
    let mut repo = seeded(n);
    let mut rng = StdRng::seed_from_u64(42);
    let mut passes = 0;
    while !repo.query_tasks_by_status("WAITING", 0, PAGE_SIZE).unwrap().is_empty() {
        let before = repo.query_tasks_by_status("WAITING", 0, -1).unwrap().len();
        run_test(&mut repo, &mut rng).expect("pass");
        let after = repo.query_tasks_by_status("WAITING", 0, -1).unwrap().len();
        assert!(after <= before);
        passes += 1;
        assert!(passes < 10_000, "the loop did not finish");
    }
    assert!(repo.query_tasks_by_status("WAITING", 0, n as i64).unwrap().is_empty());
    assert_eq!(repo.query_tasks_by_status("SUCCESSFUL", 0, -1).unwrap().len(), n);
}

#[test]
fn pass_leaves_each_task_done_or_with_odd_error() {
    let mut repo = seeded(120);
    let mut rng = StdRng::seed_from_u64(7);
    run_test(&mut repo, &mut rng).unwrap();
    let waiting = repo.query_tasks_by_status("WAITING", 0, -1).unwrap();
    let done = repo.query_tasks_by_status("SUCCESSFUL", 0, -1).unwrap();
    assert_eq!(waiting.len() + done.len(), 120);
    for t in &waiting {
        if t.id <= 100 {
            let e = t.errors.as_deref().expect("error text");
            let d: u32 = e.strip_prefix("random error ").unwrap().parse().unwrap();
            assert!(d < 10 && d % 2 == 1);
        } else {
            assert_eq!(t.errors, None);
        }
    }
    assert!(done.iter().all(|t| t.id <= 100 && t.errors.is_none()));
}

#[test]
fn connection_manager_keeps_path_and_flags() {
    let flags = SQLITE_OPEN_READ_WRITE | SQLITE_OPEN_CREATE;
    let m = SqliteConnectionManager::new_with_flags("./test_dbs/tasks.db", flags);
    assert_eq!(m.path(), "./test_dbs/tasks.db");
    assert_eq!(m.flags(), Some(0x6));
    let d = SqliteConnectionManager::new("other.db");
    assert_eq!(d.path(), "other.db");
    assert_eq!(d.flags(), None);
}
