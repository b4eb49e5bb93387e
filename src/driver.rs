use rand::Rng;
use vstd::prelude::*;

use crate::error::StoreError;
use crate::store::{
    page_spec, set_error_spec, update_spec, waiting, TaskRepository,
};
use crate::task::{all_fit, entity_views, RowView, TaskEntity};

verus! {

/// Relies on `rand::rngs::StdRng`, carried through a pass as an opaque
/// source of draws.
#[verifier::external_type_specification]
#[verifier::external_body]
pub struct ExStdRng(rand::rngs::StdRng);

/// How many waiting tasks one pass takes up.
pub const PAGE_SIZE: i64 = 100;

/// The status of a task whose work went through.
pub open spec fn successful() -> Seq<char> {
    "SUCCESSFUL"@
}

/// The decimal digit of a number below ten.
pub open spec fn digit_char(d: int) -> char {
    if d == 0 {
        '0'
    } else if d == 1 {
        '1'
    } else if d == 2 {
        '2'
    } else if d == 3 {
        '3'
    } else if d == 4 {
        '4'
    } else if d == 5 {
        '5'
    } else if d == 6 {
        '6'
    } else if d == 7 {
        '7'
    } else if d == 8 {
        '8'
    } else {
        '9'
    }
}

/// The error recorded on a task whose draw came out odd.
pub open spec fn error_text(draw: int) -> Seq<char> {
    "random error "@.push(digit_char(draw))
}

/// The table after one task's draw: an even draw makes it successful, an
/// odd one sends it back to waiting with an error.
pub open spec fn outcome_spec(rows: Seq<RowView>, id: int, draw: int) -> Seq<RowView> {
    if draw % 2 == 0 {
        update_spec(rows, id, successful())
    } else {
        set_error_spec(rows, id, error_text(draw))
    }
}

/// The identifiers of a sequence of rows.
pub open spec fn ids_of(rows: Seq<RowView>) -> Seq<int> {
    rows.map_values(|r: RowView| r.id)
}

/// The table after each task of a page has had its draw, in order.
pub open spec fn pass_spec(rows: Seq<RowView>, ids: Seq<int>, draws: Seq<u32>) -> Seq<RowView>
    decreases ids.len(),
{
    if ids.len() == 0 || draws.len() == 0 {
        rows
    } else {
        outcome_spec(
            pass_spec(rows, ids.drop_last(), draws.drop_last()),
            ids.last(),
            draws.last() as int,
        )
    }
}

/// The page that one pass takes up: the first waiting tasks.
pub open spec fn front_page(rows: Seq<RowView>) -> Seq<RowView> {
    page_spec(rows, waiting(), 0, PAGE_SIZE as int)
}

/// Whether every draw lies in `[0, 10)`.
pub open spec fn draws_in_range(draws: Seq<u32>) -> bool {
    forall|i: int| 0 <= i < draws.len() ==> #[trigger] draws[i] < 10
}

/// The error text for an odd draw below ten: "random error " and its digit.
pub fn error_message(draw: u32) -> (r: String)
    requires
        draw < 10,
    ensures
        r@ == error_text(draw as int),
{
    let d: &str = if draw == 0 {
        "0"
    } else if draw == 1 {
        "1"
    } else if draw == 2 {
        "2"
    } else if draw == 3 {
        "3"
    } else if draw == 4 {
        "4"
    } else if draw == 5 {
        "5"
    } else if draw == 6 {
        "6"
    } else if draw == 7 {
        "7"
    } else if draw == 8 {
        "8"
    } else {
        "9"
    };
    proof {
        reveal_strlit("0");
        reveal_strlit("1");
        reveal_strlit("2");
        reveal_strlit("3");
        reveal_strlit("4");
        reveal_strlit("5");
        reveal_strlit("6");
        reveal_strlit("7");
        reveal_strlit("8");
        reveal_strlit("9");
    }
    let mut s = "random error ".to_owned();
    s.append(d);
    assert(s@ =~= error_text(draw as int));
    s
}

/// Records the outcome of one task's draw: an even draw marks it
/// successful, an odd one puts it back to waiting with the error text.
pub fn apply_draw(repo: &mut TaskRepository, task_id: i32, draw: u32) -> (r: Result<usize, StoreError>)
    requires
        old(repo).wf(),
        draw < 10,
    ensures
        final(repo).wf(),
        r is Ok,
        final(repo)@ == outcome_spec(old(repo)@, task_id as int, draw as int),
{
    if draw % 2 == 0 {
        proof {
            reveal_strlit("SUCCESSFUL");
        }
        repo.update_task_status(task_id, "SUCCESSFUL")
    } else {
        let msg = error_message(draw);
        repo.set_task_error(task_id, msg.as_str())
    }
}

/// Records the outcome of each task's draw, task by task; the first failure
/// stops the pass.
pub fn apply_draws(repo: &mut TaskRepository, tasks: &Vec<TaskEntity>, draws: &Vec<u32>) -> (r:
    Result<(), StoreError>)
    requires
        old(repo).wf(),
        tasks@.len() == draws@.len(),
        draws_in_range(draws@),
    ensures
        final(repo).wf(),
        r is Ok,
        final(repo)@ == pass_spec(old(repo)@, ids_of(entity_views(tasks@)), draws@),
{
    let ghost start = repo@;
    let ghost ids = ids_of(entity_views(tasks@));
    let mut i: usize = 0;
    while i < tasks.len()
        invariant
            repo.wf(),
            i <= tasks@.len(),
            tasks@.len() == draws@.len(),
            ids.len() == tasks@.len(),
            draws_in_range(draws@),
            ids == ids_of(entity_views(tasks@)),
            repo@ == pass_spec(start, ids.take(i as int), draws@.take(i as int)),
        decreases tasks@.len() - i,
    {
        assert(draws@[i as int] < 10);
        match apply_draw(repo, tasks[i].id, draws[i]) {
            Ok(_) => {},
            Err(e) => {
                return Err(e);
            },
        }
        assert(ids.take(i as int + 1).drop_last() =~= ids.take(i as int));
        assert(draws@.take(i as int + 1).drop_last() =~= draws@.take(i as int));
        assert(ids[i as int] == tasks@[i as int].id as int);
        i = i + 1;
    }
    assert(ids.take(i as int) =~= ids);
    assert(draws@.take(i as int) =~= draws@);
    Ok(())
}

/// Relies on `rand::Rng::gen_range`: a value drawn from the half-open range
/// `0..10`, which is not empty, so the call does not panic.
#[verifier::external_body]
fn draw_below_ten(rng: &mut rand::rngs::StdRng) -> (r: u32)
    ensures
        r < 10,
{
    rng.gen_range(0..10u32)
}

/// One pass of the work loop: takes up the first waiting tasks, draws a
/// number below ten for each, and records each outcome. Fails, leaving the
/// table as it was, where a task of the page cannot be read.
pub fn run_test(repo: &mut TaskRepository, rng: &mut rand::rngs::StdRng) -> (r: Result<(), StoreError>)
    requires
        old(repo).wf(),
    ensures
        final(repo).wf(),
        all_fit(front_page(old(repo)@)) <==> r is Ok,
        r is Err ==> final(repo)@ == old(repo)@,
        r is Ok ==> exists|draws: Seq<u32>|
            draws.len() == front_page(old(repo)@).len() && draws_in_range(draws) && final(repo)@
                == #[trigger] pass_spec(old(repo)@, ids_of(front_page(old(repo)@)), draws),
{
    proof {
        reveal_strlit("WAITING");
    }
    let tasks = match repo.query_tasks_by_status("WAITING", 0, PAGE_SIZE) {
        Ok(ts) => ts,
        Err(e) => {
            return Err(e);
        },
    };
    let mut draws: Vec<u32> = Vec::new();
    let mut i: usize = 0;
    while i < tasks.len()
        invariant
            i <= tasks@.len(),
            draws@.len() == i,
            draws_in_range(draws@),
        decreases tasks@.len() - i,
    {
        let d = draw_below_ten(rng);
        draws.push(d);
        i = i + 1;
    }
    let ghost before = repo@;
    let r = apply_draws(repo, &tasks, &draws);
    assert(entity_views(tasks@) == front_page(before));
    assert(repo@ == pass_spec(before, ids_of(front_page(before)), draws@));
    r
}

} // verus!
