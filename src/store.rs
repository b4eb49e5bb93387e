use vstd::prelude::*;

use crate::error::StoreError;
use crate::task::{
    all_fit, clone_text, entity_views, fits_i32, row_views, tasks_from_rows, InsertTask, Row,
    RowView, TaskEntity,
};

verus! {

/// The status that every task is created with, and that a recorded error
/// puts a task back into.
pub open spec fn waiting() -> Seq<char> {
    "WAITING"@
}

/// Identifiers are handed out in order from 1 and rows are never deleted, so
/// the row with identifier `id` stands at position `id - 1`.
pub open spec fn table_wf(rows: Seq<RowView>) -> bool {
    forall|i: int| 0 <= i < rows.len() ==> (#[trigger] rows[i]).id == i + 1
}

/// Whether a row with this identifier exists.
pub open spec fn has_id(rows: Seq<RowView>, id: int) -> bool {
    1 <= id <= rows.len()
}

/// The row with this identifier, if there is one.
pub open spec fn lookup(rows: Seq<RowView>, id: int) -> Option<RowView> {
    if has_id(rows, id) {
        Some(rows[id - 1])
    } else {
        None
    }
}

/// How many rows a statement aimed at one identifier touches.
pub open spec fn affected(rows: Seq<RowView>, id: int) -> usize {
    if has_id(rows, id) {
        1
    } else {
        0
    }
}

/// The table after inserting a task with this status.
pub open spec fn insert_spec(rows: Seq<RowView>, status: Seq<char>) -> Seq<RowView> {
    rows.push(RowView { id: rows.len() as int + 1, status, errors: None })
}

/// The table after setting the status of the row with this identifier.
pub open spec fn update_spec(rows: Seq<RowView>, id: int, status: Seq<char>) -> Seq<RowView> {
    if has_id(rows, id) {
        rows.update(id - 1, RowView { id: rows[id - 1].id, status, errors: rows[id - 1].errors })
    } else {
        rows
    }
}

/// The table after recording an error on the row with this identifier: it
/// goes back to waiting, with the error text.
pub open spec fn set_error_spec(rows: Seq<RowView>, id: int, e: Seq<char>) -> Seq<RowView> {
    if has_id(rows, id) {
        rows.update(id - 1, RowView { id: rows[id - 1].id, status: waiting(), errors: Some(e) })
    } else {
        rows
    }
}

/// The rows with this status, in the table's order (ascending identifier).
pub open spec fn with_status(rows: Seq<RowView>, status: Seq<char>) -> Seq<RowView>
    decreases rows.len(),
{
    if rows.len() == 0 {
        Seq::empty()
    } else {
        let before = with_status(rows.drop_last(), status);
        if rows.last().status == status {
            before.push(rows.last())
        } else {
            before
        }
    }
}

/// Where a page of `n` rows starts: a negative offset counts as none.
pub open spec fn window_start(offset: int, n: int) -> int {
    if offset <= 0 {
        0
    } else if offset >= n {
        n
    } else {
        offset
    }
}

/// Where a page of `n` rows ends: a negative limit sets no bound.
pub open spec fn window_end(offset: int, limit: int, n: int) -> int {
    let start = if offset <= 0 {
        0
    } else {
        offset
    };
    if limit < 0 || start + limit >= n {
        n
    } else {
        start + limit
    }
}

/// The rows with this status, in ascending identifier, after skipping
/// `offset` of them and keeping at most `limit`.
pub open spec fn page_spec(rows: Seq<RowView>, status: Seq<char>, offset: int, limit: int) -> Seq<
    RowView,
> {
    let m = with_status(rows, status);
    m.subrange(window_start(offset, m.len() as int), window_end(offset, limit, m.len() as int))
}

/// The `tasks` table, held in memory: one row per task, in the order of
/// insertion.
pub struct TaskRepository {
    rows: Vec<Row>,
}

impl View for TaskRepository {
    type V = Seq<RowView>;

    closed spec fn view(&self) -> Seq<RowView> {
        row_views(self.rows@)
    }
}

impl TaskRepository {
    pub open spec fn wf(&self) -> bool {
        table_wf(self@)
    }

    /// An empty table.
    pub fn new() -> (r: TaskRepository)
        ensures
            r.wf(),
            r@ == Seq::<RowView>::empty(),
    {
        let r = TaskRepository { rows: Vec::new() };
        assert(r@ =~= Seq::<RowView>::empty());
        r
    }

    /// Inserts a task with the given status and no errors, and returns the
    /// identifier it was given: one more than the last one.
    pub fn insert_task(&mut self, task: &InsertTask) -> (r: Result<i64, StoreError>)
        requires
            old(self).wf(),
        ensures
            final(self).wf(),
            old(self)@.len() < i64::MAX <==> r is Ok,
            r matches Ok(id) ==> id == old(self)@.len() + 1 && final(self)@ == insert_spec(
                old(self)@,
                task.status@,
            ),
            r matches Err(e) ==> e == StoreError::Full && final(self)@ == old(self)@,
    {
        if self.rows.len() as u64 >= i64::MAX as u64 {
            return Err(StoreError::Full);
        }
        let id: i64 = self.rows.len() as i64 + 1;
        let ghost before = self.rows@;
        self.rows.push(Row { id, status: task.status.to_owned(), errors: None });
        assert(self@ =~= insert_spec(row_views(before), task.status@));
        Ok(id)
    }

    /// The rows with this status, ascending by identifier, after skipping
    /// `offset` of them and keeping at most `limit`.
    fn select_rows(&self, status: &str, offset: i64, limit: i64) -> (r: Vec<Row>)
        requires
            self.wf(),
        ensures
            row_views(r@) == page_spec(self@, status@, offset as int, limit as int),
    {
        let ghost rows = self@;
        let ghost s = status@;
        let key = status.to_owned();
        let start: u64 = if offset <= 0 {
            0
        } else {
            offset as u64
        };
        let mut out: Vec<Row> = Vec::new();
        let mut k: usize = 0;
        let mut i: usize = 0;
        while i < self.rows.len()
            invariant
                rows == self@,
                s == key@,
                start == (if offset <= 0 { 0 } else { offset as int }),
                i <= rows.len(),
                k == with_status(rows.take(i as int), s).len(),
                k <= i,
                row_views(out@) == with_status(rows.take(i as int), s).subrange(
                    window_start(offset as int, k as int),
                    window_end(offset as int, limit as int, k as int),
                ),
            decreases rows.len() - i,
        {
            let ghost m = with_status(rows.take(i as int), s);
            assert(rows.take(i as int + 1).drop_last() =~= rows.take(i as int));
            assert(rows.take(i as int + 1).last() == rows[i as int]);
            if self.rows[i].status == key {
                let ghost m2 = m.push(rows[i as int]);
                assert(with_status(rows.take(i as int + 1), s) == m2);
                if k as u64 >= start && (limit < 0 || k as u64 - start < limit as u64) {
                    let ghost before = out@;
                    let row = &self.rows[i];
                    out.push(Row { id: row.id, status: row.status.clone(), errors: clone_text(&row.errors) });
                    assert(row_views(out@) =~= row_views(before).push(rows[i as int]));
                    assert(m2.subrange(
                        window_start(offset as int, k + 1),
                        window_end(offset as int, limit as int, k + 1),
                    ) =~= m.subrange(
                        window_start(offset as int, k as int),
                        window_end(offset as int, limit as int, k as int),
                    ).push(rows[i as int]));
                } else {
                    assert(m2.subrange(
                        window_start(offset as int, k + 1),
                        window_end(offset as int, limit as int, k + 1),
                    ) =~= m.subrange(
                        window_start(offset as int, k as int),
                        window_end(offset as int, limit as int, k as int),
                    ));
                }
                k = k + 1;
            } else {
                assert(with_status(rows.take(i as int + 1), s) == m);
            }
            i = i + 1;
        }
        assert(rows.take(i as int) =~= rows);
        out
    }

    /// The tasks with this status, ascending by identifier, after skipping
    /// `offset` of them and keeping at most `limit`; a negative offset counts
    /// as none and a negative limit sets no bound. Fails on a row whose
    /// identifier does not fit a task entity.
    pub fn query_tasks_by_status(&self, status: &str, offset: i64, limit: i64) -> (r: Result<
        Vec<TaskEntity>,
        StoreError,
    >)
        requires
            self.wf(),
        ensures
            all_fit(page_spec(self@, status@, offset as int, limit as int)) <==> r is Ok,
            r matches Ok(ts) ==> entity_views(ts@) == page_spec(
                self@,
                status@,
                offset as int,
                limit as int,
            ),
            r matches Err(e) ==> exists|i: int|
                0 <= i < page_spec(self@, status@, offset as int, limit as int).len() && !fits_i32(
                    #[trigger] page_spec(self@, status@, offset as int, limit as int)[i].id,
                ) && e == (StoreError::IdOutOfRange {
                    id: page_spec(self@, status@, offset as int, limit as int)[i].id as i64,
                }),
    {
        let rows = self.select_rows(status, offset, limit);
        let r = tasks_from_rows(&rows);
        proof {
            if let Err(e) = r {
                let i = choose|i: int|
                    0 <= i < rows@.len() && !fits_i32(rows@[i].id as int) && e == (
                    StoreError::IdOutOfRange { id: rows@[i].id }) && forall|j: int|
                        0 <= j < i ==> fits_i32(#[trigger] rows@[j].id as int);
                assert(row_views(rows@)[i] == rows@[i]@);
                assert(!fits_i32(page_spec(self@, status@, offset as int, limit as int)[i].id));
            }
        }
        r
    }

    /// Sets the status of the row with this identifier and returns how many
    /// rows it touched: one, or none where no row has it.
    pub fn update_task_status(&mut self, task_id: i32, status: &str) -> (r: Result<usize, StoreError>)
        requires
            old(self).wf(),
        ensures
            final(self).wf(),
            r == Ok::<usize, StoreError>(affected(old(self)@, task_id as int)),
            final(self)@ == update_spec(old(self)@, task_id as int, status@),
    {
        if task_id < 1 || task_id as u64 > self.rows.len() as u64 {
            return Ok(0);
        }
        let idx: usize = (task_id - 1) as usize;
        let ghost before = self.rows@;
        let row = Row {
            id: self.rows[idx].id,
            status: status.to_owned(),
            errors: clone_text(&self.rows[idx].errors),
        };
        self.rows.set(idx, row);
        assert(self@ =~= update_spec(row_views(before), task_id as int, status@));
        Ok(1)
    }

    /// Puts the row with this identifier back to waiting with this error
    /// text, and returns how many rows it touched: one, or none where no row
    /// has it.
    pub fn set_task_error(&mut self, task_id: i32, errors: &str) -> (r: Result<usize, StoreError>)
        requires
            old(self).wf(),
        ensures
            final(self).wf(),
            r == Ok::<usize, StoreError>(affected(old(self)@, task_id as int)),
            final(self)@ == set_error_spec(old(self)@, task_id as int, errors@),
    {
        if task_id < 1 || task_id as u64 > self.rows.len() as u64 {
            return Ok(0);
        }
        let idx: usize = (task_id - 1) as usize;
        let ghost before = self.rows@;
        let row = Row {
            id: self.rows[idx].id,
            status: "WAITING".to_owned(),
            errors: Some(errors.to_owned()),
        };
        proof {
            reveal_strlit("WAITING");
        }
        self.rows.set(idx, row);
        assert(self@ =~= set_error_spec(row_views(before), task_id as int, errors@));
        Ok(1)
    }
}

} // verus!
