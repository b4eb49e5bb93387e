use vstd::prelude::*;

use crate::error::StoreError;

verus! {

/// The mathematical value of a row of the `tasks` table.
pub struct RowView {
    pub id: int,
    pub status: Seq<char>,
    pub errors: Option<Seq<char>>,
}

/// The text of an optional string column.
pub open spec fn opt_text(o: Option<String>) -> Option<Seq<char>> {
    match o {
        Some(s) => Some(s@),
        None => None,
    }
}

/// Whether an identifier fits the `i32` of a task entity.
pub open spec fn fits_i32(id: int) -> bool {
    i32::MIN <= id <= i32::MAX
}

/// A row as the store holds it and hands it out: its identifier is the
/// store's own 64-bit row identifier.
#[derive(Debug)]
pub struct Row {
    pub id: i64,
    pub status: String,
    pub errors: Option<String>,
}

impl View for Row {
    type V = RowView;

    open spec fn view(&self) -> RowView {
        RowView { id: self.id as int, status: self.status@, errors: opt_text(self.errors) }
    }
}

/// A task as the rest of the program sees it.
#[derive(Debug)]
pub struct TaskEntity {
    pub id: i32,
    pub status: String,
    pub errors: Option<String>,
}

impl View for TaskEntity {
    type V = RowView;

    open spec fn view(&self) -> RowView {
        RowView { id: self.id as int, status: self.status@, errors: opt_text(self.errors) }
    }
}

/// The same record under the name the query layer gives it.
pub type Task = TaskEntity;

/// What a new task is created with: its status. Its errors start out empty.
pub struct InsertTask<'a> {
    pub status: &'a str,
}

/// The same record under the name the query layer gives it.
pub type NewTask<'a> = InsertTask<'a>;

pub open spec fn row_views(rows: Seq<Row>) -> Seq<RowView> {
    rows.map_values(|r: Row| r@)
}

pub open spec fn entity_views(ts: Seq<TaskEntity>) -> Seq<RowView> {
    ts.map_values(|t: TaskEntity| t@)
}

/// Whether every row of a sequence can become a task entity.
pub open spec fn all_fit(rows: Seq<RowView>) -> bool {
    forall|i: int| 0 <= i < rows.len() ==> fits_i32(#[trigger] rows[i].id)
}

pub fn clone_text(o: &Option<String>) -> (r: Option<String>)
    ensures
        opt_text(r) == opt_text(*o),
{
    match o {
        Some(s) => Some(s.clone()),
        None => None,
    }
}

/// Reads one row into a task entity; fails when its identifier does not fit.
pub fn task_from_row(row: &Row) -> (r: Result<TaskEntity, StoreError>)
    ensures
        fits_i32(row.id as int) <==> r is Ok,
        r matches Ok(t) ==> t@ == row@,
        r matches Err(e) ==> e == (StoreError::IdOutOfRange { id: row.id }),
{
    if row.id < i32::MIN as i64 || row.id > i32::MAX as i64 {
        return Err(StoreError::IdOutOfRange { id: row.id });
    }
    Ok(TaskEntity { id: row.id as i32, status: row.status.clone(), errors: clone_text(&row.errors) })
}

/// Reads a result set into task entities, in order; stops at the first row
/// whose identifier does not fit and reports it.
pub fn tasks_from_rows(rows: &Vec<Row>) -> (r: Result<Vec<TaskEntity>, StoreError>)
    ensures
        all_fit(row_views(rows@)) <==> r is Ok,
        r matches Ok(ts) ==> entity_views(ts@) == row_views(rows@),
        r matches Err(e) ==> exists|i: int|
            0 <= i < rows@.len() && !fits_i32(rows@[i].id as int) && e == (StoreError::IdOutOfRange {
                id: rows@[i].id,
            }) && forall|j: int| 0 <= j < i ==> fits_i32(#[trigger] rows@[j].id as int),
{
    let mut tasks: Vec<TaskEntity> = Vec::new();
    let mut i: usize = 0;
    while i < rows.len()
        invariant
            i <= rows@.len(),
            entity_views(tasks@) == row_views(rows@.take(i as int)),
            forall|j: int| 0 <= j < i ==> fits_i32(#[trigger] rows@[j].id as int),
        decreases rows@.len() - i,
    {
        let ghost before = tasks@;
        match task_from_row(&rows[i]) {
            Ok(t) => {
                tasks.push(t);
                assert(rows@.take(i as int + 1) =~= rows@.take(i as int).push(rows@[i as int]));
                assert(entity_views(tasks@) =~= entity_views(before).push(t@));
                assert(row_views(rows@.take(i as int + 1)) =~= row_views(rows@.take(i as int)).push(
                    rows@[i as int]@,
                ));
            },
            Err(e) => {
                assert(!all_fit(row_views(rows@))) by {
                    assert(row_views(rows@)[i as int] == rows@[i as int]@);
                    assert(!fits_i32(row_views(rows@)[i as int].id));
                }
                return Err(e);
            },
        }
        i = i + 1;
    }
    assert(rows@.take(i as int) =~= rows@);
    assert(all_fit(row_views(rows@))) by {
        assert forall|j: int| 0 <= j < rows@.len() implies fits_i32(#[trigger] row_views(rows@)[j].id) by {
            assert(fits_i32(rows@[j].id as int));
        }
    }
    Ok(tasks)
}

} // verus!
