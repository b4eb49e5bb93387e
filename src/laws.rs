use vstd::prelude::*;

use crate::store::{
    affected, has_id, insert_spec, lookup, page_spec, set_error_spec, table_wf, update_spec,
    waiting, with_status,
};
use crate::driver::{draws_in_range, front_page, ids_of, pass_spec, successful};
use crate::task::RowView;

verus! {

/// A task reads back as it was written: after an insert the new row holds
/// the given status and no errors, is the last of the rows with that status,
/// and the table keeps its shape; after a status update the row holds the
/// new status and its errors unchanged.
pub proof fn lemma_round_trip(rows: Seq<RowView>, status: Seq<char>, id: int, new_status: Seq<char>)
    requires
        table_wf(rows),
    ensures
        table_wf(insert_spec(rows, status)),
        lookup(insert_spec(rows, status), rows.len() as int + 1) == Some(
            RowView { id: rows.len() as int + 1, status, errors: None },
        ),
        with_status(insert_spec(rows, status), status).last() == (RowView {
            id: rows.len() as int + 1,
            status,
            errors: None,
        }),
        has_id(rows, id) ==> lookup(update_spec(rows, id, new_status), id) == Some(
            RowView { id, status: new_status, errors: rows[id - 1].errors },
        ),
{
    let ins = insert_spec(rows, status);
    assert(ins.drop_last() =~= rows);
}

/// Setting the same status twice leaves the table as setting it once, and
/// the second update touches the same rows as the first.
pub proof fn lemma_update_idempotent(rows: Seq<RowView>, id: int, status: Seq<char>)
    requires
        table_wf(rows),
    ensures
        update_spec(update_spec(rows, id, status), id, status) == update_spec(rows, id, status),
        affected(update_spec(rows, id, status), id) == affected(rows, id),
{
    assert(update_spec(update_spec(rows, id, status), id, status) =~= update_spec(rows, id, status));
}

/// After an error is recorded on a row, the row is waiting and holds that
/// error text.
pub proof fn lemma_set_error_waits(rows: Seq<RowView>, id: int, e: Seq<char>)
    requires
        table_wf(rows),
        has_id(rows, id),
    ensures
        lookup(set_error_spec(rows, id, e), id) == Some(
            RowView { id, status: waiting(), errors: Some(e) },
        ),
        table_wf(set_error_spec(rows, id, e)),
{
}

/// A page with limit zero and no offset is empty, however many rows match.
pub proof fn lemma_zero_limit_empty(rows: Seq<RowView>, status: Seq<char>)
    ensures
        page_spec(rows, status, 0, 0) == Seq::<RowView>::empty(),
{
    assert(page_spec(rows, status, 0, 0) =~= Seq::<RowView>::empty());
}

/// How many of the draws are even.
pub open spec fn even_count(draws: Seq<u32>) -> nat
    decreases draws.len(),
{
    if draws.len() == 0 {
        0
    } else {
        even_count(draws.drop_last()) + if draws.last() % 2 == 0 {
            1nat
        } else {
            0nat
        }
    }
}

proof fn lemma_with_status_update(rows: Seq<RowView>, i: int, r: RowView, s: Seq<char>)
    requires
        0 <= i < rows.len(),
    ensures
        with_status(rows.update(i, r), s).len() + (if rows[i].status == s {
            1int
        } else {
            0int
        }) == with_status(rows, s).len() + (if r.status == s {
            1int
        } else {
            0int
        }),
    decreases rows.len(),
{
    let u = rows.update(i, r);
    if i == rows.len() - 1 {
        assert(u.drop_last() =~= rows.drop_last());
    } else {
        assert(u.drop_last() =~= rows.drop_last().update(i, r));
        lemma_with_status_update(rows.drop_last(), i, r, s);
    }
}

proof fn lemma_with_status_members(rows: Seq<RowView>, s: Seq<char>)
    requires
        table_wf(rows),
    ensures
        forall|j: int|
            0 <= j < with_status(rows, s).len() ==> {
                let x = #[trigger] with_status(rows, s)[j];
                x.status == s && has_id(rows, x.id) && rows[x.id - 1] == x
            },
        forall|j: int, k: int|
            0 <= j < k < with_status(rows, s).len() ==> #[trigger] with_status(rows, s)[j].id
                < #[trigger] with_status(rows, s)[k].id,
    decreases rows.len(),
{
    if rows.len() > 0 {
        let d = rows.drop_last();
        assert(table_wf(d));
        lemma_with_status_members(d, s);
        assert(rows.last().id == rows.len());
    }
}

proof fn lemma_pass_prefix(rows: Seq<RowView>, ids: Seq<int>, draws: Seq<u32>, n: int)
    requires
        table_wf(rows),
        ids.len() == draws.len(),
        draws_in_range(draws),
        0 <= n <= ids.len(),
        forall|j: int|
            0 <= j < ids.len() ==> has_id(rows, #[trigger] ids[j]) && rows[ids[j] - 1].status
                == waiting(),
        forall|j: int, k: int| 0 <= j < k < ids.len() ==> #[trigger] ids[j] < #[trigger] ids[k],
    ensures
        table_wf(pass_spec(rows, ids.take(n), draws.take(n))),
        pass_spec(rows, ids.take(n), draws.take(n)).len() == rows.len(),
        forall|j: int|
            n <= j < ids.len() ==> #[trigger] pass_spec(rows, ids.take(n), draws.take(n))[ids[j]
                - 1] == rows[ids[j] - 1],
        with_status(pass_spec(rows, ids.take(n), draws.take(n)), waiting()).len() + even_count(
            draws.take(n),
        ) == with_status(rows, waiting()).len(),
    decreases n,
{
    if n == 0 {
        assert(ids.take(0).len() == 0);
        assert(draws.take(0) =~= Seq::<u32>::empty());
    } else {
        lemma_pass_prefix(rows, ids, draws, n - 1);
        let p0 = pass_spec(rows, ids.take(n - 1), draws.take(n - 1));
        assert(ids.take(n).drop_last() =~= ids.take(n - 1));
        assert(draws.take(n).drop_last() =~= draws.take(n - 1));
        assert(ids.take(n).last() == ids[n - 1]);
        assert(draws.take(n).last() == draws[n - 1]);
        let id = ids[n - 1];
        let d = draws[n - 1];
        assert(d < 10);
        assert(p0[id - 1] == rows[id - 1]);
        reveal_strlit("WAITING");
        reveal_strlit("SUCCESSFUL");
        assert(successful() != waiting()) by {
            assert(successful()[0] != waiting()[0]);
        }
        if d % 2 == 0 {
            let r = RowView { id: p0[id - 1].id, status: successful(), errors: p0[id - 1].errors };
            lemma_with_status_update(p0, id - 1, r, waiting());
        } else {
            let e = crate::driver::error_text(d as int);
            let r = RowView { id: p0[id - 1].id, status: waiting(), errors: Some(e) };
            lemma_with_status_update(p0, id - 1, r, waiting());
        }
    }
}

/// One pass of the work loop over the front page lowers the number of
/// waiting tasks by exactly the number of even draws, so it never raises
/// it; the table keeps its shape. And where the front page comes back
/// empty, no task waits at all, so the loop stops only when every task has
/// succeeded.
pub proof fn lemma_pass_lowers_waiting(rows: Seq<RowView>, draws: Seq<u32>)
    requires
        table_wf(rows),
        draws.len() == front_page(rows).len(),
        draws_in_range(draws),
    ensures
        table_wf(pass_spec(rows, ids_of(front_page(rows)), draws)),
        with_status(pass_spec(rows, ids_of(front_page(rows)), draws), waiting()).len()
            + even_count(draws) == with_status(rows, waiting()).len(),
        front_page(rows).len() == 0 ==> with_status(rows, waiting()).len() == 0,
{
    let m = with_status(rows, waiting());
    let page = front_page(rows);
    let ids = ids_of(page);
    lemma_with_status_members(rows, waiting());
    assert(page =~= m.subrange(0, page.len() as int));
    assert forall|j: int| 0 <= j < ids.len() implies has_id(rows, #[trigger] ids[j]) && rows[ids[j]
        - 1].status == waiting() by {
        assert(ids[j] == m[j].id);
    }
    assert forall|j: int, k: int| 0 <= j < k < ids.len() implies #[trigger] ids[j]
        < #[trigger] ids[k] by {
        assert(ids[j] == m[j].id);
        assert(ids[k] == m[k].id);
    }
    lemma_pass_prefix(rows, ids, draws, ids.len() as int);
    assert(ids.take(ids.len() as int) =~= ids);
    assert(draws.take(draws.len() as int) =~= draws);
}

} // verus!
