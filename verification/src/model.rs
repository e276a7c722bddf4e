//! A model of the `todos` table and of what each statement does to it, as
//! SQLite runs them on that table (`id INTEGER PRIMARY KEY AUTOINCREMENT`,
//! `completed` defaulting to false). Over it stand the service's endpoints as
//! the README describes them, and the laws that relate them.

use vstd::prelude::*;
use crate::error::ErrorView;
use crate::flow::{
    expects, opening, transition, AnswerView, OutcomeView, ReplyView, RequestView, StatementView,
    StepView, Flow,
};
use crate::text::trimmed;
use crate::todo::{title_rule, TodoView};

verus! {

/// The contents of the `todos` table: its rows in order of id, and the
/// largest id it has ever given out (0 before the first insert).
pub struct Table {
    pub rows: Seq<TodoView>,
    pub last_id: int,
}

/// The table as it is created.
pub open spec fn empty_table() -> Table {
    Table { rows: Seq::empty(), last_id: 0 }
}

/// The table after the schema statement (`CREATE TABLE IF NOT EXISTS`) runs
/// on a database whose `todos` table is `existing`, or has none: an existing
/// table is kept as it is, rows and largest id given out alike.
pub open spec fn open_table(existing: Option<Table>) -> Table {
    match existing {
        Some(t) => t,
        None => empty_table(),
    }
}

/// Rows ordered by strictly increasing id.
pub open spec fn ascending(rows: Seq<TodoView>) -> bool {
    forall|i: int, j: int| 0 <= i < j < rows.len() ==> rows[i].id < rows[j].id
}

/// What holds of every state the table can reach: ids increase along the
/// rows, and none exceeds the largest id given out.
pub open spec fn well_formed(t: Table) -> bool {
    &&& 0 <= t.last_id <= i64::MAX
    &&& ascending(t.rows)
    &&& forall|i: int| 0 <= i < t.rows.len() ==> 1 <= #[trigger] t.rows[i].id <= t.last_id
}

/// The row with id `id`, if there is one.
pub open spec fn lookup(rows: Seq<TodoView>, id: i64) -> Option<TodoView>
    decreases rows.len(),
{
    if rows.len() == 0 {
        None
    } else if rows.last().id == id {
        Some(rows.last())
    } else {
        lookup(rows.drop_last(), id)
    }
}

/// How many rows have id `id`.
pub open spec fn matching(rows: Seq<TodoView>, id: i64) -> nat
    decreases rows.len(),
{
    if rows.len() == 0 {
        0
    } else if rows.last().id == id {
        matching(rows.drop_last(), id) + 1
    } else {
        matching(rows.drop_last(), id)
    }
}

/// The rows after `UPDATE todos SET title = ?, completed = ? WHERE id = ?`.
pub open spec fn replace(rows: Seq<TodoView>, id: i64, title: Seq<char>, completed: bool) -> Seq<
    TodoView,
>
    decreases rows.len(),
{
    if rows.len() == 0 {
        rows
    } else {
        let r = rows.last();
        let kept = if r.id == id {
            TodoView { id, title, completed }
        } else {
            r
        };
        replace(rows.drop_last(), id, title, completed).push(kept)
    }
}

/// The rows after `DELETE FROM todos WHERE id = ?`.
pub open spec fn remove(rows: Seq<TodoView>, id: i64) -> Seq<TodoView>
    decreases rows.len(),
{
    if rows.len() == 0 {
        rows
    } else if rows.last().id == id {
        remove(rows.drop_last(), id)
    } else {
        remove(rows.drop_last(), id).push(rows.last())
    }
}

/// What a statement does to the table, and what the database answers.
/// An insert after the largest possible id was given out fails (`SQLITE_FULL`).
pub open spec fn execute(t: Table, s: StatementView) -> (Table, OutcomeView) {
    match s {
        StatementView::Insert { title } => if t.last_id < i64::MAX {
            let id = (t.last_id + 1) as i64;
            (
                Table { rows: t.rows.push(TodoView { id, title, completed: false }), last_id: id as int },
                OutcomeView::Inserted { rowid: id },
            )
        } else {
            (t, OutcomeView::Failed)
        },
        StatementView::SelectAll => (t, OutcomeView::Rows(t.rows)),
        StatementView::SelectOne { id } => (t, OutcomeView::Row(lookup(t.rows, id))),
        StatementView::Update { id, title, completed } => (
            Table { rows: replace(t.rows, id, title, completed), last_id: t.last_id },
            OutcomeView::Affected { rows: matching(t.rows, id) as u64 },
        ),
        StatementView::Delete { id } => (
            Table { rows: remove(t.rows, id), last_id: t.last_id },
            OutcomeView::Affected { rows: matching(t.rows, id) as u64 },
        ),
    }
}

/// Each endpoint as the service promises it: the table afterwards and the answer.
pub open spec fn endpoint(t: Table, req: RequestView) -> (Table, AnswerView) {
    match req {
        RequestView::Create { title } => match title_rule(title) {
            Err(e) => (t, Err(e)),
            Ok(kept) => if t.last_id < i64::MAX {
                let todo = TodoView { id: (t.last_id + 1) as i64, title: kept, completed: false };
                (Table { rows: t.rows.push(todo), last_id: t.last_id + 1 }, Ok(ReplyView::Created(todo)))
            } else {
                (t, Err(ErrorView::Database))
            },
        },
        RequestView::List => (t, Ok(ReplyView::Listed(t.rows))),
        RequestView::Get { id } => match lookup(t.rows, id) {
            Some(r) => (t, Ok(ReplyView::Found(r))),
            None => (t, Err(ErrorView::NotFound)),
        },
        RequestView::Update { id, title, completed } => match title_rule(title) {
            Err(e) => (t, Err(e)),
            Ok(kept) => match lookup(t.rows, id) {
                None => (t, Err(ErrorView::NotFound)),
                Some(_) => (
                    Table { rows: replace(t.rows, id, kept, completed), last_id: t.last_id },
                    Ok(ReplyView::Found(TodoView { id, title: kept, completed })),
                ),
            },
        },
        RequestView::Delete { id } => match lookup(t.rows, id) {
            None => (t, Err(ErrorView::NotFound)),
            Some(_) => (Table { rows: remove(t.rows, id), last_id: t.last_id }, Ok(ReplyView::Deleted)),
        },
    }
}

/// Runs a flow against the model for at most `fuel` statements: the table
/// afterwards, the answer, and whether every outcome was one the flow expected.
pub open spec fn drive(t: Table, flow: Flow, step: StepView, fuel: nat) -> (Table, AnswerView, bool)
    decreases fuel,
{
    match step {
        StepView::Respond(a) => (t, a, true),
        StepView::Run(s) => if fuel == 0 {
            (t, Err(ErrorView::Database), false)
        } else {
            let (t2, o) = execute(t, s);
            let (f2, s2) = transition(flow, o);
            let (t3, a, ok) = drive(t2, f2, s2, (fuel - 1) as nat);
            (t3, a, ok && expects(flow, o))
        },
    }
}

/// Serves a request with the flow, against the model.
pub open spec fn serve(t: Table, req: RequestView) -> (Table, AnswerView, bool) {
    drive(t, opening(req).0, opening(req).1, 2)
}

/// The table after serving `reqs` in order, starting from `t`.
pub open spec fn after(t: Table, reqs: Seq<RequestView>) -> Table
    decreases reqs.len(),
{
    if reqs.len() == 0 {
        t
    } else {
        endpoint(after(t, reqs.drop_last()), reqs.last()).0
    }
}

/// The answer to the `k`-th of `reqs`, served in order starting from `t`.
pub open spec fn answer_at(t: Table, reqs: Seq<RequestView>, k: int) -> AnswerView {
    endpoint(after(t, reqs.take(k)), reqs[k]).1
}

// ---------------------------------------------------------------------------
// Facts about rows

pub(crate) proof fn lemma_lookup(rows: Seq<TodoView>, id: i64)
    ensures
        lookup(rows, id) matches Some(r) ==> rows.contains(r) && r.id == id,
        lookup(rows, id) is None <==> forall|k: int| 0 <= k < rows.len() ==> rows[k].id != id,
        matching(rows, id) == 0 <==> lookup(rows, id) is None,
        ascending(rows) ==> matching(rows, id) <= 1,
    decreases rows.len(),
{
    if rows.len() > 0 {
        let rest = rows.drop_last();
        lemma_lookup(rest, id);
        if ascending(rows) {
            assert forall|i: int, j: int| 0 <= i < j < rest.len() implies rest[i].id
                < rest[j].id by {
                assert(rest[i] == rows[i] && rest[j] == rows[j]);
            }
            if rows.last().id == id {
                assert forall|k: int| 0 <= k < rest.len() implies rest[k].id != id by {
                    assert(rest[k] == rows[k]);
                    assert(rows[rows.len() - 1] == rows.last());
                }
            }
        }
        if rows.last().id != id {
            assert forall|k: int| 0 <= k < rest.len() implies rest[k] == rows[k] by {}
            if let Some(r) = lookup(rest, id) {
                let k = choose|k: int| 0 <= k < rest.len() && rest[k] == r;
                assert(rows[k] == r);
            }
            if forall|k: int| 0 <= k < rest.len() ==> rest[k].id != id {
                assert forall|k: int| 0 <= k < rows.len() implies rows[k].id != id by {
                    if k < rest.len() {
                        assert(rest[k] == rows[k]);
                    }
                }
            }
        } else {
            assert(rows[rows.len() - 1] == rows.last());
        }
    }
}

pub(crate) proof fn lemma_replace(rows: Seq<TodoView>, id: i64, title: Seq<char>, completed: bool)
    ensures
        replace(rows, id, title, completed).len() == rows.len(),
        forall|k: int|
            0 <= k < rows.len() ==> #[trigger] replace(rows, id, title, completed)[k].id == rows[k].id,
        lookup(rows, id) is Some ==> lookup(replace(rows, id, title, completed), id) == Some(
            TodoView { id, title, completed },
        ),
        lookup(rows, id) is None ==> replace(rows, id, title, completed) == rows,
        forall|other: i64|
            other != id ==> #[trigger] lookup(replace(rows, id, title, completed), other) == lookup(
                rows,
                other,
            ),
    decreases rows.len(),
{
    if rows.len() > 0 {
        let rest = rows.drop_last();
        lemma_replace(rest, id, title, completed);
        let out = replace(rows, id, title, completed);
        let out_rest = replace(rest, id, title, completed);
        assert(out.drop_last() =~= out_rest);
        assert forall|k: int| 0 <= k < rows.len() implies #[trigger] out[k].id == rows[k].id by {
            if k < rest.len() {
                assert(out[k] == out_rest[k]);
                assert(rest[k] == rows[k]);
            }
        }
        if lookup(rows, id) is None {
            assert(out =~= rows);
        }
        assert forall|other: i64| other != id implies #[trigger] lookup(out, other) == lookup(
            rows,
            other,
        ) by {
            assert(lookup(out_rest, other) == lookup(rest, other));
        }
    }
}

pub(crate) proof fn lemma_remove(rows: Seq<TodoView>, id: i64)
    ensures
        forall|k: int| 0 <= k < remove(rows, id).len() ==> rows.contains(#[trigger] remove(rows, id)[k]),
        forall|k: int| 0 <= k < remove(rows, id).len() ==> #[trigger] remove(rows, id)[k].id != id,
        ascending(rows) ==> ascending(remove(rows, id)),
        lookup(rows, id) is None ==> remove(rows, id) == rows,
        forall|other: i64| other != id ==> #[trigger] lookup(remove(rows, id), other) == lookup(rows, other),
    decreases rows.len(),
{
    if rows.len() > 0 {
        let rest = rows.drop_last();
        lemma_remove(rest, id);
        let out = remove(rows, id);
        let out_rest = remove(rest, id);
        assert forall|k: int| 0 <= k < out_rest.len() implies rows.contains(#[trigger] out_rest[k]) by {
            let j = choose|j: int| 0 <= j < rest.len() && rest[j] == out_rest[k];
            assert(rows[j] == rest[j]);
        }
        if rows.last().id != id {
            assert forall|k: int| 0 <= k < out.len() implies rows.contains(#[trigger] out[k]) by {
                if k < out_rest.len() {
                    assert(out[k] == out_rest[k]);
                } else {
                    assert(rows[rows.len() - 1] == rows.last());
                }
            }
            assert forall|k: int| 0 <= k < out.len() implies #[trigger] out[k].id != id by {
                if k < out_rest.len() {
                    assert(out[k] == out_rest[k]);
                }
            }
            if ascending(rows) {
                assert(ascending(rest)) by {
                    assert forall|i: int, j: int| 0 <= i < j < rest.len() implies rest[i].id
                        < rest[j].id by {
                        assert(rest[i] == rows[i] && rest[j] == rows[j]);
                    }
                }
                assert forall|i: int, j: int| 0 <= i < j < out.len() implies out[i].id
                    < out[j].id by {
                    if j < out_rest.len() {
                        assert(out[i] == out_rest[i] && out[j] == out_rest[j]);
                    } else {
                        assert(out[i] == out_rest[i]);
                        let m = choose|m: int| 0 <= m < rest.len() && rest[m] == out_rest[i];
                        assert(rows[m] == rest[m]);
                        assert(rows[rows.len() - 1] == rows.last());
                    }
                }
            }
            if lookup(rows, id) is None {
                assert(out =~= rows);
            }
            assert(out.drop_last() =~= out_rest);
            assert forall|other: i64| other != id implies #[trigger] lookup(out, other) == lookup(
                rows,
                other,
            ) by {
                assert(lookup(out_rest, other) == lookup(rest, other));
            }
        } else {
            assert forall|other: i64| other != id implies #[trigger] lookup(out, other) == lookup(
                rows,
                other,
            ) by {
                assert(lookup(out_rest, other) == lookup(rest, other));
            }
            if ascending(rows) {
                assert(ascending(rest)) by {
                    assert forall|i: int, j: int| 0 <= i < j < rest.len() implies rest[i].id
                        < rest[j].id by {
                        assert(rest[i] == rows[i] && rest[j] == rows[j]);
                    }
                }
            }
        }
    }
}

pub(crate) proof fn lemma_lookup_pushed(rows: Seq<TodoView>, r: TodoView)
    ensures
        lookup(rows.push(r), r.id) == Some(r),
        forall|other: i64| other != r.id ==> #[trigger] lookup(rows.push(r), other) == lookup(rows, other),
{
    assert(rows.push(r).drop_last() =~= rows);
}

// ---------------------------------------------------------------------------
// Laws

/// Serving a request with the flow, against a database that runs each
/// statement as the model says, gives exactly the endpoint's result, and
/// every answer the database gives is one the flow expects.
pub proof fn law_flow_serves_endpoint(t: Table, req: RequestView)
    requires
        well_formed(t),
    ensures
        serve(t, req) == (endpoint(t, req).0, endpoint(t, req).1, true),
{
    reveal_with_fuel(drive, 3);
    match req {
        RequestView::Create { title } => {
            if let Ok(kept) = title_rule(title) {
                if t.last_id < i64::MAX {
                    let id = (t.last_id + 1) as i64;
                    lemma_lookup_pushed(t.rows, TodoView { id, title: kept, completed: false });
                }
            }
        },
        RequestView::Get { id } => {
            lemma_lookup(t.rows, id);
        },
        RequestView::Update { id, title, completed } => {
            lemma_lookup(t.rows, id);
            lemma_replace(t.rows, id, trimmed(title), completed);
        },
        RequestView::Delete { id } => {
            lemma_lookup(t.rows, id);
            lemma_remove(t.rows, id);
        },
        RequestView::List => {},
    }
}

} // verus!
