//! Laws of the service, stated over the table model: what holds of every
//! table the service can reach, what a read gives back after a write, and
//! what a refused request leaves behind.

use vstd::prelude::*;
use crate::error::ErrorView;
use crate::flow::{reply_status, statement_sql, ReplyView, RequestView, StatementView};
use crate::model::{
    after, answer_at, ascending, empty_table, open_table, endpoint, lemma_lookup, lemma_lookup_pushed,
    lemma_remove, lemma_replace, lookup, well_formed, Table,
};
use crate::text::trimmed;
use crate::todo::{empty_title_message, TodoView};

verus! {

/// The table as it is created is well formed, and every endpoint keeps the
/// table well formed.
pub proof fn law_endpoints_keep_table_well_formed(t: Table, req: RequestView)
    requires
        well_formed(t),
    ensures
        well_formed(empty_table()),
        well_formed(endpoint(t, req).0),
{
    let t2 = endpoint(t, req).0;
    match req {
        RequestView::Update { id, title, completed } => {
            lemma_replace(t.rows, id, trimmed(title), completed);
            let rows = t2.rows;
            assert forall|i: int, j: int| 0 <= i < j < rows.len() implies rows[i].id
                < rows[j].id by {
                assert(rows[i].id == t.rows[i].id && rows[j].id == t.rows[j].id);
            }
            assert forall|i: int| 0 <= i < rows.len() implies 1 <= #[trigger] rows[i].id
                <= t2.last_id by {
                assert(rows[i].id == t.rows[i].id);
            }
        },
        RequestView::Delete { id } => {
            lemma_remove(t.rows, id);
            let rows = t2.rows;
            assert forall|i: int| 0 <= i < rows.len() implies 1 <= #[trigger] rows[i].id
                <= t2.last_id by {
                let k = choose|k: int| 0 <= k < t.rows.len() && t.rows[k] == rows[i];
            }
        },
        RequestView::Create { title } => {
            let rows = t2.rows;
            assert forall|i: int, j: int| 0 <= i < j < rows.len() implies rows[i].id
                < rows[j].id by {
                if j == rows.len() - 1 {
                    assert(t.rows[i] == rows[i]);
                } else {
                    assert(t.rows[i] == rows[i] && t.rows[j] == rows[j]);
                }
            }
            assert forall|i: int| 0 <= i < rows.len() implies 1 <= #[trigger] rows[i].id
                <= t2.last_id by {
                if i < t.rows.len() {
                    assert(t.rows[i] == rows[i]);
                }
            }
        },
        _ => {},
    }
}

/// Opening a database creates an empty, well-formed table when there is
/// none, and keeps an existing table exactly as it was, so opening the same
/// database again loses, adds and changes no row and gives out no id twice.
pub proof fn law_reopening_keeps_rows(existing: Option<Table>)
    ensures
        well_formed(open_table(None)),
        open_table(None).rows.len() == 0,
        existing matches Some(t) ==> open_table(existing) == t,
        open_table(Some(open_table(existing))) == open_table(existing),
{
}

/// Every successful reply has the status the API promises, whatever the
/// to-dos it carries: 201 for a created to-do, 200 for a found to-do and for
/// the list, 204 for a delete.
pub proof fn law_reply_statuses(t: TodoView, ts: Seq<TodoView>)
    ensures
        reply_status(ReplyView::Created(t)) == 201,
        reply_status(ReplyView::Found(t)) == 200,
        reply_status(ReplyView::Listed(ts)) == 200,
        reply_status(ReplyView::Deleted) == 204,
{
}

/// Each statement is the SQL that the table's layout calls for, with its
/// parameters in the order the statement names them.
pub proof fn law_statement_sql(title: Seq<char>, id: i64, completed: bool)
    ensures
        statement_sql(StatementView::Insert { title }) == "INSERT INTO todos (title) VALUES (?)"@,
        statement_sql(StatementView::SelectAll) == "SELECT id, title, completed FROM todos ORDER BY id"@,
        statement_sql(StatementView::SelectOne { id }) == "SELECT id, title, completed FROM todos WHERE id = ?"@,
        statement_sql(StatementView::Update { id, title, completed })
            == "UPDATE todos SET title = ?, completed = ? WHERE id = ?"@,
        statement_sql(StatementView::Delete { id }) == "DELETE FROM todos WHERE id = ?"@,
{
}

/// A refused title is answered with the message "title cannot be empty".
pub proof fn law_empty_title_message()
    ensures
        empty_title_message() == "title cannot be empty"@,
{
}

/// A created to-do carries the requested title without its surrounding
/// white space, is not completed, and has an id larger than every id given
/// out before, so an id is never given out twice. Read back by its id it is
/// found unchanged, and the list of all to-dos holds it.
pub proof fn law_created_todo_is_read_back(t: Table, title: Seq<char>)
    requires
        well_formed(t),
    ensures
        endpoint(t, RequestView::Create { title }).1 matches Ok(ReplyView::Created(todo)) ==> {
            let t2 = endpoint(t, RequestView::Create { title }).0;
            &&& todo.title == trimmed(title)
            &&& !todo.completed
            &&& todo.id > t.last_id
            &&& lookup(t.rows, todo.id) is None
            &&& endpoint(t2, RequestView::Get { id: todo.id }) == (t2, Ok::<ReplyView, ErrorView>(
                ReplyView::Found(todo),
            ))
            &&& endpoint(t2, RequestView::List).1 matches Ok(ReplyView::Listed(all))
            &&& all.contains(todo)
        },
{
    let (t2, a) = endpoint(t, RequestView::Create { title });
    if let Ok(ReplyView::Created(todo)) = a {
        lemma_lookup(t.rows, todo.id);
        lemma_lookup_pushed(t.rows, todo);
        assert(t2.rows[t2.rows.len() - 1] == todo);
    }
}

/// An update that succeeds answers with the to-do as requested (the title
/// without its surrounding white space), a later read of that id gives the
/// same to-do, and every other to-do is left as it was.
pub proof fn law_updated_todo_is_read_back(t: Table, id: i64, title: Seq<char>, completed: bool)
    requires
        well_formed(t),
    ensures
        endpoint(t, RequestView::Update { id, title, completed }).1 matches Ok(ReplyView::Found(todo)) ==> {
            let t2 = endpoint(t, RequestView::Update { id, title, completed }).0;
            &&& todo == TodoView { id, title: trimmed(title), completed }
            &&& endpoint(t2, RequestView::Get { id }) == (t2, Ok::<ReplyView, ErrorView>(
                ReplyView::Found(todo),
            ))
            &&& forall|other: i64| other != id ==> #[trigger] lookup(t2.rows, other) == lookup(t.rows, other)
        },
{
    lemma_replace(t.rows, id, trimmed(title), completed);
}

/// After a delete succeeds, the to-do is not found, deleting it again is
/// answered "not found", and every other to-do is left as it was.
pub proof fn law_deleted_todo_is_gone(t: Table, id: i64)
    requires
        well_formed(t),
    ensures
        endpoint(t, RequestView::Delete { id }).1 == Ok::<ReplyView, ErrorView>(ReplyView::Deleted) ==> {
            let t2 = endpoint(t, RequestView::Delete { id }).0;
            &&& endpoint(t2, RequestView::Get { id }).1 == Err::<ReplyView, ErrorView>(ErrorView::NotFound)
            &&& endpoint(t2, RequestView::Delete { id }).1 == Err::<ReplyView, ErrorView>(ErrorView::NotFound)
            &&& forall|other: i64| other != id ==> #[trigger] lookup(t2.rows, other) == lookup(t.rows, other)
        },
{
    lemma_remove(t.rows, id);
    let t2 = endpoint(t, RequestView::Delete { id }).0;
    lemma_lookup(t2.rows, id);
}

/// A request that is answered with an error leaves the table as it was, and
/// reads never change it.
pub proof fn law_errors_and_reads_change_nothing(t: Table, req: RequestView)
    ensures
        endpoint(t, req).1 is Err ==> endpoint(t, req).0 == t,
        (req is Get || req is List) ==> endpoint(t, req).0 == t,
{
}

/// A title that is nothing but white space is refused, on create and on
/// update, with "title cannot be empty", whatever the table holds; any other
/// title is not refused for its content.
pub proof fn law_blank_titles_are_refused(t: Table, id: i64, title: Seq<char>, completed: bool)
    ensures
        trimmed(title).len() == 0 ==> endpoint(t, RequestView::Create { title }).1 == Err::<
            ReplyView,
            ErrorView,
        >(ErrorView::BadRequest(empty_title_message())),
        trimmed(title).len() == 0 ==> endpoint(t, RequestView::Update { id, title, completed }).1
            == Err::<ReplyView, ErrorView>(ErrorView::BadRequest(empty_title_message())),
        trimmed(title).len() > 0 ==> !(endpoint(t, RequestView::Create { title }).1 matches Err(
            ErrorView::BadRequest(_),
        )),
        trimmed(title).len() > 0 ==> !(endpoint(t, RequestView::Update { id, title, completed }).1 matches Err(
            ErrorView::BadRequest(_),
        )),
{
}

/// The list of all to-dos comes in order of increasing id.
pub proof fn law_list_is_ordered_by_id(t: Table)
    requires
        well_formed(t),
    ensures
        endpoint(t, RequestView::List).1 matches Ok(ReplyView::Listed(all)) && ascending(all),
{
}

/// One request keeps the table well formed, never lowers the largest id
/// given out, and leaves absent an id that is absent and not above it.
proof fn lemma_step(t: Table, req: RequestView, id: i64)
    requires
        well_formed(t),
    ensures
        well_formed(endpoint(t, req).0),
        t.last_id <= endpoint(t, req).0.last_id,
        lookup(t.rows, id) is None && id <= t.last_id ==> lookup(endpoint(t, req).0.rows, id) is None,
{
    law_endpoints_keep_table_well_formed(t, req);
    match req {
        RequestView::Create { title } => {
            if let Ok(ReplyView::Created(todo)) = endpoint(t, req).1 {
                lemma_lookup_pushed(t.rows, todo);
            }
        },
        RequestView::Update { id: target, title, completed } => {
            lemma_replace(t.rows, target, trimmed(title), completed);
        },
        RequestView::Delete { id: target } => {
            lemma_remove(t.rows, target);
        },
        _ => {},
    }
}

proof fn lemma_prefix(t: Table, reqs: Seq<RequestView>, n: int)
    requires
        0 <= n < reqs.len(),
    ensures
        after(t, reqs.take(n + 1)) == endpoint(after(t, reqs.take(n)), reqs[n]).0,
{
    assert(reqs.take(n + 1).drop_last() =~= reqs.take(n));
}

/// Along a run of requests the table stays well formed and the largest id
/// given out never falls.
proof fn lemma_run(t: Table, reqs: Seq<RequestView>, m: int, n: int)
    requires
        well_formed(t),
        0 <= m <= n <= reqs.len(),
    ensures
        well_formed(after(t, reqs.take(n))),
        after(t, reqs.take(m)).last_id <= after(t, reqs.take(n)).last_id,
    decreases n,
{
    if n == 0 {
        assert(reqs.take(0) =~= Seq::<RequestView>::empty());
    } else if m == n {
        lemma_run(t, reqs, n - 1, n - 1);
        lemma_prefix(t, reqs, n - 1);
        lemma_step(after(t, reqs.take(n - 1)), reqs[n - 1], 0);
    } else {
        lemma_run(t, reqs, m, n - 1);
        lemma_prefix(t, reqs, n - 1);
        lemma_step(after(t, reqs.take(n - 1)), reqs[n - 1], 0);
    }
}

/// An id that is absent and not above the largest id given out stays absent
/// along a run of requests.
proof fn lemma_stays_absent(t: Table, reqs: Seq<RequestView>, m: int, n: int, id: i64)
    requires
        well_formed(t),
        0 <= m <= n <= reqs.len(),
        lookup(after(t, reqs.take(m)).rows, id) is None,
        id <= after(t, reqs.take(m)).last_id,
    ensures
        lookup(after(t, reqs.take(n)).rows, id) is None,
        id <= after(t, reqs.take(n)).last_id,
    decreases n,
{
    if n > m {
        lemma_stays_absent(t, reqs, m, n - 1, id);
        lemma_run(t, reqs, n - 1, n - 1);
        lemma_prefix(t, reqs, n - 1);
        lemma_step(after(t, reqs.take(n - 1)), reqs[n - 1], id);
    }
}

/// Over any run of requests, ids given out by creates strictly increase and
/// exceed every id given out before the run: an id is never given out twice,
/// not even after its to-do was deleted.
pub proof fn law_ids_strictly_increase(t: Table, reqs: Seq<RequestView>, j: int, k: int)
    requires
        well_formed(t),
        0 <= j < k < reqs.len(),
    ensures
        answer_at(t, reqs, k) matches Ok(ReplyView::Created(b)) ==> b.id > t.last_id,
        answer_at(t, reqs, j) matches Ok(ReplyView::Created(a)) ==> (answer_at(t, reqs, k) matches Ok(
            ReplyView::Created(b),
        ) ==> a.id < b.id),
{
    lemma_run(t, reqs, 0, k);
    lemma_run(t, reqs, j + 1, k);
    lemma_run(t, reqs, j, j);
    lemma_prefix(t, reqs, j);
    assert(reqs.take(0) =~= Seq::<RequestView>::empty());
}

/// Once a delete of `id` has succeeded, no later request of any run gives
/// that id out again, finds it, or lists it.
pub proof fn law_deleted_id_never_returns(
    t: Table,
    reqs: Seq<RequestView>,
    j: int,
    k: int,
    id: i64,
)
    requires
        well_formed(t),
        0 <= j < k < reqs.len(),
        reqs[j] == (RequestView::Delete { id }),
        answer_at(t, reqs, j) == Ok::<ReplyView, ErrorView>(ReplyView::Deleted),
    ensures
        !(answer_at(t, reqs, k) matches Ok(ReplyView::Created(x)) && x.id == id),
        !(answer_at(t, reqs, k) matches Ok(ReplyView::Found(x)) && x.id == id),
        answer_at(t, reqs, k) matches Ok(ReplyView::Listed(all)) ==> forall|i: int|
            0 <= i < all.len() ==> #[trigger] all[i].id != id,
{
    let before = after(t, reqs.take(j));
    lemma_run(t, reqs, j, j);
    lemma_prefix(t, reqs, j);
    lemma_lookup(before.rows, id);
    lemma_remove(before.rows, id);
    let r = lookup(before.rows, id)->Some_0;
    let i0 = choose|i: int| 0 <= i < before.rows.len() && before.rows[i] == r;
    assert(before.rows[i0].id == id);
    let start = after(t, reqs.take(j + 1));
    lemma_lookup(start.rows, id);
    lemma_stays_absent(t, reqs, j + 1, k, id);
    let now = after(t, reqs.take(k));
    lemma_run(t, reqs, k, k);
    lemma_lookup(now.rows, id);
    match reqs[k] {
        RequestView::Update { id: target, title, completed } => {
            lemma_lookup(now.rows, target);
        },
        RequestView::Get { id: target } => {
            lemma_lookup(now.rows, target);
        },
        _ => {},
    }
}

} // verus!
