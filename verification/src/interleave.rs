//! Requests served at the same time. Each request's statements run one at a
//! time against the table (SQLite runs one statement at a time), but the
//! statements of different requests may interleave in any order.

use vstd::prelude::*;
use crate::flow::{opening, transition, Flow, ReplyView, RequestView, StatementView, StepView};
use crate::laws::law_endpoints_keep_table_well_formed;
use crate::model::{endpoint, execute, lemma_lookup_pushed, lookup, well_formed, Table};
use crate::text::trimmed;
use crate::todo::TodoView;

verus! {

/// The requests in progress: where each one's flow stands, and its next step.
pub type Requests = Seq<(Flow, StepView)>;

/// Runs the next statement of request `i`, if it has one.
pub open spec fn run_one(t: Table, rs: Requests, i: int) -> (Table, Requests) {
    if 0 <= i < rs.len() && rs[i].1 is Run {
        let (t2, o) = execute(t, rs[i].1->Run_0);
        (t2, rs.update(i, transition(rs[i].0, o)))
    } else {
        (t, rs)
    }
}

/// Runs statements of the requests in the order `schedule` gives: each entry
/// picks the request whose next statement runs.
pub open spec fn interleave(t: Table, rs: Requests, schedule: Seq<int>) -> (Table, Requests)
    decreases schedule.len(),
{
    if schedule.len() == 0 {
        (t, rs)
    } else {
        let (t1, rs1) = interleave(t, rs, schedule.drop_last());
        run_one(t1, rs1, schedule.last())
    }
}

/// Create requests with the given titles, none of them started.
pub open spec fn creates(titles: Seq<Seq<char>>) -> Requests {
    Seq::new(titles.len(), |i: int| opening(RequestView::Create { title: titles[i] }))
}

/// The id a create request has been given, once its insert has succeeded.
pub open spec fn created_id(r: (Flow, StepView)) -> Option<i64> {
    match r.1 {
        StepView::Run(StatementView::SelectOne { id }) => if r.0 == Flow::ReadingCreated {
            Some(id)
        } else {
            None
        },
        StepView::Respond(Ok(ReplyView::Created(todo))) => Some(todo.id),
        _ => None,
    }
}

/// How many of the requests have been given an id.
pub open spec fn given_ids(rs: Requests) -> nat
    decreases rs.len(),
{
    if rs.len() == 0 {
        0
    } else {
        given_ids(rs.drop_last()) + if created_id(rs.last()) is Some {
            1nat
        } else {
            0nat
        }
    }
}

/// A row with `id` and title `kept`, not completed, was inserted during the run.
spec fn stored(t0: Table, t: Table, kept: Seq<char>, id: i64) -> bool {
    &&& t0.last_id < id <= t.last_id
    &&& lookup(t.rows, id) == Some(TodoView { id, title: kept, completed: false })
}

/// Where a create request with stored title `kept` can stand.
spec fn create_stage(t0: Table, t: Table, kept: Seq<char>, r: (Flow, StepView)) -> bool {
    ||| r == (Flow::Inserting, StepView::Run(StatementView::Insert { title: kept }))
    ||| (r.1 matches StepView::Run(StatementView::SelectOne { id }) && r.0 == Flow::ReadingCreated
        && stored(t0, t, kept, id))
    ||| (r.1 matches StepView::Respond(Ok(ReplyView::Created(todo))) && r.0 == Flow::Done && todo
        == TodoView { id: todo.id, title: kept, completed: false } && stored(t0, t, kept, todo.id))
    ||| (r.0 == Flow::Done && r.1 matches StepView::Respond(Err(_)))
}

/// What holds along a run of create requests started on table `t0`.
spec fn creates_invariant(t0: Table, titles: Seq<Seq<char>>, t: Table, rs: Requests) -> bool {
    &&& well_formed(t)
    &&& t0.last_id <= t.last_id
    &&& t.rows.len() == t0.rows.len() + (t.last_id - t0.last_id)
    &&& t.rows.take(t0.rows.len() as int) == t0.rows
    &&& t.last_id - t0.last_id == given_ids(rs)
    &&& rs.len() == titles.len()
    &&& forall|i: int| 0 <= i < rs.len() ==> create_stage(t0, t, trimmed(titles[i]), #[trigger] rs[i])
    &&& forall|i: int, j: int|
        0 <= i < rs.len() && 0 <= j < rs.len() && i != j && #[trigger] created_id(rs[i]) is Some
            && #[trigger] created_id(rs[j]) is Some ==> created_id(rs[i]) != created_id(rs[j])
}

proof fn lemma_given_ids_update(rs: Requests, i: int, r: (Flow, StepView))
    requires
        0 <= i < rs.len(),
    ensures
        given_ids(rs.update(i, r)) + (if created_id(rs[i]) is Some {
            1int
        } else {
            0int
        }) == given_ids(rs) + (if created_id(r) is Some {
            1int
        } else {
            0int
        }),
    decreases rs.len(),
{
    let u = rs.update(i, r);
    if i < rs.len() - 1 {
        lemma_given_ids_update(rs.drop_last(), i, r);
        assert(u.drop_last() =~= rs.drop_last().update(i, r));
    } else {
        assert(u.drop_last() =~= rs.drop_last());
    }
}

proof fn lemma_given_ids_bounds(rs: Requests)
    ensures
        (forall|i: int| 0 <= i < rs.len() ==> #[trigger] created_id(rs[i]) is None) ==> given_ids(rs) == 0,
        (forall|i: int| 0 <= i < rs.len() ==> #[trigger] created_id(rs[i]) is Some) ==> given_ids(rs)
            == rs.len(),
    decreases rs.len(),
{
    if rs.len() > 0 {
        let rest = rs.drop_last();
        lemma_given_ids_bounds(rest);
        if forall|i: int| 0 <= i < rs.len() ==> #[trigger] created_id(rs[i]) is None {
            assert forall|i: int| 0 <= i < rest.len() implies #[trigger] created_id(rest[i]) is None by {
                assert(rest[i] == rs[i]);
            }
            assert(created_id(rs[rs.len() - 1]) is None);
        }
        if forall|i: int| 0 <= i < rs.len() ==> #[trigger] created_id(rs[i]) is Some {
            assert forall|i: int| 0 <= i < rest.len() implies #[trigger] created_id(rest[i]) is Some by {
                assert(rest[i] == rs[i]);
            }
            assert(created_id(rs[rs.len() - 1]) is Some);
        }
    }
}

/// One statement of one create request keeps the invariant.
proof fn lemma_run_one_keeps(t0: Table, titles: Seq<Seq<char>>, t: Table, rs: Requests, i: int)
    requires
        well_formed(t0),
        forall|k: int| 0 <= k < titles.len() ==> trimmed(#[trigger] titles[k]).len() > 0,
        creates_invariant(t0, titles, t, rs),
    ensures
        creates_invariant(t0, titles, run_one(t, rs, i).0, run_one(t, rs, i).1),
{
    if 0 <= i < rs.len() && rs[i].1 is Run {
        let kept = trimmed(titles[i]);
        let (t2, rs2) = run_one(t, rs, i);
        assert(create_stage(t0, t, kept, rs[i]));
        if rs[i] == (Flow::Inserting, StepView::Run(StatementView::Insert { title: kept })) {
            if t.last_id < i64::MAX {
                let id = (t.last_id + 1) as i64;
                let row = TodoView { id, title: kept, completed: false };
                law_endpoints_keep_table_well_formed(t, RequestView::Create { title: titles[i] });
                assert(t2 == endpoint(t, RequestView::Create { title: titles[i] }).0);
                lemma_lookup_pushed(t.rows, row);
                lemma_given_ids_update(rs, i, rs2[i]);
                assert(t2.rows.take(t0.rows.len() as int) =~= t.rows.take(t0.rows.len() as int));
                assert forall|k: int| 0 <= k < rs2.len() implies create_stage(
                    t0,
                    t2,
                    trimmed(titles[k]),
                    #[trigger] rs2[k],
                ) by {
                    if k != i {
                        assert(rs2[k] == rs[k]);
                        assert(create_stage(t0, t, trimmed(titles[k]), rs[k]));
                    }
                }
                assert forall|a: int, b: int|
                    0 <= a < rs2.len() && 0 <= b < rs2.len() && a != b && #[trigger] created_id(
                        rs2[a],
                    ) is Some && #[trigger] created_id(rs2[b]) is Some implies created_id(rs2[a])
                    != created_id(rs2[b]) by {
                    if a != i && b != i {
                        assert(rs2[a] == rs[a] && rs2[b] == rs[b]);
                    } else if a == i {
                        assert(rs2[b] == rs[b]);
                        assert(create_stage(t0, t, trimmed(titles[b]), rs[b]));
                    } else {
                        assert(rs2[a] == rs[a]);
                        assert(create_stage(t0, t, trimmed(titles[a]), rs[a]));
                    }
                }
            } else {
                lemma_given_ids_update(rs, i, rs2[i]);
                assert forall|k: int| 0 <= k < rs2.len() implies create_stage(
                    t0,
                    t2,
                    trimmed(titles[k]),
                    #[trigger] rs2[k],
                ) by {
                    if k != i {
                        assert(rs2[k] == rs[k]);
                    }
                }
                assert forall|a: int, b: int|
                    0 <= a < rs2.len() && 0 <= b < rs2.len() && a != b && #[trigger] created_id(
                        rs2[a],
                    ) is Some && #[trigger] created_id(rs2[b]) is Some implies created_id(rs2[a])
                    != created_id(rs2[b]) by {
                    assert(rs2[a] == rs[a] && rs2[b] == rs[b]);
                }
            }
        } else {
            lemma_given_ids_update(rs, i, rs2[i]);
            assert forall|k: int| 0 <= k < rs2.len() implies create_stage(
                t0,
                t2,
                trimmed(titles[k]),
                #[trigger] rs2[k],
            ) by {
                if k != i {
                    assert(rs2[k] == rs[k]);
                }
            }
            assert forall|a: int, b: int|
                0 <= a < rs2.len() && 0 <= b < rs2.len() && a != b && #[trigger] created_id(rs2[a])
                    is Some && #[trigger] created_id(rs2[b]) is Some implies created_id(rs2[a])
                != created_id(rs2[b]) by {
                if a != i && b != i {
                    assert(rs2[a] == rs[a] && rs2[b] == rs[b]);
                } else if a == i {
                    assert(rs2[b] == rs[b]);
                } else {
                    assert(rs2[a] == rs[a]);
                }
            }
        }
    }
}

proof fn lemma_interleave_keeps(t0: Table, titles: Seq<Seq<char>>, schedule: Seq<int>)
    requires
        well_formed(t0),
        forall|k: int| 0 <= k < titles.len() ==> trimmed(#[trigger] titles[k]).len() > 0,
    ensures
        creates_invariant(
            t0,
            titles,
            interleave(t0, creates(titles), schedule).0,
            interleave(t0, creates(titles), schedule).1,
        ),
    decreases schedule.len(),
{
    if schedule.len() == 0 {
        let rs = creates(titles);
        assert(t0.rows.take(t0.rows.len() as int) =~= t0.rows);
        assert forall|k: int| 0 <= k < rs.len() implies create_stage(
            t0,
            t0,
            trimmed(titles[k]),
            #[trigger] rs[k],
        ) by {}
        lemma_given_ids_bounds(rs);
    } else {
        lemma_interleave_keeps(t0, titles, schedule.drop_last());
        let (t1, rs1) = interleave(t0, creates(titles), schedule.drop_last());
        lemma_run_one_keeps(t0, titles, t1, rs1, schedule.last());
    }
}

/// Create requests with titles that are not blank, served at the same time
/// with their statements interleaved in any order: when every one of them
/// answers "created", their ids are all different and above every id given
/// out before, each created to-do is stored under its id exactly as
/// answered, the table gained exactly one row per request, and the rows it
/// held before are unchanged, as if the requests had run one after another.
pub proof fn law_concurrent_creates(t: Table, titles: Seq<Seq<char>>, schedule: Seq<int>)
    requires
        well_formed(t),
        forall|k: int| 0 <= k < titles.len() ==> trimmed(#[trigger] titles[k]).len() > 0,
    ensures
        ({
            let (t2, rs) = interleave(t, creates(titles), schedule);
            (forall|k: int|
                0 <= k < titles.len() ==> #[trigger] rs[k].1 matches StepView::Respond(
                    Ok(ReplyView::Created(_)),
                )) ==> {
                &&& forall|k: int|
                    0 <= k < titles.len() ==> (#[trigger] rs[k].1 matches StepView::Respond(
                        Ok(ReplyView::Created(todo)),
                    ) && todo.title == trimmed(titles[k]) && !todo.completed && todo.id > t.last_id
                        && lookup(t2.rows, todo.id) == Some(todo))
                &&& forall|a: int, b: int|
                    0 <= a < titles.len() && 0 <= b < titles.len() && a != b ==> #[trigger] created_id(
                        rs[a],
                    ) != #[trigger] created_id(rs[b])
                &&& t2.rows.len() == t.rows.len() + titles.len()
                &&& t2.rows.take(t.rows.len() as int) == t.rows
            }
        }),
{
    lemma_interleave_keeps(t, titles, schedule);
    let (t2, rs) = interleave(t, creates(titles), schedule);
    if forall|k: int|
        0 <= k < titles.len() ==> #[trigger] rs[k].1 matches StepView::Respond(
            Ok(ReplyView::Created(_)),
        ) {
        assert forall|k: int| 0 <= k < rs.len() implies #[trigger] created_id(rs[k]) is Some by {
            assert(rs[k].1 matches StepView::Respond(Ok(ReplyView::Created(_))));
        }
        lemma_given_ids_bounds(rs);
        assert forall|k: int|
            0 <= k < titles.len() implies (#[trigger] rs[k].1 matches StepView::Respond(
            Ok(ReplyView::Created(todo)),
        ) && todo.title == trimmed(titles[k]) && !todo.completed && todo.id > t.last_id && lookup(
            t2.rows,
            todo.id,
        ) == Some(todo)) by {
            assert(create_stage(t, t2, trimmed(titles[k]), rs[k]));
        }
        assert forall|a: int, b: int|
            0 <= a < titles.len() && 0 <= b < titles.len() && a != b implies #[trigger] created_id(
            rs[a],
        ) != #[trigger] created_id(rs[b]) by {
            assert(created_id(rs[a]) is Some && created_id(rs[b]) is Some);
        }
    }
}

} // verus!
