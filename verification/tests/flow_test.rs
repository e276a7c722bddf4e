use axum_backend::flow::{Flow, Outcome, Reply, Request, Statement, Step};
use axum_backend::{AppError, CreateTodo, Todo, UpdateTodo};

fn todo(id: i64, title: &str, completed: bool) -> Todo {
    Todo::new(id, title.to_owned(), completed)
}

fn same(a: &Todo, b: &Todo) -> bool {
    a.id == b.id && a.title == b.title && a.completed == b.completed
}

#[test]
fn create_inserts_the_trimmed_title_then_reads_it_back() {
    let (flow, step) = Flow::start(Request::Create(CreateTodo { title: "  buy milk ".to_owned() }));
    assert_eq!(flow, Flow::Inserting);
    match &step {
        Step::Run(Statement::Insert { title }) => assert_eq!(title, "buy milk"),
        _ => panic!("expected an insert"),
    }
    let (flow, step) = flow.advance(Outcome::Inserted { rowid: 7 });
    assert_eq!(flow, Flow::ReadingCreated);
    assert!(matches!(step, Step::Run(Statement::SelectOne { id: 7 })));
    let (flow, step) = flow.advance(Outcome::Row(Some(todo(7, "buy milk", false))));
    assert_eq!(flow, Flow::Done);
    match step {
        Step::Respond(Ok(reply)) => {
            assert_eq!(reply.status(), 201);
            match reply {
                Reply::Created(t) => assert!(same(&t, &todo(7, "buy milk", false))),
                _ => panic!("expected created"),
            }
        }
        _ => panic!("expected a reply"),
    }
}

#[test]
fn create_refuses_a_blank_title_without_a_statement() {
    let (flow, step) = Flow::start(Request::Create(CreateTodo { title: " \n ".to_owned() }));
    assert_eq!(flow, Flow::Done);
    match step {
        Step::Respond(Err(e)) => {
            let (status, message) = e.status_and_message();
            assert_eq!(status, 400);
            assert_eq!(message, "title cannot be empty");
        }
        _ => panic!("expected a refusal"),
    }
}

#[test]
fn created_row_missing_is_not_found() {
    let (flow, _) = Flow::start(Request::Create(CreateTodo { title: "x".to_owned() }));
    let (flow, _) = flow.advance(Outcome::Inserted { rowid: 1 });
    let (_, step) = flow.advance(Outcome::Row(None));
    assert!(matches!(step, Step::Respond(Err(AppError::NotFound))));
}

#[test]
fn get_answers_found_or_not_found() {
    let (flow, step) = Flow::start(Request::Get(3));
    assert_eq!(flow, Flow::Reading);
    assert!(matches!(step, Step::Run(Statement::SelectOne { id: 3 })));
    let (_, step) = flow.advance(Outcome::Row(Some(todo(3, "a", true))));
    match step {
        Step::Respond(Ok(reply)) => {
            assert_eq!(reply.status(), 200);
            assert!(matches!(reply, Reply::Found(ref t) if same(t, &todo(3, "a", true))));
        }
        _ => panic!("expected found"),
    }
    let (_, step) = flow.advance(Outcome::Row(None));
    match step {
        Step::Respond(Err(e)) => assert_eq!(e.status_and_message(), (404, "todo not found".to_owned())),
        _ => panic!("expected not found"),
    }
}

#[test]
fn list_answers_all_rows() {
    let (flow, step) = Flow::start(Request::List);
    assert_eq!(flow, Flow::Listing);
    assert!(matches!(step, Step::Run(Statement::SelectAll)));
    let (_, step) = flow.advance(Outcome::Rows(vec![todo(1, "a", false), todo(2, "b", true)]));
    match step {
        Step::Respond(Ok(Reply::Listed(ts))) => {
            assert_eq!(ts.len(), 2);
            assert!(same(&ts[0], &todo(1, "a", false)));
            assert!(same(&ts[1], &todo(2, "b", true)));
        }
        _ => panic!("expected a list"),
    }
}

#[test]
fn update_of_a_missing_todo_is_not_found() {
    let (flow, step) = Flow::start(Request::Update(9, UpdateTodo { title: " t ".to_owned(), completed: true }));
    assert_eq!(flow, Flow::Updating { id: 9 });
    match &step {
        Step::Run(Statement::Update { id, title, completed }) => {
            assert_eq!(*id, 9);
            assert_eq!(title, "t");
            assert!(*completed);
        }
        _ => panic!("expected an update"),
    }
    let (flow, step) = flow.advance(Outcome::Affected { rows: 0 });
    assert_eq!(flow, Flow::Done);
    assert!(matches!(step, Step::Respond(Err(AppError::NotFound))));
}

#[test]
fn update_reads_the_row_back() {
    let (flow, _) = Flow::start(Request::Update(9, UpdateTodo { title: "t".to_owned(), completed: false }));
    let (flow, step) = flow.advance(Outcome::Affected { rows: 1 });
    assert_eq!(flow, Flow::Reading);
    assert!(matches!(step, Step::Run(Statement::SelectOne { id: 9 })));
    let (_, step) = flow.advance(Outcome::Row(Some(todo(9, "t", false))));
    assert!(matches!(step, Step::Respond(Ok(Reply::Found(ref t))) if same(t, &todo(9, "t", false))));
}

#[test]
fn update_refuses_a_blank_title() {
    let (flow, step) = Flow::start(Request::Update(1, UpdateTodo { title: "".to_owned(), completed: true }));
    assert_eq!(flow, Flow::Done);
    assert!(matches!(step, Step::Respond(Err(AppError::BadRequest(ref m))) if m == "title cannot be empty"));
}

#[test]
fn delete_answers_no_content_or_not_found() {
    let (flow, step) = Flow::start(Request::Delete(4));
    assert_eq!(flow, Flow::Deleting);
    assert!(matches!(step, Step::Run(Statement::Delete { id: 4 })));
    let (_, step) = flow.advance(Outcome::Affected { rows: 1 });
    match step {
        Step::Respond(Ok(reply)) => {
            assert_eq!(reply.status(), 204);
            assert!(matches!(reply, Reply::Deleted));
        }
        _ => panic!("expected deleted"),
    }
    let (_, step) = flow.advance(Outcome::Affected { rows: 0 });
    assert!(matches!(step, Step::Respond(Err(AppError::NotFound))));
}

#[test]
fn a_failed_statement_is_a_database_error() {
    let (flow, _) = Flow::start(Request::List);
    assert!(flow.expects(&Outcome::Failed(sqlx::Error::RowNotFound)));
    let (flow, step) = flow.advance(Outcome::Failed(sqlx::Error::RowNotFound));
    assert_eq!(flow, Flow::Done);
    match step {
        Step::Respond(Err(e)) => {
            assert!(matches!(e, AppError::Database(sqlx::Error::RowNotFound)));
            assert_eq!(e.status_and_message(), (500, "internal server error".to_owned()));
        }
        _ => panic!("expected a database error"),
    }
}

#[test]
fn flows_expect_only_their_own_outcomes() {
    assert!(Flow::Inserting.expects(&Outcome::Inserted { rowid: 1 }));
    assert!(!Flow::Inserting.expects(&Outcome::Affected { rows: 1 }));
    assert!(Flow::Deleting.expects(&Outcome::Affected { rows: 1 }));
    assert!(!Flow::Listing.expects(&Outcome::Row(None)));
    assert!(!Flow::Done.expects(&Outcome::Failed(sqlx::Error::RowNotFound)));
}

#[test]
fn error_from_database_error() {
    let e: AppError = AppError::from(sqlx::Error::PoolTimedOut);
    assert!(matches!(e, AppError::Database(sqlx::Error::PoolTimedOut)));
}

#[test]
fn statements_carry_their_sql() {
    assert_eq!(Statement::Insert { title: "a".to_owned() }.sql(), "INSERT INTO todos (title) VALUES (?)");
    assert_eq!(Statement::SelectAll.sql(), "SELECT id, title, completed FROM todos ORDER BY id");
    assert_eq!(Statement::SelectOne { id: 1 }.sql(), "SELECT id, title, completed FROM todos WHERE id = ?");
    assert_eq!(
        Statement::Update { id: 1, title: "a".to_owned(), completed: true }.sql(),
        "UPDATE todos SET title = ?, completed = ? WHERE id = ?"
    );
    assert_eq!(Statement::Delete { id: 1 }.sql(), "DELETE FROM todos WHERE id = ?");
}
