//! Runs each request's flow against a real SQLite database, as the server
//! does, and checks the answers the service promises.

use axum_backend::config::{connect_options, pool_settings, schema_sql};
use axum_backend::flow::{Flow, Outcome, Reply, Request, Statement, Step};
use axum_backend::{AppError, CreateTodo, Todo, UpdateTodo};
use sqlx::sqlite::{SqlitePool, SqlitePoolOptions, SqliteRow};
use sqlx::Row;

fn block_on<F: std::future::Future>(f: F) -> F::Output {
    tokio::runtime::Builder::new_current_thread()
        .enable_all()
        .build()
        .expect("runtime")
        .block_on(f)
}

async fn open() -> SqlitePool {
    let url = "sqlite::memory:";
    let settings = pool_settings(url);
    let options = connect_options(url, &settings).expect("options").into_inner();
    let pool = SqlitePoolOptions::new()
        .max_connections(settings.max_connections)
        .connect_with(options)
        .await
        .expect("connect");
    sqlx::query(schema_sql()).execute(&pool).await.expect("schema");
    pool
}

fn to_todo(row: &SqliteRow) -> Todo {
    Todo::new(row.get("id"), row.get("title"), row.get("completed"))
}

async fn execute(pool: &SqlitePool, statement: Statement) -> Outcome {
    let sql = statement.sql();
    let done = match statement {
        Statement::Insert { title } => sqlx::query(sql)
            .bind(title)
            .execute(pool)
            .await
            .map(|r| Outcome::Inserted { rowid: r.last_insert_rowid() }),
        Statement::SelectAll => sqlx::query(sql)
            .fetch_all(pool)
            .await
            .map(|rows| Outcome::Rows(rows.iter().map(to_todo).collect())),
        Statement::SelectOne { id } => sqlx::query(sql)
            .bind(id)
            .fetch_optional(pool)
            .await
            .map(|row| Outcome::Row(row.as_ref().map(to_todo))),
        Statement::Update { id, title, completed } => sqlx::query(sql)
            .bind(title)
            .bind(completed)
            .bind(id)
            .execute(pool)
            .await
            .map(|r| Outcome::Affected { rows: r.rows_affected() }),
        Statement::Delete { id } => sqlx::query(sql)
            .bind(id)
            .execute(pool)
            .await
            .map(|r| Outcome::Affected { rows: r.rows_affected() }),
    };
    done.unwrap_or_else(Outcome::Failed)
}

async fn serve(pool: &SqlitePool, request: Request) -> Result<Reply, AppError> {
    let (mut flow, mut step) = Flow::start(request);
    loop {
        match step {
            Step::Respond(answer) => return answer,
            Step::Run(statement) => {
                let outcome = execute(pool, statement).await;
                assert!(flow.expects(&outcome));
                (flow, step) = flow.advance(outcome);
            }
        }
    }
}

async fn create_todo(pool: &SqlitePool, title: &str) -> Todo {
    match serve(pool, Request::Create(CreateTodo { title: title.to_owned() })).await {
        Ok(reply) => {
            assert_eq!(reply.status(), 201);
            match reply {
                Reply::Created(t) => t,
                _ => panic!("expected created"),
            }
        }
        Err(e) => panic!("create failed: {e:?}"),
    }
}

#[test]
fn create() {
    block_on(async {
        let pool = open().await;
        let title = "create-test-1";
        let todo = create_todo(&pool, title).await;
        assert_eq!(todo.title, title);
        assert!(!todo.completed);
        assert!(todo.id >= 1);
    });
}

#[test]
fn read() {
    block_on(async {
        let pool = open().await;
        let created = create_todo(&pool, "read-test-1").await;
        let id = created.id;
        match serve(&pool, Request::Get(id)).await {
            Ok(Reply::Found(todo)) => {
                assert_eq!(todo.id, created.id);
                assert_eq!(todo.title, created.title);
                assert_eq!(todo.completed, created.completed);
            }
            other => panic!("unexpected {other:?}"),
        }
        match serve(&pool, Request::List).await {
            Ok(Reply::Listed(todos)) => assert!(todos.iter().any(|todo| todo.id == id)),
            other => panic!("unexpected {other:?}"),
        }
    });
}

#[test]
fn update() {
    block_on(async {
        let pool = open().await;
        let created = create_todo(&pool, "update-test-1").await;
        let id = created.id;
        let new_title = "updated-1";
        let answer = serve(
            &pool,
            Request::Update(id, UpdateTodo { title: new_title.to_owned(), completed: true }),
        )
        .await;
        match answer {
            Ok(reply) => {
                assert_eq!(reply.status(), 200);
                match reply {
                    Reply::Found(updated) => {
                        assert_eq!(updated.id, id);
                        assert_eq!(updated.title, new_title);
                        assert!(updated.completed);
                    }
                    other => panic!("unexpected {other:?}"),
                }
            }
            Err(e) => panic!("update failed: {e:?}"),
        }
    });
}

#[test]
fn delete() {
    block_on(async {
        let pool = open().await;
        let created = create_todo(&pool, "delete-test-1").await;
        let id = created.id;
        match serve(&pool, Request::Delete(id)).await {
            Ok(reply) => assert_eq!(reply.status(), 204),
            Err(e) => panic!("delete failed: {e:?}"),
        }
        match serve(&pool, Request::Get(id)).await {
            Err(e) => assert_eq!(e.status_and_message().0, 404),
            Ok(reply) => panic!("unexpected {reply:?}"),
        }
    });
}

#[test]
fn ids_are_never_given_out_twice() {
    block_on(async {
        let pool = open().await;
        let first = create_todo(&pool, "first").await;
        assert!(serve(&pool, Request::Delete(first.id)).await.is_ok());
        let second = create_todo(&pool, "second").await;
        assert!(second.id > first.id);
    });
}

#[test]
fn a_deleted_id_is_never_listed_again() {
    block_on(async {
        let pool = open().await;
        let gone = create_todo(&pool, "gone").await;
        assert!(serve(&pool, Request::Delete(gone.id)).await.is_ok());
        let later = create_todo(&pool, "later").await;
        assert_ne!(later.id, gone.id);
        match serve(&pool, Request::List).await {
            Ok(Reply::Listed(todos)) => assert!(todos.iter().all(|t| t.id != gone.id)),
            other => panic!("unexpected {other:?}"),
        }
        assert!(matches!(serve(&pool, Request::Get(gone.id)).await, Err(AppError::NotFound)));
    });
}

#[test]
fn running_the_schema_again_keeps_rows() {
    block_on(async {
        let pool = open().await;
        let kept = create_todo(&pool, "kept").await;
        sqlx::query(schema_sql()).execute(&pool).await.expect("schema again");
        match serve(&pool, Request::List).await {
            Ok(Reply::Listed(todos)) => {
                assert_eq!(todos.len(), 1);
                assert_eq!(todos[0].id, kept.id);
                assert_eq!(todos[0].title, "kept");
            }
            other => panic!("unexpected {other:?}"),
        }
        let next = create_todo(&pool, "next").await;
        assert!(next.id > kept.id);
    });
}

#[test]
fn concurrent_creates_get_distinct_ids() {
    block_on(async {
        let pool = open().await;
        let mut handles = Vec::new();
        for k in 0..8 {
            let pool = pool.clone();
            handles.push(tokio::spawn(async move {
                let title = format!("task-{k}");
                (title.clone(), create_todo(&pool, &title).await)
            }));
        }
        let mut created = Vec::new();
        for handle in handles {
            created.push(handle.await.expect("task"));
        }
        let mut ids: Vec<i64> = created.iter().map(|(_, t)| t.id).collect();
        ids.sort();
        ids.dedup();
        assert_eq!(ids.len(), 8);
        for (title, todo) in &created {
            assert_eq!(&todo.title, title);
            match serve(&pool, Request::Get(todo.id)).await {
                Ok(Reply::Found(stored)) => assert_eq!(&stored.title, title),
                other => panic!("unexpected {other:?}"),
            }
        }
        match serve(&pool, Request::List).await {
            Ok(Reply::Listed(todos)) => assert_eq!(todos.len(), 8),
            other => panic!("unexpected {other:?}"),
        }
    });
}

#[test]
fn refused_requests_change_nothing() {
    block_on(async {
        let pool = open().await;
        let created = create_todo(&pool, "keep").await;
        let refused = serve(
            &pool,
            Request::Update(created.id, UpdateTodo { title: "   ".to_owned(), completed: true }),
        )
        .await;
        assert!(matches!(refused, Err(AppError::BadRequest(_))));
        assert!(matches!(serve(&pool, Request::Create(CreateTodo { title: "\t".to_owned() })).await, Err(AppError::BadRequest(_))));
        match serve(&pool, Request::List).await {
            Ok(Reply::Listed(todos)) => {
                assert_eq!(todos.len(), 1);
                assert_eq!(todos[0].title, "keep");
                assert!(!todos[0].completed);
            }
            other => panic!("unexpected {other:?}"),
        }
    });
}

#[test]
fn missing_todos_are_not_found() {
    block_on(async {
        let pool = open().await;
        assert!(matches!(serve(&pool, Request::Get(42)).await, Err(AppError::NotFound)));
        assert!(matches!(serve(&pool, Request::Delete(42)).await, Err(AppError::NotFound)));
        assert!(matches!(
            serve(&pool, Request::Update(42, UpdateTodo { title: "x".to_owned(), completed: false })).await,
            Err(AppError::NotFound)
        ));
    });
}

#[test]
fn list_is_ordered_by_id() {
    block_on(async {
        let pool = open().await;
        let a = create_todo(&pool, "a").await;
        let b = create_todo(&pool, "b").await;
        let c = create_todo(&pool, "c").await;
        assert!(serve(&pool, Request::Delete(b.id)).await.is_ok());
        match serve(&pool, Request::List).await {
            Ok(Reply::Listed(todos)) => {
                let ids: Vec<i64> = todos.iter().map(|t| t.id).collect();
                assert_eq!(ids, vec![a.id, c.id]);
            }
            other => panic!("unexpected {other:?}"),
        }
    });
}
