//! How each request is served: the statements it sends to the database, in
//! order, and the reply that the database's answers lead to.
//!
//! A request starts a `Flow`. Each step either names a statement for the
//! database to run or gives the reply; the caller runs the statement, hands
//! the answer to `Flow::advance`, and goes on until a reply comes.

use vstd::prelude::*;
use crate::error::{AppError, ErrorView};
use crate::todo::{validated_title, title_rule, CreateTodo, Todo, TodoView, UpdateTodo};

verus! {

/// A request to the service.
#[derive(Debug)]
pub enum Request {
    /// `POST /todos`
    Create(CreateTodo),
    /// `GET /todos`
    List,
    /// `GET /todos/{id}`
    Get(i64),
    /// `PUT /todos/{id}`
    Update(i64, UpdateTodo),
    /// `DELETE /todos/{id}`
    Delete(i64),
}

pub enum RequestView {
    Create { title: Seq<char> },
    List,
    Get { id: i64 },
    Update { id: i64, title: Seq<char>, completed: bool },
    Delete { id: i64 },
}

impl View for Request {
    type V = RequestView;

    open spec fn view(&self) -> RequestView {
        match self {
            Request::Create(body) => RequestView::Create { title: body.title@ },
            Request::List => RequestView::List,
            Request::Get(id) => RequestView::Get { id: *id },
            Request::Update(id, body) => RequestView::Update {
                id: *id,
                title: body.title@,
                completed: body.completed,
            },
            Request::Delete(id) => RequestView::Delete { id: *id },
        }
    }
}

/// A statement on the `todos` table.
#[derive(Debug)]
pub enum Statement {
    /// `INSERT INTO todos (title) VALUES (?)`
    Insert { title: String },
    /// `SELECT id, title, completed FROM todos ORDER BY id`
    SelectAll,
    /// `SELECT id, title, completed FROM todos WHERE id = ?`
    SelectOne { id: i64 },
    /// `UPDATE todos SET title = ?, completed = ? WHERE id = ?`
    Update { id: i64, title: String, completed: bool },
    /// `DELETE FROM todos WHERE id = ?`
    Delete { id: i64 },
}

pub enum StatementView {
    Insert { title: Seq<char> },
    SelectAll,
    SelectOne { id: i64 },
    Update { id: i64, title: Seq<char>, completed: bool },
    Delete { id: i64 },
}

impl View for Statement {
    type V = StatementView;

    open spec fn view(&self) -> StatementView {
        match self {
            Statement::Insert { title } => StatementView::Insert { title: title@ },
            Statement::SelectAll => StatementView::SelectAll,
            Statement::SelectOne { id } => StatementView::SelectOne { id: *id },
            Statement::Update { id, title, completed } => StatementView::Update {
                id: *id,
                title: title@,
                completed: *completed,
            },
            Statement::Delete { id } => StatementView::Delete { id: *id },
        }
    }
}

/// The SQL text of a statement; its `?` parameters are bound in the order
/// the statement's fields name them in the text.
pub open spec fn statement_sql(s: StatementView) -> Seq<char> {
    match s {
        StatementView::Insert { .. } => "INSERT INTO todos (title) VALUES (?)"@,
        StatementView::SelectAll => "SELECT id, title, completed FROM todos ORDER BY id"@,
        StatementView::SelectOne { .. } => "SELECT id, title, completed FROM todos WHERE id = ?"@,
        StatementView::Update { .. } => "UPDATE todos SET title = ?, completed = ? WHERE id = ?"@,
        StatementView::Delete { .. } => "DELETE FROM todos WHERE id = ?"@,
    }
}

impl Statement {
    /// The SQL text of this statement.
    pub fn sql(&self) -> (r: &'static str)
        ensures
            r@ == statement_sql(self@),
    {
        match self {
            Statement::Insert { .. } => "INSERT INTO todos (title) VALUES (?)",
            Statement::SelectAll => "SELECT id, title, completed FROM todos ORDER BY id",
            Statement::SelectOne { .. } => "SELECT id, title, completed FROM todos WHERE id = ?",
            Statement::Update { .. } => "UPDATE todos SET title = ?, completed = ? WHERE id = ?",
            Statement::Delete { .. } => "DELETE FROM todos WHERE id = ?",
        }
    }
}

/// The database's answer to a statement.
#[derive(Debug)]
pub enum Outcome {
    /// An insert succeeded; the new row's id.
    Inserted { rowid: i64 },
    /// An update or delete succeeded; how many rows it touched.
    Affected { rows: u64 },
    /// A single-row select: the row, if there is one.
    Row(Option<Todo>),
    /// A select of all rows, in the order the database gave them.
    Rows(Vec<Todo>),
    /// The statement failed.
    Failed(sqlx::Error),
}

pub enum OutcomeView {
    Inserted { rowid: i64 },
    Affected { rows: u64 },
    Row(Option<TodoView>),
    Rows(Seq<TodoView>),
    Failed,
}

/// The views of a sequence of to-dos.
pub open spec fn todo_views(todos: Seq<Todo>) -> Seq<TodoView> {
    todos.map_values(|t: Todo| t@)
}

impl View for Outcome {
    type V = OutcomeView;

    open spec fn view(&self) -> OutcomeView {
        match self {
            Outcome::Inserted { rowid } => OutcomeView::Inserted { rowid: *rowid },
            Outcome::Affected { rows } => OutcomeView::Affected { rows: *rows },
            Outcome::Row(row) => OutcomeView::Row(
                match row {
                    Some(t) => Some(t@),
                    None => None,
                },
            ),
            Outcome::Rows(rows) => OutcomeView::Rows(todo_views(rows@)),
            Outcome::Failed(_) => OutcomeView::Failed,
        }
    }
}

/// A successful reply.
#[derive(Debug)]
pub enum Reply {
    /// `201 Created`, with the new to-do.
    Created(Todo),
    /// `200 OK`, with one to-do.
    Found(Todo),
    /// `200 OK`, with all to-dos.
    Listed(Vec<Todo>),
    /// `204 No Content`.
    Deleted,
}

pub enum ReplyView {
    Created(TodoView),
    Found(TodoView),
    Listed(Seq<TodoView>),
    Deleted,
}

impl View for Reply {
    type V = ReplyView;

    open spec fn view(&self) -> ReplyView {
        match self {
            Reply::Created(t) => ReplyView::Created(t@),
            Reply::Found(t) => ReplyView::Found(t@),
            Reply::Listed(ts) => ReplyView::Listed(todo_views(ts@)),
            Reply::Deleted => ReplyView::Deleted,
        }
    }
}

/// The HTTP status code of a successful reply.
pub open spec fn reply_status(r: ReplyView) -> u16 {
    match r {
        ReplyView::Created(_) => 201,
        ReplyView::Found(_) => 200,
        ReplyView::Listed(_) => 200,
        ReplyView::Deleted => 204,
    }
}

impl Reply {
    /// The HTTP status code this reply is sent with.
    pub fn status(&self) -> (r: u16)
        ensures
            r == reply_status(self@),
            self is Created ==> r == 201,
            self is Found ==> r == 200,
            self is Listed ==> r == 200,
            self is Deleted ==> r == 204,
    {
        match self {
            Reply::Created(_) => 201,
            Reply::Found(_) => 200,
            Reply::Listed(_) => 200,
            Reply::Deleted => 204,
        }
    }
}

/// What a request is answered with.
pub type Answer = Result<Reply, AppError>;

pub type AnswerView = Result<ReplyView, ErrorView>;

pub open spec fn answer_view(a: Answer) -> AnswerView {
    match a {
        Ok(r) => Ok(r@),
        Err(e) => Err(e@),
    }
}

/// The next thing to do for a request.
#[derive(Debug)]
pub enum Step {
    /// Run this statement and hand its outcome to `Flow::advance`.
    Run(Statement),
    /// Send this answer; the request is done.
    Respond(Answer),
}

pub enum StepView {
    Run(StatementView),
    Respond(AnswerView),
}

impl View for Step {
    type V = StepView;

    open spec fn view(&self) -> StepView {
        match self {
            Step::Run(s) => StepView::Run(s@),
            Step::Respond(a) => StepView::Respond(answer_view(*a)),
        }
    }
}

/// Where a request stands: which statement's outcome it waits for.
#[derive(Clone, Copy, PartialEq, Eq, Structural, Debug)]
pub enum Flow {
    /// Waits for the insert of a new to-do.
    Inserting,
    /// Waits for the new to-do to be read back.
    ReadingCreated,
    /// Waits for one to-do to be read.
    Reading,
    /// Waits for all to-dos to be read.
    Listing,
    /// Waits for the update of the to-do with this id.
    Updating { id: i64 },
    /// Waits for a delete.
    Deleting,
    /// Has answered.
    Done,
}

/// The first step of a request, and where it then stands.
pub open spec fn opening(req: RequestView) -> (Flow, StepView) {
    match req {
        RequestView::Create { title } => match title_rule(title) {
            Err(e) => (Flow::Done, StepView::Respond(Err(e))),
            Ok(t) => (Flow::Inserting, StepView::Run(StatementView::Insert { title: t })),
        },
        RequestView::List => (Flow::Listing, StepView::Run(StatementView::SelectAll)),
        RequestView::Get { id } => (Flow::Reading, StepView::Run(StatementView::SelectOne { id })),
        RequestView::Update { id, title, completed } => match title_rule(title) {
            Err(e) => (Flow::Done, StepView::Respond(Err(e))),
            Ok(t) => (
                Flow::Updating { id },
                StepView::Run(StatementView::Update { id, title: t, completed }),
            ),
        },
        RequestView::Delete { id } => (Flow::Deleting, StepView::Run(StatementView::Delete { id })),
    }
}

/// Whether `outcome` is an answer to the statement that `flow` waits for.
pub open spec fn expects(flow: Flow, outcome: OutcomeView) -> bool {
    match outcome {
        OutcomeView::Failed => flow != Flow::Done,
        OutcomeView::Inserted { .. } => flow == Flow::Inserting,
        OutcomeView::Row(_) => flow == Flow::ReadingCreated || flow == Flow::Reading,
        OutcomeView::Rows(_) => flow == Flow::Listing,
        OutcomeView::Affected { .. } => flow is Updating || flow == Flow::Deleting,
    }
}

/// Whether `outcome` is of a kind that the database can answer statement `s`
/// with: its own result, or a failure.
pub open spec fn answers(s: StatementView, outcome: OutcomeView) -> bool {
    match outcome {
        OutcomeView::Failed => true,
        OutcomeView::Inserted { .. } => s is Insert,
        OutcomeView::Rows(_) => s is SelectAll,
        OutcomeView::Row(_) => s is SelectOne,
        OutcomeView::Affected { .. } => s is Update || s is Delete,
    }
}

/// A step that a flow may stand at: a reply only when it is done, and a
/// statement only when every answer to it is one the flow expects.
pub open spec fn consistent(flow: Flow, step: StepView) -> bool {
    match step {
        StepView::Respond(_) => flow == Flow::Done,
        StepView::Run(s) => forall|o: OutcomeView| answers(s, o) ==> #[trigger] expects(flow, o),
    }
}

/// What follows an outcome that `flow` expects.
pub open spec fn transition(flow: Flow, outcome: OutcomeView) -> (Flow, StepView) {
    match outcome {
        OutcomeView::Failed => (Flow::Done, StepView::Respond(Err(ErrorView::Database))),
        OutcomeView::Inserted { rowid } => (
            Flow::ReadingCreated,
            StepView::Run(StatementView::SelectOne { id: rowid }),
        ),
        OutcomeView::Row(row) => match row {
            None => (Flow::Done, StepView::Respond(Err(ErrorView::NotFound))),
            Some(t) => if flow == Flow::ReadingCreated {
                (Flow::Done, StepView::Respond(Ok(ReplyView::Created(t))))
            } else {
                (Flow::Done, StepView::Respond(Ok(ReplyView::Found(t))))
            },
        },
        OutcomeView::Rows(ts) => (Flow::Done, StepView::Respond(Ok(ReplyView::Listed(ts)))),
        OutcomeView::Affected { rows } => if rows == 0 {
            (Flow::Done, StepView::Respond(Err(ErrorView::NotFound)))
        } else {
            match flow {
                Flow::Updating { id } => (Flow::Reading, StepView::Run(StatementView::SelectOne { id })),
                _ => (Flow::Done, StepView::Respond(Ok(ReplyView::Deleted))),
            }
        },
    }
}

impl Flow {
    /// Starts serving a request: refuses an empty title at once, and
    /// otherwise names the first statement to run.
    pub fn start(req: Request) -> (r: (Flow, Step))
        ensures
            (r.0, r.1@) == opening(req@),
            consistent(r.0, r.1@),
    {
        match req {
            Request::Create(body) => match validated_title(body.title.as_str()) {
                Err(e) => (Flow::Done, Step::Respond(Err(e))),
                Ok(t) => (Flow::Inserting, Step::Run(Statement::Insert { title: t })),
            },
            Request::List => (Flow::Listing, Step::Run(Statement::SelectAll)),
            Request::Get(id) => (Flow::Reading, Step::Run(Statement::SelectOne { id })),
            Request::Update(id, body) => match validated_title(body.title.as_str()) {
                Err(e) => (Flow::Done, Step::Respond(Err(e))),
                Ok(t) => (
                    Flow::Updating { id },
                    Step::Run(Statement::Update { id, title: t, completed: body.completed }),
                ),
            },
            Request::Delete(id) => (Flow::Deleting, Step::Run(Statement::Delete { id })),
        }
    }

    /// Whether this flow waits for an outcome of the kind of `outcome`.
    pub fn expects(&self, outcome: &Outcome) -> (r: bool)
        ensures
            r == expects(*self, outcome@),
    {
        match outcome {
            Outcome::Failed(_) => *self != Flow::Done,
            Outcome::Inserted { .. } => *self == Flow::Inserting,
            Outcome::Row(_) => *self == Flow::ReadingCreated || *self == Flow::Reading,
            Outcome::Rows(_) => *self == Flow::Listing,
            Outcome::Affected { .. } => match self {
                Flow::Updating { .. } | Flow::Deleting => true,
                _ => false,
            },
        }
    }

    /// Takes the outcome of the statement this flow waits for and gives the
    /// next step. A failed statement is answered with that database error.
    pub fn advance(self, outcome: Outcome) -> (r: (Flow, Step))
        requires
            expects(self, outcome@),
        ensures
            (r.0, r.1@) == transition(self, outcome@),
            consistent(r.0, r.1@),
            outcome matches Outcome::Failed(e) ==> r.1 matches Step::Respond(
                Err(AppError::Database(e2)),
            ) && e2 == e,
    {
        match outcome {
            Outcome::Failed(e) => (Flow::Done, Step::Respond(Err(AppError::Database(e)))),
            Outcome::Inserted { rowid } => (
                Flow::ReadingCreated,
                Step::Run(Statement::SelectOne { id: rowid }),
            ),
            Outcome::Row(row) => match row {
                None => (Flow::Done, Step::Respond(Err(AppError::NotFound))),
                Some(t) => if self == Flow::ReadingCreated {
                    (Flow::Done, Step::Respond(Ok(Reply::Created(t))))
                } else {
                    (Flow::Done, Step::Respond(Ok(Reply::Found(t))))
                },
            },
            Outcome::Rows(ts) => (Flow::Done, Step::Respond(Ok(Reply::Listed(ts)))),
            Outcome::Affected { rows } => if rows == 0 {
                (Flow::Done, Step::Respond(Err(AppError::NotFound)))
            } else {
                match self {
                    Flow::Updating { id } => (Flow::Reading, Step::Run(Statement::SelectOne { id })),
                    _ => (Flow::Done, Step::Respond(Ok(Reply::Deleted))),
                }
            },
        }
    }
}

} // verus!
