//! The to-do record and the two request bodies, with the rule that a title
//! must hold something besides white space.

use vstd::prelude::*;
use crate::error::{AppError, ErrorView};
use crate::text::{trim, trimmed};

verus! {

/// A stored to-do.
#[derive(Debug)]
pub struct Todo {
    pub id: i64,
    pub title: String,
    pub completed: bool,
}

/// The body of a request that creates a to-do.
#[derive(Debug)]
pub struct CreateTodo {
    pub title: String,
}

/// The body of a request that replaces a to-do's title and state.
#[derive(Debug)]
pub struct UpdateTodo {
    pub title: String,
    pub completed: bool,
}

/// A to-do as a mathematical value.
pub struct TodoView {
    pub id: i64,
    pub title: Seq<char>,
    pub completed: bool,
}

impl View for Todo {
    type V = TodoView;

    open spec fn view(&self) -> TodoView {
        TodoView { id: self.id, title: self.title@, completed: self.completed }
    }
}

impl Todo {
    /// A to-do with the given fields.
    pub fn new(id: i64, title: String, completed: bool) -> (r: Todo)
        ensures
            r.id == id,
            r.title == title,
            r.completed == completed,
    {
        Todo { id, title, completed }
    }
}

/// The message with which an empty title is refused.
pub open spec fn empty_title_message() -> Seq<char> {
    "title cannot be empty"@
}

/// The title that is stored for a requested title: the request's title
/// without leading and trailing white space, refused when nothing is left.
pub open spec fn title_rule(title: Seq<char>) -> Result<Seq<char>, ErrorView> {
    if trimmed(title).len() == 0 {
        Err(ErrorView::BadRequest(empty_title_message()))
    } else {
        Ok(trimmed(title))
    }
}

/// Applies the title rule to a requested title.
pub fn validated_title(title: &str) -> (r: Result<String, AppError>)
    ensures
        match r {
            Ok(t) => title_rule(title@) == Ok::<Seq<char>, ErrorView>(t@),
            Err(e) => title_rule(title@) == Err::<Seq<char>, ErrorView>(e@),
        },
{
    let t = trim(title);
    if t.as_str().unicode_len() == 0 {
        let m = "title cannot be empty";
        proof {
            reveal_strlit("title cannot be empty");
        }
        Err(AppError::BadRequest(m.to_owned()))
    } else {
        Ok(t)
    }
}

} // verus!
