//! Verified core of a small to-do list service: the rules by which each
//! request is validated, the database statements it issues, how the
//! database's answers become replies, and the service's configuration.

pub mod config;
pub mod error;
pub mod flow;
pub mod interleave;
pub mod laws;
pub mod model;
pub mod text;
pub mod todo;

pub use error::AppError;
pub use todo::{CreateTodo, Todo, UpdateTodo};
