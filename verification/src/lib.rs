//! A small web library for a todo list and a tabletop-RPG character sheet.
//!
//! The library holds the logic behind the HTTP handlers: an in-memory todo
//! store, the view-model assembler for a character sheet (including the
//! stable sort of aspects by category), the parsing of the `editable` query
//! flag, the error taxonomy with its status codes, and the template-render
//! reply adapter. Network and template I/O live outside the library.

pub mod assemble;
pub mod dto;
pub mod error;
pub mod handlers;
pub mod render;
pub mod request;
pub mod todo;
pub mod view;

pub use error::AppError;
pub use todo::MemStore;
