//! The data layer of a grade book: grading periods, subjects and grades in
//! an embedded relational store.
//!
//! The library decides which writes each operation issues, in which order,
//! and what they store; `statement::apply` states what each write does to
//! the tables, and `laws` proves what the operations keep true.
pub mod error;
pub mod laws;
pub mod plan;
pub mod rows;
pub mod score;
pub mod statement;

pub use error::Error;
pub use rows::{Fach, Note, Zeitraum};
pub use score::{Score, Weight};
pub use statement::{GradeRecord, Statement};
