use vstd::prelude::*;

use crate::score::{Score, Weight};

verus! {

/// A grading period: one reporting interval (`quartal`) at one grade level (`stufe`).
#[derive(Clone, Copy, Debug, PartialEq, Eq, Structural)]
pub struct Zeitraum {
    pub id: i64,
    pub quartal: i64,
    pub stufe: i64,
}

/// A subject with an optional teacher.
#[derive(Clone, Debug, PartialEq, Eq)]
pub struct Fach {
    pub id: i64,
    pub name: String,
    pub lehrer: Option<String>,
}

/// A grade as listed for a period, annotated with the subject it was recorded under.
#[derive(Clone, Copy, Debug, PartialEq, Eq, Structural)]
pub struct Note {
    pub id: i64,
    /// Not a column of the grade table: it comes from the association row.
    pub fach_id: i64,
    pub muendlich: Option<i64>,
    pub schriftlich: Option<i64>,
    pub gewichtung: Weight,
    pub insgesamt: Option<Score>,
}

} // verus!
