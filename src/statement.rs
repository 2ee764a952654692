use vstd::prelude::*;

use crate::score::{Score, Weight};

verus! {

/// The columns of one row of the grade table.
#[derive(Clone, Copy, Debug, PartialEq, Eq, Structural)]
pub struct GradeRecord {
    pub schriftlich: Option<i64>,
    pub muendlich: Option<i64>,
    pub gewichtung: Weight,
    pub insgesamt: Option<Score>,
}

/// One write that the store issues against its tables.
#[derive(Clone, Debug, PartialEq, Eq)]
pub enum Statement {
    /// Creates the four tables where they do not exist yet.
    CreateSchema,
    InsertPeriod { quartal: i64, stufe: i64 },
    InsertSubject { name: String, lehrer: Option<String> },
    InsertGrade { grade: GradeRecord },
    InsertLink { zeitraum_id: i64, fach_id: i64, note_id: i64 },
    UpdatePeriod { id: i64, quartal: i64, stufe: i64 },
    UpdateSubject { id: i64, name: String, lehrer: Option<String> },
    UpdateGrade { id: i64, grade: GradeRecord },
    /// Points the association row of a grade at another subject.
    RepointLink { note_id: i64, fach_id: i64 },
    DeleteLinksOfPeriod { zeitraum_id: i64 },
    DeleteLinksOfSubject { fach_id: i64 },
    DeleteLinksOfGrade { note_id: i64 },
    DeleteGrade { id: i64 },
    DeletePeriod { id: i64 },
    DeleteSubject { id: i64 },
}

/// The contents of the store's four tables, with the last id that each
/// auto-numbered table handed out.
#[verifier::ext_equal]
pub struct Tables {
    /// `id -> (quartal, stufe)`
    pub periods: Map<int, (int, int)>,
    /// `id -> (name, lehrer)`
    pub subjects: Map<int, (Seq<char>, Option<Seq<char>>)>,
    pub grades: Map<int, GradeRecord>,
    /// `(zeitraum_id, fach_id, note_id)`
    pub links: Set<(int, int, int)>,
    pub last_period: int,
    pub last_subject: int,
    pub last_grade: int,
}

pub open spec fn opt_view(s: Option<String>) -> Option<Seq<char>> {
    match s {
        Some(t) => Some(t@),
        None => None,
    }
}

/// The association row after pointing the rows of grade `n` at subject `f`.
pub open spec fn repoint(l: (int, int, int), n: int, f: int) -> (int, int, int) {
    if l.2 == n { (l.0, f, l.2) } else { l }
}

/// What a statement does to the tables when it succeeds.
pub open spec fn apply(t: Tables, s: Statement) -> Tables {
    match s {
        Statement::CreateSchema => t,
        Statement::InsertPeriod { quartal, stufe } => Tables {
            periods: t.periods.insert(t.last_period + 1, (quartal as int, stufe as int)),
            last_period: t.last_period + 1,
            ..t
        },
        Statement::InsertSubject { name, lehrer } => Tables {
            subjects: t.subjects.insert(t.last_subject + 1, (name@, opt_view(lehrer))),
            last_subject: t.last_subject + 1,
            ..t
        },
        Statement::InsertGrade { grade } => Tables {
            grades: t.grades.insert(t.last_grade + 1, grade),
            last_grade: t.last_grade + 1,
            ..t
        },
        Statement::InsertLink { zeitraum_id, fach_id, note_id } => Tables {
            links: t.links.insert((zeitraum_id as int, fach_id as int, note_id as int)),
            ..t
        },
        Statement::UpdatePeriod { id, quartal, stufe } => if t.periods.contains_key(id as int) {
            Tables { periods: t.periods.insert(id as int, (quartal as int, stufe as int)), ..t }
        } else {
            t
        },
        Statement::UpdateSubject { id, name, lehrer } => if t.subjects.contains_key(id as int) {
            Tables { subjects: t.subjects.insert(id as int, (name@, opt_view(lehrer))), ..t }
        } else {
            t
        },
        Statement::UpdateGrade { id, grade } => if t.grades.contains_key(id as int) {
            Tables { grades: t.grades.insert(id as int, grade), ..t }
        } else {
            t
        },
        Statement::RepointLink { note_id, fach_id } => Tables {
            links: t.links.map(|l: (int, int, int)| repoint(l, note_id as int, fach_id as int)),
            ..t
        },
        Statement::DeleteLinksOfPeriod { zeitraum_id } => Tables {
            links: t.links.filter(|l: (int, int, int)| l.0 != zeitraum_id as int),
            ..t
        },
        Statement::DeleteLinksOfSubject { fach_id } => Tables {
            links: t.links.filter(|l: (int, int, int)| l.1 != fach_id as int),
            ..t
        },
        Statement::DeleteLinksOfGrade { note_id } => Tables {
            links: t.links.filter(|l: (int, int, int)| l.2 != note_id as int),
            ..t
        },
        Statement::DeleteGrade { id } => Tables { grades: t.grades.remove(id as int), ..t },
        Statement::DeletePeriod { id } => Tables { periods: t.periods.remove(id as int), ..t },
        Statement::DeleteSubject { id } => Tables { subjects: t.subjects.remove(id as int), ..t },
    }
}

/// What a sequence of statements does when each of them succeeds, in order.
pub open spec fn apply_all(t: Tables, ss: Seq<Statement>) -> Tables
    decreases ss.len(),
{
    if ss.len() == 0 {
        t
    } else {
        apply(apply_all(t, ss.drop_last()), ss.last())
    }
}

/// The ids of the grades that an association row ties to period `p`.
pub open spec fn grades_of_period(t: Tables, p: int) -> Set<int> {
    Set::new(|g: int| exists|s: int| t.links.contains((p, s, g)))
}

/// The ids of the grades that an association row ties to subject `s`.
pub open spec fn grades_of_subject(t: Tables, s: int) -> Set<int> {
    Set::new(|g: int| exists|p: int| t.links.contains((p, s, g)))
}

} // verus!
