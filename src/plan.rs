use vstd::prelude::*;

use crate::score::{overall_of, overall_score, Weight};
use crate::statement::{GradeRecord, Statement};

verus! {

/// The row stored for a grade with the given components: its overall score
/// is derived from them, never supplied.
pub open spec fn grade_record(schriftlich: Option<i64>, muendlich: Option<i64>, gewichtung: Weight) -> GradeRecord {
    GradeRecord {
        schriftlich,
        muendlich,
        gewichtung,
        insgesamt: overall_of(schriftlich, muendlich, gewichtung),
    }
}

/// One `DeleteGrade` for each id, in order.
pub open spec fn delete_grades(ids: Seq<i64>) -> Seq<Statement> {
    ids.map_values(|id: i64| Statement::DeleteGrade { id })
}

/// Deleting a period: its association rows, then the grades they held, then the period.
pub open spec fn delete_period_plan(zeitraum_id: i64, note_ids: Seq<i64>) -> Seq<Statement> {
    seq![Statement::DeleteLinksOfPeriod { zeitraum_id }] + delete_grades(note_ids)
        + seq![Statement::DeletePeriod { id: zeitraum_id }]
}

/// Deleting a subject: its association rows, then the grades they held, then the subject.
pub open spec fn delete_subject_plan(fach_id: i64, note_ids: Seq<i64>) -> Seq<Statement> {
    seq![Statement::DeleteLinksOfSubject { fach_id }] + delete_grades(note_ids)
        + seq![Statement::DeleteSubject { id: fach_id }]
}

/// Editing a grade: the row with its overall score recomputed, then its association row.
pub open spec fn edit_grade_plan(
    id: i64,
    fach_id: i64,
    schriftlich: Option<i64>,
    muendlich: Option<i64>,
    gewichtung: Weight,
) -> Seq<Statement> {
    seq![
        Statement::UpdateGrade { id, grade: grade_record(schriftlich, muendlich, gewichtung) },
        Statement::RepointLink { note_id: id, fach_id },
    ]
}

/// Deleting a grade: its association row, then the grade.
pub open spec fn delete_grade_plan(note_id: i64) -> Seq<Statement> {
    seq![Statement::DeleteLinksOfGrade { note_id }, Statement::DeleteGrade { id: note_id }]
}

/// The row to store for a grade, with its overall score derived from its components.
pub fn grade_record_of(schriftlich: Option<i64>, muendlich: Option<i64>, gewichtung: Weight) -> (r: GradeRecord)
    ensures
        r == grade_record(schriftlich, muendlich, gewichtung),
{
    GradeRecord {
        schriftlich,
        muendlich,
        gewichtung,
        insgesamt: overall_score(schriftlich, muendlich, gewichtung),
    }
}

/// The first write of recording a grade: the grade row. The association row
/// follows with the id that this insert was given (`link_note`).
pub fn add_note(schriftlich: Option<i64>, muendlich: Option<i64>, gewichtung: Weight) -> (r: Statement)
    ensures
        r == (Statement::InsertGrade { grade: grade_record(schriftlich, muendlich, gewichtung) }),
{
    Statement::InsertGrade { grade: grade_record_of(schriftlich, muendlich, gewichtung) }
}

/// The second write of recording a grade: the association row of the grade
/// that the first write inserted as `note_id`.
pub fn link_note(zeitraum_id: i64, fach_id: i64, note_id: i64) -> (r: Statement)
    ensures
        r == (Statement::InsertLink { zeitraum_id, fach_id, note_id }),
{
    Statement::InsertLink { zeitraum_id, fach_id, note_id }
}

/// The writes of editing a grade, to run as one transaction.
pub fn edit_note(
    id: i64,
    fach_id: i64,
    schriftlich: Option<i64>,
    muendlich: Option<i64>,
    gewichtung: Weight,
) -> (r: Vec<Statement>)
    ensures
        r@ == edit_grade_plan(id, fach_id, schriftlich, muendlich, gewichtung),
{
    let mut r: Vec<Statement> = Vec::new();
    r.push(Statement::UpdateGrade { id, grade: grade_record_of(schriftlich, muendlich, gewichtung) });
    r.push(Statement::RepointLink { note_id: id, fach_id });
    assert(r@ =~= edit_grade_plan(id, fach_id, schriftlich, muendlich, gewichtung));
    r
}

/// Appends one `DeleteGrade` for each id to `r`.
fn push_grade_deletes(r: &mut Vec<Statement>, note_ids: &Vec<i64>)
    ensures
        final(r)@ == old(r)@ + delete_grades(note_ids@),
{
    let ghost start = r@;
    let n = note_ids.len();
    for i in 0..n
        invariant
            n == note_ids@.len(),
            r@ == start + delete_grades(note_ids@.take(i as int)),
    {
        r.push(Statement::DeleteGrade { id: note_ids[i] });
        assert(note_ids@.take(i + 1) =~= note_ids@.take(i as int).push(note_ids@[i as int]));
        assert(delete_grades(note_ids@.take(i + 1)) =~= delete_grades(note_ids@.take(i as int)).push(
            Statement::DeleteGrade { id: note_ids@[i as int] },
        ));
    }
    assert(note_ids@.take(n as int) =~= note_ids@);
}

/// The writes of deleting a period whose association rows hold the grades
/// `note_ids`, to run as one transaction.
pub fn delete_zeitraum(zeitraum_id: i64, note_ids: &Vec<i64>) -> (r: Vec<Statement>)
    ensures
        r@ == delete_period_plan(zeitraum_id, note_ids@),
{
    let mut r: Vec<Statement> = Vec::new();
    r.push(Statement::DeleteLinksOfPeriod { zeitraum_id });
    push_grade_deletes(&mut r, note_ids);
    r.push(Statement::DeletePeriod { id: zeitraum_id });
    assert(r@ =~= delete_period_plan(zeitraum_id, note_ids@));
    r
}

/// The writes of deleting a subject whose association rows hold the grades
/// `note_ids`, to run as one transaction.
pub fn delete_fach(fach_id: i64, note_ids: &Vec<i64>) -> (r: Vec<Statement>)
    ensures
        r@ == delete_subject_plan(fach_id, note_ids@),
{
    let mut r: Vec<Statement> = Vec::new();
    r.push(Statement::DeleteLinksOfSubject { fach_id });
    push_grade_deletes(&mut r, note_ids);
    r.push(Statement::DeleteSubject { id: fach_id });
    assert(r@ =~= delete_subject_plan(fach_id, note_ids@));
    r
}

/// The writes of deleting a grade, to run as one transaction.
pub fn delete_note(note_id: i64) -> (r: Vec<Statement>)
    ensures
        r@ == delete_grade_plan(note_id),
{
    let mut r: Vec<Statement> = Vec::new();
    r.push(Statement::DeleteLinksOfGrade { note_id });
    r.push(Statement::DeleteGrade { id: note_id });
    assert(r@ =~= delete_grade_plan(note_id));
    r
}

} // verus!
