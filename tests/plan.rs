use clave::plan::{add_note, delete_fach, delete_note, delete_zeitraum, edit_note, grade_record_of, link_note};
use clave::score::overall_score;
use clave::{GradeRecord, Score, Statement, Weight};

fn weight(w: f64) -> Weight {
    Weight { millionths: (w * 1_000_000.0).round() as i32 }
}

#[test]
fn overall_of_both_components() {
    let s = overall_score(Some(80), Some(60), weight(0.3)).unwrap();
    assert_eq!(s, Score { millionths: 74_000_000 });
    assert_eq!(s.millionths as f64 / 1_000_000.0, 74.0);
}

#[test]
fn overall_with_equal_weights() {
    let s = overall_score(Some(90), Some(71), weight(0.5)).unwrap();
    assert_eq!(s.millionths, 80_500_000);
}

#[test]
fn overall_at_the_weight_bounds() {
    assert_eq!(overall_score(Some(90), Some(40), weight(0.0)), Some(Score { millionths: 90_000_000 }));
    assert_eq!(overall_score(Some(90), Some(40), weight(1.0)), Some(Score { millionths: 40_000_000 }));
}

#[test]
fn overall_with_an_unchecked_weight() {
    // 1.5 is outside [0, 1]; the store does not reject it.
    let s = overall_score(Some(10), Some(20), weight(1.5)).unwrap();
    assert_eq!(s.millionths, 25_000_000);
}

#[test]
fn overall_of_extreme_scores() {
    let s = overall_score(Some(i64::MAX), Some(i64::MIN), weight(0.5)).unwrap();
    assert_eq!(s.millionths, (i64::MAX as i128) * 500_000 + (i64::MIN as i128) * 500_000);
}

#[test]
fn overall_absent_without_oral() {
    assert_eq!(overall_score(Some(90), None, weight(0.5)), None);
}

#[test]
fn overall_absent_without_written() {
    assert_eq!(overall_score(None, Some(90), weight(0.5)), None);
}

#[test]
fn overall_absent_without_components() {
    assert_eq!(overall_score(None, None, weight(0.5)), None);
}

#[test]
fn recording_stores_the_derived_score() {
    let st = add_note(Some(80), Some(60), weight(0.3));
    assert_eq!(
        st,
        Statement::InsertGrade {
            grade: GradeRecord {
                schriftlich: Some(80),
                muendlich: Some(60),
                gewichtung: weight(0.3),
                insgesamt: Some(Score { millionths: 74_000_000 }),
            }
        }
    );
}

#[test]
fn recording_one_component_stores_no_score() {
    let r = grade_record_of(Some(90), None, weight(0.5));
    assert_eq!(r.insgesamt, None);
    assert_eq!(r.schriftlich, Some(90));
    assert_eq!(r.muendlich, None);
    assert_eq!(r.gewichtung, weight(0.5));
}

#[test]
fn recording_links_the_new_grade() {
    assert_eq!(link_note(1, 2, 3), Statement::InsertLink { zeitraum_id: 1, fach_id: 2, note_id: 3 });
}

#[test]
fn editing_recomputes_and_repoints() {
    let plan = edit_note(7, 4, Some(50), Some(100), weight(0.25));
    assert_eq!(
        plan,
        vec![
            Statement::UpdateGrade {
                id: 7,
                grade: GradeRecord {
                    schriftlich: Some(50),
                    muendlich: Some(100),
                    gewichtung: weight(0.25),
                    insgesamt: Some(Score { millionths: 62_500_000 }),
                },
            },
            Statement::RepointLink { note_id: 7, fach_id: 4 },
        ]
    );
}

#[test]
fn editing_away_a_component_clears_the_score() {
    let plan = edit_note(7, 4, None, Some(100), weight(0.25));
    match &plan[0] {
        Statement::UpdateGrade { id, grade } => {
            assert_eq!(*id, 7);
            assert_eq!(grade.insgesamt, None);
        }
        other => panic!("unexpected first write {:?}", other),
    }
}

#[test]
fn deleting_a_period_goes_links_grades_period() {
    let plan = delete_zeitraum(3, &vec![10, 11, 12]);
    assert_eq!(
        plan,
        vec![
            Statement::DeleteLinksOfPeriod { zeitraum_id: 3 },
            Statement::DeleteGrade { id: 10 },
            Statement::DeleteGrade { id: 11 },
            Statement::DeleteGrade { id: 12 },
            Statement::DeletePeriod { id: 3 },
        ]
    );
}

#[test]
fn deleting_an_empty_period() {
    let plan = delete_zeitraum(5, &vec![]);
    assert_eq!(plan, vec![Statement::DeleteLinksOfPeriod { zeitraum_id: 5 }, Statement::DeletePeriod { id: 5 }]);
}

#[test]
fn deleting_a_subject_goes_links_grades_subject() {
    let plan = delete_fach(2, &vec![4, 9]);
    assert_eq!(
        plan,
        vec![
            Statement::DeleteLinksOfSubject { fach_id: 2 },
            Statement::DeleteGrade { id: 4 },
            Statement::DeleteGrade { id: 9 },
            Statement::DeleteSubject { id: 2 },
        ]
    );
}

#[test]
fn deleting_an_orphaned_grade() {
    let plan = delete_note(42);
    assert_eq!(plan, vec![Statement::DeleteLinksOfGrade { note_id: 42 }, Statement::DeleteGrade { id: 42 }]);
}
