use vstd::prelude::*;

use crate::plan::{
    delete_grade_plan, delete_grades, delete_period_plan, delete_subject_plan, edit_grade_plan,
    grade_record,
};
use crate::score::{blend, lemma_blend_fits, Weight};
use crate::statement::{
    apply, apply_all, repoint, grades_of_period, grades_of_subject, opt_view, Statement, Tables,
};

verus! {

/// The ids of a sequence, as a set of mathematical integers.
pub open spec fn id_set(ids: Seq<i64>) -> Set<int> {
    ids.map_values(|i: i64| i as int).to_set()
}

/// Running `a` and then `b` is running their concatenation.
pub proof fn lemma_apply_all_concat(t: Tables, a: Seq<Statement>, b: Seq<Statement>)
    ensures
        apply_all(t, a + b) == apply_all(apply_all(t, a), b),
    decreases b.len(),
{
    if b.len() == 0 {
        assert(a + b =~= a);
    } else {
        assert((a + b).drop_last() =~= a + b.drop_last());
        assert((a + b).last() == b.last());
        lemma_apply_all_concat(t, a, b.drop_last());
    }
}

/// Deleting grades one by one removes exactly those grades and touches nothing else.
pub proof fn lemma_apply_delete_grades(t: Tables, ids: Seq<i64>)
    ensures
        apply_all(t, delete_grades(ids)) == (Tables { grades: t.grades.remove_keys(id_set(ids)), ..t }),
    decreases ids.len(),
{
    if ids.len() == 0 {
        assert(id_set(ids) =~= Set::empty());
        assert(t.grades.remove_keys(id_set(ids)) =~= t.grades);
        assert(apply_all(t, delete_grades(ids)) =~= t);
    } else {
        let front = ids.drop_last();
        assert(delete_grades(ids).drop_last() =~= delete_grades(front));
        lemma_apply_delete_grades(t, front);
        let last = ids.last() as int;
        let mv = ids.map_values(|i: i64| i as int);
        let mf = front.map_values(|i: i64| i as int);
        assert(mv.drop_last() =~= mf);
        assert forall|g: int| id_set(ids).contains(g) <==> (id_set(front).contains(g) || g == last) by {
            if mv.contains(g) {
                let i = choose|i: int| 0 <= i < mv.len() && #[trigger] mv[i] == g;
                if i < mv.len() - 1 {
                    assert(mf[i] == g);
                }
            }
            if mf.contains(g) {
                let i = choose|i: int| 0 <= i < mf.len() && #[trigger] mf[i] == g;
                assert(mv[i] == g);
            }
            if g == last {
                assert(mv[mv.len() - 1] == g);
            }
        }
        assert(t.grades.remove_keys(id_set(front)).remove(last) =~= t.grades.remove_keys(id_set(ids)));
        assert(apply_all(t, delete_grades(ids)) =~= (Tables { grades: t.grades.remove_keys(id_set(ids)), ..t }));
    }
}

/// Deleting a period, given the ids of the grades that its association rows
/// hold, leaves no association row that names the period, none of those
/// grades, and not the period itself; subjects and other rows stay.
pub proof fn lemma_delete_period(t: Tables, zeitraum_id: i64, note_ids: Seq<i64>)
    requires
        id_set(note_ids) == grades_of_period(t, zeitraum_id as int),
    ensures
        apply_all(t, delete_period_plan(zeitraum_id, note_ids)) == (Tables {
            periods: t.periods.remove(zeitraum_id as int),
            grades: t.grades.remove_keys(grades_of_period(t, zeitraum_id as int)),
            links: t.links.filter(|l: (int, int, int)| l.0 != zeitraum_id as int),
            ..t
        }),
        forall|l: (int, int, int)|
            #[trigger] apply_all(t, delete_period_plan(zeitraum_id, note_ids)).links.contains(l)
                ==> l.0 != zeitraum_id as int,
        forall|g: int|
            #[trigger] grades_of_period(t, zeitraum_id as int).contains(g)
                ==> !apply_all(t, delete_period_plan(zeitraum_id, note_ids)).grades.contains_key(g),
{
    let p = zeitraum_id as int;
    let first = seq![Statement::DeleteLinksOfPeriod { zeitraum_id }];
    let last = seq![Statement::DeletePeriod { id: zeitraum_id }];
    let mid = delete_grades(note_ids);
    assert(delete_period_plan(zeitraum_id, note_ids) == first + mid + last);
    lemma_apply_all_concat(t, first + mid, last);
    lemma_apply_all_concat(t, first, mid);
    assert(first.drop_last() =~= Seq::<Statement>::empty());
    assert(last.drop_last() =~= Seq::<Statement>::empty());
    assert(apply_all(t, first.drop_last()) == t);
    let t1 = apply_all(t, first);
    assert(t1 == apply(t, Statement::DeleteLinksOfPeriod { zeitraum_id }));
    lemma_apply_delete_grades(t1, note_ids);
    let t2 = apply_all(t1, mid);
    assert(apply_all(t2, last.drop_last()) == t2);
    let t3 = apply_all(t, delete_period_plan(zeitraum_id, note_ids));
    assert(t3 =~= (Tables {
        periods: t.periods.remove(p),
        grades: t.grades.remove_keys(grades_of_period(t, p)),
        links: t.links.filter(|l: (int, int, int)| l.0 != p),
        ..t
    }));
}

/// Deleting a subject, given the ids of the grades that its association rows
/// hold, leaves no association row that names the subject, none of those
/// grades, and not the subject itself; periods and other rows stay.
pub proof fn lemma_delete_subject(t: Tables, fach_id: i64, note_ids: Seq<i64>)
    requires
        id_set(note_ids) == grades_of_subject(t, fach_id as int),
    ensures
        apply_all(t, delete_subject_plan(fach_id, note_ids)) == (Tables {
            subjects: t.subjects.remove(fach_id as int),
            grades: t.grades.remove_keys(grades_of_subject(t, fach_id as int)),
            links: t.links.filter(|l: (int, int, int)| l.1 != fach_id as int),
            ..t
        }),
        forall|l: (int, int, int)|
            #[trigger] apply_all(t, delete_subject_plan(fach_id, note_ids)).links.contains(l)
                ==> l.1 != fach_id as int,
        forall|g: int|
            #[trigger] grades_of_subject(t, fach_id as int).contains(g)
                ==> !apply_all(t, delete_subject_plan(fach_id, note_ids)).grades.contains_key(g),
{
    let s = fach_id as int;
    let first = seq![Statement::DeleteLinksOfSubject { fach_id }];
    let last = seq![Statement::DeleteSubject { id: fach_id }];
    let mid = delete_grades(note_ids);
    assert(delete_subject_plan(fach_id, note_ids) == first + mid + last);
    lemma_apply_all_concat(t, first + mid, last);
    lemma_apply_all_concat(t, first, mid);
    assert(first.drop_last() =~= Seq::<Statement>::empty());
    assert(last.drop_last() =~= Seq::<Statement>::empty());
    assert(apply_all(t, first.drop_last()) == t);
    let t1 = apply_all(t, first);
    assert(t1 == apply(t, Statement::DeleteLinksOfSubject { fach_id }));
    lemma_apply_delete_grades(t1, note_ids);
    let t2 = apply_all(t1, mid);
    assert(apply_all(t2, last.drop_last()) == t2);
    let t3 = apply_all(t, delete_subject_plan(fach_id, note_ids));
    assert(t3 =~= (Tables {
        subjects: t.subjects.remove(s),
        grades: t.grades.remove_keys(grades_of_subject(t, s)),
        links: t.links.filter(|l: (int, int, int)| l.1 != s),
        ..t
    }));
}

/// Recording a grade stores it under the next grade id with the overall
/// score `schriftlich * (1 - w) + muendlich * w` when both components are
/// given and none otherwise, and adds its association row.
pub proof fn lemma_record_grade(
    t: Tables,
    zeitraum_id: i64,
    fach_id: i64,
    schriftlich: Option<i64>,
    muendlich: Option<i64>,
    gewichtung: Weight,
)
    requires
        0 <= t.last_grade < i64::MAX,
    ensures
        ({
            let id = t.last_grade + 1;
            let plan = seq![
                Statement::InsertGrade { grade: grade_record(schriftlich, muendlich, gewichtung) },
                Statement::InsertLink { zeitraum_id, fach_id, note_id: id as i64 },
            ];
            let after = apply_all(t, plan);
            &&& after.grades.contains_key(id)
            &&& after.grades[id] == grade_record(schriftlich, muendlich, gewichtung)
            &&& (schriftlich.is_some() && muendlich.is_some()) ==> after.grades[id].insgesamt.unwrap().millionths
                == blend(schriftlich.unwrap() as int, muendlich.unwrap() as int, gewichtung.millionths as int)
            &&& !(schriftlich.is_some() && muendlich.is_some()) ==> after.grades[id].insgesamt.is_none()
            &&& after.links == t.links.insert((zeitraum_id as int, fach_id as int, id))
        }),
{
    if schriftlich.is_some() && muendlich.is_some() {
        lemma_blend_fits(schriftlich.unwrap(), muendlich.unwrap(), gewichtung);
    }
    let id = t.last_grade + 1;
    let plan = seq![
        Statement::InsertGrade { grade: grade_record(schriftlich, muendlich, gewichtung) },
        Statement::InsertLink { zeitraum_id, fach_id, note_id: id as i64 },
    ];
    assert(plan.drop_last().drop_last() =~= Seq::<Statement>::empty());
    assert(apply_all(t, plan.drop_last().drop_last()) == t);
    assert(apply_all(t, plan.drop_last()) == apply(t, plan[0]));
}

/// Editing an existing grade stores its components with the overall score
/// recomputed from them, and points its association rows at the given subject.
pub proof fn lemma_edit_grade(
    t: Tables,
    id: i64,
    fach_id: i64,
    schriftlich: Option<i64>,
    muendlich: Option<i64>,
    gewichtung: Weight,
)
    requires
        t.grades.contains_key(id as int),
    ensures
        ({
            let after = apply_all(t, edit_grade_plan(id, fach_id, schriftlich, muendlich, gewichtung));
            &&& after.grades == t.grades.insert(id as int, grade_record(schriftlich, muendlich, gewichtung))
            &&& (schriftlich.is_some() && muendlich.is_some()) ==> after.grades[id as int].insgesamt.unwrap().millionths
                == blend(schriftlich.unwrap() as int, muendlich.unwrap() as int, gewichtung.millionths as int)
            &&& !(schriftlich.is_some() && muendlich.is_some()) ==> after.grades[id as int].insgesamt.is_none()
            &&& forall|l: (int, int, int)| #[trigger] after.links.contains(l) && l.2 == id as int ==> l.1 == fach_id as int
        }),
{
    if schriftlich.is_some() && muendlich.is_some() {
        lemma_blend_fits(schriftlich.unwrap(), muendlich.unwrap(), gewichtung);
    }
    let plan = edit_grade_plan(id, fach_id, schriftlich, muendlich, gewichtung);
    assert(plan.drop_last().drop_last() =~= Seq::<Statement>::empty());
    assert(apply_all(t, plan.drop_last().drop_last()) == t);
    let mid = apply(t, plan[0]);
    assert(apply_all(t, plan.drop_last()) == mid);
    let after = apply(mid, plan[1]);
    assert forall|l: (int, int, int)| #[trigger] after.links.contains(l) && l.2 == id as int implies l.1 == fach_id as int by {
        let l0 = choose|l0: (int, int, int)| mid.links.contains(l0) && repoint(l0, id as int, fach_id as int) == l;
    }
}

/// Creating the schema again changes no row, however often it runs.
pub proof fn lemma_schema_idempotent(t: Tables)
    ensures
        apply_all(t, seq![Statement::CreateSchema, Statement::CreateSchema]) == t,
{
    let plan = seq![Statement::CreateSchema, Statement::CreateSchema];
    assert(plan.drop_last().drop_last() =~= Seq::<Statement>::empty());
    assert(apply_all(t, plan.drop_last().drop_last()) == t);
    assert(apply_all(t, plan.drop_last()) == t);
}

/// Into a store without subjects, creating a subject gives exactly one
/// subject row with that name and teacher; replacing its fields then gives
/// exactly one row with the new ones.
pub proof fn lemma_subject_round_trip(
    t: Tables,
    name: String,
    lehrer: Option<String>,
    new_name: String,
    new_lehrer: Option<String>,
)
    requires
        t.subjects.dom() == Set::<int>::empty(),
        0 <= t.last_subject < i64::MAX,
    ensures
        ({
            let id = t.last_subject + 1;
            let created = apply(t, Statement::InsertSubject { name, lehrer });
            let updated = apply(created, Statement::UpdateSubject { id: id as i64, name: new_name, lehrer: new_lehrer });
            &&& created.subjects == map![id => (name@, opt_view(lehrer))]
            &&& updated.subjects == map![id => (new_name@, opt_view(new_lehrer))]
        }),
{
    let id = t.last_subject + 1;
    let created = apply(t, Statement::InsertSubject { name, lehrer });
    assert(created.subjects =~= map![id => (name@, opt_view(lehrer))]);
    assert(created.subjects.contains_key(id));
    let updated = apply(created, Statement::UpdateSubject { id: id as i64, name: new_name, lehrer: new_lehrer });
    assert(updated.subjects =~= map![id => (new_name@, opt_view(new_lehrer))]);
}

/// Deleting a grade that no association row holds removes only that grade row.
pub proof fn lemma_delete_orphan_grade(t: Tables, note_id: i64)
    requires
        forall|l: (int, int, int)| #[trigger] t.links.contains(l) ==> l.2 != note_id as int,
    ensures
        apply_all(t, delete_grade_plan(note_id)) == (Tables { grades: t.grades.remove(note_id as int), ..t }),
{
    let plan = delete_grade_plan(note_id);
    assert(plan.drop_last().drop_last() =~= Seq::<Statement>::empty());
    assert(apply_all(t, plan.drop_last().drop_last()) == t);
    assert(apply_all(t, plan.drop_last()) == apply(t, plan[0]));
    assert(t.links.filter(|l: (int, int, int)| l.2 != note_id as int) =~= t.links);
    assert(apply_all(t, plan) =~= (Tables { grades: t.grades.remove(note_id as int), ..t }));
}

/// Updating a period that does not exist changes nothing.
pub proof fn lemma_update_missing_period(t: Tables, id: i64, quartal: i64, stufe: i64)
    requires
        !t.periods.contains_key(id as int),
    ensures
        apply(t, Statement::UpdatePeriod { id, quartal, stufe }) == t,
{
}

/// Every association row names a grade that exists.
pub open spec fn links_valid(t: Tables) -> bool {
    forall|l: (int, int, int)| #[trigger] t.links.contains(l) ==> t.grades.contains_key(l.2)
}

/// No grade is held by two association rows.
pub open spec fn single_owner(t: Tables) -> bool {
    forall|a: (int, int, int), b: (int, int, int)|
        #[trigger] t.links.contains(a) && #[trigger] t.links.contains(b) && a.2 == b.2 ==> a == b
}

proof fn lemma_id_set_take(ids: Seq<i64>, j: int)
    requires
        0 <= j <= ids.len(),
    ensures
        id_set(ids.take(j)).subset_of(id_set(ids)),
{
    let mt = ids.take(j).map_values(|i: i64| i as int);
    let m = ids.map_values(|i: i64| i as int);
    assert forall|g: int| id_set(ids.take(j)).contains(g) implies id_set(ids).contains(g) by {
        let i = choose|i: int| 0 <= i < mt.len() && #[trigger] mt[i] == g;
        assert(m[i] == g);
    }
}

proof fn lemma_delete_grades_keep_links_valid(u: Tables, ids: Seq<i64>)
    requires
        forall|l: (int, int, int)| #[trigger] u.links.contains(l)
            ==> u.grades.contains_key(l.2) && !id_set(ids).contains(l.2),
    ensures
        links_valid(apply_all(u, delete_grades(ids))),
{
    lemma_apply_delete_grades(u, ids);
}

/// Stopping a period's deletion after any of its writes leaves every
/// association row naming an existing grade, where that held before and no
/// grade had two association rows: association rows go before the grades.
pub proof fn lemma_delete_period_steps(t: Tables, zeitraum_id: i64, note_ids: Seq<i64>, k: int)
    requires
        id_set(note_ids) == grades_of_period(t, zeitraum_id as int),
        links_valid(t),
        single_owner(t),
        0 <= k <= delete_period_plan(zeitraum_id, note_ids).len(),
    ensures
        links_valid(apply_all(t, delete_period_plan(zeitraum_id, note_ids).take(k))),
{
    let p = zeitraum_id as int;
    let plan = delete_period_plan(zeitraum_id, note_ids);
    let n = note_ids.len();
    let first = seq![Statement::DeleteLinksOfPeriod { zeitraum_id }];
    if k == 0 {
        assert(plan.take(0) =~= Seq::<Statement>::empty());
    } else if k == n + 2 {
        assert(plan.take(k) =~= plan);
        lemma_delete_period(t, zeitraum_id, note_ids);
        let after = apply_all(t, plan);
        assert forall|l: (int, int, int)| #[trigger] after.links.contains(l) implies after.grades.contains_key(l.2) by {
            assert(t.links.contains(l));
            if grades_of_period(t, p).contains(l.2) {
                let s0 = choose|s0: int| t.links.contains((p, s0, l.2));
                assert(t.links.contains((p, s0, l.2)));
            }
        }
    } else {
        let j = k - 1;
        let mid = delete_grades(note_ids.take(j));
        assert(plan.take(k) =~= first + mid);
        lemma_apply_all_concat(t, first, mid);
        assert(first.drop_last() =~= Seq::<Statement>::empty());
        assert(apply_all(t, first.drop_last()) == t);
        let t1 = apply_all(t, first);
        assert(t1 == apply(t, Statement::DeleteLinksOfPeriod { zeitraum_id }));
        lemma_id_set_take(note_ids, j);
        assert forall|l: (int, int, int)| #[trigger] t1.links.contains(l)
            implies t1.grades.contains_key(l.2) && !id_set(note_ids.take(j)).contains(l.2) by {
            assert(t.links.contains(l));
            if grades_of_period(t, p).contains(l.2) {
                let s0 = choose|s0: int| t.links.contains((p, s0, l.2));
                assert(t.links.contains((p, s0, l.2)));
            }
        }
        lemma_delete_grades_keep_links_valid(t1, note_ids.take(j));
    }
}

/// Stopping a subject's deletion after any of its writes leaves every
/// association row naming an existing grade, where that held before and no
/// grade had two association rows: association rows go before the grades.
pub proof fn lemma_delete_subject_steps(t: Tables, fach_id: i64, note_ids: Seq<i64>, k: int)
    requires
        id_set(note_ids) == grades_of_subject(t, fach_id as int),
        links_valid(t),
        single_owner(t),
        0 <= k <= delete_subject_plan(fach_id, note_ids).len(),
    ensures
        links_valid(apply_all(t, delete_subject_plan(fach_id, note_ids).take(k))),
{
    let f = fach_id as int;
    let plan = delete_subject_plan(fach_id, note_ids);
    let n = note_ids.len();
    let first = seq![Statement::DeleteLinksOfSubject { fach_id }];
    if k == 0 {
        assert(plan.take(0) =~= Seq::<Statement>::empty());
    } else if k == n + 2 {
        assert(plan.take(k) =~= plan);
        lemma_delete_subject(t, fach_id, note_ids);
        let after = apply_all(t, plan);
        assert forall|l: (int, int, int)| #[trigger] after.links.contains(l) implies after.grades.contains_key(l.2) by {
            assert(t.links.contains(l));
            if grades_of_subject(t, f).contains(l.2) {
                let p0 = choose|p0: int| t.links.contains((p0, f, l.2));
                assert(t.links.contains((p0, f, l.2)));
            }
        }
    } else {
        let j = k - 1;
        let mid = delete_grades(note_ids.take(j));
        assert(plan.take(k) =~= first + mid);
        lemma_apply_all_concat(t, first, mid);
        assert(first.drop_last() =~= Seq::<Statement>::empty());
        assert(apply_all(t, first.drop_last()) == t);
        let t1 = apply_all(t, first);
        assert(t1 == apply(t, Statement::DeleteLinksOfSubject { fach_id }));
        lemma_id_set_take(note_ids, j);
        assert forall|l: (int, int, int)| #[trigger] t1.links.contains(l)
            implies t1.grades.contains_key(l.2) && !id_set(note_ids.take(j)).contains(l.2) by {
            assert(t.links.contains(l));
            if grades_of_subject(t, f).contains(l.2) {
                let p0 = choose|p0: int| t.links.contains((p0, f, l.2));
                assert(t.links.contains((p0, f, l.2)));
            }
        }
        lemma_delete_grades_keep_links_valid(t1, note_ids.take(j));
    }
}

} // verus!
