use clave::{Fach, Note, Score, Weight, Zeitraum};

#[test]
fn rows_hold_their_fields() {
    let z = Zeitraum { id: 1, quartal: 2, stufe: 11 };
    assert_eq!((z.id, z.quartal, z.stufe), (1, 2, 11));
    let f = Fach { id: 1, name: "Math".to_string(), lehrer: Some("Smith".to_string()) };
    assert_eq!(f.name, "Math");
    assert_eq!(f.lehrer.as_deref(), Some("Smith"));
    let n = Note {
        id: 3,
        fach_id: 1,
        muendlich: Some(60),
        schriftlich: Some(80),
        gewichtung: Weight { millionths: 300_000 },
        insgesamt: Some(Score { millionths: 74_000_000 }),
    };
    assert_eq!(n.fach_id, 1);
}
