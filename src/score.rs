use vstd::prelude::*;

verus! {

/// Weights and scores are held in millionths of a unit.
pub const SCALE: i64 = 1_000_000;

/// The share of the oral component in a grade, in millionths
/// (`1_000_000` stands for a weight of `1.0`). The store does not
/// require it to lie between `0` and `SCALE`.
#[derive(Clone, Copy, Debug, PartialEq, Eq, Structural)]
pub struct Weight {
    pub millionths: i32,
}

/// An overall score, in millionths of a point.
#[derive(Clone, Copy, Debug, PartialEq, Eq, Structural)]
pub struct Score {
    pub millionths: i128,
}

/// `written * (1 - w) + oral * w`, scaled by `SCALE`, for a weight of
/// `w_millionths / SCALE`.
pub open spec fn blend(written: int, oral: int, w_millionths: int) -> int {
    written * (SCALE - w_millionths) + oral * w_millionths
}

/// The overall score of a grade with the given components: present exactly
/// when both components are.
pub open spec fn overall_of(written: Option<i64>, oral: Option<i64>, weight: Weight) -> Option<Score> {
    match (written, oral) {
        (Some(w), Some(o)) => Some(Score { millionths: blend(w as int, o as int, weight.millionths as int) as i128 }),
        _ => None,
    }
}

proof fn lemma_product_bound(x: int, y: int)
    requires
        -0x8000_0000_0000_0000 <= x < 0x8000_0000_0000_0000,
        -0x1_0000_0000 < y < 0x1_0000_0000,
    ensures
        -0x1_0000_0000_0000_0000_0000_0000 < x * y < 0x1_0000_0000_0000_0000_0000_0000,
{
    assert(-0x1_0000_0000_0000_0000_0000_0000 < x * y < 0x1_0000_0000_0000_0000_0000_0000) by (nonlinear_arith)
        requires
            -0x8000_0000_0000_0000 <= x < 0x8000_0000_0000_0000,
            -0x1_0000_0000 < y < 0x1_0000_0000;
}

/// The blend of any two `i64` scores under any `i32` weight fits in an `i128`.
pub proof fn lemma_blend_fits(written: i64, oral: i64, weight: Weight)
    ensures
        i128::MIN <= blend(written as int, oral as int, weight.millionths as int) <= i128::MAX,
{
    lemma_product_bound(written as int, SCALE - weight.millionths);
    lemma_product_bound(oral as int, weight.millionths as int);
}

/// Computes the overall score of a grade.
pub fn overall_score(written: Option<i64>, oral: Option<i64>, weight: Weight) -> (r: Option<Score>)
    ensures
        r == overall_of(written, oral, weight),
        r.is_some() <==> (written.is_some() && oral.is_some()),
        r matches Some(s) ==> s.millionths == blend(written.unwrap() as int, oral.unwrap() as int, weight.millionths as int),
{
    match (written, oral) {
        (Some(w), Some(o)) => {
            let wm = weight.millionths as i128;
            let rest = SCALE as i128 - wm;
            proof {
                lemma_product_bound(w as int, rest as int);
                lemma_product_bound(o as int, wm as int);
            }
            let a = (w as i128) * rest;
            let b = (o as i128) * wm;
            Some(Score { millionths: a + b })
        },
        _ => None,
    }
}

} // verus!
