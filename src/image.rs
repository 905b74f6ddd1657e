//! The parts of image matching that are not arithmetic on pixels.
use vstd::prelude::*;

verus! {

/// Rows kept of an image `height` rows high: the top three quarters.
pub open spec fn kept_rows(height: nat) -> nat {
    height * 3 / 4
}

/// The height an image is cropped to before comparison: the bottom quarter,
/// which carries locale-specific text, is cut off.
pub fn cropped_height(height: usize) -> (r: usize)
    ensures
        r as nat == kept_rows(height as nat),
{
    let q = height / 4;
    let m = height % 4;
    let r = q * 3 + (m * 3) / 4;
    assert(r as nat == kept_rows(height as nat)) by (nonlinear_arith)
        requires
            q == height / 4,
            m == height % 4,
            r == q * 3 + (m * 3) / 4,
    ;
    r
}

/// The first position whose verdict is a match.
pub open spec fn first_true(v: Seq<bool>, i: int) -> Option<int>
    decreases v.len() - i,
{
    if i < 0 || i >= v.len() {
        None
    } else if v[i] {
        Some(i)
    } else {
        first_true(v, i + 1)
    }
}

/// Which candidate is taken, given whether each, in order, is close enough to
/// the origin: the first that is. Earlier candidates win ties.
pub fn first_match(close: &Vec<bool>) -> (r: Option<usize>)
    ensures
        match r {
            Some(i) => first_true(close@, 0) == Some(i as int),
            None => first_true(close@, 0) is None,
        },
        r matches Some(i) ==> i < close@.len() && close@[i as int] && forall|j: int| 0 <= j < i ==> !close@[j],
{
    let mut i: usize = 0;
    while i < close.len()
        invariant
            i <= close@.len(),
            first_true(close@, i as int) == first_true(close@, 0),
            forall|j: int| 0 <= j < i ==> !close@[j],
        decreases close@.len() - i,
    {
        if close[i] {
            return Some(i);
        }
        i = i + 1;
    }
    None
}

} // verus!
