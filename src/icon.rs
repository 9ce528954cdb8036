//! Pixel layout of the tray icon.
use vstd::prelude::*;

verus! {

/// `argb` is `rgba` with each four-byte pixel rotated right by one byte:
/// red, green, blue, alpha become alpha, red, green, blue.
pub open spec fn is_argb_of(rgba: Seq<u8>, argb: Seq<u8>) -> bool {
    &&& argb.len() == rgba.len()
    &&& forall|j: int|
        0 <= j < argb.len() ==> #[trigger] argb[j] == if j % 4 == 0 {
            rgba[j + 3]
        } else {
            rgba[j - 1]
        }
}

/// Reorders RGBA pixels into the ARGB order that the tray expects.
pub fn rgba_to_argb(rgba: &[u8]) -> (r: Vec<u8>)
    requires
        rgba@.len() % 4 == 0,
    ensures
        is_argb_of(rgba@, r@),
{
    let mut r: Vec<u8> = Vec::with_capacity(rgba.len());
    let mut i: usize = 0;
    while i < rgba.len()
        invariant
            rgba@.len() % 4 == 0,
            i % 4 == 0,
            i <= rgba@.len(),
            r@.len() == i,
            forall|j: int|
                0 <= j < i ==> #[trigger] r@[j] == if j % 4 == 0 {
                    rgba@[j + 3]
                } else {
                    rgba@[j - 1]
                },
        decreases rgba@.len() - i,
    {
        r.push(rgba[i + 3]);
        r.push(rgba[i]);
        r.push(rgba[i + 1]);
        r.push(rgba[i + 2]);
        i = i + 4;
    }
    r
}

} // verus!
