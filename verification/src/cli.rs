//! Caller-facing configuration values: the output-base selector and
//! block-out regions that mask known-volatile image areas.

use vstd::prelude::*;

verus! {

/// Which source image, if any, seeds the diff image's buffer.
#[derive(PartialEq, Eq, Structural, Clone, Copy, Debug)]
pub enum OutputImageBase {
    LeftImage,
    RightImage,
}

/// A block-out rectangle, given as its top-left corner and its extent.
#[derive(PartialEq, Eq, Structural, Clone, Copy, Debug)]
pub struct BlockOutArea {
    pub x: u32,
    pub y: u32,
    pub width: u32,
    pub height: u32,
}

/// A rectangle takes part in blocking only when all four of its
/// components are nonzero; a malformed or degenerate specification is
/// silently dropped.
pub open spec fn area_active(area: BlockOutArea) -> bool {
    area.x > 0 && area.y > 0 && area.width > 0 && area.height > 0
}

/// Whether (px, py) falls inside the rectangle. Both edges are
/// inclusive: a rectangle spans width + 1 columns and height + 1 rows.
pub open spec fn area_covers(area: BlockOutArea, px: int, py: int) -> bool {
    area.x <= px <= area.x + area.width && area.y <= py <= area.y + area.height
}

/// Whether (px, py) is masked by some active rectangle of the set.
pub open spec fn blocked_out(areas: Seq<BlockOutArea>, px: int, py: int) -> bool {
    exists|k: int|
        0 <= k < areas.len() && area_active(areas[k]) && area_covers(areas[k], px, py)
}

/// Whether (px, py) is masked by some active rectangle of the set.
pub fn is_blocked_out(areas: &Vec<BlockOutArea>, px: u32, py: u32) -> (r: bool)
    ensures
        r == blocked_out(areas@, px as int, py as int),
{
    let n: usize = areas.len();
    let mut k: usize = 0;
    while k < n
        invariant
            k <= n,
            n == areas@.len(),
            forall|j: int|
                0 <= j < k ==> !(area_active(areas@[j]) && area_covers(
                    areas@[j],
                    px as int,
                    py as int,
                )),
        decreases n - k,
    {
        let area = areas[k];
        if area.x > 0 && area.y > 0 && area.width > 0 && area.height > 0 {
            let in_x = area.x <= px && px as u64 <= area.x as u64 + area.width as u64;
            let in_y = area.y <= py && py as u64 <= area.y as u64 + area.height as u64;
            if in_x && in_y {
                assert(area_active(areas@[k as int]) && area_covers(
                    areas@[k as int],
                    px as int,
                    py as int,
                ));
                return true;
            }
        }
        k = k + 1;
    }
    false
}

} // verus!
