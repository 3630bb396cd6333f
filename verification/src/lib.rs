//! Renders tagged map geometry into a raster image, styled by MapCSS rules.

use vstd::prelude::*;

pub mod data;
pub mod element;
pub mod extractor;
pub mod mapcss;
pub mod painter;
pub mod text;

verus! {

/// The smallest multiple of `target` that is not below `value`.
pub open spec fn round_up_to_spec(value: int, target: int) -> int {
    if value % target == 0 {
        value
    } else {
        value + (target - value % target)
    }
}

/// Rounds `value` up to the nearest multiple of `target`.
pub fn round_up_to(value: u32, target: u32) -> (rounded: u32)
    requires
        target > 0,
        round_up_to_spec(value as int, target as int) <= u32::MAX,
    ensures
        rounded == round_up_to_spec(value as int, target as int),
        rounded >= value,
        rounded % target == 0,
        rounded - value < target,
        value % target == 0 ==> rounded == value,
{
    let rest: u32 = value % target;
    if rest == 0 {
        return value;
    }
    let rounded: u32 = (target - rest) + value;
    assert(rounded % target == 0) by (nonlinear_arith)
        requires
            target > 0,
            rest == value % target,
            rounded == (target - rest) + value,
    ;
    rounded
}

} // verus!
