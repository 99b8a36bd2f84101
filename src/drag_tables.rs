//! The standard drag functions, one table per reference projectile.
use vstd::prelude::*;
use crate::projectile::DragFunction;

pub mod g1;
pub mod g5;
pub mod g7;
pub mod g8;

verus! {

/// The points of the standard table of a drag function.
pub open spec fn table_points(f: DragFunction) -> Seq<(u32, u16)> {
    match f {
        DragFunction::G1 => g1::points(),
        DragFunction::G5 => g5::points(),
        DragFunction::G7 => g7::points(),
        DragFunction::G8 => g8::points(),
    }
}

} // verus!
