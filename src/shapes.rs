use crate::types::{floor_div, in_limit, Vec3};
use vstd::prelude::*;

verus! {

/// The eight corners of an axis-aligned cube of side `size` centered on the
/// origin; bit 0 of the index picks `+x`, bit 1 `+y`, bit 2 `+z`.
pub open spec fn cube_corners(size: i64) -> [Vec3; 8] {
    let s = (size / 2) as i64;
    let n = (-s) as i64;
    [
        Vec3 { x: n, y: n, z: n },
        Vec3 { x: s, y: n, z: n },
        Vec3 { x: n, y: s, z: n },
        Vec3 { x: s, y: s, z: n },
        Vec3 { x: n, y: n, z: s },
        Vec3 { x: s, y: n, z: s },
        Vec3 { x: n, y: s, z: s },
        Vec3 { x: s, y: s, z: s },
    ]
}

/// The corners of a cube of side `size` (half of it rounded down on each
/// side of the origin).
pub fn cube(size: i64) -> (r: [Vec3; 8])
    requires
        in_limit(size as int),
    ensures
        r == cube_corners(size),
{
    let s = floor_div(size, 2);
    let n = -s;
    [
        Vec3 { x: n, y: n, z: n },
        Vec3 { x: s, y: n, z: n },
        Vec3 { x: n, y: s, z: n },
        Vec3 { x: s, y: s, z: n },
        Vec3 { x: n, y: n, z: s },
        Vec3 { x: s, y: n, z: s },
        Vec3 { x: n, y: s, z: s },
        Vec3 { x: s, y: s, z: s },
    ]
}

/// The corners of a square in the `z = 0` plane reaching `size` from the
/// origin on each axis: top left, top right, bottom right, bottom left.
pub fn plane(size: i64) -> (r: [Vec3; 4])
    requires
        in_limit(size as int),
    ensures
        r == [
            Vec3 { x: -size as i64, y: size, z: 0 },
            Vec3 { x: size, y: size, z: 0 },
            Vec3 { x: size, y: -size as i64, z: 0 },
            Vec3 { x: -size as i64, y: -size as i64, z: 0 },
        ],
{
    [
        Vec3 { x: -size, y: size, z: 0 },
        Vec3 { x: size, y: size, z: 0 },
        Vec3 { x: size, y: -size, z: 0 },
        Vec3 { x: -size, y: -size, z: 0 },
    ]
}

} // verus!
