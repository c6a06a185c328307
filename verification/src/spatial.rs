//! Spatial validation: coordinate and dimension ranges, parcel area, and
//! axis-aligned bounding-box overlap.
//!
//! A parcel's box is half-open on every axis: it covers
//! `[origin, origin + extent)`.  Two boxes overlap iff they overlap on all
//! three axes at once, so boxes that merely share a face do not overlap.

use vstd::prelude::*;

use crate::types::Coordinates;
use crate::types::Dimensions;
use crate::types::LandInfo;

verus! {

/// Largest magnitude allowed for the x and y axes of an origin.
pub const COORD_LIMIT_XY: i32 = 1000000;

/// Largest magnitude allowed for the z axis of an origin.
pub const COORD_LIMIT_Z: i32 = 1000;

/// Largest allowed width and height of a parcel.
pub const DIM_LIMIT_WH: u32 = 10000;

/// Largest allowed depth of a parcel.
pub const DIM_LIMIT_DEPTH: u32 = 1000;

/// An origin is valid iff each axis lies within its fixed bound.
pub open spec fn spec_valid_coordinates(c: Coordinates) -> bool {
    &&& -COORD_LIMIT_XY <= c.x <= COORD_LIMIT_XY
    &&& -COORD_LIMIT_XY <= c.y <= COORD_LIMIT_XY
    &&& -COORD_LIMIT_Z <= c.z <= COORD_LIMIT_Z
}

/// An extent is valid iff each component is positive and bounded.
pub open spec fn spec_valid_dimensions(d: Dimensions) -> bool {
    &&& 0 < d.width <= DIM_LIMIT_WH
    &&& 0 < d.height <= DIM_LIMIT_WH
    &&& 0 < d.depth <= DIM_LIMIT_DEPTH
}

/// Ground area of a parcel: width times height.
pub open spec fn spec_area(d: Dimensions) -> int {
    (d.width as int) * (d.height as int)
}

/// Two half-open boxes overlap iff on every axis the one starts strictly
/// before the other ends.
pub open spec fn spec_overlaps(
    c1: Coordinates,
    d1: Dimensions,
    c2: Coordinates,
    d2: Dimensions,
) -> bool {
    !((c1.x as int) + (d1.width as int) <= (c2.x as int) || (c2.x as int) + (d2.width as int)
        <= (c1.x as int) || (c1.y as int) + (d1.height as int) <= (c2.y as int) || (c2.y as int)
        + (d2.height as int) <= (c1.y as int) || (c1.z as int) + (d1.depth as int)
        <= (c2.z as int) || (c2.z as int) + (d2.depth as int) <= (c1.z as int))
}

/// Two boxes exactly share a face on some axis: one ends where the other
/// begins, with zero gap.
pub open spec fn spec_touching(
    c1: Coordinates,
    d1: Dimensions,
    c2: Coordinates,
    d2: Dimensions,
) -> bool {
    ||| (c1.x as int) + (d1.width as int) == (c2.x as int)
    ||| (c2.x as int) + (d2.width as int) == (c1.x as int)
    ||| (c1.y as int) + (d1.height as int) == (c2.y as int)
    ||| (c2.y as int) + (d2.height as int) == (c1.y as int)
    ||| (c1.z as int) + (d1.depth as int) == (c2.z as int)
    ||| (c2.z as int) + (d2.depth as int) == (c1.z as int)
}

/// Some parcel already in `lands` overlaps the box at `c` with extent `d`.
pub open spec fn spec_any_overlap(lands: Seq<crate::types::LandInfoView>, c: Coordinates, d: Dimensions) -> bool {
    exists|i: int|
        0 <= i < lands.len() && spec_overlaps(c, d, #[trigger] lands[i].coordinates, lands[i].dimensions)
}

/// Overlap does not depend on the order of the two boxes.
pub proof fn lemma_overlap_symmetric(c1: Coordinates, d1: Dimensions, c2: Coordinates, d2: Dimensions)
    ensures
        spec_overlaps(c1, d1, c2, d2) == spec_overlaps(c2, d2, c1, d1),
{
}

/// True iff each axis of the origin is within its fixed bound.
pub fn validate_coordinates(coords: &Coordinates) -> (r: bool)
    ensures
        r == spec_valid_coordinates(*coords),
{
    coords.x >= -COORD_LIMIT_XY && coords.x <= COORD_LIMIT_XY && coords.y >= -COORD_LIMIT_XY
        && coords.y <= COORD_LIMIT_XY && coords.z >= -COORD_LIMIT_Z && coords.z <= COORD_LIMIT_Z
}

/// True iff each component of the extent is positive and bounded.
pub fn validate_dimensions(dims: &Dimensions) -> (r: bool)
    ensures
        r == spec_valid_dimensions(*dims),
{
    dims.width > 0 && dims.width <= DIM_LIMIT_WH && dims.height > 0 && dims.height <= DIM_LIMIT_WH
        && dims.depth > 0 && dims.depth <= DIM_LIMIT_DEPTH
}

/// Ground area of a parcel.  The caller keeps the product within `u32`;
/// validated dimensions always do.
pub fn calculate_land_area(dims: &Dimensions) -> (r: u32)
    requires
        (dims.width as int) * (dims.height as int) <= u32::MAX as int,
    ensures
        r as int == spec_area(*dims),
{
    dims.width * dims.height
}

/// Decides overlap of two boxes.  Intermediate sums are taken in 64 bits,
/// so any coordinates and dimensions are acceptable.
pub fn coordinates_overlap(
    coords1: &Coordinates,
    dims1: &Dimensions,
    coords2: &Coordinates,
    dims2: &Dimensions,
) -> (r: bool)
    ensures
        r == spec_overlaps(*coords1, *dims1, *coords2, *dims2),
{
    let x1_min: i64 = coords1.x as i64;
    let x1_max: i64 = coords1.x as i64 + dims1.width as i64;
    let y1_min: i64 = coords1.y as i64;
    let y1_max: i64 = coords1.y as i64 + dims1.height as i64;
    let z1_min: i64 = coords1.z as i64;
    let z1_max: i64 = coords1.z as i64 + dims1.depth as i64;

    let x2_min: i64 = coords2.x as i64;
    let x2_max: i64 = coords2.x as i64 + dims2.width as i64;
    let y2_min: i64 = coords2.y as i64;
    let y2_max: i64 = coords2.y as i64 + dims2.height as i64;
    let z2_min: i64 = coords2.z as i64;
    let z2_max: i64 = coords2.z as i64 + dims2.depth as i64;

    !(x1_max <= x2_min || x2_max <= x1_min || y1_max <= y2_min || y2_max <= y1_min || z1_max
        <= z2_min || z2_max <= z1_min)
}

/// True iff some parcel already in `lands` overlaps the proposed box.
pub fn check_land_overlap(new_coords: &Coordinates, new_dims: &Dimensions, lands: &Vec<LandInfo>) -> (r:
    bool)
    ensures
        r == spec_any_overlap(lands.deep_view(), *new_coords, *new_dims),
{
    let mut i: usize = 0;
    while i < lands.len()
        invariant
            0 <= i <= lands.len(),
            !spec_any_overlap(lands.deep_view().take(i as int), *new_coords, *new_dims),
        decreases lands.len() - i,
    {
        if coordinates_overlap(new_coords, new_dims, &lands[i].coordinates, &lands[i].dimensions) {
            assert(spec_overlaps(
                *new_coords,
                *new_dims,
                lands.deep_view()[i as int].coordinates,
                lands.deep_view()[i as int].dimensions,
            ));
            return true;
        }
        assert(forall|k: int|
            0 <= k < i + 1 ==> lands.deep_view().take(i as int + 1)[k] == lands.deep_view().take(
                i as int,
            ).push(lands.deep_view()[i as int])[k]);
        assert(lands.deep_view().take(i as int + 1) =~= lands.deep_view().take(i as int).push(
            lands.deep_view()[i as int],
        ));
        i = i + 1;
    }
    assert(lands.deep_view().take(lands.len() as int) =~= lands.deep_view());
    false
}

} // verus!
