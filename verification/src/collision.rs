use vstd::prelude::*;
use crate::terrain::{Terrain, TerrainColumn};

verus! {

/// A column blocks the rows `top..=bottom` when its ceiling reaches below
/// `top` or its floor reaches up to `bottom` (on a viewport `viewport_h`
/// rows high).
pub open spec fn blocks(tc: TerrainColumn, top: int, bottom: int, viewport_h: int) -> bool {
    (tc.ceiling > 0 && top < tc.ceiling)
        || (tc.floor > 0 && bottom >= (if viewport_h > tc.floor { viewport_h - tc.floor } else { 0 }))
}

pub fn column_blocks(tc: &TerrainColumn, top: usize, bottom: usize, viewport_h: usize) -> (r: bool)
    ensures
        r == blocks(*tc, top as int, bottom as int, viewport_h as int),
{
    if tc.ceiling > 0 && top < tc.ceiling {
        return true;
    }
    let floor_row = viewport_h.saturating_sub(tc.floor);
    tc.floor > 0 && bottom >= floor_row
}

/// Whether terrain blocks a box spanning world columns `left..=right` and
/// rows `top..=bottom`: the terrain test of the ship.
pub fn span_hits_terrain(terrain: &Terrain, left: usize, right: usize, top: usize, bottom: usize, viewport_h: usize)
    -> (r: bool)
    ensures
        r == exists|c: int| left <= c <= right && c < terrain.columns@.len()
            && blocks(#[trigger] terrain.columns@[c], top as int, bottom as int, viewport_h as int),
{
    if left > right {
        return false;
    }
    let mut c = left;
    loop
        invariant
            left <= c <= right,
            forall|k: int| left <= k < c && k < terrain.columns@.len()
                ==> !blocks(#[trigger] terrain.columns@[k], top as int, bottom as int, viewport_h as int),
        decreases right - c,
    {
        match terrain.get_at(c) {
            Some(tc) => {
                if column_blocks(tc, top, bottom, viewport_h) {
                    return true;
                }
            },
            None => {},
        }
        if c == right {
            assert forall|k: int| left <= k <= right && k < terrain.columns@.len()
                implies !blocks(#[trigger] terrain.columns@[k], top as int, bottom as int, viewport_h as int) by {
                if k < c {
                }
            }
            return false;
        }
        c = c + 1;
    }
}

/// Whether a falling object at a column and row has reached the floor: the
/// terrain test of a bomb.
pub fn reaches_floor(terrain: &Terrain, col: usize, row: usize, viewport_h: usize) -> (r: bool)
    ensures
        r == (col < terrain.columns@.len() && ({
            let tc = terrain.columns@[col as int];
            tc.floor > 0 && row >= (if viewport_h > tc.floor { viewport_h - tc.floor } else { 0 })
        })),
{
    match terrain.get_at(col) {
        Some(tc) => {
            let floor_row = viewport_h.saturating_sub(tc.floor);
            tc.floor > 0 && row >= floor_row
        },
        None => false,
    }
}

} // verus!
