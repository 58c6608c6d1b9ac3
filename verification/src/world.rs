//! World coordinates: the world is an unbounded grid of square sectors of
//! `SECTOR_SIZE` cells each, addressed by sector coordinates and a local cell.

use vstd::prelude::*;

verus! {

/// Side length of a sector, in cells.
pub const SECTOR_SIZE: usize = 64;

/// Life cycle of a sector.
#[derive(Clone, Copy, Debug, PartialEq, Eq, Hash, Structural)]
pub enum SectorState {
    LOCKED,
    UNLOCKING,
    ACTIVE,
    IDLE,
}

/// Index of local cell `(col, row)` in a sector's row-major cell array, when it lies in the sector.
pub fn idx(col: i32, row: i32) -> (r: Option<usize>)
    ensures
        (0 <= col < SECTOR_SIZE && 0 <= row < SECTOR_SIZE) ==> r == Some((row * SECTOR_SIZE + col) as usize),
        !(0 <= col < SECTOR_SIZE && 0 <= row < SECTOR_SIZE) ==> r is None,
{
    if col >= 0 && col < SECTOR_SIZE as i32 && row >= 0 && row < SECTOR_SIZE as i32 {
        Some(row as usize * SECTOR_SIZE + col as usize)
    } else {
        None
    }
}

/// Splits a world cell into its sector and its cell within that sector:
/// the sector is the floor of the coordinate divided by `SECTOR_SIZE`, and the
/// local cell the non-negative remainder.
pub fn world_to_sector(gx: i32, gy: i32) -> (r: ((i32, i32), (i32, i32)))
    requires
        gx >= i32::MIN + 63,
        gy >= i32::MIN + 63,
    ensures
        r.0.0 == (gx as int) / (SECTOR_SIZE as int),
        r.0.1 == (gy as int) / (SECTOR_SIZE as int),
        r.1.0 == (gx as int) % (SECTOR_SIZE as int),
        r.1.1 == (gy as int) % (SECTOR_SIZE as int),
{
    let sx = floor_div_sector(gx);
    let sy = floor_div_sector(gy);
    let lx = gx - sx * 64;
    let ly = gy - sy * 64;
    ((sx, sy), (lx, ly))
}

/// `v` divided by the sector size, rounding toward negative infinity; a negative
/// coordinate is first moved down by `SECTOR_SIZE - 1` so that truncation rounds down.
fn floor_div_sector(v: i32) -> (r: i32)
    requires
        v >= i32::MIN + 63,
    ensures
        r == (v as int) / 64,
        r * 64 <= v < r * 64 + 64,
{
    if v >= 0 {
        v / 64
    } else {
        let w = v - 63;
        let q = w / 64;
        q
    }
}

/// A sector's cells can be changed only while it is active or being unlocked.
pub fn accepts_edits(state: SectorState) -> (r: bool)
    ensures
        r == (state == SectorState::ACTIVE || state == SectorState::UNLOCKING),
{
    matches!(state, SectorState::ACTIVE | SectorState::UNLOCKING)
}

/// Offsets of the four facing directions: 0 north, 1 east, 2 south, 3 west.
pub open spec fn dir_offset_spec(d: int) -> (int, int) {
    if d == 0 { (0, -1) } else if d == 1 { (1, 0) } else if d == 2 { (0, 1) } else { (-1, 0) }
}

/// The grid step of facing direction `d` (north, east, south, west).
pub fn dir_offset(d: u8) -> (r: (i32, i32))
    requires
        d < 4,
    ensures
        (r.0 as int, r.1 as int) == dir_offset_spec(d as int),
{
    if d == 0 { (0, -1) } else if d == 1 { (1, 0) } else if d == 2 { (0, 1) } else { (-1, 0) }
}

/// Every cell has exactly one place: its sector's corner plus its local offset,
/// and the local offset lies inside the sector.
pub proof fn law_sector_decomposition(g: int)
    ensures
        (g / (SECTOR_SIZE as int)) * (SECTOR_SIZE as int) + g % (SECTOR_SIZE as int) == g,
        0 <= g % (SECTOR_SIZE as int) < SECTOR_SIZE,
{
}

} // verus!
