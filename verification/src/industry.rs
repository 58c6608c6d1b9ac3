//! Machine recipes over item buffers (one counter per item kind), which
//! machines take which items from a conveyor, and where a machine may drop
//! its output.

use vstd::prelude::*;
use crate::item::{ItemType, ITEM_COUNT, item_slot, item_order, item_is_raw, lemma_item_order_slot};
use crate::tool::Tool;

verus! {

/// What a smelter turns an ore into; uranium ore and wood come out unchanged.
pub open spec fn smelt_spec(ore: ItemType) -> ItemType {
    match ore {
        ItemType::IronOre => ItemType::IronPlate,
        ItemType::CopperOre => ItemType::CopperPlate,
        ItemType::CoalOre => ItemType::CoalPlate,
        ItemType::QuartzOre => ItemType::Silicon,
        ItemType::SandOre => ItemType::Glass,
        ItemType::GoldOre => ItemType::GoldIngot,
        _ => ore,
    }
}

pub fn smelt_product(ore: ItemType) -> (r: ItemType)
    ensures
        r == smelt_spec(ore),
{
    match ore {
        ItemType::IronOre => ItemType::IronPlate,
        ItemType::CopperOre => ItemType::CopperPlate,
        ItemType::CoalOre => ItemType::CoalPlate,
        ItemType::QuartzOre => ItemType::Silicon,
        ItemType::SandOre => ItemType::Glass,
        ItemType::GoldOre => ItemType::GoldIngot,
        _ => ore,
    }
}

/// Count held of `it` in a buffer.
pub open spec fn stock(buffer: Seq<i32>, it: ItemType) -> i32 {
    buffer[item_slot(it)]
}

/// The first item kind, in slot order, of which the buffer holds at least one.
pub open spec fn first_stocked_spec(buffer: Seq<i32>) -> Option<ItemType> {
    if exists|j: int| is_first_stocked(buffer, j) {
        Some(item_order()[choose|j: int| is_first_stocked(buffer, j)])
    } else {
        None
    }
}

pub open spec fn is_first_stocked(buffer: Seq<i32>, j: int) -> bool {
    &&& 0 <= j < ITEM_COUNT
    &&& buffer[j] > 0
    &&& forall|k: int| 0 <= k < j ==> buffer[k] <= 0
}

/// The first item kind, in slot order, of which the buffer holds at least one.
pub fn first_stocked(buffer: &[i32; 21]) -> (r: Option<ItemType>)
    ensures
        match r {
            Some(it) => buffer@[item_slot(it)] > 0 && forall|j: int| 0 <= j < item_slot(it) ==> buffer@[j] <= 0,
            None => forall|j: int| 0 <= j < ITEM_COUNT ==> buffer@[j] <= 0,
        },
        r == first_stocked_spec(buffer@),
{
    let mut i: usize = 0;
    while i < ITEM_COUNT
        invariant
            i <= ITEM_COUNT,
            forall|j: int| 0 <= j < i ==> buffer@[j] <= 0,
        decreases ITEM_COUNT - i,
    {
        if buffer[i] > 0 {
            let it = ItemType::from_index(i);
            proof {
                lemma_item_order_slot(it);
                assert(item_slot(item_order()[i as int]) == i);
                assert(is_first_stocked(buffer@, i as int));
                let c = choose|j: int| is_first_stocked(buffer@, j);
                if c < i {
                    assert(buffer@[c] > 0);
                } else if c > i {
                    assert(buffer@[i as int] <= 0);
                }
                assert(c == i);
            }
            return Some(it);
        }
        i = i + 1;
    }
    proof {
        assert forall|j: int| !is_first_stocked(buffer@, j) by {
            if 0 <= j < ITEM_COUNT {
                assert(buffer@[j] <= 0);
            }
        }
    }
    None
}

/// Whether the buffer holds anything at all.
pub fn has_any(buffer: &[i32; 21]) -> (r: bool)
    ensures
        r == exists|j: int| 0 <= j < ITEM_COUNT && buffer@[j] > 0,
{
    first_stocked(buffer).is_some()
}

/// An assembler recipe: the output and the two inputs it uses one of each.
#[derive(Clone, Copy, Debug, PartialEq, Eq, Structural)]
pub struct Recipe {
    pub output: ItemType,
    pub first: ItemType,
    pub second: ItemType,
}

/// The assembler's recipe for a buffer, in order of preference: steel from
/// iron and coal plates, then a processor from glass and wire, then a circuit
/// board from silicon and wire.
pub open spec fn assembler_recipe_spec(buffer: Seq<i32>) -> Option<Recipe> {
    if stock(buffer, ItemType::IronPlate) >= 1 && stock(buffer, ItemType::CoalPlate) >= 1 {
        Some(Recipe { output: ItemType::Steel, first: ItemType::IronPlate, second: ItemType::CoalPlate })
    } else if stock(buffer, ItemType::Glass) >= 1 && stock(buffer, ItemType::CopperWire) >= 1 {
        Some(Recipe { output: ItemType::Processor, first: ItemType::Glass, second: ItemType::CopperWire })
    } else if stock(buffer, ItemType::Silicon) >= 1 && stock(buffer, ItemType::CopperWire) >= 1 {
        Some(Recipe { output: ItemType::CircuitBoard, first: ItemType::Silicon, second: ItemType::CopperWire })
    } else {
        None
    }
}

pub fn assembler_recipe(buffer: &[i32; 21]) -> (r: Option<Recipe>)
    ensures
        r == assembler_recipe_spec(buffer@),
{
    let iron = buffer[ItemType::IronPlate.to_index()];
    let coal = buffer[ItemType::CoalPlate.to_index()];
    let glass = buffer[ItemType::Glass.to_index()];
    let wire = buffer[ItemType::CopperWire.to_index()];
    let si = buffer[ItemType::Silicon.to_index()];
    if iron >= 1 && coal >= 1 {
        Some(Recipe { output: ItemType::Steel, first: ItemType::IronPlate, second: ItemType::CoalPlate })
    } else if glass >= 1 && wire >= 1 {
        Some(Recipe { output: ItemType::Processor, first: ItemType::Glass, second: ItemType::CopperWire })
    } else if si >= 1 && wire >= 1 {
        Some(Recipe { output: ItemType::CircuitBoard, first: ItemType::Silicon, second: ItemType::CopperWire })
    } else {
        None
    }
}

/// Takes one of each input of `recipe` out of the buffer.
pub fn consume_recipe(buffer: &mut [i32; 21], recipe: Recipe)
    requires
        recipe.first != recipe.second,
        stock(old(buffer)@, recipe.first) > i32::MIN,
        stock(old(buffer)@, recipe.second) > i32::MIN,
    ensures
        final(buffer)@ == old(buffer)@.update(item_slot(recipe.first), (stock(old(buffer)@, recipe.first) - 1) as i32)
            .update(item_slot(recipe.second), (stock(old(buffer)@, recipe.second) - 1) as i32),
{
    let a = recipe.first.to_index();
    let b = recipe.second.to_index();
    buffer[a] = buffer[a] - 1;
    buffer[b] = buffer[b] - 1;
}

/// A quantum computer needs a processor, plastic and a gold ingot to start.
pub fn quantum_can_start(buffer: &[i32; 21]) -> (r: bool)
    ensures
        r == (stock(buffer@, ItemType::Processor) >= 1 && stock(buffer@, ItemType::Plastic) >= 1
            && stock(buffer@, ItemType::GoldIngot) >= 1),
{
    buffer[ItemType::Processor.to_index()] >= 1 && buffer[ItemType::Plastic.to_index()] >= 1
        && buffer[ItemType::GoldIngot.to_index()] >= 1
}

/// A centrifuge needs three uranium ores to start.
pub fn centrifuge_can_start(buffer: &[i32; 21]) -> (r: bool)
    ensures
        r == (stock(buffer@, ItemType::UraniumOre) >= 3),
{
    buffer[ItemType::UraniumOre.to_index()] >= 3
}

/// Which items a machine takes from a conveyor pointing into it: the inputs
/// of its recipes, and copper plates at assemblers. Smelters take raw
/// materials, presses copper plates, assemblers iron, copper and coal plates,
/// glass, silicon and copper wire, coal plants coal, reactors uranium cells,
/// centrifuges uranium ore, and quantum computers processors, plastic and
/// gold ingots.
pub open spec fn accepts_spec(machine: Tool, it: ItemType) -> bool {
    match machine {
        Tool::Smelter => item_is_raw(it),
        Tool::Press => it == ItemType::CopperPlate,
        Tool::Assembler => it == ItemType::IronPlate || it == ItemType::CopperPlate || it == ItemType::CoalPlate
            || it == ItemType::Glass || it == ItemType::Silicon || it == ItemType::CopperWire,
        Tool::CoalPlant => it == ItemType::CoalOre,
        Tool::Nuclear => it == ItemType::UraniumCell,
        Tool::Centrifuge => it == ItemType::UraniumOre,
        Tool::Quantum => it == ItemType::Processor || it == ItemType::Plastic || it == ItemType::GoldIngot,
        _ => false,
    }
}

pub fn machine_accepts(machine: Tool, it: ItemType) -> (r: bool)
    ensures
        r == accepts_spec(machine, it),
{
    match machine {
        Tool::Smelter => it.is_ore(),
        Tool::Press => it == ItemType::CopperPlate,
        Tool::Assembler => matches!(it, ItemType::IronPlate | ItemType::CopperPlate | ItemType::CoalPlate | ItemType::Glass | ItemType::Silicon | ItemType::CopperWire),
        Tool::CoalPlant => it == ItemType::CoalOre,
        Tool::Nuclear => it == ItemType::UraniumCell,
        Tool::Centrifuge => it == ItemType::UraniumOre,
        Tool::Quantum => matches!(it, ItemType::Processor | ItemType::Plastic | ItemType::GoldIngot),
        _ => false,
    }
}

/// Every input of an assembler recipe can reach the assembler by belt.
pub proof fn law_assembler_inputs_deliverable(buffer: Seq<i32>)
    ensures
        assembler_recipe_spec(buffer) matches Some(rc) ==>
            accepts_spec(Tool::Assembler, rc.first) && accepts_spec(Tool::Assembler, rc.second),
{
}

/// A machine may drop output onto the conveyor on its side `side` (0 north,
/// 1 east, 2 south, 3 west) unless that conveyor points back into the machine.
pub fn can_eject_onto(conveyor_dir: u8, side: u8) -> (r: bool)
    requires
        side < 4,
    ensures
        r == ((conveyor_dir + 2) % 4 != side),
{
    (conveyor_dir as u16 + 2) % 4 != side as u16
}

/// What a machine finds on one of its sides: the facing of the belt there,
/// if that side holds a belt, and whether an item already lies on it.
#[derive(Clone, Copy, Debug, PartialEq, Eq, Structural)]
pub struct Side {
    pub belt_dir: Option<u8>,
    pub occupied: bool,
}

/// A side `d` takes the machine's output: a free belt that does not point
/// back into the machine.
pub open spec fn takes_output(s: Side, d: int) -> bool {
    s.belt_dir matches Some(b) && (b + 2) % 4 != d && !s.occupied
}

/// The side (0 north, 1 east, 2 south, 3 west) onto which a machine drops
/// its output: the first in that order that takes it, if any.
pub fn eject_side(sides: &[Side; 4]) -> (r: Option<u8>)
    ensures
        match r {
            Some(d) => d < 4 && takes_output(sides@[d as int], d as int)
                && forall|e: int| 0 <= e < d ==> !takes_output(#[trigger] sides@[e], e),
            None => forall|e: int| 0 <= e < 4 ==> !takes_output(#[trigger] sides@[e], e),
        },
{
    let mut d: u8 = 0;
    while d < 4
        invariant
            d <= 4,
            forall|e: int| 0 <= e < d ==> !takes_output(#[trigger] sides@[e], e),
        decreases 4 - d,
    {
        let s = sides[d as usize];
        match s.belt_dir {
            Some(b) => {
                if can_eject_onto(b, d) && !s.occupied {
                    return Some(d);
                }
            },
            None => {},
        }
        d = d + 1;
    }
    None
}

/// Whether a cell at offset `(dx, dy)` from a melting reactor is destroyed:
/// everything within Euclidean distance 8.
pub fn in_meltdown_radius(dx: i32, dy: i32) -> (r: bool)
    requires
        -8 <= dx <= 8,
        -8 <= dy <= 8,
    ensures
        r == (dx * dx + dy * dy <= 64),
{
    assert(0 <= dx * dx <= 64) by (nonlinear_arith)
        requires
            -8 <= dx <= 8,
    ;
    assert(0 <= dy * dy <= 64) by (nonlinear_arith)
        requires
            -8 <= dy <= 8,
    ;
    dx * dx + dy * dy <= 64
}

/// Cells destroyed by a meltdown: those within Euclidean distance 8 of the
/// reactor.
pub open spec fn in_zone(dx: int, dy: int) -> bool {
    dx * dx + dy * dy <= 64
}

/// The meltdown zone is the disc of radius 8 around the reactor: it holds the
/// reactor's own cell and the cells 8 steps straight out, nothing farther than
/// 8 along either axis, and looks the same mirrored or turned.
pub proof fn law_meltdown_zone_is_a_disc(dx: int, dy: int)
    ensures
        in_zone(0, 0),
        in_zone(8, 0) && in_zone(-8, 0) && in_zone(0, 8) && in_zone(0, -8),
        !in_zone(6, 6) && !in_zone(9, 0),
        in_zone(dx, dy) ==> -8 <= dx <= 8 && -8 <= dy <= 8,
        in_zone(dx, dy) == in_zone(-dx, dy),
        in_zone(dx, dy) == in_zone(dy, dx),
{
    assert(in_zone(dx, dy) ==> -8 <= dx <= 8 && -8 <= dy <= 8) by (nonlinear_arith);
    assert(in_zone(dx, dy) == in_zone(-dx, dy)) by (nonlinear_arith);
}

/// Row-major order on cells: by row, then by column.
pub open spec fn row_major_before(a: (i32, i32), b: (i32, i32)) -> bool {
    a.1 < b.1 || (a.1 == b.1 && a.0 < b.0)
}

proof fn lemma_zone_bounds(dx: int, dy: int)
    ensures
        in_zone(dx, dy) ==> -8 <= dx <= 8 && -8 <= dy <= 8,
{
    if dx > 8 || dx < -8 {
        assert(dx * dx > 64) by (nonlinear_arith) requires dx > 8 || dx < -8;
        assert(dy * dy >= 0) by (nonlinear_arith);
    }
    if dy > 8 || dy < -8 {
        assert(dy * dy > 64) by (nonlinear_arith) requires dy > 8 || dy < -8;
        assert(dx * dx >= 0) by (nonlinear_arith);
    }
}

/// The cells a meltdown at `(cx, cy)` destroys, row by row from the top.
pub fn meltdown_zone(cx: i32, cy: i32) -> (cells: Vec<(i32, i32)>)
    requires
        i32::MIN + 8 <= cx <= i32::MAX - 8,
        i32::MIN + 8 <= cy <= i32::MAX - 8,
    ensures
        forall|i: int| 0 <= i < cells@.len() ==> in_zone(cells@[i].0 - cx, cells@[i].1 - cy),
        forall|dx: int, dy: int| #![trigger in_zone(dx, dy)] in_zone(dx, dy) ==> cells@.contains(((cx + dx) as i32, (cy + dy) as i32)),
        forall|i: int, j: int| 0 <= i < j < cells@.len() ==> row_major_before(cells@[i], cells@[j]),
{
    let mut cells: Vec<(i32, i32)> = Vec::new();
    proof {
        assert forall|ex: int, ey: int| #[trigger] in_zone(ex, ey) implies -8 <= ex <= 8 && -8 <= ey <= 8 by {
            lemma_zone_bounds(ex, ey);
        }
    }
    let mut dy: i32 = -8;
    while dy <= 8
        invariant
            forall|ex: int, ey: int| #[trigger] in_zone(ex, ey) ==> -8 <= ex <= 8 && -8 <= ey <= 8,
            -8 <= dy <= 9,
            i32::MIN + 8 <= cx <= i32::MAX - 8,
            i32::MIN + 8 <= cy <= i32::MAX - 8,
            forall|i: int| 0 <= i < cells@.len() ==> in_zone(cells@[i].0 - cx, cells@[i].1 - cy),
            forall|i: int| 0 <= i < cells@.len() ==> cells@[i].1 < cy + dy,
            forall|i: int, j: int| 0 <= i < j < cells@.len() ==> row_major_before(cells@[i], cells@[j]),
            forall|ex: int, ey: int| #![trigger in_zone(ex, ey)] in_zone(ex, ey) && ey < dy
                ==> cells@.contains(((cx + ex) as i32, (cy + ey) as i32)),
        decreases 9 - dy,
    {
        let row_start = cells.len();
        let mut dx: i32 = -8;
        while dx <= 8
            invariant
                forall|ex: int, ey: int| #[trigger] in_zone(ex, ey) ==> -8 <= ex <= 8 && -8 <= ey <= 8,
                -8 <= dx <= 9,
                -8 <= dy <= 8,
                i32::MIN + 8 <= cx <= i32::MAX - 8,
                i32::MIN + 8 <= cy <= i32::MAX - 8,
                row_start <= cells@.len(),
                forall|i: int| 0 <= i < cells@.len() ==> in_zone(cells@[i].0 - cx, cells@[i].1 - cy),
                forall|i: int| 0 <= i < row_start ==> cells@[i].1 < cy + dy,
                forall|i: int| row_start <= i < cells@.len() ==> cells@[i].1 == cy + dy && cells@[i].0 < cx + dx,
                forall|i: int, j: int| 0 <= i < j < cells@.len() ==> row_major_before(cells@[i], cells@[j]),
                forall|ex: int, ey: int| #![trigger in_zone(ex, ey)] in_zone(ex, ey) && ey < dy
                    ==> cells@.contains(((cx + ex) as i32, (cy + ey) as i32)),
                forall|ex: int| #![trigger in_zone(ex, dy as int)] in_zone(ex, dy as int) && ex < dx
                    ==> cells@.contains(((cx + ex) as i32, (cy + dy) as i32)),
            decreases 9 - dx,
        {
            if in_meltdown_radius(dx, dy) {
                let cell = (cx + dx, cy + dy);
                let ghost before = cells@;
                cells.push(cell);
                proof {
                    assert forall|ex: int, ey: int| #![trigger in_zone(ex, ey)] in_zone(ex, ey) && ey < dy
                        implies cells@.contains(((cx + ex) as i32, (cy + ey) as i32)) by {
                        let w = choose|w: int| 0 <= w < before.len() && before[w] == ((cx + ex) as i32, (cy + ey) as i32);
                        assert(cells@[w] == before[w]);
                    }
                    assert forall|ex: int| #![trigger in_zone(ex, dy as int)] in_zone(ex, dy as int) && ex < dx + 1
                        implies cells@.contains(((cx + ex) as i32, (cy + dy) as i32)) by {
                        if ex < dx {
                            let w = choose|w: int| 0 <= w < before.len() && before[w] == ((cx + ex) as i32, (cy + dy) as i32);
                            assert(cells@[w] == before[w]);
                        } else {
                            assert(cells@[before.len() as int] == ((cx + ex) as i32, (cy + dy) as i32));
                        }
                    }
                }
            } else {
                proof {
                    assert forall|ex: int| #![trigger in_zone(ex, dy as int)] in_zone(ex, dy as int) && ex < dx + 1
                        implies cells@.contains(((cx + ex) as i32, (cy + dy) as i32)) by {
                        if ex == dx {
                            assert(!in_zone(dx as int, dy as int));
                        }
                    }
                }
            }
            dx = dx + 1;
        }
        proof {
            assert forall|ex: int, ey: int| #![trigger in_zone(ex, ey)] in_zone(ex, ey) && ey < dy + 1
                implies cells@.contains(((cx + ex) as i32, (cy + ey) as i32)) by {
            }
        }
        dy = dy + 1;
    }
    proof {
        assert forall|ex: int, ey: int| #![trigger in_zone(ex, ey)] in_zone(ex, ey)
            implies cells@.contains(((cx + ex) as i32, (cy + ey) as i32)) by {
        }
    }
    cells
}

/// Smelting turns each of the six metal, coal, quartz and sand ores into a
/// processed good, and leaves uranium ore and wood as they are.
pub proof fn law_smelting_refines(ore: ItemType)
    requires
        item_is_raw(ore),
    ensures
        !item_is_raw(smelt_spec(ore)) <==> (ore != ItemType::UraniumOre && ore != ItemType::Wood),
{
}

/// An assembler only picks a recipe whose two distinct inputs it holds, so
/// consuming the recipe never drives a count negative.
pub proof fn law_recipe_is_stocked(buffer: Seq<i32>)
    ensures
        assembler_recipe_spec(buffer) matches Some(rc) ==> {
            &&& rc.first != rc.second
            &&& stock(buffer, rc.first) >= 1
            &&& stock(buffer, rc.second) >= 1
        },
{
}

} // verus!
