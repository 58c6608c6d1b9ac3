//! What a click with the selected tool does to one cell: repair, rotate,
//! refuse, or replace the cell and settle the price.

use vstd::prelude::*;
use crate::terrain::{Terrain, terrain_ore};
use crate::tool::{Tool, tool_cost, tool_refund};

verus! {

/// The structure standing on the clicked cell, as far as building cares.
#[derive(Clone, Copy, Debug, PartialEq, Eq, Structural)]
pub struct ExistingCell {
    pub tool: Tool,
    pub dir: u8,
    /// Its health has dropped to zero.
    pub broken: bool,
}

/// A structure to put on a cell, with its facing (0 north, 1 east, 2 south, 3 west).
#[derive(Clone, Copy, Debug, PartialEq, Eq, Structural)]
pub struct PlacedCell {
    pub tool: Tool,
    pub dir: u8,
}

/// The outcome of a build click.
#[derive(Clone, Copy, Debug, PartialEq, Eq, Structural)]
pub enum BuildPlan {
    /// Nothing changes.
    Ignore,
    /// The broken structure is restored to full health for `cost`.
    Repair { cost: i64 },
    /// The conveyor on the cell turns to face `dir`.
    Rotate { dir: u8 },
    /// The ground is irradiated: only the eraser works here.
    Irradiated,
    /// The cell now holds `cell` (`None` when erased) and money becomes `money`.
    Place { cell: Option<PlacedCell>, money: i64 },
}

/// The tool in effect: a forced erase overrides the selection.
pub open spec fn effective_tool(selected: Tool, force_erase: bool) -> Tool {
    if force_erase { Tool::Eraser } else { selected }
}

/// Water and oil only take the buildings meant for them (plus logistics);
/// miners need an ore vein and lumberjacks a tree.
pub open spec fn terrain_allows(terrain: Terrain, tool: Tool) -> bool {
    &&& (terrain == Terrain::Water ==> (tool == Tool::Pump || tool == Tool::Pipe || tool == Tool::ConveyorIron
        || tool == Tool::Node || tool == Tool::Street || tool == Tool::Eraser))
    &&& (terrain == Terrain::Oil ==> (tool == Tool::Pumpjack || tool == Tool::Pipe || tool == Tool::ConveyorIron
        || tool == Tool::Node || tool == Tool::Street || tool == Tool::Eraser))
    &&& (tool == Tool::Miner ==> terrain_ore(terrain) is Some)
    &&& (tool == Tool::Lumberjack ==> terrain == Terrain::Tree)
}

/// Extraction buildings are tied to their ground and only the eraser removes them.
pub open spec fn is_extractor(tool: Tool) -> bool {
    tool == Tool::Miner || tool == Tool::Pump || tool == Tool::Pumpjack || tool == Tool::Lumberjack
}

/// Facing of a conveyor laid by dragging from `prev` to `at`: along the axis
/// of the longer move (east/west on a tie only if the columns differ more),
/// north by default.
pub open spec fn drag_dir(at: (i32, i32), prev: (i32, i32)) -> u8 {
    let dx = at.0 - prev.0;
    let dy = at.1 - prev.1;
    let adx = if dx < 0 { -dx } else { dx };
    let ady = if dy < 0 { -dy } else { dy };
    if adx > ady {
        if dx > 0 { 1 } else { 3 }
    } else if dy != 0 {
        if dy > 0 { 2 } else { 0 }
    } else {
        0
    }
}

/// Money returned for what the cell held.
pub open spec fn existing_refund(existing: Option<ExistingCell>) -> i64 {
    match existing {
        Some(c) => tool_refund(c.tool),
        None => 0,
    }
}

/// The outcome of a build click on a cell of `terrain` holding `existing`,
/// with `selected` in hand and `money` to spend; see `plan_build`.
pub open spec fn build_outcome(
    terrain: Terrain,
    existing: Option<ExistingCell>,
    selected: Tool,
    is_drag: bool,
    force_erase: bool,
    money: i64,
    prev: (i32, i32),
    at: (i32, i32),
) -> BuildPlan {
    let tool = effective_tool(selected, force_erase);
    let refund = existing_refund(existing);
    let cost = if tool == Tool::Eraser { 0 } else { tool_cost(tool) };
    if tool == Tool::Repair {
        match existing {
            Some(c) => if c.broken && money >= tool_cost(c.tool) / 2 {
                BuildPlan::Repair { cost: (tool_cost(c.tool) / 2) as i64 }
            } else {
                BuildPlan::Ignore
            },
            None => BuildPlan::Ignore,
        }
    } else if !is_drag && tool == Tool::ConveyorIron && (existing matches Some(c) && c.tool == Tool::ConveyorIron) {
        BuildPlan::Rotate { dir: ((existing.unwrap().dir + 1) % 4) as u8 }
    } else if existing matches Some(c) && c.tool == tool {
        BuildPlan::Ignore
    } else if terrain == Terrain::Wasteland && tool != Tool::Eraser {
        BuildPlan::Irradiated
    } else if !terrain_allows(terrain, tool) {
        BuildPlan::Ignore
    } else if existing matches Some(c) && is_extractor(c.tool) && tool != Tool::Eraser {
        BuildPlan::Ignore
    } else if money + refund - cost < 0 {
        BuildPlan::Ignore
    } else {
        BuildPlan::Place {
            cell: if tool == Tool::Eraser {
                None
            } else {
                Some(PlacedCell { tool, dir: if tool == Tool::ConveyorIron && is_drag && prev.0 >= 0 { drag_dir(at, prev) } else { 0 } })
            },
            money: (money + refund - cost) as i64,
        }
    }
}

/// The click turns a conveyor already on the cell.
pub open spec fn rotates(existing: Option<ExistingCell>, selected: Tool, is_drag: bool, force_erase: bool) -> bool {
    let tool = effective_tool(selected, force_erase);
    &&& !is_drag
    &&& tool == Tool::ConveyorIron
    &&& existing matches Some(c) && c.tool == Tool::ConveyorIron
}

/// The click gets as far as weighing the price against the money.
pub open spec fn reaches_price(
    terrain: Terrain,
    existing: Option<ExistingCell>,
    selected: Tool,
    is_drag: bool,
    force_erase: bool,
) -> bool {
    let tool = effective_tool(selected, force_erase);
    &&& tool != Tool::Repair
    &&& !rotates(existing, selected, is_drag, force_erase)
    &&& !(existing matches Some(c) && c.tool == tool)
    &&& !(terrain == Terrain::Wasteland && tool != Tool::Eraser)
    &&& terrain_allows(terrain, tool)
    &&& !(existing matches Some(c) && is_extractor(c.tool) && tool != Tool::Eraser)
}

/// The click's arithmetic stays within its integer types: turning a conveyor
/// adds one to its facing byte, and weighing the price adds the refund to the
/// money and then takes the cost away.
pub open spec fn build_fits(
    terrain: Terrain,
    existing: Option<ExistingCell>,
    selected: Tool,
    is_drag: bool,
    force_erase: bool,
    money: i64,
) -> bool {
    let tool = effective_tool(selected, force_erase);
    let refund = existing_refund(existing);
    let cost = if tool == Tool::Eraser { 0 } else { tool_cost(tool) };
    &&& rotates(existing, selected, is_drag, force_erase) ==> existing.unwrap().dir < 255
    &&& reaches_price(terrain, existing, selected, is_drag, force_erase)
        ==> money + refund <= i64::MAX && money + refund - cost >= i64::MIN
}

/// Decides what a build click does, or nothing where its arithmetic would
/// leave its integer types (see `build_fits`). `prev` is the cell the cursor
/// was on before; a negative column there means there was none.
pub fn plan_build_checked(
    terrain: Terrain,
    existing: Option<ExistingCell>,
    selected: Tool,
    is_drag: bool,
    force_erase: bool,
    money: i64,
    prev: (i32, i32),
    at: (i32, i32),
) -> (r: Option<BuildPlan>)
    ensures
        r == (if build_fits(terrain, existing, selected, is_drag, force_erase, money) {
            Some(build_outcome(terrain, existing, selected, is_drag, force_erase, money, prev, at))
        } else {
            None
        }),
{
    let tool = if force_erase { Tool::Eraser } else { selected };
    if tool == Tool::Repair {
        if let Some(c) = existing {
            if c.broken {
                let cost = c.tool.cost() / 2;
                if money >= cost {
                    return Some(BuildPlan::Repair { cost });
                }
            }
        }
        return Some(BuildPlan::Ignore);
    }
    if !is_drag && tool == Tool::ConveyorIron {
        if let Some(c) = existing {
            if c.tool == Tool::ConveyorIron {
                if c.dir == 255 {
                    return None;
                }
                return Some(BuildPlan::Rotate { dir: (c.dir + 1) % 4 });
            }
        }
    }
    if let Some(c) = existing {
        if c.tool == tool {
            return Some(BuildPlan::Ignore);
        }
    }
    if terrain == Terrain::Wasteland && tool != Tool::Eraser {
        return Some(BuildPlan::Irradiated);
    }
    if terrain == Terrain::Water && !matches!(tool, Tool::Pump | Tool::Pipe | Tool::ConveyorIron | Tool::Node | Tool::Street | Tool::Eraser) {
        return Some(BuildPlan::Ignore);
    }
    if terrain == Terrain::Oil && !matches!(tool, Tool::Pumpjack | Tool::Pipe | Tool::ConveyorIron | Tool::Node | Tool::Street | Tool::Eraser) {
        return Some(BuildPlan::Ignore);
    }
    if tool == Tool::Miner && !matches!(terrain, Terrain::Iron | Terrain::Copper | Terrain::Coal | Terrain::Quartz | Terrain::Sand | Terrain::Gold | Terrain::Uranium) {
        return Some(BuildPlan::Ignore);
    }
    if tool == Tool::Lumberjack && terrain != Terrain::Tree {
        return Some(BuildPlan::Ignore);
    }
    if let Some(c) = existing {
        if matches!(c.tool, Tool::Miner | Tool::Pump | Tool::Pumpjack | Tool::Lumberjack) && tool != Tool::Eraser {
            return Some(BuildPlan::Ignore);
        }
    }
    let refund: i64 = match existing {
        Some(c) => c.tool.refund(),
        None => 0,
    };
    let cost: i64 = if tool == Tool::Eraser { 0 } else { tool.cost() };
    let with_refund: i128 = money as i128 + refund as i128;
    let balance: i128 = with_refund - cost as i128;
    if with_refund > i64::MAX as i128 || balance < i64::MIN as i128 {
        return None;
    }
    if balance < 0 {
        return Some(BuildPlan::Ignore);
    }
    let new_money = balance as i64;
    let mut dir: u8 = 0;
    if tool == Tool::ConveyorIron && is_drag && prev.0 >= 0 {
        dir = conveyor_drag_dir(at, prev);
    }
    let cell = if tool == Tool::Eraser { None } else { Some(PlacedCell { tool, dir }) };
    Some(BuildPlan::Place { cell, money: new_money })
}

/// Decides what a build click does. `prev` is the cell the cursor was on
/// before; a negative column there means there was none.
pub fn plan_build(
    terrain: Terrain,
    existing: Option<ExistingCell>,
    selected: Tool,
    is_drag: bool,
    force_erase: bool,
    money: i64,
    prev: (i32, i32),
    at: (i32, i32),
) -> (r: BuildPlan)
    requires
        build_fits(terrain, existing, selected, is_drag, force_erase, money),
    ensures
        r == build_outcome(terrain, existing, selected, is_drag, force_erase, money, prev, at),
        // a placement never leaves the player in debt
        r matches BuildPlan::Place { money: m, .. } ==> m >= 0,
        // irradiated ground only ever changes through the eraser
        terrain == Terrain::Wasteland ==> (r matches BuildPlan::Place { cell: c, .. } ==> c is None),
{
    match plan_build_checked(terrain, existing, selected, is_drag, force_erase, money, prev, at) {
        Some(plan) => plan,
        None => BuildPlan::Ignore,
    }
}

/// Facing of a conveyor dragged from `prev` to `at`; see `drag_dir`.
pub fn conveyor_drag_dir(at: (i32, i32), prev: (i32, i32)) -> (r: u8)
    ensures
        r == drag_dir(at, prev),
        r < 4,
{
    let dx: i64 = at.0 as i64 - prev.0 as i64;
    let dy: i64 = at.1 as i64 - prev.1 as i64;
    let adx: i64 = if dx < 0 { -dx } else { dx };
    let ady: i64 = if dy < 0 { -dy } else { dy };
    if adx > ady {
        if dx > 0 { 1 } else { 3 }
    } else if dy != 0 {
        if dy > 0 { 2 } else { 0 }
    } else {
        0
    }
}

/// Building on an empty cell and erasing the building again never leaves the
/// player richer: the erase always goes through and refunds at most what the
/// building cost.
pub proof fn law_build_then_erase_never_profits(terrain: Terrain, t: Tool, money: i64, prev: (i32, i32), at: (i32, i32))
    ensures
        build_outcome(terrain, None, t, false, false, money, prev, at) matches BuildPlan::Place { cell: Some(c), money: m1 }
            ==> {
            &&& build_outcome(terrain, Some(ExistingCell { tool: c.tool, dir: c.dir, broken: false }), Tool::Eraser, false, false, m1, prev, at)
                == BuildPlan::Place { cell: None, money: (m1 + tool_refund(t)) as i64 }
            &&& m1 + tool_refund(t) <= money
        },
{
    crate::tool::law_refund_at_most_cost(t);
}

/// On an empty cell whose ground suits it, a building goes up facing north
/// and costs exactly its price: water takes pumps, pipes, conveyors, poles and
/// streets; an oil well takes pumpjacks and the same logistics; a miner needs
/// one of the seven ore veins and a lumberjack a tree; other ground (but the
/// irradiated wasteland) takes anything else.
pub proof fn law_suited_ground_takes_the_building(terrain: Terrain, t: Tool, money: i64, prev: (i32, i32), at: (i32, i32))
    requires
        t != Tool::Eraser,
        t != Tool::Repair,
        terrain != Terrain::Wasteland,
        terrain == Terrain::Water ==> (t == Tool::Pump || t == Tool::Pipe || t == Tool::ConveyorIron
            || t == Tool::Node || t == Tool::Street),
        terrain == Terrain::Oil ==> (t == Tool::Pumpjack || t == Tool::Pipe || t == Tool::ConveyorIron
            || t == Tool::Node || t == Tool::Street),
        t == Tool::Miner ==> (terrain == Terrain::Iron || terrain == Terrain::Copper || terrain == Terrain::Coal
            || terrain == Terrain::Quartz || terrain == Terrain::Sand || terrain == Terrain::Gold
            || terrain == Terrain::Uranium),
        t == Tool::Lumberjack ==> terrain == Terrain::Tree,
        money >= tool_cost(t),
    ensures
        build_outcome(terrain, None, t, false, false, money, prev, at)
            == (BuildPlan::Place { cell: Some(PlacedCell { tool: t, dir: 0 }), money: (money - tool_cost(t)) as i64 }),
{
    crate::tool::law_refund_at_most_cost(t);
}

/// An oil well that holds nothing takes a pumpjack whenever the player can pay for it.
pub proof fn law_oil_well_takes_a_pumpjack(money: i64, prev: (i32, i32), at: (i32, i32))
    requires
        money >= tool_cost(Tool::Pumpjack),
    ensures
        build_outcome(Terrain::Oil, None, Tool::Pumpjack, false, false, money, prev, at)
            == (BuildPlan::Place {
                cell: Some(PlacedCell { tool: Tool::Pumpjack, dir: 0 }),
                money: (money - tool_cost(Tool::Pumpjack)) as i64,
            }),
{
    law_suited_ground_takes_the_building(Terrain::Oil, Tool::Pumpjack, money, prev, at);
}

/// Ground that does not suit a building refuses it, whatever the money:
/// water and oil turn away everything but their own buildings and logistics,
/// a miner off an ore vein and a lumberjack off a tree are refused.
pub proof fn law_unsuited_ground_refuses(terrain: Terrain, t: Tool, money: i64, prev: (i32, i32), at: (i32, i32))
    requires
        t != Tool::Eraser,
        t != Tool::Repair,
        terrain != Terrain::Wasteland,
        ({
            ||| terrain == Terrain::Water && !(t == Tool::Pump || t == Tool::Pipe || t == Tool::ConveyorIron
                || t == Tool::Node || t == Tool::Street)
            ||| terrain == Terrain::Oil && !(t == Tool::Pumpjack || t == Tool::Pipe || t == Tool::ConveyorIron
                || t == Tool::Node || t == Tool::Street)
            ||| t == Tool::Miner && (terrain == Terrain::Empty || terrain == Terrain::Tree || terrain == Terrain::Water
                || terrain == Terrain::Oil || terrain == Terrain::Mountain)
            ||| t == Tool::Lumberjack && terrain != Terrain::Tree
        }),
    ensures
        build_outcome(terrain, None, t, false, false, money, prev, at) == BuildPlan::Ignore,
{
}

/// A click on a conveyor turns it a quarter, on any ground and whatever the
/// money: four clicks pass through all four facings and bring it back.
pub proof fn law_conveyor_turns_through_all_facings(
    terrain: Terrain,
    d: u8,
    broken: bool,
    money: i64,
    prev: (i32, i32),
    at: (i32, i32),
)
    requires
        d < 4,
    ensures
        ({
            let turn = |x: u8| build_outcome(terrain, Some(ExistingCell { tool: Tool::ConveyorIron, dir: x, broken }),
                Tool::ConveyorIron, false, false, money, prev, at);
            let d1 = turn(d)->Rotate_dir;
            let d2 = turn(d1)->Rotate_dir;
            let d3 = turn(d2)->Rotate_dir;
            &&& turn(d) is Rotate && turn(d1) is Rotate && turn(d2) is Rotate && turn(d3) is Rotate
            &&& d1 < 4 && d2 < 4 && d3 < 4
            &&& d != d1 && d != d2 && d != d3 && d1 != d2 && d1 != d3 && d2 != d3
            &&& turn(d3)->Rotate_dir == d
        }),
{
}

/// A conveyor laid by dragging faces the way the cursor moved along a row or
/// a column: east, west, south (growing rows) or north.
pub proof fn law_dragged_conveyor_follows_the_cursor(at: (i32, i32), prev: (i32, i32))
    ensures
        at.1 == prev.1 && at.0 > prev.0 ==> drag_dir(at, prev) == 1,
        at.1 == prev.1 && at.0 < prev.0 ==> drag_dir(at, prev) == 3,
        at.0 == prev.0 && at.1 > prev.1 ==> drag_dir(at, prev) == 2,
        at.0 == prev.0 && at.1 < prev.1 ==> drag_dir(at, prev) == 0,
        drag_dir(at, prev) < 4,
{
}

} // verus!
