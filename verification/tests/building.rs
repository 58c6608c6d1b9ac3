use factorio_street::placement::{conveyor_drag_dir, plan_build, plan_build_checked, BuildPlan, ExistingCell, PlacedCell};
use factorio_street::terrain::Terrain;
use factorio_street::tool::Tool;

fn cell(tool: Tool, dir: u8, broken: bool) -> Option<ExistingCell> {
    Some(ExistingCell { tool, dir, broken })
}

#[test]
fn placing_charges_the_cost() {
    let r = plan_build(Terrain::Empty, None, Tool::House, false, false, 1000, (-1, -1), (5, 5));
    assert_eq!(r, BuildPlan::Place { cell: Some(PlacedCell { tool: Tool::House, dir: 0 }), money: 900 });
}

#[test]
fn replacing_refunds_the_old_structure() {
    let r = plan_build(Terrain::Empty, cell(Tool::Street, 0, false), Tool::House, false, false, 95, (-1, -1), (5, 5));
    assert_eq!(r, BuildPlan::Place { cell: Some(PlacedCell { tool: Tool::House, dir: 0 }), money: 0 });
    let r = plan_build(Terrain::Empty, cell(Tool::Street, 0, false), Tool::House, false, false, 94, (-1, -1), (5, 5));
    assert_eq!(r, BuildPlan::Ignore);
}

#[test]
fn erasing_refunds() {
    let r = plan_build(Terrain::Empty, cell(Tool::Quantum, 0, false), Tool::House, true, true, 10, (-1, -1), (0, 0));
    assert_eq!(r, BuildPlan::Place { cell: None, money: 2510 });
    let r = plan_build(Terrain::Empty, None, Tool::Eraser, false, false, 10, (-1, -1), (0, 0));
    assert_eq!(r, BuildPlan::Place { cell: None, money: 10 });
}

#[test]
fn repair_costs_half_the_price() {
    let r = plan_build(Terrain::Empty, cell(Tool::Press, 0, true), Tool::Repair, false, false, 500, (-1, -1), (0, 0));
    assert_eq!(r, BuildPlan::Repair { cost: 200 });
    let r = plan_build(Terrain::Empty, cell(Tool::ConveyorIron, 0, true), Tool::Repair, false, false, 7, (-1, -1), (0, 0));
    assert_eq!(r, BuildPlan::Repair { cost: 7 });
    let r = plan_build(Terrain::Empty, cell(Tool::Press, 0, true), Tool::Repair, false, false, 199, (-1, -1), (0, 0));
    assert_eq!(r, BuildPlan::Ignore);
    let r = plan_build(Terrain::Empty, cell(Tool::Press, 0, false), Tool::Repair, false, false, 500, (-1, -1), (0, 0));
    assert_eq!(r, BuildPlan::Ignore);
    let r = plan_build(Terrain::Empty, None, Tool::Repair, false, false, 500, (-1, -1), (0, 0));
    assert_eq!(r, BuildPlan::Ignore);
}

#[test]
fn clicking_a_conveyor_rotates_it() {
    let r = plan_build(Terrain::Empty, cell(Tool::ConveyorIron, 3, false), Tool::ConveyorIron, false, false, 0, (-1, -1), (0, 0));
    assert_eq!(r, BuildPlan::Rotate { dir: 0 });
    // dragging over it leaves it alone
    let r = plan_build(Terrain::Empty, cell(Tool::ConveyorIron, 3, false), Tool::ConveyorIron, true, false, 0, (1, 0), (0, 0));
    assert_eq!(r, BuildPlan::Ignore);
}

#[test]
fn same_tool_does_nothing() {
    let r = plan_build(Terrain::Empty, cell(Tool::House, 0, false), Tool::House, false, false, 1000, (-1, -1), (0, 0));
    assert_eq!(r, BuildPlan::Ignore);
}

#[test]
fn irradiated_ground_only_takes_the_eraser() {
    let r = plan_build(Terrain::Wasteland, None, Tool::House, false, false, 1000, (-1, -1), (0, 0));
    assert_eq!(r, BuildPlan::Irradiated);
    let r = plan_build(Terrain::Wasteland, cell(Tool::House, 0, false), Tool::Eraser, false, false, 0, (-1, -1), (0, 0));
    assert_eq!(r, BuildPlan::Place { cell: None, money: 50 });
}

#[test]
fn terrain_restrictions() {
    assert_eq!(plan_build(Terrain::Water, None, Tool::House, false, false, 1000, (-1, -1), (0, 0)), BuildPlan::Ignore);
    assert_eq!(
        plan_build(Terrain::Water, None, Tool::Pump, false, false, 1000, (-1, -1), (0, 0)),
        BuildPlan::Place { cell: Some(PlacedCell { tool: Tool::Pump, dir: 0 }), money: 850 }
    );
    assert_eq!(plan_build(Terrain::Oil, None, Tool::Pump, false, false, 1000, (-1, -1), (0, 0)), BuildPlan::Ignore);
    assert_eq!(plan_build(Terrain::Empty, None, Tool::Miner, false, false, 1000, (-1, -1), (0, 0)), BuildPlan::Ignore);
    assert_eq!(
        plan_build(Terrain::Gold, None, Tool::Miner, false, false, 1000, (-1, -1), (0, 0)),
        BuildPlan::Place { cell: Some(PlacedCell { tool: Tool::Miner, dir: 0 }), money: 850 }
    );
    assert_eq!(plan_build(Terrain::Sand, None, Tool::Lumberjack, false, false, 1000, (-1, -1), (0, 0)), BuildPlan::Ignore);
}

#[test]
fn extractors_only_yield_to_the_eraser() {
    let r = plan_build(Terrain::Iron, cell(Tool::Miner, 0, false), Tool::Smelter, false, false, 1000, (-1, -1), (0, 0));
    assert_eq!(r, BuildPlan::Ignore);
    let r = plan_build(Terrain::Iron, cell(Tool::Miner, 0, false), Tool::Eraser, false, false, 1000, (-1, -1), (0, 0));
    assert_eq!(r, BuildPlan::Place { cell: None, money: 1075 });
}

#[test]
fn dragged_conveyors_follow_the_cursor() {
    assert_eq!(conveyor_drag_dir((5, 0), (4, 0)), 1);
    assert_eq!(conveyor_drag_dir((3, 0), (4, 0)), 3);
    assert_eq!(conveyor_drag_dir((4, 1), (4, 0)), 2);
    assert_eq!(conveyor_drag_dir((4, -1), (4, 0)), 0);
    assert_eq!(conveyor_drag_dir((5, 1), (4, 0)), 2);
    assert_eq!(conveyor_drag_dir((4, 0), (4, 0)), 0);
    let r = plan_build(Terrain::Empty, None, Tool::ConveyorIron, true, false, 100, (4, 0), (3, 0));
    assert_eq!(r, BuildPlan::Place { cell: Some(PlacedCell { tool: Tool::ConveyorIron, dir: 3 }), money: 85 });
    let r = plan_build(Terrain::Empty, None, Tool::ConveyorIron, true, false, 100, (-1, 0), (3, 0));
    assert_eq!(r, BuildPlan::Place { cell: Some(PlacedCell { tool: Tool::ConveyorIron, dir: 0 }), money: 85 });
}

#[test]
fn building_then_erasing_costs_the_difference() {
    let built = plan_build(Terrain::Empty, None, Tool::House, false, false, 1000, (-1, -1), (3, 3));
    let money = match built {
        BuildPlan::Place { cell: Some(c), money } => {
            assert_eq!(c, PlacedCell { tool: Tool::House, dir: 0 });
            money
        }
        other => panic!("unexpected {:?}", other),
    };
    assert_eq!(money, 900);
    let existing = Some(ExistingCell { tool: Tool::House, dir: 0, broken: false });
    let erased = plan_build(Terrain::Empty, existing, Tool::Eraser, false, false, money, (-1, -1), (3, 3));
    assert_eq!(erased, BuildPlan::Place { cell: None, money: 950 });
}

#[test]
fn overflowing_clicks_are_refused() {
    // turning a conveyor whose facing byte is already at its maximum
    let worn = cell(Tool::ConveyorIron, 255, false);
    assert_eq!(plan_build_checked(Terrain::Empty, worn, Tool::ConveyorIron, false, false, 100, (-1, -1), (0, 0)), None);
    // refunding onto a full purse
    let house = cell(Tool::House, 0, false);
    assert_eq!(plan_build_checked(Terrain::Empty, house, Tool::Eraser, false, false, i64::MAX, (-1, -1), (0, 0)), None);
    // money at the top is fine where nothing is priced
    assert_eq!(
        plan_build_checked(Terrain::Wasteland, None, Tool::House, false, false, i64::MAX, (-1, -1), (0, 0)),
        Some(BuildPlan::Irradiated)
    );
    assert_eq!(
        plan_build_checked(Terrain::Empty, None, Tool::House, false, false, 1000, (-1, -1), (0, 0)),
        Some(BuildPlan::Place { cell: Some(PlacedCell { tool: Tool::House, dir: 0 }), money: 900 })
    );
}
