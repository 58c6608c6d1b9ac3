use factorio_street::item::{ItemType, ITEM_COUNT};
use factorio_street::machine::{Machine, Request};
use factorio_street::terrain::Terrain;
use factorio_street::tool::Tool;

fn with(items: &[(ItemType, i32)]) -> Machine {
    let mut m = Machine::new();
    for (it, n) in items {
        m.buffer[it.to_index()] = *n;
    }
    m
}

#[test]
fn miner_ejects_the_ore_beneath_it() {
    let mut m = Machine::new();
    let r = m.begin_tick(Tool::Miner, Terrain::Copper, true);
    assert_eq!(r, Request::Eject { item: ItemType::CopperOre, wear: 2 });
    let r = m.begin_tick(Tool::Miner, Terrain::Empty, true);
    assert_eq!(r, Request::Idle);
    let r = m.begin_tick(Tool::Lumberjack, Terrain::Tree, true);
    assert_eq!(r, Request::Eject { item: ItemType::Wood, wear: 2 });
    // no power, no work
    let r = m.begin_tick(Tool::Miner, Terrain::Copper, false);
    assert_eq!(r, Request::Idle);
}

#[test]
fn smelter_cycle() {
    let mut m = with(&[(ItemType::SandOre, 2), (ItemType::GoldOre, 1)]);
    assert_eq!(m.begin_tick(Tool::Smelter, Terrain::Empty, true), Request::Idle);
    assert_eq!(m.processing, 50);
    assert_eq!(m.begin_tick(Tool::Smelter, Terrain::Empty, true), Request::Idle);
    assert_eq!(m.processing, 100);
    // the first stocked ore in slot order is sand
    let r = m.begin_tick(Tool::Smelter, Terrain::Empty, true);
    assert_eq!(r, Request::Eject { item: ItemType::Glass, wear: 5 });
    // belt full: nothing changes
    assert!(!m.finish_tick(Tool::Smelter, r, false));
    assert_eq!(m.processing, 100);
    assert_eq!(m.buffer[ItemType::SandOre.to_index()], 2);
    // dropped: the whole buffer is spent
    assert!(!m.finish_tick(Tool::Smelter, r, true));
    assert_eq!(m.processing, 0);
    assert_eq!(m.buffer, [0; ITEM_COUNT]);
}

#[test]
fn press_waits_for_copper_plate() {
    let mut m = with(&[(ItemType::IronPlate, 1)]);
    m.begin_tick(Tool::Press, Terrain::Empty, true);
    m.begin_tick(Tool::Press, Terrain::Empty, true);
    assert_eq!(m.processing, 100);
    assert_eq!(m.begin_tick(Tool::Press, Terrain::Empty, true), Request::Idle);
    m.buffer[ItemType::CopperPlate.to_index()] = 1;
    assert_eq!(
        m.begin_tick(Tool::Press, Terrain::Empty, true),
        Request::Eject { item: ItemType::CopperWire, wear: 3 }
    );
}

#[test]
fn centrifuge_spends_three_ores() {
    let mut m = with(&[(ItemType::UraniumOre, 4)]);
    for _ in 0..5 {
        assert_eq!(m.begin_tick(Tool::Centrifuge, Terrain::Empty, true), Request::Idle);
    }
    assert_eq!(m.processing, 100);
    let r = m.begin_tick(Tool::Centrifuge, Terrain::Empty, true);
    assert_eq!(r, Request::Eject { item: ItemType::UraniumCell, wear: 10 });
    m.finish_tick(Tool::Centrifuge, r, true);
    assert_eq!(m.buffer[ItemType::UraniumOre.to_index()], 1);
    assert_eq!(m.processing, 0);
    // too few ores to start again
    assert_eq!(m.begin_tick(Tool::Centrifuge, Terrain::Empty, true), Request::Idle);
    assert_eq!(m.processing, 0);
}

#[test]
fn assembler_tick_makes_steel_first() {
    let mut m = with(&[
        (ItemType::IronPlate, 1),
        (ItemType::CoalPlate, 1),
        (ItemType::Glass, 1),
        (ItemType::CopperWire, 1),
    ]);
    for _ in 0..4 {
        m.begin_tick(Tool::Assembler, Terrain::Empty, true);
    }
    assert_eq!(m.processing, 100);
    let r = m.begin_tick(Tool::Assembler, Terrain::Empty, true);
    assert_eq!(r, Request::Eject { item: ItemType::Steel, wear: 10 });
    m.finish_tick(Tool::Assembler, r, true);
    assert_eq!(m.buffer[ItemType::IronPlate.to_index()], 0);
    assert_eq!(m.buffer[ItemType::CoalPlate.to_index()], 0);
    assert_eq!(m.buffer[ItemType::Glass.to_index()], 1);
    assert_eq!(m.processing, 0);
}

#[test]
fn chemical_plant_draws_feedstock() {
    let mut m = Machine::new();
    let r = m.begin_tick(Tool::ChemPlant, Terrain::Empty, true);
    assert_eq!(r, Request::Feedstock);
    m.finish_tick(Tool::ChemPlant, r, false);
    assert_eq!(m.processing, 0);
    for _ in 0..5 {
        let r = m.begin_tick(Tool::ChemPlant, Terrain::Empty, true);
        m.finish_tick(Tool::ChemPlant, r, true);
    }
    assert_eq!(m.processing, 100);
    let r = m.begin_tick(Tool::ChemPlant, Terrain::Empty, true);
    assert_eq!(r, Request::Eject { item: ItemType::Plastic, wear: 10 });
    m.finish_tick(Tool::ChemPlant, r, true);
    assert_eq!(m.processing, 0);
}

#[test]
fn quantum_computer_cycle() {
    let mut m = with(&[(ItemType::Processor, 1), (ItemType::Plastic, 2), (ItemType::GoldIngot, 1)]);
    for _ in 0..10 {
        m.begin_tick(Tool::Quantum, Terrain::Empty, true);
    }
    assert_eq!(m.processing, 100);
    let r = m.begin_tick(Tool::Quantum, Terrain::Empty, true);
    assert_eq!(r, Request::Eject { item: ItemType::AiCore, wear: 20 });
    m.finish_tick(Tool::Quantum, r, true);
    assert_eq!(m.buffer[ItemType::Processor.to_index()], 0);
    assert_eq!(m.buffer[ItemType::Plastic.to_index()], 1);
    assert_eq!(m.buffer[ItemType::GoldIngot.to_index()], 0);
}

#[test]
fn coal_plant_burns_its_own_fuel() {
    let mut m = with(&[(ItemType::CoalOre, 1)]);
    // unpowered and without fuel it cannot light itself
    m.begin_tick(Tool::CoalPlant, Terrain::Empty, false);
    assert_eq!(m.fuel, 0);
    assert_eq!(m.buffer[ItemType::CoalOre.to_index()], 1);
    m.begin_tick(Tool::CoalPlant, Terrain::Empty, true);
    assert_eq!(m.fuel, 10);
    assert_eq!(m.buffer[ItemType::CoalOre.to_index()], 0);
    // once lit it runs without the grid
    assert!(m.runs(Tool::CoalPlant, false));
    m.begin_tick(Tool::CoalPlant, Terrain::Empty, false);
    assert_eq!(m.fuel, 9);
}

#[test]
fn reactor_cooling_and_meltdown() {
    let mut m = with(&[(ItemType::UraniumCell, 1)]);
    assert_eq!(m.begin_tick(Tool::Nuclear, Terrain::Empty, true), Request::Idle);
    assert_eq!(m.fuel, 40);
    let r = m.begin_tick(Tool::Nuclear, Terrain::Empty, false);
    assert_eq!(r, Request::Coolant);
    assert_eq!(m.fuel, 39);
    assert!(!m.finish_tick(Tool::Nuclear, r, false));
    assert_eq!(m.heat, 15);
    assert!(!m.finish_tick(Tool::Nuclear, Request::Coolant, true));
    assert_eq!(m.heat, 5);
    m.heat = 84;
    assert!(!m.finish_tick(Tool::Nuclear, Request::Coolant, false));
    assert_eq!(m.heat, 99);
    assert!(m.finish_tick(Tool::Nuclear, Request::Coolant, false));
}

#[test]
fn idle_reactor_cools_down() {
    let mut m = Machine::new();
    m.heat = 7;
    m.begin_tick(Tool::Nuclear, Terrain::Empty, true);
    assert_eq!(m.heat, 2);
    m.begin_tick(Tool::Nuclear, Terrain::Empty, true);
    assert_eq!(m.heat, 0);
}

#[test]
fn belt_deliveries() {
    let mut m = Machine::new();
    assert!(m.accept_item(Tool::Smelter, ItemType::Wood));
    assert_eq!(m.buffer[ItemType::Wood.to_index()], 1);
    assert!(!m.accept_item(Tool::Smelter, ItemType::IronPlate));
    assert_eq!(m.buffer[ItemType::IronPlate.to_index()], 0);
    assert!(m.accept_item(Tool::Assembler, ItemType::Glass));
    assert_eq!(m.buffer[ItemType::Glass.to_index()], 1);
    assert!(m.accept_item(Tool::Assembler, ItemType::CopperPlate));
    assert!(!m.accept_item(Tool::Assembler, ItemType::Steel));
    assert!(m.accept_item(Tool::Centrifuge, ItemType::UraniumOre));
    assert!(!m.accept_item(Tool::ChemPlant, ItemType::Plastic));
}

#[test]
fn centrifuge_on_uranium_draws_its_own_ore() {
    let mut m = Machine::new();
    let mut cells = 0;
    for tick in 1..=8 {
        let r = m.begin_tick(Tool::Centrifuge, Terrain::Uranium, true);
        if let Request::Eject { item, .. } = r {
            assert_eq!(item, ItemType::UraniumCell);
            assert_eq!(tick, 8);
            m.finish_tick(Tool::Centrifuge, r, true);
            cells += 1;
        }
    }
    assert_eq!(cells, 1);
    assert_eq!(m.buffer[ItemType::UraniumOre.to_index()], 0);
    assert_eq!(m.processing, 0);
    // it stops drawing once it holds three
    let mut n = Machine::new();
    for _ in 0..3 {
        n.begin_tick(Tool::Centrifuge, Terrain::Uranium, true);
    }
    assert_eq!(n.buffer[ItemType::UraniumOre.to_index()], 3);
    n.begin_tick(Tool::Centrifuge, Terrain::Uranium, true);
    assert_eq!(n.buffer[ItemType::UraniumOre.to_index()], 3);
    // unpowered it draws nothing
    let mut o = Machine::new();
    o.begin_tick(Tool::Centrifuge, Terrain::Uranium, false);
    assert_eq!(o.buffer[ItemType::UraniumOre.to_index()], 0);
}

#[test]
fn assembler_fed_by_belts_makes_a_processor() {
    let mut m = Machine::new();
    assert!(m.accept_item(Tool::Assembler, ItemType::Glass));
    assert!(m.accept_item(Tool::Assembler, ItemType::CopperWire));
    for _ in 0..4 {
        m.begin_tick(Tool::Assembler, Terrain::Empty, true);
    }
    let r = m.begin_tick(Tool::Assembler, Terrain::Empty, true);
    assert_eq!(r, Request::Eject { item: ItemType::Processor, wear: 10 });
}
