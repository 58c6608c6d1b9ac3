use factorio_street::industry::{eject_side, meltdown_zone, Side};
use factorio_street::industry::{
    assembler_recipe, can_eject_onto, centrifuge_can_start, consume_recipe, first_stocked, has_any,
    in_meltdown_radius, machine_accepts, quantum_can_start, smelt_product, Recipe,
};
use factorio_street::item::{ItemType, ITEM_COUNT};
use factorio_street::tool::Tool;

fn buffer(items: &[(ItemType, i32)]) -> [i32; ITEM_COUNT] {
    let mut b = [0; ITEM_COUNT];
    for (it, n) in items {
        b[it.to_index()] = *n;
    }
    b
}

#[test]
fn smelting() {
    assert_eq!(smelt_product(ItemType::IronOre), ItemType::IronPlate);
    assert_eq!(smelt_product(ItemType::SandOre), ItemType::Glass);
    assert_eq!(smelt_product(ItemType::QuartzOre), ItemType::Silicon);
    assert_eq!(smelt_product(ItemType::UraniumOre), ItemType::UraniumOre);
    assert_eq!(smelt_product(ItemType::Wood), ItemType::Wood);
}

#[test]
fn first_stocked_slot() {
    assert_eq!(first_stocked(&buffer(&[])), None);
    assert_eq!(first_stocked(&buffer(&[(ItemType::GoldOre, 2), (ItemType::CopperOre, 1)])), Some(ItemType::CopperOre));
    assert_eq!(first_stocked(&buffer(&[(ItemType::IronOre, -1), (ItemType::Wood, 3)])), Some(ItemType::Wood));
    assert!(has_any(&buffer(&[(ItemType::AiCore, 1)])));
    assert!(!has_any(&buffer(&[(ItemType::AiCore, -4)])));
}

#[test]
fn assembler_prefers_steel() {
    let all = buffer(&[
        (ItemType::IronPlate, 1), (ItemType::CoalPlate, 1), (ItemType::Glass, 1),
        (ItemType::CopperWire, 1), (ItemType::Silicon, 1),
    ]);
    assert_eq!(assembler_recipe(&all), Some(Recipe { output: ItemType::Steel, first: ItemType::IronPlate, second: ItemType::CoalPlate }));
    let b = buffer(&[(ItemType::Glass, 1), (ItemType::CopperWire, 1), (ItemType::Silicon, 1)]);
    assert_eq!(assembler_recipe(&b), Some(Recipe { output: ItemType::Processor, first: ItemType::Glass, second: ItemType::CopperWire }));
    let c = buffer(&[(ItemType::CopperWire, 2), (ItemType::Silicon, 1)]);
    assert_eq!(assembler_recipe(&c), Some(Recipe { output: ItemType::CircuitBoard, first: ItemType::Silicon, second: ItemType::CopperWire }));
    assert_eq!(assembler_recipe(&buffer(&[(ItemType::IronPlate, 3)])), None);
}

#[test]
fn consuming_a_recipe() {
    let mut b = buffer(&[(ItemType::CopperWire, 2), (ItemType::Silicon, 1)]);
    let r = assembler_recipe(&b).unwrap();
    consume_recipe(&mut b, r);
    assert_eq!(b, buffer(&[(ItemType::CopperWire, 1)]));
}

#[test]
fn start_conditions() {
    assert!(quantum_can_start(&buffer(&[(ItemType::Processor, 1), (ItemType::Plastic, 1), (ItemType::GoldIngot, 1)])));
    assert!(!quantum_can_start(&buffer(&[(ItemType::Processor, 1), (ItemType::Plastic, 1)])));
    assert!(centrifuge_can_start(&buffer(&[(ItemType::UraniumOre, 3)])));
    assert!(!centrifuge_can_start(&buffer(&[(ItemType::UraniumOre, 2)])));
}

#[test]
fn conveyor_deliveries() {
    assert!(machine_accepts(Tool::Smelter, ItemType::Wood));
    assert!(!machine_accepts(Tool::Smelter, ItemType::IronPlate));
    assert!(machine_accepts(Tool::Press, ItemType::CopperPlate));
    assert!(!machine_accepts(Tool::Press, ItemType::IronPlate));
    assert!(machine_accepts(Tool::Assembler, ItemType::IronPlate));
    assert!(machine_accepts(Tool::Assembler, ItemType::CoalPlate));
    assert!(machine_accepts(Tool::Assembler, ItemType::Glass));
    assert!(machine_accepts(Tool::Assembler, ItemType::Silicon));
    assert!(machine_accepts(Tool::Assembler, ItemType::CopperWire));
    assert!(machine_accepts(Tool::Assembler, ItemType::CopperPlate));
    assert!(!machine_accepts(Tool::Assembler, ItemType::Steel));
    assert!(machine_accepts(Tool::CoalPlant, ItemType::CoalOre));
    assert!(machine_accepts(Tool::Nuclear, ItemType::UraniumCell));
    assert!(machine_accepts(Tool::Centrifuge, ItemType::UraniumOre));
    assert!(machine_accepts(Tool::Quantum, ItemType::Processor));
    assert!(machine_accepts(Tool::Quantum, ItemType::Plastic));
    assert!(machine_accepts(Tool::Quantum, ItemType::GoldIngot));
    assert!(!machine_accepts(Tool::Quantum, ItemType::Steel));
    assert!(!machine_accepts(Tool::ChemPlant, ItemType::Plastic));
    assert!(!machine_accepts(Tool::House, ItemType::IronOre));
}

#[test]
fn ejection_side() {
    // a conveyor facing south (2) on the machine's north side (0) points into the machine
    assert!(!can_eject_onto(2, 0));
    assert!(can_eject_onto(0, 0));
    assert!(can_eject_onto(1, 0));
    assert!(!can_eject_onto(3, 1));
    assert!(!can_eject_onto(255, 1));
}

#[test]
fn meltdown_disk() {
    assert!(in_meltdown_radius(0, 0));
    assert!(in_meltdown_radius(8, 0));
    assert!(in_meltdown_radius(-6, 5));
    assert!(!in_meltdown_radius(6, 6));
    assert!(in_meltdown_radius(4, -6));
    assert!(!in_meltdown_radius(8, 1));
    let count = (-8..=8).flat_map(|x| (-8..=8).map(move |y| (x, y))).filter(|&(x, y)| in_meltdown_radius(x, y)).count();
    assert_eq!(count, 197);
}

#[test]
fn output_goes_to_the_first_free_belt() {
    let none = Side { belt_dir: None, occupied: false };
    // north holds a belt pointing south, back into the machine; east is busy
    let sides = [
        Side { belt_dir: Some(2), occupied: false },
        Side { belt_dir: Some(1), occupied: true },
        Side { belt_dir: Some(2), occupied: false },
        Side { belt_dir: Some(3), occupied: false },
    ];
    assert_eq!(eject_side(&sides), Some(2));
    assert_eq!(eject_side(&[none; 4]), None);
    let west_only = [none, none, none, Side { belt_dir: Some(0), occupied: false }];
    assert_eq!(eject_side(&west_only), Some(3));
    // a belt on the west side pointing east leads back in
    let back = [none, none, none, Side { belt_dir: Some(1), occupied: false }];
    assert_eq!(eject_side(&back), None);
}

#[test]
fn meltdown_zone_is_a_disc_of_radius_eight() {
    let cells = meltdown_zone(10, -3);
    assert_eq!(cells.len(), 197);
    assert_eq!(cells[0], (10, -11));
    assert_eq!(*cells.last().unwrap(), (10, 5));
    assert!(cells.contains(&(16, 2)));
    assert!(!cells.contains(&(16, 3)));
    for w in cells.windows(2) {
        assert!((w[0].1, w[0].0) < (w[1].1, w[1].0));
    }
}
