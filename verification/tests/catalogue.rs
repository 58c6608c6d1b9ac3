use factorio_street::item::{FluidType, ItemType, ITEM_COUNT};
use factorio_street::terrain::Terrain;
use factorio_street::tool::Tool;

#[test]
fn item_index_roundtrip() {
    let all = ItemType::all();
    assert_eq!(all.len(), ITEM_COUNT);
    for (i, it) in all.iter().enumerate() {
        assert_eq!(it.to_index(), i);
        assert_eq!(ItemType::from_index(i), *it);
    }
    assert_eq!(ItemType::from_index(21), ItemType::AiCore);
    assert_eq!(ItemType::from_index(1000), ItemType::AiCore);
    assert_eq!(ItemType::CopperWire.to_index(), 15);
}

#[test]
fn item_key_roundtrip() {
    for it in ItemType::all() {
        assert_eq!(ItemType::from_key(it.key()), Some(*it));
    }
    assert_eq!(ItemType::from_key("circuit_board"), Some(ItemType::CircuitBoard));
    assert_eq!(ItemType::from_key("Circuit_Board"), None);
    assert_eq!(ItemType::from_key(""), None);
    assert_eq!(ItemType::from_key("iron_ore "), None);
}

#[test]
fn item_names_and_prices() {
    assert_eq!(ItemType::Steel.name_pt(), "AÇO");
    assert_eq!(ItemType::UraniumCell.name_pt(), "CÉL. URÂNIO");
    assert_eq!(ItemType::AiCore.base_price(), 3500);
    assert_eq!(ItemType::SandOre.base_price(), 1);
    assert_eq!(ItemType::Processor.key(), "processor");
}

#[test]
fn tradeable_items_are_the_processed_goods() {
    let t = ItemType::tradeable_items();
    assert_eq!(t.len(), 13);
    for it in ItemType::all() {
        assert_eq!(t.contains(it), !it.is_ore());
    }
    assert!(ItemType::Wood.is_ore());
    assert!(!ItemType::IronPlate.is_ore());
}

#[test]
fn fluid_types_differ() {
    assert_ne!(FluidType::Water, FluidType::CrudeOil);
}

#[test]
fn tool_catalogue() {
    let all = Tool::all();
    assert_eq!(all.len(), 24);
    assert_eq!(Tool::Quantum.cost(), 5000);
    assert_eq!(Tool::Quantum.refund(), 2500);
    assert_eq!(Tool::Eraser.cost(), 0);
    assert_eq!(Tool::Nuclear.upkeep(), -100);
    assert_eq!(Tool::House.upkeep(), 15);
    assert_eq!(Tool::Nuclear.power_gen(), 2500);
    assert_eq!(Tool::Quantum.power_cons(), 300);
    assert_eq!(Tool::Node.power_gen(), 0);
    assert_eq!(Tool::CoalPlant.name_pt(), "TERMELÉTRICA");
    assert!(Tool::Market.has_pipes());
    assert!(!Tool::Smelter.has_pipes());
}

#[test]
fn refund_never_exceeds_cost() {
    for t in Tool::all() {
        assert!(t.refund() >= 0);
        assert!(t.refund() <= t.cost());
    }
}

#[test]
fn hotkeys_select_their_tool() {
    for t in Tool::all() {
        let key = t.hotkey();
        assert_eq!(key.chars().count(), 1);
        let c = key.chars().next().unwrap();
        assert_eq!(Tool::from_key(c), Some(*t));
    }
    assert_eq!(Tool::from_key('Q'), Some(Tool::Miner));
    assert_eq!(Tool::from_key('W'), None);
    assert_eq!(Tool::from_key('q'), None);
}

#[test]
fn tool_categories() {
    let counts: Vec<usize> = (0..5).map(|c| Tool::all().iter().filter(|t| t.category() == c).count()).collect();
    assert_eq!(counts, vec![7, 4, 5, 6, 2]);
    assert_eq!(Tool::Battery.category(), 2);
}

#[test]
fn terrain_data() {
    assert_eq!(Terrain::Oil.name_pt(), "POÇO PETRÓLEO");
    assert_eq!(Terrain::Mountain.priority(), 100);
    assert_eq!(Terrain::Water.priority(), 1);
    assert_eq!(Terrain::Sand.ore_type(), Some(ItemType::SandOre));
    assert_eq!(Terrain::Tree.ore_type(), None);
    assert_eq!(Terrain::Oil.ore_type(), None);
}

#[test]
fn ores_are_raw_and_priorities_distinct() {
    let all = [
        Terrain::Empty, Terrain::Water, Terrain::Tree, Terrain::Sand, Terrain::Iron, Terrain::Copper,
        Terrain::Coal, Terrain::Quartz, Terrain::Gold, Terrain::Oil, Terrain::Uranium, Terrain::Wasteland,
        Terrain::Mountain,
    ];
    for a in all.iter() {
        if let Some(it) = a.ore_type() {
            assert!(it.is_ore());
            assert_ne!(it, ItemType::Wood);
        }
        for b in all.iter() {
            if a != b {
                assert_ne!(a.priority(), b.priority());
            }
        }
    }
}
