//! Item kinds carried on conveyors, stored in machine buffers and traded.

use vstd::prelude::*;
use crate::text::str_equal;

verus! {

/// Number of item kinds; every machine buffer has one slot per kind.
pub const ITEM_COUNT: usize = 21;

/// The two fluids that flow through pipes.
#[derive(Clone, Copy, Debug, PartialEq, Eq, Hash, Structural)]
pub enum FluidType {
    Water,
    CrudeOil,
}

/// Every item kind of the game, raw ores first, then processed goods.
#[derive(Clone, Copy, Debug, PartialEq, Eq, Hash, Structural)]
pub enum ItemType {
    IronOre,
    CopperOre,
    CoalOre,
    QuartzOre,
    SandOre,
    GoldOre,
    UraniumOre,
    Wood,
    IronPlate,
    CopperPlate,
    CoalPlate,
    Silicon,
    Glass,
    GoldIngot,
    UraniumCell,
    CopperWire,
    Steel,
    Plastic,
    CircuitBoard,
    Processor,
    AiCore,
}

/// The canonical order of the item kinds: an item's buffer slot is its position here.
pub open spec fn item_order() -> Seq<ItemType> {
    seq![
        ItemType::IronOre, ItemType::CopperOre, ItemType::CoalOre, ItemType::QuartzOre,
        ItemType::SandOre, ItemType::GoldOre, ItemType::UraniumOre, ItemType::Wood,
        ItemType::IronPlate, ItemType::CopperPlate, ItemType::CoalPlate, ItemType::Silicon,
        ItemType::Glass, ItemType::GoldIngot, ItemType::UraniumCell, ItemType::CopperWire,
        ItemType::Steel, ItemType::Plastic, ItemType::CircuitBoard, ItemType::Processor,
        ItemType::AiCore,
    ]
}

/// The buffer slot of an item: its position in `item_order()`.
pub open spec fn item_slot(it: ItemType) -> int {
    match it {
        ItemType::IronOre => 0,
        ItemType::CopperOre => 1,
        ItemType::CoalOre => 2,
        ItemType::QuartzOre => 3,
        ItemType::SandOre => 4,
        ItemType::GoldOre => 5,
        ItemType::UraniumOre => 6,
        ItemType::Wood => 7,
        ItemType::IronPlate => 8,
        ItemType::CopperPlate => 9,
        ItemType::CoalPlate => 10,
        ItemType::Silicon => 11,
        ItemType::Glass => 12,
        ItemType::GoldIngot => 13,
        ItemType::UraniumCell => 14,
        ItemType::CopperWire => 15,
        ItemType::Steel => 16,
        ItemType::Plastic => 17,
        ItemType::CircuitBoard => 18,
        ItemType::Processor => 19,
        ItemType::AiCore => 20,
    }
}

/// Portuguese display name of an item.
pub open spec fn item_name(it: ItemType) -> Seq<char> {
    match it {
        ItemType::IronOre => "MINÉRIO FERRO"@,
        ItemType::CopperOre => "MINÉRIO COBRE"@,
        ItemType::CoalOre => "CARVÃO"@,
        ItemType::QuartzOre => "QUARTZO"@,
        ItemType::SandOre => "AREIA"@,
        ItemType::GoldOre => "MINÉRIO OURO"@,
        ItemType::UraniumOre => "URÂNIO"@,
        ItemType::Wood => "MADEIRA"@,
        ItemType::IronPlate => "CHAPA FERRO"@,
        ItemType::CopperPlate => "CHAPA COBRE"@,
        ItemType::CoalPlate => "CHAPA CARVÃO"@,
        ItemType::Silicon => "SILÍCIO"@,
        ItemType::Glass => "VIDRO"@,
        ItemType::GoldIngot => "LINGOTE OURO"@,
        ItemType::UraniumCell => "CÉL. URÂNIO"@,
        ItemType::CopperWire => "FIO COBRE"@,
        ItemType::Steel => "AÇO"@,
        ItemType::Plastic => "PLÁSTICO"@,
        ItemType::CircuitBoard => "PLACA CIRC."@,
        ItemType::Processor => "PROCESSADOR"@,
        ItemType::AiCore => "NÚCLEO IA"@,
    }
}

/// Stable machine-readable key of an item, used on the wire and in saves.
pub open spec fn item_key(it: ItemType) -> Seq<char> {
    match it {
        ItemType::IronOre => "iron_ore"@,
        ItemType::CopperOre => "copper_ore"@,
        ItemType::CoalOre => "coal_ore"@,
        ItemType::QuartzOre => "quartz_ore"@,
        ItemType::SandOre => "sand_ore"@,
        ItemType::GoldOre => "gold_ore"@,
        ItemType::UraniumOre => "uranium_ore"@,
        ItemType::Wood => "wood"@,
        ItemType::IronPlate => "iron_plate"@,
        ItemType::CopperPlate => "copper_plate"@,
        ItemType::CoalPlate => "coal_plate"@,
        ItemType::Silicon => "silicon"@,
        ItemType::Glass => "glass"@,
        ItemType::GoldIngot => "gold_ingot"@,
        ItemType::UraniumCell => "uranium_cell"@,
        ItemType::CopperWire => "copper_wire"@,
        ItemType::Steel => "steel"@,
        ItemType::Plastic => "plastic"@,
        ItemType::CircuitBoard => "circuit_board"@,
        ItemType::Processor => "processor"@,
        ItemType::AiCore => "ai_core"@,
    }
}

/// Reference market price of an item.
pub open spec fn item_base_price(it: ItemType) -> i64 {
    match it {
        ItemType::IronOre => 2,
        ItemType::CopperOre => 3,
        ItemType::CoalOre => 2,
        ItemType::QuartzOre => 4,
        ItemType::SandOre => 1,
        ItemType::GoldOre => 15,
        ItemType::UraniumOre => 25,
        ItemType::Wood => 2,
        ItemType::IronPlate => 20,
        ItemType::CopperPlate => 30,
        ItemType::CoalPlate => 10,
        ItemType::Silicon => 45,
        ItemType::Glass => 15,
        ItemType::GoldIngot => 120,
        ItemType::UraniumCell => 300,
        ItemType::CopperWire => 50,
        ItemType::Steel => 60,
        ItemType::Plastic => 80,
        ItemType::CircuitBoard => 150,
        ItemType::Processor => 600,
        ItemType::AiCore => 3500,
    }
}

/// Raw materials: the eight kinds that come out of the ground or the forest.
pub open spec fn item_is_raw(it: ItemType) -> bool {
    item_slot(it) < 8
}

impl ItemType {
    pub fn to_index(&self) -> (r: usize)
        ensures
            r as int == item_slot(*self),
            r < ITEM_COUNT,
    {
        match self {
            ItemType::IronOre => 0,
            ItemType::CopperOre => 1,
            ItemType::CoalOre => 2,
            ItemType::QuartzOre => 3,
            ItemType::SandOre => 4,
            ItemType::GoldOre => 5,
            ItemType::UraniumOre => 6,
            ItemType::Wood => 7,
            ItemType::IronPlate => 8,
            ItemType::CopperPlate => 9,
            ItemType::CoalPlate => 10,
            ItemType::Silicon => 11,
            ItemType::Glass => 12,
            ItemType::GoldIngot => 13,
            ItemType::UraniumCell => 14,
            ItemType::CopperWire => 15,
            ItemType::Steel => 16,
            ItemType::Plastic => 17,
            ItemType::CircuitBoard => 18,
            ItemType::Processor => 19,
            ItemType::AiCore => 20,
        }
    }

    /// The item in buffer slot `idx`; any index past the last slot gives the last item.
    pub fn from_index(idx: usize) -> (r: ItemType)
        ensures
            idx < ITEM_COUNT ==> r == item_order()[idx as int],
            idx >= ITEM_COUNT ==> r == ItemType::AiCore,
    {
        match idx {
            0 => ItemType::IronOre,
            1 => ItemType::CopperOre,
            2 => ItemType::CoalOre,
            3 => ItemType::QuartzOre,
            4 => ItemType::SandOre,
            5 => ItemType::GoldOre,
            6 => ItemType::UraniumOre,
            7 => ItemType::Wood,
            8 => ItemType::IronPlate,
            9 => ItemType::CopperPlate,
            10 => ItemType::CoalPlate,
            11 => ItemType::Silicon,
            12 => ItemType::Glass,
            13 => ItemType::GoldIngot,
            14 => ItemType::UraniumCell,
            15 => ItemType::CopperWire,
            16 => ItemType::Steel,
            17 => ItemType::Plastic,
            18 => ItemType::CircuitBoard,
            19 => ItemType::Processor,
            _ => ItemType::AiCore,
        }
    }

    pub fn name_pt(&self) -> (r: &'static str)
        ensures
            r@ == item_name(*self),
    {
        match self {
            ItemType::IronOre => "MINÉRIO FERRO",
            ItemType::CopperOre => "MINÉRIO COBRE",
            ItemType::CoalOre => "CARVÃO",
            ItemType::QuartzOre => "QUARTZO",
            ItemType::SandOre => "AREIA",
            ItemType::GoldOre => "MINÉRIO OURO",
            ItemType::UraniumOre => "URÂNIO",
            ItemType::Wood => "MADEIRA",
            ItemType::IronPlate => "CHAPA FERRO",
            ItemType::CopperPlate => "CHAPA COBRE",
            ItemType::CoalPlate => "CHAPA CARVÃO",
            ItemType::Silicon => "SILÍCIO",
            ItemType::Glass => "VIDRO",
            ItemType::GoldIngot => "LINGOTE OURO",
            ItemType::UraniumCell => "CÉL. URÂNIO",
            ItemType::CopperWire => "FIO COBRE",
            ItemType::Steel => "AÇO",
            ItemType::Plastic => "PLÁSTICO",
            ItemType::CircuitBoard => "PLACA CIRC.",
            ItemType::Processor => "PROCESSADOR",
            ItemType::AiCore => "NÚCLEO IA",
        }
    }

    pub fn key(&self) -> (r: &'static str)
        ensures
            r@ == item_key(*self),
    {
        match self {
            ItemType::IronOre => "iron_ore",
            ItemType::CopperOre => "copper_ore",
            ItemType::CoalOre => "coal_ore",
            ItemType::QuartzOre => "quartz_ore",
            ItemType::SandOre => "sand_ore",
            ItemType::GoldOre => "gold_ore",
            ItemType::UraniumOre => "uranium_ore",
            ItemType::Wood => "wood",
            ItemType::IronPlate => "iron_plate",
            ItemType::CopperPlate => "copper_plate",
            ItemType::CoalPlate => "coal_plate",
            ItemType::Silicon => "silicon",
            ItemType::Glass => "glass",
            ItemType::GoldIngot => "gold_ingot",
            ItemType::UraniumCell => "uranium_cell",
            ItemType::CopperWire => "copper_wire",
            ItemType::Steel => "steel",
            ItemType::Plastic => "plastic",
            ItemType::CircuitBoard => "circuit_board",
            ItemType::Processor => "processor",
            ItemType::AiCore => "ai_core",
        }
    }

    /// The item whose key is `k`, if any.
    pub fn from_key(k: &str) -> (r: Option<ItemType>)
        ensures
            match r {
                Some(it) => item_key(it) == k@,
                None => forall|it: ItemType| item_key(it) != k@,
            },
    {
        let all = ItemType::all();
        let mut i: usize = 0;
        while i < all.len()
            invariant
                all@ == item_order(),
                i <= all@.len(),
                forall|j: int| 0 <= j < i ==> item_key(#[trigger] all@[j]) != k@,
            decreases all@.len() - i,
        {
            if str_equal(all[i].key(), k) {
                return Some(all[i]);
            }
            i = i + 1;
        }
        proof {
            assert forall|it: ItemType| item_key(it) != k@ by {
                lemma_item_order_slot(it);
                assert(all@[item_slot(it)] == it);
            }
        }
        None
    }

    pub fn base_price(&self) -> (r: i64)
        ensures
            r == item_base_price(*self),
    {
        match self {
            ItemType::IronOre => 2,
            ItemType::CopperOre => 3,
            ItemType::CoalOre => 2,
            ItemType::QuartzOre => 4,
            ItemType::SandOre => 1,
            ItemType::GoldOre => 15,
            ItemType::UraniumOre => 25,
            ItemType::Wood => 2,
            ItemType::IronPlate => 20,
            ItemType::CopperPlate => 30,
            ItemType::CoalPlate => 10,
            ItemType::Silicon => 45,
            ItemType::Glass => 15,
            ItemType::GoldIngot => 120,
            ItemType::UraniumCell => 300,
            ItemType::CopperWire => 50,
            ItemType::Steel => 60,
            ItemType::Plastic => 80,
            ItemType::CircuitBoard => 150,
            ItemType::Processor => 600,
            ItemType::AiCore => 3500,
        }
    }

    pub fn is_ore(&self) -> (r: bool)
        ensures
            r == item_is_raw(*self),
    {
        matches!(self, ItemType::IronOre | ItemType::CopperOre | ItemType::CoalOre | ItemType::QuartzOre
            | ItemType::SandOre | ItemType::GoldOre | ItemType::UraniumOre | ItemType::Wood)
    }

    /// The processed goods, in canonical order: every item that is not raw.
    pub fn tradeable_items() -> (r: &'static [ItemType])
        ensures
            r@ == item_order().subrange(8, 21),
    {
        &[
            ItemType::IronPlate, ItemType::CopperPlate, ItemType::CoalPlate,
            ItemType::Silicon, ItemType::Glass, ItemType::GoldIngot, ItemType::UraniumCell,
            ItemType::CopperWire, ItemType::Steel, ItemType::Plastic,
            ItemType::CircuitBoard, ItemType::Processor, ItemType::AiCore,
        ]
    }

    pub fn all() -> (r: &'static [ItemType])
        ensures
            r@ == item_order(),
    {
        &[
            ItemType::IronOre, ItemType::CopperOre, ItemType::CoalOre, ItemType::QuartzOre,
            ItemType::SandOre, ItemType::GoldOre, ItemType::UraniumOre, ItemType::Wood,
            ItemType::IronPlate, ItemType::CopperPlate, ItemType::CoalPlate,
            ItemType::Silicon, ItemType::Glass, ItemType::GoldIngot, ItemType::UraniumCell,
            ItemType::CopperWire, ItemType::Steel, ItemType::Plastic,
            ItemType::CircuitBoard, ItemType::Processor, ItemType::AiCore,
        ]
    }
}

/// Every item sits in `item_order()` exactly at its buffer slot.
pub proof fn lemma_item_order_slot(it: ItemType)
    ensures
        0 <= item_slot(it) < ITEM_COUNT,
        item_order().len() == ITEM_COUNT,
        item_order()[item_slot(it)] == it,
{
}

/// Slot numbering is a bijection between item kinds and `0..ITEM_COUNT`:
/// `from_index(to_index(it)) == it` and `to_index(from_index(i)) == i` for `i < ITEM_COUNT`.
pub proof fn law_item_index_roundtrip(it: ItemType, i: int)
    ensures
        item_order()[item_slot(it)] == it,
        0 <= i < ITEM_COUNT ==> item_slot(item_order()[i]) == i,
{
    assert(item_order().len() == ITEM_COUNT);
    if 0 <= i < ITEM_COUNT {
        assert(item_slot(item_order()[i]) == i);
    }
}

/// No two items share a key, so `from_key(key(it)) == Some(it)`.
pub proof fn law_item_key_roundtrip(a: ItemType, b: ItemType)
    ensures
        item_key(a) == item_key(b) ==> a == b,
{
    reveal_strlit("iron_ore");
    reveal_strlit("copper_ore");
    reveal_strlit("coal_ore");
    reveal_strlit("quartz_ore");
    reveal_strlit("sand_ore");
    reveal_strlit("gold_ore");
    reveal_strlit("uranium_ore");
    reveal_strlit("wood");
    reveal_strlit("iron_plate");
    reveal_strlit("copper_plate");
    reveal_strlit("coal_plate");
    reveal_strlit("silicon");
    reveal_strlit("glass");
    reveal_strlit("gold_ingot");
    reveal_strlit("uranium_cell");
    reveal_strlit("copper_wire");
    reveal_strlit("steel");
    reveal_strlit("plastic");
    reveal_strlit("circuit_board");
    reveal_strlit("processor");
    reveal_strlit("ai_core");
    if item_key(a) == item_key(b) {
        // length and the first and third characters tell all keys apart
        assert(item_key(a).len() == item_key(b).len());
        assert(item_key(a)[0] == item_key(b)[0]);
        assert(item_key(a)[2] == item_key(b)[2]);
    }
}

/// An item can be traded on the market exactly when it is not a raw material.
pub proof fn law_tradeable_iff_processed(it: ItemType)
    ensures
        item_order().subrange(8, 21).contains(it) <==> !item_is_raw(it),
{
    let t = item_order().subrange(8, 21);
    if !item_is_raw(it) {
        assert(t[item_slot(it) - 8] == it);
    }
    if t.contains(it) {
        let j = choose|j: int| 0 <= j < t.len() && t[j] == it;
        assert(item_order()[j + 8] == it);
        assert(item_slot(item_order()[j + 8]) == j + 8);
    }
}

} // verus!
