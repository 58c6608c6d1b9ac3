//! Ground types of the world grid.

use vstd::prelude::*;
use crate::item::{ItemType, item_is_raw};

verus! {

#[derive(Clone, Copy, Debug, PartialEq, Eq, Hash, Structural)]
pub enum Terrain {
    Empty,
    Water,
    Tree,
    Sand,
    Iron,
    Copper,
    Coal,
    Quartz,
    Gold,
    Oil,
    Uranium,
    Wasteland,
    Mountain,
}

pub open spec fn terrain_name(t: Terrain) -> Seq<char> {
    match t {
        Terrain::Empty => "VAZIO"@,
        Terrain::Water => "ÁGUA"@,
        Terrain::Tree => "ÁRVORE"@,
        Terrain::Sand => "AREIA"@,
        Terrain::Iron => "VEIA FERRO"@,
        Terrain::Copper => "VEIA COBRE"@,
        Terrain::Coal => "VEIA CARVÃO"@,
        Terrain::Quartz => "VEIA QUARTZO"@,
        Terrain::Gold => "VEIA OURO"@,
        Terrain::Oil => "POÇO PETRÓLEO"@,
        Terrain::Uranium => "VEIA URÂNIO"@,
        Terrain::Wasteland => "IRRADIADO"@,
        Terrain::Mountain => "MONTANHA"@,
    }
}

/// Drawing precedence of a terrain where two kinds meet; mountains always win.
pub open spec fn terrain_priority(t: Terrain) -> i32 {
    match t {
        Terrain::Empty => 4,
        Terrain::Water => 1,
        Terrain::Tree => 2,
        Terrain::Sand => 3,
        Terrain::Iron => 5,
        Terrain::Copper => 6,
        Terrain::Coal => 7,
        Terrain::Quartz => 8,
        Terrain::Gold => 9,
        Terrain::Oil => 10,
        Terrain::Uranium => 11,
        Terrain::Wasteland => 12,
        Terrain::Mountain => 100,
    }
}

/// The ore a miner extracts from a terrain, if any.
pub open spec fn terrain_ore(t: Terrain) -> Option<ItemType> {
    match t {
        Terrain::Iron => Some(ItemType::IronOre),
        Terrain::Copper => Some(ItemType::CopperOre),
        Terrain::Coal => Some(ItemType::CoalOre),
        Terrain::Quartz => Some(ItemType::QuartzOre),
        Terrain::Sand => Some(ItemType::SandOre),
        Terrain::Gold => Some(ItemType::GoldOre),
        Terrain::Uranium => Some(ItemType::UraniumOre),
        _ => None,
    }
}

impl Terrain {
    pub fn name_pt(&self) -> (r: &'static str)
        ensures
            r@ == terrain_name(*self),
    {
        match self {
            Terrain::Empty => "VAZIO",
            Terrain::Water => "ÁGUA",
            Terrain::Tree => "ÁRVORE",
            Terrain::Sand => "AREIA",
            Terrain::Iron => "VEIA FERRO",
            Terrain::Copper => "VEIA COBRE",
            Terrain::Coal => "VEIA CARVÃO",
            Terrain::Quartz => "VEIA QUARTZO",
            Terrain::Gold => "VEIA OURO",
            Terrain::Oil => "POÇO PETRÓLEO",
            Terrain::Uranium => "VEIA URÂNIO",
            Terrain::Wasteland => "IRRADIADO",
            Terrain::Mountain => "MONTANHA",
        }
    }

    pub fn priority(&self) -> (r: i32)
        ensures
            r == terrain_priority(*self),
    {
        match self {
            Terrain::Empty => 4,
            Terrain::Water => 1,
            Terrain::Tree => 2,
            Terrain::Sand => 3,
            Terrain::Iron => 5,
            Terrain::Copper => 6,
            Terrain::Coal => 7,
            Terrain::Quartz => 8,
            Terrain::Gold => 9,
            Terrain::Oil => 10,
            Terrain::Uranium => 11,
            Terrain::Wasteland => 12,
            Terrain::Mountain => 100,
        }
    }

    pub fn ore_type(&self) -> (r: Option<ItemType>)
        ensures
            r == terrain_ore(*self),
    {
        match self {
            Terrain::Iron => Some(ItemType::IronOre),
            Terrain::Copper => Some(ItemType::CopperOre),
            Terrain::Coal => Some(ItemType::CoalOre),
            Terrain::Quartz => Some(ItemType::QuartzOre),
            Terrain::Sand => Some(ItemType::SandOre),
            Terrain::Gold => Some(ItemType::GoldOre),
            Terrain::Uranium => Some(ItemType::UraniumOre),
            _ => None,
        }
    }
}

/// What a miner digs is always a raw material (and never wood, which only lumberjacks cut).
pub proof fn law_ore_is_raw(t: Terrain)
    ensures
        terrain_ore(t) matches Some(it) ==> item_is_raw(it) && it != ItemType::Wood,
{
}

/// Priorities are all different, so where two terrains meet exactly one is drawn on top,
/// and a mountain is above every other terrain.
pub proof fn law_priority_strict(a: Terrain, b: Terrain)
    ensures
        a != b ==> terrain_priority(a) != terrain_priority(b),
        a != Terrain::Mountain ==> terrain_priority(a) < terrain_priority(Terrain::Mountain),
{
}

} // verus!
