//! The buildable structures and their catalogue data.

use vstd::prelude::*;

verus! {

/// Everything the player can place on the grid, plus the repair and eraser tools.
#[derive(Clone, Copy, Debug, PartialEq, Eq, Hash, Structural)]
pub enum Tool {
    ConveyorIron,
    Pipe,
    Node,
    Street,
    Warehouse,
    Repair,
    Eraser,
    Miner,
    Pump,
    Pumpjack,
    Lumberjack,
    Solar,
    Wind,
    CoalPlant,
    Nuclear,
    Battery,
    Smelter,
    Press,
    Assembler,
    ChemPlant,
    Centrifuge,
    Quantum,
    Market,
    House,
}

/// The order in which the tool bar lists the tools.
pub open spec fn tool_order() -> Seq<Tool> {
    seq![
        Tool::ConveyorIron, Tool::Pipe, Tool::Node, Tool::Street, Tool::Warehouse, Tool::Repair,
        Tool::Eraser, Tool::Miner, Tool::Pump, Tool::Pumpjack, Tool::Lumberjack, Tool::Solar,
        Tool::Wind, Tool::CoalPlant, Tool::Nuclear, Tool::Battery, Tool::Smelter, Tool::Press,
        Tool::Assembler, Tool::ChemPlant, Tool::Centrifuge, Tool::Quantum, Tool::Market,
        Tool::House,
    ]
}

/// Position of a tool in `tool_order()`.
pub open spec fn tool_position(t: Tool) -> int {
    match t {
        Tool::ConveyorIron => 0,
        Tool::Pipe => 1,
        Tool::Node => 2,
        Tool::Street => 3,
        Tool::Warehouse => 4,
        Tool::Repair => 5,
        Tool::Eraser => 6,
        Tool::Miner => 7,
        Tool::Pump => 8,
        Tool::Pumpjack => 9,
        Tool::Lumberjack => 10,
        Tool::Solar => 11,
        Tool::Wind => 12,
        Tool::CoalPlant => 13,
        Tool::Nuclear => 14,
        Tool::Battery => 15,
        Tool::Smelter => 16,
        Tool::Press => 17,
        Tool::Assembler => 18,
        Tool::ChemPlant => 19,
        Tool::Centrifuge => 20,
        Tool::Quantum => 21,
        Tool::Market => 22,
        Tool::House => 23,
    }
}

/// Building price; the repair and eraser tools cost nothing to select.
pub open spec fn tool_cost(t: Tool) -> i64 {
    match t {
        Tool::House => 100,
        Tool::Street => 10,
        Tool::Node => 50,
        Tool::Miner => 150,
        Tool::Pump => 150,
        Tool::Pumpjack => 300,
        Tool::Lumberjack => 150,
        Tool::Smelter => 300,
        Tool::Press => 400,
        Tool::Assembler => 800,
        Tool::ChemPlant => 1500,
        Tool::Centrifuge => 2000,
        Tool::Quantum => 5000,
        Tool::Market => 400,
        Tool::Warehouse => 100,
        Tool::ConveyorIron => 15,
        Tool::Pipe => 20,
        Tool::Solar => 200,
        Tool::Wind => 300,
        Tool::CoalPlant => 800,
        Tool::Nuclear => 5000,
        Tool::Battery => 400,
        _ => 0,
    }
}

/// Money given back when a structure is removed.
pub open spec fn tool_refund(t: Tool) -> i64 {
    match t {
        Tool::House => 50,
        Tool::Street => 5,
        Tool::Node => 25,
        Tool::Miner => 75,
        Tool::Pump => 75,
        Tool::Pumpjack => 150,
        Tool::Lumberjack => 75,
        Tool::Smelter => 150,
        Tool::Press => 200,
        Tool::Assembler => 400,
        Tool::ChemPlant => 750,
        Tool::Centrifuge => 1000,
        Tool::Quantum => 2500,
        Tool::Market => 200,
        Tool::Warehouse => 50,
        Tool::ConveyorIron => 5,
        Tool::Pipe => 5,
        Tool::Solar => 100,
        Tool::Wind => 150,
        Tool::CoalPlant => 400,
        Tool::Nuclear => 1000,
        Tool::Battery => 200,
        _ => 0,
    }
}

/// Income per economy tick contributed by a structure (negative: running cost).
pub open spec fn tool_upkeep(t: Tool) -> int {
    match t {
        Tool::House => 15,
        Tool::Street => 1,
        Tool::Market => -5,
        Tool::Solar => -2,
        Tool::Wind => -5,
        Tool::CoalPlant => -15,
        Tool::Nuclear => -100,
        Tool::Battery => -1,
        _ => 0,
    }
}

/// Nominal generation in watts.
pub open spec fn tool_power_gen(t: Tool) -> u32 {
    match t {
        Tool::Solar => 40,
        Tool::Wind => 60,
        Tool::CoalPlant => 300,
        Tool::Nuclear => 2500,
        _ => 0,
    }
}

/// Consumption in watts.
pub open spec fn tool_power_cons(t: Tool) -> u32 {
    match t {
        Tool::Miner => 20,
        Tool::Pump => 20,
        Tool::Pumpjack => 40,
        Tool::Lumberjack => 15,
        Tool::Smelter => 40,
        Tool::Press => 30,
        Tool::Assembler => 60,
        Tool::ChemPlant => 80,
        Tool::Centrifuge => 150,
        Tool::Quantum => 300,
        Tool::Market => 10,
        Tool::House => 5,
        _ => 0,
    }
}

/// Portuguese display name.
pub open spec fn tool_name(t: Tool) -> Seq<char> {
    match t {
        Tool::ConveyorIron => "ESTEIRA FERRO"@,
        Tool::Pipe => "TUBO"@,
        Tool::Node => "POSTE"@,
        Tool::Street => "RUA"@,
        Tool::Warehouse => "ARMAZÉM"@,
        Tool::Repair => "REPARO"@,
        Tool::Eraser => "APAGAR"@,
        Tool::Miner => "MINERADOR"@,
        Tool::Pump => "BOMBA"@,
        Tool::Pumpjack => "EXTRATOR"@,
        Tool::Lumberjack => "LENHADOR"@,
        Tool::Solar => "SOLAR"@,
        Tool::Wind => "EÓLICA"@,
        Tool::CoalPlant => "TERMELÉTRICA"@,
        Tool::Nuclear => "NUCLEAR"@,
        Tool::Battery => "BATERIA"@,
        Tool::Smelter => "FUNDIÇÃO"@,
        Tool::Press => "PRENSA"@,
        Tool::Assembler => "MONTADORA"@,
        Tool::ChemPlant => "QUÍMICA"@,
        Tool::Centrifuge => "CENTRÍFUGA"@,
        Tool::Quantum => "QUÂNTICO"@,
        Tool::Market => "MERCADO"@,
        Tool::House => "CASA"@,
    }
}

/// The keyboard key that selects a tool.
pub open spec fn tool_hotkey_char(t: Tool) -> char {
    match t {
        Tool::ConveyorIron => '1',
        Tool::Pipe => '2',
        Tool::Node => '3',
        Tool::Street => '4',
        Tool::Warehouse => '5',
        Tool::Repair => '6',
        Tool::Eraser => '7',
        Tool::Miner => 'Q',
        Tool::Pump => 'T',
        Tool::Pumpjack => 'E',
        Tool::Lumberjack => 'R',
        Tool::Solar => 'Y',
        Tool::Wind => 'U',
        Tool::CoalPlant => 'I',
        Tool::Nuclear => 'F',
        Tool::Battery => 'G',
        Tool::Smelter => 'Z',
        Tool::Press => 'X',
        Tool::Assembler => 'C',
        Tool::ChemPlant => 'V',
        Tool::Centrifuge => 'B',
        Tool::Quantum => 'N',
        Tool::Market => 'M',
        Tool::House => 'H',
    }
}

/// Tool-bar tab: 0 logistics, 1 extraction, 2 energy, 3 factories, 4 city.
pub open spec fn tool_category(t: Tool) -> usize {
    match t {
        Tool::ConveyorIron | Tool::Pipe | Tool::Node | Tool::Warehouse | Tool::Street
        | Tool::Repair | Tool::Eraser => 0,
        Tool::Miner | Tool::Pump | Tool::Pumpjack | Tool::Lumberjack => 1,
        Tool::Solar | Tool::Wind | Tool::CoalPlant | Tool::Nuclear | Tool::Battery => 2,
        Tool::Smelter | Tool::Press | Tool::Assembler | Tool::ChemPlant | Tool::Centrifuge
        | Tool::Quantum => 3,
        Tool::Market | Tool::House => 4,
    }
}

/// Structures that connect to the pipe network.
pub open spec fn tool_has_pipes(t: Tool) -> bool {
    t == Tool::Pipe || t == Tool::Pump || t == Tool::Pumpjack || t == Tool::ChemPlant
        || t == Tool::Nuclear || t == Tool::Market
}

impl Tool {
    pub fn all() -> (r: &'static [Tool])
        ensures
            r@ == tool_order(),
    {
        &[
            Tool::ConveyorIron, Tool::Pipe, Tool::Node, Tool::Street, Tool::Warehouse,
            Tool::Repair, Tool::Eraser, Tool::Miner, Tool::Pump, Tool::Pumpjack,
            Tool::Lumberjack, Tool::Solar, Tool::Wind, Tool::CoalPlant, Tool::Nuclear,
            Tool::Battery, Tool::Smelter, Tool::Press, Tool::Assembler, Tool::ChemPlant,
            Tool::Centrifuge, Tool::Quantum, Tool::Market, Tool::House,
        ]
    }

    pub fn cost(&self) -> (r: i64)
        ensures
            r == tool_cost(*self),
    {
        match self {
            Tool::House => 100,
            Tool::Street => 10,
            Tool::Node => 50,
            Tool::Miner => 150,
            Tool::Pump => 150,
            Tool::Pumpjack => 300,
            Tool::Lumberjack => 150,
            Tool::Smelter => 300,
            Tool::Press => 400,
            Tool::Assembler => 800,
            Tool::ChemPlant => 1500,
            Tool::Centrifuge => 2000,
            Tool::Quantum => 5000,
            Tool::Market => 400,
            Tool::Warehouse => 100,
            Tool::ConveyorIron => 15,
            Tool::Pipe => 20,
            Tool::Solar => 200,
            Tool::Wind => 300,
            Tool::CoalPlant => 800,
            Tool::Nuclear => 5000,
            Tool::Battery => 400,
            _ => 0,
        }
    }

    pub fn refund(&self) -> (r: i64)
        ensures
            r == tool_refund(*self),
    {
        match self {
            Tool::House => 50,
            Tool::Street => 5,
            Tool::Node => 25,
            Tool::Miner => 75,
            Tool::Pump => 75,
            Tool::Pumpjack => 150,
            Tool::Lumberjack => 75,
            Tool::Smelter => 150,
            Tool::Press => 200,
            Tool::Assembler => 400,
            Tool::ChemPlant => 750,
            Tool::Centrifuge => 1000,
            Tool::Quantum => 2500,
            Tool::Market => 200,
            Tool::Warehouse => 50,
            Tool::ConveyorIron => 5,
            Tool::Pipe => 5,
            Tool::Solar => 100,
            Tool::Wind => 150,
            Tool::CoalPlant => 400,
            Tool::Nuclear => 1000,
            Tool::Battery => 200,
            _ => 0,
        }
    }

    pub fn upkeep(&self) -> (r: i64)
        ensures
            r == tool_upkeep(*self),
    {
        match self {
            Tool::House => 15,
            Tool::Street => 1,
            Tool::Market => -5,
            Tool::Solar => -2,
            Tool::Wind => -5,
            Tool::CoalPlant => -15,
            Tool::Nuclear => -100,
            Tool::Battery => -1,
            _ => 0,
        }
    }

    /// Nominal generation in whole watts.
    pub fn power_gen(&self) -> (r: u32)
        ensures
            r == tool_power_gen(*self),
    {
        match self {
            Tool::Solar => 40,
            Tool::Wind => 60,
            Tool::CoalPlant => 300,
            Tool::Nuclear => 2500,
            _ => 0,
        }
    }

    /// Consumption in whole watts.
    pub fn power_cons(&self) -> (r: u32)
        ensures
            r == tool_power_cons(*self),
    {
        match self {
            Tool::Miner => 20,
            Tool::Pump => 20,
            Tool::Pumpjack => 40,
            Tool::Lumberjack => 15,
            Tool::Smelter => 40,
            Tool::Press => 30,
            Tool::Assembler => 60,
            Tool::ChemPlant => 80,
            Tool::Centrifuge => 150,
            Tool::Quantum => 300,
            Tool::Market => 10,
            Tool::House => 5,
            _ => 0,
        }
    }

    pub fn name_pt(&self) -> (r: &'static str)
        ensures
            r@ == tool_name(*self),
    {
        match self {
            Tool::ConveyorIron => "ESTEIRA FERRO",
            Tool::Pipe => "TUBO",
            Tool::Node => "POSTE",
            Tool::Street => "RUA",
            Tool::Warehouse => "ARMAZÉM",
            Tool::Repair => "REPARO",
            Tool::Eraser => "APAGAR",
            Tool::Miner => "MINERADOR",
            Tool::Pump => "BOMBA",
            Tool::Pumpjack => "EXTRATOR",
            Tool::Lumberjack => "LENHADOR",
            Tool::Solar => "SOLAR",
            Tool::Wind => "EÓLICA",
            Tool::CoalPlant => "TERMELÉTRICA",
            Tool::Nuclear => "NUCLEAR",
            Tool::Battery => "BATERIA",
            Tool::Smelter => "FUNDIÇÃO",
            Tool::Press => "PRENSA",
            Tool::Assembler => "MONTADORA",
            Tool::ChemPlant => "QUÍMICA",
            Tool::Centrifuge => "CENTRÍFUGA",
            Tool::Quantum => "QUÂNTICO",
            Tool::Market => "MERCADO",
            Tool::House => "CASA",
        }
    }

    /// The selecting key as a one-character label.
    pub fn hotkey(&self) -> (r: &'static str)
        ensures
            r@ == seq![tool_hotkey_char(*self)],
    {
        let r = match self {
            Tool::ConveyorIron => "1",
            Tool::Pipe => "2",
            Tool::Node => "3",
            Tool::Street => "4",
            Tool::Warehouse => "5",
            Tool::Repair => "6",
            Tool::Eraser => "7",
            Tool::Miner => "Q",
            Tool::Pump => "T",
            Tool::Pumpjack => "E",
            Tool::Lumberjack => "R",
            Tool::Solar => "Y",
            Tool::Wind => "U",
            Tool::CoalPlant => "I",
            Tool::Nuclear => "F",
            Tool::Battery => "G",
            Tool::Smelter => "Z",
            Tool::Press => "X",
            Tool::Assembler => "C",
            Tool::ChemPlant => "V",
            Tool::Centrifuge => "B",
            Tool::Quantum => "N",
            Tool::Market => "M",
            Tool::House => "H",
        };
        proof {
            reveal_strlit("1");
            reveal_strlit("2");
            reveal_strlit("3");
            reveal_strlit("4");
            reveal_strlit("5");
            reveal_strlit("6");
            reveal_strlit("7");
            reveal_strlit("Q");
            reveal_strlit("T");
            reveal_strlit("E");
            reveal_strlit("R");
            reveal_strlit("Y");
            reveal_strlit("U");
            reveal_strlit("I");
            reveal_strlit("F");
            reveal_strlit("G");
            reveal_strlit("Z");
            reveal_strlit("X");
            reveal_strlit("C");
            reveal_strlit("V");
            reveal_strlit("B");
            reveal_strlit("N");
            reveal_strlit("M");
            reveal_strlit("H");
            assert(r@ =~= seq![tool_hotkey_char(*self)]);
        }
        r
    }

    /// The tool selected by key `key` (its character), if any.
    pub fn from_key(key: char) -> (r: Option<Tool>)
        ensures
            match r {
                Some(t) => tool_hotkey_char(t) == key,
                None => forall|t: Tool| tool_hotkey_char(t) != key,
            },
    {
        match key {
            '1' => Some(Tool::ConveyorIron),
            '2' => Some(Tool::Pipe),
            '3' => Some(Tool::Node),
            '4' => Some(Tool::Street),
            '5' => Some(Tool::Warehouse),
            '6' => Some(Tool::Repair),
            '7' => Some(Tool::Eraser),
            'Q' => Some(Tool::Miner),
            'T' => Some(Tool::Pump),
            'E' => Some(Tool::Pumpjack),
            'R' => Some(Tool::Lumberjack),
            'Y' => Some(Tool::Solar),
            'U' => Some(Tool::Wind),
            'I' => Some(Tool::CoalPlant),
            'F' => Some(Tool::Nuclear),
            'G' => Some(Tool::Battery),
            'Z' => Some(Tool::Smelter),
            'X' => Some(Tool::Press),
            'C' => Some(Tool::Assembler),
            'V' => Some(Tool::ChemPlant),
            'B' => Some(Tool::Centrifuge),
            'N' => Some(Tool::Quantum),
            'M' => Some(Tool::Market),
            'H' => Some(Tool::House),
            _ => None,
        }
    }

    pub fn category(&self) -> (r: usize)
        ensures
            r == tool_category(*self),
            r < 5,
    {
        match self {
            Tool::ConveyorIron | Tool::Pipe | Tool::Node | Tool::Warehouse | Tool::Street
            | Tool::Repair | Tool::Eraser => 0,
            Tool::Miner | Tool::Pump | Tool::Pumpjack | Tool::Lumberjack => 1,
            Tool::Solar | Tool::Wind | Tool::CoalPlant | Tool::Nuclear | Tool::Battery => 2,
            Tool::Smelter | Tool::Press | Tool::Assembler | Tool::ChemPlant | Tool::Centrifuge
            | Tool::Quantum => 3,
            Tool::Market | Tool::House => 4,
        }
    }

    pub fn has_pipes(&self) -> (r: bool)
        ensures
            r == tool_has_pipes(*self),
    {
        matches!(self, Tool::Pipe | Tool::Pump | Tool::Pumpjack | Tool::ChemPlant | Tool::Nuclear | Tool::Market)
    }
}

/// The tool bar (`Tool::all()`) lists every tool, each at exactly one place.
pub proof fn law_every_tool_listed_once(t: Tool, i: int)
    ensures
        0 <= tool_position(t) < tool_order().len(),
        tool_order()[tool_position(t)] == t,
        0 <= i < tool_order().len() && tool_order()[i] == t ==> i == tool_position(t),
{
}

/// Removing a structure never gives back more than it cost to build, so
/// building and erasing in turn can never raise money.
pub proof fn law_refund_at_most_cost(t: Tool)
    ensures
        0 <= tool_refund(t) <= tool_cost(t),
{
}

/// Each key selects at most one tool, so `from_key` of a tool's hotkey gives that tool back.
pub proof fn law_hotkey_roundtrip(a: Tool, b: Tool)
    ensures
        tool_hotkey_char(a) == tool_hotkey_char(b) ==> a == b,
{
}

} // verus!
