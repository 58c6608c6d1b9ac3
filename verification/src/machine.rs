//! One production tick of a machine.
//!
//! A machine keeps whole-unit counters: work done towards its next output
//! (complete at 100), fuel ticks left, reactor heat (a reactor melts down at
//! 100), and one counter per item kind. A tick first settles what the machine
//! does by itself and says what it needs from the cells around it: to drop an
//! item onto an adjacent belt, or to draw coolant or feedstock from adjacent
//! pipes. Whether that worked then settles the rest of the tick.

use vstd::prelude::*;
use crate::item::{ItemType, ITEM_COUNT, item_slot};
use crate::tool::Tool;
use crate::terrain::{Terrain, terrain_ore};
use crate::industry::{
    Recipe, stock, first_stocked, first_stocked_spec, smelt_spec, smelt_product, assembler_recipe,
    assembler_recipe_spec, consume_recipe, quantum_can_start, centrifuge_can_start, accepts_spec,
    machine_accepts,
};

verus! {

/// The production state of one machine.
pub struct Machine {
    pub processing: i32,
    pub fuel: i32,
    pub heat: i32,
    pub buffer: [i32; 21],
}

#[verifier::ext_equal]
pub struct MachineView {
    pub processing: int,
    pub fuel: int,
    pub heat: int,
    pub buffer: Seq<i32>,
}

impl View for Machine {
    type V = MachineView;

    open spec fn view(&self) -> MachineView {
        MachineView {
            processing: self.processing as int,
            fuel: self.fuel as int,
            heat: self.heat as int,
            buffer: self.buffer@,
        }
    }
}

/// What a machine needs from its surroundings this tick.
#[derive(Clone, Copy, Debug, PartialEq, Eq, Structural)]
pub enum Request {
    /// Nothing.
    Idle,
    /// Drop `item` onto an adjacent belt; doing so costs the machine `wear`
    /// health.
    Eject { item: ItemType, wear: u32 },
    /// Draw ten units of water from adjacent pipes to cool the reactor.
    Coolant,
    /// Draw ten units of water, and then ten of crude oil, from adjacent pipes.
    Feedstock,
}

pub open spec fn held(m: MachineView, it: ItemType) -> int {
    m.buffer[item_slot(it)] as int
}

/// The machine with `n` fewer of `it`.
pub open spec fn take(m: MachineView, it: ItemType, n: int) -> MachineView {
    MachineView {
        processing: m.processing,
        fuel: m.fuel,
        heat: m.heat,
        buffer: m.buffer.update(item_slot(it), (m.buffer[item_slot(it)] - n) as i32),
    }
}

pub open spec fn with_processing(m: MachineView, p: int) -> MachineView {
    MachineView { processing: p, fuel: m.fuel, heat: m.heat, buffer: m.buffer }
}

pub open spec fn with_fuel(m: MachineView, f: int) -> MachineView {
    MachineView { processing: m.processing, fuel: f, heat: m.heat, buffer: m.buffer }
}

pub open spec fn with_heat(m: MachineView, h: int) -> MachineView {
    MachineView { processing: m.processing, fuel: m.fuel, heat: h, buffer: m.buffer }
}

pub open spec fn holds_anything(buffer: Seq<i32>) -> bool {
    exists|j: int| 0 <= j < ITEM_COUNT && buffer[j] > 0
}

pub open spec fn quantum_ready(buffer: Seq<i32>) -> bool {
    stock(buffer, ItemType::Processor) >= 1 && stock(buffer, ItemType::Plastic) >= 1
        && stock(buffer, ItemType::GoldIngot) >= 1
}

/// A machine works when its grid is powered; a coal plant or reactor also
/// works while it still burns fuel of its own.
pub open spec fn runs_spec(tool: Tool, powered: bool, fuel: int) -> bool {
    powered || ((tool == Tool::CoalPlant || tool == Tool::Nuclear) && fuel > 0)
}

/// A centrifuge standing on uranium draws one ore from the ground each tick
/// while it holds fewer than the three that a cell takes.
pub open spec fn centrifuge_draw(terrain: Terrain, m: MachineView) -> MachineView {
    if terrain == Terrain::Uranium && held(m, ItemType::UraniumOre) < 3 {
        take(m, ItemType::UraniumOre, -1)
    } else {
        m
    }
}

/// The first half of a tick: the machine's new state and what it asks for.
pub open spec fn begin_spec(tool: Tool, terrain: Terrain, powered: bool, m: MachineView) -> (MachineView, Request) {
    if !runs_spec(tool, powered, m.fuel) {
        (m, Request::Idle)
    } else {
        match tool {
            Tool::Miner => match terrain_ore(terrain) {
                Some(ore) => (m, Request::Eject { item: ore, wear: 2 }),
                None => (m, Request::Idle),
            },
            Tool::Lumberjack => if terrain == Terrain::Tree {
                (m, Request::Eject { item: ItemType::Wood, wear: 2 })
            } else {
                (m, Request::Idle)
            },
            Tool::CoalPlant => if m.fuel > 0 {
                (with_fuel(m, m.fuel - 1), Request::Idle)
            } else if held(m, ItemType::CoalOre) >= 1 {
                (with_fuel(take(m, ItemType::CoalOre, 1), 10), Request::Idle)
            } else {
                (m, Request::Idle)
            },
            Tool::Nuclear => if m.fuel > 0 {
                (with_fuel(m, m.fuel - 1), Request::Coolant)
            } else if held(m, ItemType::UraniumCell) >= 1 {
                (with_fuel(take(m, ItemType::UraniumCell, 1), 40), Request::Idle)
            } else {
                (with_heat(m, if m.heat > 5 { m.heat - 5 } else { 0 }), Request::Idle)
            },
            Tool::Smelter => if m.processing >= 100 {
                match first_stocked_spec(m.buffer) {
                    Some(ore) => (m, Request::Eject { item: smelt_spec(ore), wear: 5 }),
                    None => (m, Request::Idle),
                }
            } else if holds_anything(m.buffer) {
                (with_processing(m, m.processing + 50), Request::Idle)
            } else {
                (m, Request::Idle)
            },
            Tool::Press => if m.processing >= 100 {
                if held(m, ItemType::CopperPlate) > 0 {
                    (m, Request::Eject { item: ItemType::CopperWire, wear: 3 })
                } else {
                    (m, Request::Idle)
                }
            } else if holds_anything(m.buffer) {
                (with_processing(m, m.processing + 50), Request::Idle)
            } else {
                (m, Request::Idle)
            },
            Tool::Centrifuge => if m.processing >= 100 {
                (m, Request::Eject { item: ItemType::UraniumCell, wear: 10 })
            } else {
                let m1 = centrifuge_draw(terrain, m);
                if held(m1, ItemType::UraniumOre) >= 3 {
                    (with_processing(m1, m1.processing + 20), Request::Idle)
                } else {
                    (m1, Request::Idle)
                }
            },
            Tool::Assembler => if m.processing >= 100 {
                match assembler_recipe_spec(m.buffer) {
                    Some(rc) => (m, Request::Eject { item: rc.output, wear: 10 }),
                    None => (m, Request::Idle),
                }
            } else if assembler_recipe_spec(m.buffer) is Some {
                (with_processing(m, m.processing + 25), Request::Idle)
            } else {
                (m, Request::Idle)
            },
            Tool::ChemPlant => if m.processing >= 100 {
                (m, Request::Eject { item: ItemType::Plastic, wear: 10 })
            } else {
                (m, Request::Feedstock)
            },
            Tool::Quantum => if m.processing >= 100 {
                (m, Request::Eject { item: ItemType::AiCore, wear: 20 })
            } else if quantum_ready(m.buffer) {
                (with_processing(m, m.processing + 10), Request::Idle)
            } else {
                (m, Request::Idle)
            },
            _ => (m, Request::Idle),
        }
    }
}

/// What a finished output costs the machine once it is on a belt.
pub open spec fn after_output(tool: Tool, m: MachineView) -> MachineView {
    match tool {
        Tool::Smelter | Tool::Press => MachineView {
            processing: 0,
            fuel: m.fuel,
            heat: m.heat,
            buffer: Seq::new(21, |i: int| 0i32),
        },
        Tool::Centrifuge => with_processing(take(m, ItemType::UraniumOre, 3), 0),
        Tool::Assembler => match assembler_recipe_spec(m.buffer) {
            Some(rc) => with_processing(take(take(m, rc.first, 1), rc.second, 1), 0),
            None => m,
        },
        Tool::ChemPlant => with_processing(m, 0),
        Tool::Quantum => with_processing(
            take(take(take(m, ItemType::Processor, 1), ItemType::Plastic, 1), ItemType::GoldIngot, 1),
            0,
        ),
        _ => m,
    }
}

/// The second half of a tick, given whether the request was met: the
/// machine's state, and whether a reactor melts down.
pub open spec fn finish_spec(tool: Tool, m: MachineView, req: Request, met: bool) -> (MachineView, bool) {
    match req {
        Request::Idle => (m, false),
        Request::Eject { .. } => if met { (after_output(tool, m), false) } else { (m, false) },
        Request::Coolant => if met {
            (with_heat(m, if m.heat > 10 { m.heat - 10 } else { 0 }), false)
        } else {
            (with_heat(m, m.heat + 15), m.heat + 15 >= 100)
        },
        Request::Feedstock => if met { (with_processing(m, m.processing + 20), false) } else { (m, false) },
    }
}

/// The counters that the second half of a tick changes stay within `i32`.
pub open spec fn finish_fits(tool: Tool, m: MachineView, req: Request, met: bool) -> bool {
    match req {
        Request::Coolant => !met ==> m.heat + 15 <= i32::MAX,
        Request::Feedstock => met ==> m.processing + 20 <= i32::MAX,
        Request::Eject { .. } => met ==> {
            &&& tool == Tool::Centrifuge ==> held(m, ItemType::UraniumOre) - 3 >= i32::MIN
            &&& tool == Tool::Quantum ==> {
                &&& held(m, ItemType::Processor) > i32::MIN
                &&& held(m, ItemType::Plastic) > i32::MIN
                &&& held(m, ItemType::GoldIngot) > i32::MIN
            }
        },
        Request::Idle => true,
    }
}

impl Machine {
    /// A machine with empty counters.
    pub fn new() -> (m: Machine)
        ensures
            m@.processing == 0,
            m@.fuel == 0,
            m@.heat == 0,
            m@.buffer == Seq::new(21, |i: int| 0i32),
    {
        Machine { processing: 0, fuel: 0, heat: 0, buffer: zeroed() }
    }

    /// Whether the machine works this tick.
    pub fn runs(&self, tool: Tool, powered: bool) -> (r: bool)
        ensures
            r == runs_spec(tool, powered, self@.fuel),
    {
        powered || ((tool == Tool::CoalPlant || tool == Tool::Nuclear) && self.fuel > 0)
    }

    fn take_one(&mut self, it: ItemType, n: i32)
        requires
            -1 <= n <= 3,
            i32::MIN <= held(old(self)@, it) - n <= i32::MAX,
        ensures
            final(self)@ == take(old(self)@, it, n as int),
    {
        let i = it.to_index();
        self.buffer[i] = self.buffer[i] - n;
    }

    /// The first half of a production tick on ground `terrain`.
    pub fn begin_tick(&mut self, tool: Tool, terrain: Terrain, powered: bool) -> (req: Request)
        ensures
            final(self)@ == begin_spec(tool, terrain, powered, old(self)@).0,
            req == begin_spec(tool, terrain, powered, old(self)@).1,
    {
        if !self.runs(tool, powered) {
            return Request::Idle;
        }
        match tool {
            Tool::Miner => match terrain.ore_type() {
                Some(ore) => Request::Eject { item: ore, wear: 2 },
                None => Request::Idle,
            },
            Tool::Lumberjack => if terrain == Terrain::Tree {
                Request::Eject { item: ItemType::Wood, wear: 2 }
            } else {
                Request::Idle
            },
            Tool::CoalPlant => {
                if self.fuel > 0 {
                    self.fuel = self.fuel - 1;
                } else if self.buffer[ItemType::CoalOre.to_index()] >= 1 {
                    self.take_one(ItemType::CoalOre, 1);
                    self.fuel = 10;
                }
                Request::Idle
            },
            Tool::Nuclear => {
                if self.fuel > 0 {
                    self.fuel = self.fuel - 1;
                    Request::Coolant
                } else if self.buffer[ItemType::UraniumCell.to_index()] >= 1 {
                    self.take_one(ItemType::UraniumCell, 1);
                    self.fuel = 40;
                    Request::Idle
                } else {
                    self.heat = if self.heat > 5 { self.heat - 5 } else { 0 };
                    Request::Idle
                }
            },
            Tool::Smelter => {
                if self.processing >= 100 {
                    match first_stocked(&self.buffer) {
                        Some(ore) => Request::Eject { item: smelt_product(ore), wear: 5 },
                        None => Request::Idle,
                    }
                } else {
                    if first_stocked(&self.buffer).is_some() {
                        self.processing = self.processing + 50;
                    }
                    Request::Idle
                }
            },
            Tool::Press => {
                if self.processing >= 100 {
                    if self.buffer[ItemType::CopperPlate.to_index()] > 0 {
                        Request::Eject { item: ItemType::CopperWire, wear: 3 }
                    } else {
                        Request::Idle
                    }
                } else {
                    if first_stocked(&self.buffer).is_some() {
                        self.processing = self.processing + 50;
                    }
                    Request::Idle
                }
            },
            Tool::Centrifuge => {
                if self.processing >= 100 {
                    Request::Eject { item: ItemType::UraniumCell, wear: 10 }
                } else {
                    let u = ItemType::UraniumOre.to_index();
                    if terrain == Terrain::Uranium && self.buffer[u] < 3 {
                        self.take_one(ItemType::UraniumOre, -1);
                    }
                    if centrifuge_can_start(&self.buffer) {
                        self.processing = self.processing + 20;
                    }
                    Request::Idle
                }
            },
            Tool::Assembler => {
                let recipe = assembler_recipe(&self.buffer);
                if self.processing >= 100 {
                    match recipe {
                        Some(rc) => Request::Eject { item: rc.output, wear: 10 },
                        None => Request::Idle,
                    }
                } else {
                    if recipe.is_some() {
                        self.processing = self.processing + 25;
                    }
                    Request::Idle
                }
            },
            Tool::ChemPlant => {
                if self.processing >= 100 {
                    Request::Eject { item: ItemType::Plastic, wear: 10 }
                } else {
                    Request::Feedstock
                }
            },
            Tool::Quantum => {
                if self.processing >= 100 {
                    Request::Eject { item: ItemType::AiCore, wear: 20 }
                } else {
                    if quantum_can_start(&self.buffer) {
                        self.processing = self.processing + 10;
                    }
                    Request::Idle
                }
            },
            _ => Request::Idle,
        }
    }

    /// The second half of a production tick, once the world has answered
    /// `req`; returns whether the reactor melts down.
    pub fn finish_tick(&mut self, tool: Tool, req: Request, met: bool) -> (meltdown: bool)
        requires
            finish_fits(tool, old(self)@, req, met),
        ensures
            final(self)@ == finish_spec(tool, old(self)@, req, met).0,
            meltdown == finish_spec(tool, old(self)@, req, met).1,
    {
        match req {
            Request::Idle => false,
            Request::Eject { .. } => {
                if met {
                    self.settle_output(tool);
                }
                false
            },
            Request::Coolant => {
                if met {
                    self.heat = if self.heat > 10 { self.heat - 10 } else { 0 };
                    false
                } else {
                    self.heat = self.heat + 15;
                    self.heat >= 100
                }
            },
            Request::Feedstock => {
                if met {
                    self.processing = self.processing + 20;
                }
                false
            },
        }
    }

    fn settle_output(&mut self, tool: Tool)
        requires
            tool == Tool::Centrifuge ==> held(old(self)@, ItemType::UraniumOre) - 3 >= i32::MIN,
            tool == Tool::Quantum ==> {
                &&& held(old(self)@, ItemType::Processor) > i32::MIN
                &&& held(old(self)@, ItemType::Plastic) > i32::MIN
                &&& held(old(self)@, ItemType::GoldIngot) > i32::MIN
            },
        ensures
            final(self)@ == after_output(tool, old(self)@),
    {
        match tool {
            Tool::Smelter | Tool::Press => {
                self.buffer = zeroed();
                self.processing = 0;
            },
            Tool::Centrifuge => {
                self.take_one(ItemType::UraniumOre, 3);
                self.processing = 0;
            },
            Tool::Assembler => {
                match assembler_recipe(&self.buffer) {
                    Some(rc) => {
                        consume_recipe(&mut self.buffer, rc);
                        self.processing = 0;
                    },
                    None => {},
                }
            },
            Tool::ChemPlant => {
                self.processing = 0;
            },
            Tool::Quantum => {
                self.take_one(ItemType::Processor, 1);
                self.take_one(ItemType::Plastic, 1);
                self.take_one(ItemType::GoldIngot, 1);
                self.processing = 0;
            },
            _ => {},
        }
    }

    /// A belt delivers `it` into the machine: it is taken when the machine
    /// accepts that item (see `machine_accepts`), and refused otherwise.
    pub fn accept_item(&mut self, tool: Tool, it: ItemType) -> (taken: bool)
        requires
            accepts_spec(tool, it) ==> held(old(self)@, it) < i32::MAX,
        ensures
            taken == accepts_spec(tool, it),
            final(self)@ == if taken { take(old(self)@, it, -1) } else { old(self)@ },
    {
        if machine_accepts(tool, it) {
            let i = it.to_index();
            self.buffer[i] = self.buffer[i] + 1;
            true
        } else {
            false
        }
    }
}


/// Work that one tick adds on each kind of processing machine.
pub open spec fn work_step(tool: Tool) -> int {
    match tool {
        Tool::Smelter | Tool::Press => 50,
        Tool::Centrifuge | Tool::ChemPlant => 20,
        Tool::Assembler => 25,
        Tool::Quantum => 10,
        _ => 1,
    }
}

/// A machine in a state that its own ticks can reach from an empty one:
/// no negative counts, work between 0 and 100 in whole steps, no negative
/// fuel, heat below the meltdown point, and a centrifuge or quantum computer
/// at work still holding the inputs that it will consume.
pub open spec fn machine_sound(tool: Tool, m: MachineView) -> bool {
    &&& m.buffer.len() == ITEM_COUNT
    &&& forall|j: int| 0 <= j < ITEM_COUNT ==> m.buffer[j] >= 0
    &&& 0 <= m.processing <= 100
    &&& m.processing % work_step(tool) == 0
    &&& m.fuel >= 0
    &&& 0 <= m.heat < 100
    &&& (tool == Tool::Centrifuge && m.processing > 0 ==> held(m, ItemType::UraniumOre) >= 3)
    &&& (tool == Tool::Quantum && m.processing > 0 ==> quantum_ready(m.buffer))
}

proof fn lemma_take_keeps_counts(m: MachineView, it: ItemType, n: int)
    requires
        m.buffer.len() == ITEM_COUNT,
        forall|j: int| 0 <= j < ITEM_COUNT ==> m.buffer[j] >= 0,
        0 <= held(m, it) - n <= i32::MAX,
    ensures
        take(m, it, n).buffer.len() == ITEM_COUNT,
        forall|j: int| 0 <= j < ITEM_COUNT ==> take(m, it, n).buffer[j] >= 0,
        held(take(m, it, n), it) == held(m, it) - n,
        forall|other: ItemType| other != it ==> held(take(m, it, n), other) == held(m, other),
{
    assert forall|other: ItemType| other != it implies held(take(m, it, n), other) == held(m, other) by {
        crate::item::lemma_item_order_slot(other);
        crate::item::lemma_item_order_slot(it);
    }
}

proof fn lemma_begin_keeps_sound(tool: Tool, terrain: Terrain, powered: bool, m: MachineView)
    requires
        machine_sound(tool, m),
    ensures
        machine_sound(tool, begin_spec(tool, terrain, powered, m).0),
{
    let m1 = begin_spec(tool, terrain, powered, m).0;
    if !runs_spec(tool, powered, m.fuel) {
        return;
    }
    match tool {
        Tool::CoalPlant => {
            if m.fuel <= 0 && held(m, ItemType::CoalOre) >= 1 {
                lemma_take_keeps_counts(m, ItemType::CoalOre, 1);
            }
        },
        Tool::Nuclear => {
            if m.fuel <= 0 && held(m, ItemType::UraniumCell) >= 1 {
                lemma_take_keeps_counts(m, ItemType::UraniumCell, 1);
            }
        },
        Tool::Smelter | Tool::Press => {
            if m.processing < 100 {
                assert(m.processing == 0 || m.processing == 50);
            }
        },
        Tool::Centrifuge => {
            if m.processing < 100 {
                assert(m.processing == 0 || m.processing == 20 || m.processing == 40 || m.processing == 60
                    || m.processing == 80);
                if terrain == Terrain::Uranium && held(m, ItemType::UraniumOre) < 3 {
                    lemma_take_keeps_counts(m, ItemType::UraniumOre, -1);
                }
            }
        },
        Tool::Assembler => {
            if m.processing < 100 {
                assert(m.processing == 0 || m.processing == 25 || m.processing == 50 || m.processing == 75);
            }
        },
        Tool::Quantum => {
            if m.processing < 100 {
                assert(m.processing <= 90);
                assert((m.processing + 10) % 10 == 0);
            }
        },
        _ => {},
    }
}

/// Every production tick keeps a machine sound (see `machine_sound`): the
/// first half keeps it so, the second half's counters stay within range for
/// whatever the world answers, and afterwards the machine is sound again
/// unless its reactor melted down.
pub proof fn law_tick_keeps_machine_sound(tool: Tool, terrain: Terrain, powered: bool, m: MachineView, met: bool)
    requires
        machine_sound(tool, m),
    ensures
        machine_sound(tool, begin_spec(tool, terrain, powered, m).0),
        finish_fits(tool, begin_spec(tool, terrain, powered, m).0, begin_spec(tool, terrain, powered, m).1, met),
        !finish_spec(tool, begin_spec(tool, terrain, powered, m).0, begin_spec(tool, terrain, powered, m).1, met).1
            ==> machine_sound(
            tool,
            finish_spec(tool, begin_spec(tool, terrain, powered, m).0, begin_spec(tool, terrain, powered, m).1, met).0,
        ),
{
    let (m1, req) = begin_spec(tool, terrain, powered, m);
    if tool == Tool::CoalPlant && runs_spec(tool, powered, m.fuel) && m.fuel <= 0 && held(m, ItemType::CoalOre) >= 1 {
        lemma_take_keeps_counts(m, ItemType::CoalOre, 1);
    }
    if tool == Tool::Nuclear && runs_spec(tool, powered, m.fuel) && m.fuel <= 0 && held(m, ItemType::UraniumCell) >= 1 {
        lemma_take_keeps_counts(m, ItemType::UraniumCell, 1);
    }
    lemma_begin_keeps_sound(tool, terrain, powered, m);
    if met && req is Eject {
        assert(m1 == m);
        assert(m.processing >= 100 || tool == Tool::Miner || tool == Tool::Lumberjack);
        if tool == Tool::Centrifuge {
            lemma_take_keeps_counts(m, ItemType::UraniumOre, 3);
        } else if tool == Tool::Quantum {
            lemma_take_keeps_counts(m, ItemType::Processor, 1);
            let a = take(m, ItemType::Processor, 1);
            lemma_take_keeps_counts(a, ItemType::Plastic, 1);
            let b = take(a, ItemType::Plastic, 1);
            lemma_take_keeps_counts(b, ItemType::GoldIngot, 1);
        } else if tool == Tool::Assembler {
            let rc = assembler_recipe_spec(m.buffer)->Some_0;
            crate::industry::law_recipe_is_stocked(m.buffer);
            lemma_take_keeps_counts(m, rc.first, 1);
            let a = take(m, rc.first, 1);
            lemma_take_keeps_counts(a, rc.second, 1);
        }
    }
}

/// A belt delivery that a machine accepts keeps it sound.
pub proof fn law_delivery_keeps_machine_sound(tool: Tool, m: MachineView, it: ItemType)
    requires
        machine_sound(tool, m),
        accepts_spec(tool, it),
        held(m, it) < i32::MAX,
    ensures
        machine_sound(tool, take(m, it, -1)),
{
    lemma_take_keeps_counts(m, it, -1);
}

/// A machine on an unpowered grid that burns no fuel of its own neither
/// changes nor asks for anything.
pub proof fn law_unpowered_machine_rests(tool: Tool, terrain: Terrain, m: MachineView)
    requires
        !runs_spec(tool, false, m.fuel),
    ensures
        begin_spec(tool, terrain, false, m) == (m, Request::Idle),
{
}

/// The counts a machine's recipes draw on, added up: for an assembler its
/// five possible inputs.
pub open spec fn assembler_inputs(m: MachineView) -> int {
    held(m, ItemType::IronPlate) + held(m, ItemType::CoalPlate) + held(m, ItemType::Glass)
        + held(m, ItemType::Silicon) + held(m, ItemType::CopperWire)
}

/// A machine that has finished a piece of work and dropped it on a belt has
/// used its inputs up and starts the next piece from nothing: a smelter or a
/// press is left with an empty buffer, a centrifuge with three uranium ores
/// fewer, a quantum computer with one processor, one plastic and one gold
/// ingot fewer, and an assembler with two of its inputs fewer. Only finished
/// work is dropped, and a machine that could not drop it keeps everything.
pub proof fn law_output_spends_inputs(tool: Tool, terrain: Terrain, powered: bool, m: MachineView, met: bool)
    requires
        machine_sound(tool, m),
    ensures
        ({
            let (m1, req) = begin_spec(tool, terrain, powered, m);
            let (m2, melt) = finish_spec(tool, m1, req, met);
            req is Eject ==> {
                &&& !melt
                &&& tool != Tool::Miner && tool != Tool::Lumberjack ==> m.processing >= 100 && m1 == m
                &&& !met ==> m2 == m1
                &&& met && tool != Tool::Miner && tool != Tool::Lumberjack ==> m2.processing == 0
                &&& met && (tool == Tool::Smelter || tool == Tool::Press) ==>
                    forall|i: int| 0 <= i < ITEM_COUNT ==> #[trigger] m2.buffer[i] == 0
                &&& met && tool == Tool::Centrifuge ==> held(m2, ItemType::UraniumOre) == held(m, ItemType::UraniumOre) - 3
                &&& met && tool == Tool::Quantum ==> {
                    &&& held(m2, ItemType::Processor) == held(m, ItemType::Processor) - 1
                    &&& held(m2, ItemType::Plastic) == held(m, ItemType::Plastic) - 1
                    &&& held(m2, ItemType::GoldIngot) == held(m, ItemType::GoldIngot) - 1
                }
                &&& met && tool == Tool::Assembler ==> assembler_inputs(m2) == assembler_inputs(m) - 2
            }
        }),
{
    let (m1, req) = begin_spec(tool, terrain, powered, m);
    if req is Eject && met {
        if tool == Tool::Centrifuge {
            lemma_take_keeps_counts(m, ItemType::UraniumOre, 3);
        } else if tool == Tool::Quantum {
            lemma_take_keeps_counts(m, ItemType::Processor, 1);
            let a = take(m, ItemType::Processor, 1);
            lemma_take_keeps_counts(a, ItemType::Plastic, 1);
            let b = take(a, ItemType::Plastic, 1);
            lemma_take_keeps_counts(b, ItemType::GoldIngot, 1);
        } else if tool == Tool::Assembler {
            let rc = assembler_recipe_spec(m.buffer)->Some_0;
            crate::industry::law_recipe_is_stocked(m.buffer);
            lemma_take_keeps_counts(m, rc.first, 1);
            let a = take(m, rc.first, 1);
            lemma_take_keeps_counts(a, rc.second, 1);
        }
    }
}

/// Only a reactor melts down, and only on a tick on which it burns fuel, the
/// pipes around it give no coolant, and it was already at heat 85 or more.
pub proof fn law_meltdown_needs_failed_cooling(tool: Tool, terrain: Terrain, powered: bool, m: MachineView, met: bool)
    ensures
        finish_spec(tool, begin_spec(tool, terrain, powered, m).0, begin_spec(tool, terrain, powered, m).1, met).1
            ==> tool == Tool::Nuclear && m.fuel > 0 && !met && m.heat >= 85,
{
}

fn zeroed() -> (b: [i32; 21])
    ensures
        b@ == Seq::new(21, |i: int| 0i32),
{
    let mut b: [i32; 21] = [0i32; 21];
    let mut i: usize = 0;
    while i < 21
        invariant
            i <= 21,
            b@.len() == 21,
            forall|j: int| 0 <= j < i ==> b@[j] == 0,
        decreases 21 - i,
    {
        b[i] = 0;
        i = i + 1;
    }
    assert(b@ =~= Seq::new(21, |i: int| 0i32));
    b
}

} // verus!
