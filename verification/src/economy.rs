//! The economy's bookkeeping: income settlement, market demand, rival price
//! dumping, embargoes and the rival cartel's attacks.

use vstd::prelude::*;
use crate::item::{ItemType, item_base_price, item_is_raw, item_order, law_tradeable_iff_processed};
use crate::tool::{Tool, tool_upkeep};

verus! {

/// The item the market currently pays a bonus for, by how much, and for how many more ticks.
#[derive(Clone, Copy, Debug, PartialEq, Eq, Structural)]
pub struct Demand {
    pub item: ItemType,
    pub multiplier: i64,
    pub ticks: i32,
}

/// A rival cartel's attack on the player's economy.
#[derive(Clone, Copy, Debug, PartialEq, Eq, Structural)]
pub enum NpcAttack {
    /// The target item's price is forced to its floor.
    Dumping { target: ItemType },
    /// Sales of the blocked item are suspended.
    Embargo { blocked: ItemType },
    /// Upkeep is raised by `extra_upkeep` per tick until it wears off.
    Sabotage { extra_upkeep: i64 },
}

/// A running rival event: its announcement, the item it concerns, how many
/// ticks it lasts, and the attack behind it, if any.
#[derive(Clone, Debug)]
pub struct RivalEvent {
    pub msg: String,
    pub target: ItemType,
    pub ticks: i32,
    pub attack: Option<NpcAttack>,
}

/// The kind of attack the cartel settled on.
#[derive(Clone, Copy, Debug, PartialEq, Eq, Structural)]
pub enum AttackKind {
    Sabotage,
    Dumping,
    Embargo,
}

/// Draws a number from `0..n`, uniformly, with `rand::Rng::gen_range` on
/// `rand::thread_rng()`. Only the range of the result is stated; the value is chance.
#[verifier::external_body]
fn random_below(n: usize) -> (r: usize)
    requires
        n > 0,
    ensures
        r < n,
{
    rand::Rng::gen_range(&mut rand::thread_rng(), 0..n)
}

/// Money at the start of a new game.
pub const STARTING_MONEY: i64 = 50000;

/// The market's demand at the start of a new game: copper wire, paid three
/// times over, for 15 ticks.
pub fn opening_demand() -> (r: Demand)
    ensures
        r == (Demand { item: ItemType::CopperWire, multiplier: 3, ticks: 15 }),
{
    Demand { item: ItemType::CopperWire, multiplier: 3, ticks: 15 }
}

/// Every item's price at the start of a new game: its base price.
pub fn opening_price(it: ItemType) -> (r: i64)
    ensures
        r == item_base_price(it),
{
    it.base_price()
}

pub open spec fn demand_items_spec() -> Seq<ItemType> {
    seq![
        ItemType::Silicon, ItemType::CopperWire, ItemType::CircuitBoard, ItemType::Steel,
        ItemType::Glass, ItemType::Processor, ItemType::Plastic, ItemType::GoldIngot,
        ItemType::UraniumCell, ItemType::AiCore,
    ]
}

pub open spec fn rival_targets_spec() -> Seq<ItemType> {
    seq![ItemType::Steel, ItemType::CircuitBoard, ItemType::Processor, ItemType::Plastic, ItemType::AiCore]
}

pub open spec fn embargo_targets_spec() -> Seq<ItemType> {
    seq![ItemType::Processor, ItemType::AiCore, ItemType::CircuitBoard, ItemType::Steel]
}

/// The market only ever asks for processed goods that can be traded: ten
/// distinct ones, among them glass. Every good a rival dumps or embargoes is
/// one the market may ask for.
pub proof fn law_market_demands_processed_goods()
    ensures
        demand_items_spec().len() == 10,
        forall|i: int| 0 <= i < 10 ==> !item_is_raw(#[trigger] demand_items_spec()[i]),
        forall|i: int| 0 <= i < 10 ==> item_order().subrange(8, 21).contains(#[trigger] demand_items_spec()[i]),
        forall|i: int, j: int| 0 <= i < j < 10 ==> demand_items_spec()[i] != demand_items_spec()[j],
        demand_items_spec().contains(ItemType::Glass),
        demand_items_spec().contains(ItemType::Silicon),
        demand_items_spec().contains(ItemType::CopperWire),
        demand_items_spec().contains(ItemType::AiCore),
        forall|i: int| 0 <= i < rival_targets_spec().len() ==> demand_items_spec().contains(#[trigger] rival_targets_spec()[i]),
        forall|i: int| 0 <= i < embargo_targets_spec().len() ==> demand_items_spec().contains(#[trigger] embargo_targets_spec()[i]),
{
    let d = demand_items_spec();
    assert forall|i: int| 0 <= i < 10 implies item_order().subrange(8, 21).contains(#[trigger] d[i]) by {
        law_tradeable_iff_processed(d[i]);
    }
    assert(d[4] == ItemType::Glass);
    assert(d[0] == ItemType::Silicon);
    assert(d[1] == ItemType::CopperWire);
    assert(d[9] == ItemType::AiCore);
    assert(d[3] == ItemType::Steel);
    assert(d[2] == ItemType::CircuitBoard);
    assert(d[5] == ItemType::Processor);
    assert(d[6] == ItemType::Plastic);
}

/// The goods the market may ask for.
pub fn demand_items() -> (r: &'static [ItemType])
    ensures
        r@ == demand_items_spec(),
{
    &[
        ItemType::Silicon, ItemType::CopperWire, ItemType::CircuitBoard, ItemType::Steel,
        ItemType::Glass, ItemType::Processor, ItemType::Plastic, ItemType::GoldIngot,
        ItemType::UraniumCell, ItemType::AiCore,
    ]
}

/// The goods a rival may dump on the market.
pub fn rival_targets() -> (r: &'static [ItemType])
    ensures
        r@ == rival_targets_spec(),
{
    &[ItemType::Steel, ItemType::CircuitBoard, ItemType::Processor, ItemType::Plastic, ItemType::AiCore]
}

/// The demand picked by three rolls: the item from `demand_items()`, a
/// multiplier of 2 to 4 and a duration of 15 to 29 ticks.
pub fn next_demand(item_roll: usize, mult_roll: usize, ticks_roll: usize) -> (r: Demand)
    requires
        item_roll < 10,
        mult_roll < 3,
        ticks_roll < 15,
    ensures
        r == (Demand {
            item: demand_items_spec()[item_roll as int],
            multiplier: (2 + mult_roll) as i64,
            ticks: (15 + ticks_roll) as i32,
        }),
{
    let items = demand_items();
    Demand { item: items[item_roll], multiplier: 2 + mult_roll as i64, ticks: 15 + ticks_roll as i32 }
}

/// One market tick of the demand: it counts down, and once it runs out a new
/// demand is drawn at random.
pub fn tick_demand(demand: &mut Demand)
    requires
        old(demand).ticks > i32::MIN,
    ensures
        old(demand).ticks - 1 > 0 ==> *final(demand) == (Demand { ticks: (old(demand).ticks - 1) as i32, ..*old(demand) }),
        old(demand).ticks - 1 <= 0 ==> {
            &&& demand_items_spec().contains(final(demand).item)
            &&& 2 <= final(demand).multiplier <= 4
            &&& 15 <= final(demand).ticks < 30
        },
{
    demand.ticks = demand.ticks - 1;
    if demand.ticks <= 0 {
        let item_roll = random_below(10);
        let mult_roll = random_below(3);
        let ticks_roll = random_below(15);
        *demand = next_demand(item_roll, mult_roll, ticks_roll);
        proof {
            assert(demand_items_spec()[item_roll as int] == demand.item);
        }
    }
}

/// One market tick of the running rival event: it counts down and ends when
/// no ticks are left. Returns whether an event was running.
pub fn tick_rival(event: &mut Option<RivalEvent>) -> (r: bool)
    requires
        *old(event) matches Some(ev) ==> ev.ticks > i32::MIN,
    ensures
        r == (*old(event) is Some),
        *old(event) is None ==> *final(event) is None,
        *old(event) matches Some(ev) ==> (if ev.ticks - 1 <= 0 {
            *final(event) is None
        } else {
            *final(event) matches Some(nv) && nv.ticks == ev.ticks - 1 && nv.msg@ == ev.msg@
                && nv.target == ev.target && nv.attack == ev.attack
        }),
{
    match event.take() {
        Some(ev) => {
            let mut ev = ev;
            ev.ticks = ev.ticks - 1;
            if ev.ticks > 0 {
                *event = Some(ev);
            }
            true
        }
        None => false,
    }
}

/// The good a rival dumps for the roll `roll`: `rival_targets()[roll]`.
pub fn rival_target_for(roll: usize) -> (r: ItemType)
    requires
        roll < 5,
    ensures
        r == rival_targets_spec()[roll as int],
{
    let targets = rival_targets();
    targets[roll]
}

/// A good for a rival to dump, drawn at random from `rival_targets()`.
pub fn random_rival_target() -> (r: ItemType)
    ensures
        exists|roll: int| 0 <= roll < 5 && r == rival_targets_spec()[roll],
{
    let roll = random_below(5);
    rival_target_for(roll)
}

/// A rival dumping `target` on the market, announced by `msg`: the good's
/// price stays at its floor for 10 market ticks.
pub fn rival_dump_event(target: ItemType, msg: String) -> (r: RivalEvent)
    ensures
        r.msg@ == msg@,
        r.target == target,
        r.ticks == 10,
        r.attack is None,
{
    RivalEvent { msg, target, ticks: 10, attack: None }
}

/// The item whose price a running rival event forces to the floor: the
/// target of a dumping attack, or the event's own target when it is a plain
/// rival dumping without an attack behind it. Sabotage and embargo events
/// leave prices alone.
pub open spec fn floor_item(event: Option<RivalEvent>) -> Option<ItemType> {
    match event {
        Some(ev) => match ev.attack {
            Some(NpcAttack::Dumping { target }) => Some(target),
            Some(_) => None,
            None => Some(ev.target),
        },
        None => None,
    }
}

/// Whether the market forces `it`'s price to the floor this tick.
pub fn price_forced_to_floor(it: ItemType, event: &Option<RivalEvent>) -> (r: bool)
    ensures
        r == (floor_item(*event) == Some(it)),
{
    match event {
        Some(ev) => match &ev.attack {
            Some(NpcAttack::Dumping { target }) => *target == it,
            Some(_) => false,
            None => ev.target == it,
        },
        None => false,
    }
}

/// Direction of a price move: 1 up, -1 down, 0 unchanged.
pub fn price_trend(new_price: i64, old_price: i64) -> (r: i8)
    ensures
        new_price > old_price ==> r == 1,
        new_price < old_price ==> r == -1,
        new_price == old_price ==> r == 0,
{
    if new_price > old_price {
        1
    } else if new_price < old_price {
        -1
    } else {
        0
    }
}

/// An embargo's remaining ticks after one market tick.
pub open spec fn embargo_tick(ticks: int) -> int {
    if ticks > 0 { ticks - 1 } else { ticks }
}

/// An embargo's remaining ticks after `n` market ticks.
pub open spec fn embargo_left(ticks: int, n: nat) -> int
    decreases n,
{
    if n == 0 { ticks } else { embargo_tick(embargo_left(ticks, (n - 1) as nat)) }
}

/// One market tick of an embargo: it counts down and lifts when it reaches
/// zero. Returns whether it lifted now.
pub fn tick_embargo(item: &mut Option<ItemType>, ticks: &mut i32) -> (lifted: bool)
    ensures
        *final(ticks) == embargo_tick(*old(ticks) as int),
        lifted == (*old(ticks) == 1),
        *final(item) == (if lifted { None } else { *old(item) }),
{
    if *ticks > 0 {
        *ticks = *ticks - 1;
        if *ticks == 0 {
            *item = None;
            return true;
        }
    }
    false
}

/// A sabotage penalty after one market tick: 50 less, but not below zero.
pub open spec fn penalty_tick(p: int) -> int {
    if p > 0 {
        if p - 50 > 0 { p - 50 } else { 0 }
    } else {
        p
    }
}

/// A sabotage penalty after `n` market ticks without a new sabotage.
pub open spec fn penalty_after(p: int, n: nat) -> int
    decreases n,
{
    if n == 0 { p } else { penalty_tick(penalty_after(p, (n - 1) as nat)) }
}

/// The cartel's timers: the attack cooldown counts down by one, and a
/// sabotage penalty wears off by 50 per tick. Returns whether the penalty
/// has just worn off completely.
pub fn tick_npc_timers(cooldown: &mut i32, penalty: &mut i64) -> (relieved: bool)
    ensures
        *final(cooldown) == (if *old(cooldown) > 0 { *old(cooldown) - 1 } else { *old(cooldown) as int }),
        *final(penalty) == penalty_tick(*old(penalty) as int),
        relieved == (0 < *old(penalty) <= 50),
{
    if *cooldown > 0 {
        *cooldown = *cooldown - 1;
    }
    if *penalty > 0 {
        let p = *penalty - 50;
        *penalty = if p > 0 { p } else { 0 };
        return *penalty == 0;
    }
    false
}

/// The cartel may strike only when its cooldown has run out, no rival event
/// is running and the city has a population.
pub fn npc_may_attack(cooldown: i32, rival_active: bool, total_pop: i32) -> (r: bool)
    ensures
        r == (cooldown <= 0 && !rival_active && total_pop != 0),
{
    !(cooldown > 0 || rival_active) && total_pop != 0
}

/// Upkeep shock of a sabotage: half the size of the total upkeep, at least 100.
pub open spec fn sabotage_spec(total_upkeep: int) -> int {
    let half = (if total_upkeep < 0 { -total_upkeep } else { total_upkeep }) / 2;
    if half >= 100 { half } else { 100 }
}

pub fn sabotage_penalty(total_upkeep: i64) -> (r: i64)
    requires
        total_upkeep > i64::MIN,
    ensures
        r == sabotage_spec(total_upkeep as int),
{
    let a: i64 = if total_upkeep < 0 { -total_upkeep } else { total_upkeep };
    let h = a / 2;
    if h >= 100 { h } else { 100 }
}

/// An inventory entry worth dumping: more than five in stock of something priced above 20.
pub open spec fn dumpable(e: (ItemType, i32)) -> bool {
    e.1 > 5 && item_base_price(e.0) > 20
}

/// The index of the dumpable entry with the largest stock, the last one on a tie.
pub open spec fn is_best_dumpable(cache: Seq<(ItemType, i32)>, j: int) -> bool {
    &&& 0 <= j < cache.len()
    &&& dumpable(cache[j])
    &&& forall|i: int| 0 <= i < cache.len() && dumpable(#[trigger] cache[i]) ==> cache[i].1 <= cache[j].1
    &&& forall|i: int| j < i < cache.len() && dumpable(#[trigger] cache[i]) ==> cache[i].1 < cache[j].1
}

/// `t` is the target of a dumping attack on `cache`: the player's most
/// stocked dumpable item, or, when there is none, `rival_targets()[roll]`.
pub open spec fn dumping_choice(cache: Seq<(ItemType, i32)>, roll: int, t: ItemType) -> bool {
    &&& (exists|j: int| 0 <= j < cache.len() && dumpable(#[trigger] cache[j])) ==>
        exists|j: int| is_best_dumpable(cache, j) && t == cache[j].0
    &&& !(exists|j: int| 0 <= j < cache.len() && dumpable(#[trigger] cache[j])) ==>
        t == rival_targets_spec()[roll]
}

pub fn dumping_target(cache: &[(ItemType, i32)], fallback_roll: usize) -> (r: ItemType)
    requires
        fallback_roll < 5,
    ensures
        dumping_choice(cache@, fallback_roll as int, r),
{
    let mut best: Option<usize> = None;
    let mut i: usize = 0;
    while i < cache.len()
        invariant
            i <= cache@.len(),
            match best {
                Some(b) => {
                    &&& b < i
                    &&& dumpable(cache@[b as int])
                    &&& forall|k: int| 0 <= k < i && dumpable(#[trigger] cache@[k]) ==> cache@[k].1 <= cache@[b as int].1
                    &&& forall|k: int| b < k < i && dumpable(#[trigger] cache@[k]) ==> cache@[k].1 < cache@[b as int].1
                },
                None => forall|k: int| 0 <= k < i ==> !dumpable(#[trigger] cache@[k]),
            },
        decreases cache@.len() - i,
    {
        let (it, qty) = cache[i];
        if qty > 5 && it.base_price() > 20 {
            let take = match best {
                Some(b) => qty >= cache[b].1,
                None => true,
            };
            if take {
                best = Some(i);
            }
        }
        i = i + 1;
    }
    match best {
        Some(b) => {
            assert(is_best_dumpable(cache@, b as int));
            cache[b].0
        },
        None => {
            let targets = rival_targets();
            targets[fallback_roll]
        },
    }
}

/// The attack of a given kind, with `roll` drawn for whatever is picked at random:
/// the fallback dumping target, or the embargoed item.
pub fn attack_from_roll(kind: AttackKind, total_upkeep: i64, cache: &[(ItemType, i32)], roll: usize) -> (r: NpcAttack)
    requires
        total_upkeep > i64::MIN,
        kind == AttackKind::Dumping ==> roll < 5,
        kind == AttackKind::Embargo ==> roll < 4,
    ensures
        kind == AttackKind::Sabotage ==> r == (NpcAttack::Sabotage { extra_upkeep: sabotage_spec(total_upkeep as int) as i64 }),
        kind == AttackKind::Dumping ==> (r matches NpcAttack::Dumping { target } && dumping_choice(cache@, roll as int, target)),
        kind == AttackKind::Embargo ==> r == (NpcAttack::Embargo { blocked: embargo_targets_spec()[roll as int] }),
{
    match kind {
        AttackKind::Sabotage => NpcAttack::Sabotage { extra_upkeep: sabotage_penalty(total_upkeep) },
        AttackKind::Dumping => NpcAttack::Dumping { target: dumping_target(cache, roll) },
        AttackKind::Embargo => {
            let blocked = if roll == 0 {
                ItemType::Processor
            } else if roll == 1 {
                ItemType::AiCore
            } else if roll == 2 {
                ItemType::CircuitBoard
            } else {
                ItemType::Steel
            };
            NpcAttack::Embargo { blocked }
        },
    }
}

/// The cartel's attack of the chosen kind, drawing at random where the attack needs it.
pub fn choose_attack(kind: AttackKind, total_upkeep: i64, cache: &[(ItemType, i32)]) -> (r: NpcAttack)
    requires
        total_upkeep > i64::MIN,
    ensures
        kind == AttackKind::Sabotage ==> r == (NpcAttack::Sabotage { extra_upkeep: sabotage_spec(total_upkeep as int) as i64 }),
        kind == AttackKind::Dumping ==> (r matches NpcAttack::Dumping { target }
            && exists|roll: int| 0 <= roll < 5 && dumping_choice(cache@, roll, target)),
        kind == AttackKind::Embargo ==> (r matches NpcAttack::Embargo { blocked } && embargo_targets_spec().contains(blocked)),
{
    let roll = match kind {
        AttackKind::Sabotage => 0,
        AttackKind::Dumping => random_below(5),
        AttackKind::Embargo => random_below(4),
    };
    let r = attack_from_roll(kind, total_upkeep, cache, roll);
    proof {
        if kind == AttackKind::Embargo {
            assert(embargo_targets_spec()[roll as int] == embargo_targets_spec()[roll as int]);
        }
        if kind == AttackKind::Dumping {
            if let NpcAttack::Dumping { target } = r {
                assert(dumping_choice(cache@, roll as int, target));
            }
        }
    }
    r
}

/// How long the rival event of an attack runs.
pub open spec fn attack_ticks(attack: NpcAttack) -> i32 {
    match attack {
        NpcAttack::Dumping { .. } => 8,
        NpcAttack::Embargo { .. } => 12,
        NpcAttack::Sabotage { .. } => 6,
    }
}

/// Puts an attack into effect: an embargo blocks its item for 12 ticks, a
/// sabotage adds its upkeep penalty. Returns how long the rival event runs.
pub fn apply_attack(attack: NpcAttack, embargo_item: &mut Option<ItemType>, embargo_ticks: &mut i32, upkeep_penalty: &mut i64) -> (ticks: i32)
    requires
        attack matches NpcAttack::Sabotage { extra_upkeep } ==> *old(upkeep_penalty) + extra_upkeep <= i64::MAX
            && *old(upkeep_penalty) + extra_upkeep >= i64::MIN,
    ensures
        ticks == attack_ticks(attack),
        match attack {
            NpcAttack::Embargo { blocked } => *final(embargo_item) == Some(blocked) && *final(embargo_ticks) == 12
                && *final(upkeep_penalty) == *old(upkeep_penalty),
            NpcAttack::Sabotage { extra_upkeep } => *final(upkeep_penalty) == *old(upkeep_penalty) + extra_upkeep
                && *final(embargo_item) == *old(embargo_item) && *final(embargo_ticks) == *old(embargo_ticks),
            NpcAttack::Dumping { .. } => *final(upkeep_penalty) == *old(upkeep_penalty)
                && *final(embargo_item) == *old(embargo_item) && *final(embargo_ticks) == *old(embargo_ticks),
        },
{
    match attack {
        NpcAttack::Dumping { .. } => 8,
        NpcAttack::Embargo { blocked } => {
            *embargo_item = Some(blocked);
            *embargo_ticks = 12;
            12
        },
        NpcAttack::Sabotage { extra_upkeep } => {
            *upkeep_penalty = *upkeep_penalty + extra_upkeep;
            6
        },
    }
}

/// The rival event announcing an attack: it concerns the dumped item (iron
/// ore for the other attacks) and runs for the attack's duration.
pub fn rival_event_for(attack: NpcAttack, msg: String) -> (r: RivalEvent)
    ensures
        r.msg@ == msg@,
        r.target == (match attack {
            NpcAttack::Dumping { target } => target,
            _ => ItemType::IronOre,
        }),
        r.ticks == attack_ticks(attack),
        r.attack == Some(attack),
{
    let target = match attack {
        NpcAttack::Dumping { target } => target,
        _ => ItemType::IronOre,
    };
    let ticks: i32 = match attack {
        NpcAttack::Dumping { .. } => 8,
        NpcAttack::Embargo { .. } => 12,
        NpcAttack::Sabotage { .. } => 6,
    };
    RivalEvent { msg, target, ticks, attack: Some(attack) }
}

/// The cartel's cooldown after an attack: 20 to 39 ticks, at random.
pub fn next_cooldown() -> (r: i32)
    ensures
        20 <= r < 40,
{
    let roll = random_below(20);
    cooldown_for(roll)
}

/// The cartel's cooldown for the roll `roll`: `20 + roll` ticks.
pub fn cooldown_for(roll: usize) -> (r: i32)
    requires
        roll < 20,
    ensures
        r == 20 + roll,
{
    20 + roll as i32
}

/// The clock after one economy tick: half an hour later (time of day is in
/// hundredths of an hour), wrapping at midnight.
pub fn advance_clock(time_of_day: u32) -> (r: u32)
    requires
        time_of_day <= u32::MAX - 50,
    ensures
        r == (if time_of_day + 50 >= 2400 { time_of_day + 50 - 2400 } else { time_of_day + 50 }),
        time_of_day < 2400 ==> r < 2400,
{
    let t = time_of_day + 50;
    if t >= 2400 { t - 2400 } else { t }
}

/// Settles one economy tick: the city's upkeep, less any sabotage penalty,
/// plus the sales since the last tick are paid into `money` and reported as
/// `income`; the pending sales start again from zero.
pub fn settle_economy(money: &mut i64, income: &mut i64, pending_sales: &mut i64, total_upkeep: i64, upkeep_penalty: i64)
    requires
        i64::MIN <= total_upkeep - upkeep_penalty <= i64::MAX,
        i64::MIN <= total_upkeep - upkeep_penalty + *old(pending_sales) <= i64::MAX,
        i64::MIN <= *old(money) + (total_upkeep - upkeep_penalty + *old(pending_sales)) <= i64::MAX,
    ensures
        *final(income) == total_upkeep - upkeep_penalty + *old(pending_sales),
        *final(money) == *old(money) + *final(income),
        *final(pending_sales) == 0,
{
    let earnings = total_upkeep - upkeep_penalty + *pending_sales;
    *money = *money + earnings;
    *income = earnings;
    *pending_sales = 0;
}

/// A market sells an item unless an embargo on that item is running.
pub open spec fn sale_allowed_spec(it: ItemType, embargo_item: Option<ItemType>, embargo_ticks: int) -> bool {
    !(embargo_item == Some(it) && embargo_ticks > 0)
}

/// Whether a market may sell `it` now; an embargoed item stays on its belt.
pub fn sale_allowed(it: ItemType, embargo_item: Option<ItemType>, embargo_ticks: i32) -> (r: bool)
    ensures
        r == sale_allowed_spec(it, embargo_item, embargo_ticks as int),
{
    match embargo_item {
        Some(b) => !(b == it && embargo_ticks > 0),
        None => true,
    }
}

/// An item delivered to a market is sold at its current price: the price is
/// paid into `money` and counted in the sales that the next economy tick
/// reports as income.
pub fn record_sale(money: &mut i64, pending_sales: &mut i64, price: i64)
    requires
        i64::MIN <= *old(money) + price <= i64::MAX,
        i64::MIN <= *old(pending_sales) + price <= i64::MAX,
    ensures
        *final(money) == *old(money) + price,
        *final(pending_sales) == *old(pending_sales) + price,
{
    *money = *money + price;
    *pending_sales = *pending_sales + price;
}

/// Structures that wear down every economy tick: those with an upkeep, except
/// poles, streets, batteries, conveyors, pipes and warehouses.
pub fn degrades_over_time(t: Tool) -> (r: bool)
    ensures
        r == (tool_upkeep(t) != 0 && !(t == Tool::Node || t == Tool::Street || t == Tool::Battery
            || t == Tool::ConveyorIron || t == Tool::Pipe || t == Tool::Warehouse)),
{
    t.upkeep() != 0 && !matches!(t, Tool::Node | Tool::Street | Tool::Battery | Tool::ConveyorIron | Tool::Pipe | Tool::Warehouse)
}

/// A building's share of the city's running totals: its upkeep, and one
/// resident for a house.
pub open spec fn residents(t: Tool) -> int {
    if t == Tool::House { 1 } else { 0 }
}

pub open spec fn upkeep_of(b: Option<Tool>) -> int {
    match b {
        Some(t) => tool_upkeep(t),
        None => 0,
    }
}

pub open spec fn residents_of(b: Option<Tool>) -> int {
    match b {
        Some(t) => residents(t),
        None => 0,
    }
}

/// The city's total upkeep and population after the building on one cell
/// changes from `removed` to `added` (either may be none).
pub fn totals_after_change(total_upkeep: i64, total_pop: i32, removed: Option<Tool>, added: Option<Tool>) -> (r: (i64, i32))
    requires
        i64::MIN + 200 <= total_upkeep <= i64::MAX - 200,
        i32::MIN + 1 <= total_pop <= i32::MAX - 1,
    ensures
        r.0 == total_upkeep - upkeep_of(removed) + upkeep_of(added),
        r.1 == total_pop - residents_of(removed) + residents_of(added),
{
    let mut upkeep = total_upkeep;
    let mut pop = total_pop;
    match removed {
        Some(t) => {
            upkeep = upkeep - t.upkeep();
            if t == Tool::House {
                pop = pop - 1;
            }
        },
        None => {},
    }
    match added {
        Some(t) => {
            upkeep = upkeep + t.upkeep();
            if t == Tool::House {
                pop = pop + 1;
            }
        },
        None => {},
    }
    (upkeep, pop)
}

/// At most one item is forced to the floor price at a time.
pub proof fn law_single_floor_item(event: Option<RivalEvent>, a: ItemType, b: ItemType)
    ensures
        floor_item(event) == Some(a) && floor_item(event) == Some(b) ==> a == b,
{
}

/// A dumping attack never targets a raw material worth little: when the
/// player holds a dumpable stock, the target is one of those items.
pub proof fn law_dumping_targets_valuable(cache: Seq<(ItemType, i32)>, j: int)
    requires
        is_best_dumpable(cache, j),
    ensures
        item_base_price(cache[j].0) > 20,
        cache[j].1 > 5,
{
}

proof fn lemma_embargo_counts_down(k: nat)
    requires
        k <= 12,
    ensures
        embargo_left(12, k) == 12 - k,
    decreases k,
{
    if k > 0 {
        lemma_embargo_counts_down((k - 1) as nat);
    }
}

/// An embargo that an attack puts in place (12 ticks, see `apply_attack`)
/// lifts on the twelfth market tick after it, and on no earlier one.
pub proof fn law_embargo_lasts_twelve_ticks(n: nat)
    requires
        1 <= n <= 12,
    ensures
        (embargo_left(12, (n - 1) as nat) == 1) <==> n == 12,
{
    lemma_embargo_counts_down((n - 1) as nat);
}

/// An embargo that an attack puts in place stops sales of exactly its item,
/// on every market tick until it lifts.
pub proof fn law_embargo_stops_sales(blocked: ItemType, it: ItemType, n: nat)
    requires
        n < 12,
    ensures
        sale_allowed_spec(it, Some(blocked), embargo_left(12, n)) <==> it != blocked,
{
    lemma_embargo_counts_down(n);
}

proof fn lemma_penalty_steps(p: int, n: nat)
    requires
        p >= 0,
    ensures
        penalty_after(p, n) == (if p - 50 * n > 0 { p - 50 * n } else { 0 }),
    decreases n,
{
    if n > 0 {
        lemma_penalty_steps(p, (n - 1) as nat);
    }
}

/// A sabotage penalty is temporary: without a new sabotage it wears off
/// after exactly `ceil(p / 50)` market ticks and stays above zero before.
pub proof fn law_penalty_wears_off(p: int, n: nat)
    requires
        p > 0,
    ensures
        penalty_after(p, ((p + 49) / 50) as nat) == 0,
        n < (p + 49) / 50 ==> penalty_after(p, n) > 0,
{
    lemma_penalty_steps(p, ((p + 49) / 50) as nat);
    lemma_penalty_steps(p, n);
}

} // verus!
