use factorio_street::economy::{cooldown_for, opening_demand, opening_price, rival_target_for, STARTING_MONEY};
use factorio_street::economy::{random_rival_target, rival_dump_event, totals_after_change};
use factorio_street::economy::{
    apply_attack, attack_from_roll, choose_attack, degrades_over_time, demand_items, dumping_target,
    next_cooldown, next_demand, npc_may_attack, price_forced_to_floor, price_trend, rival_event_for,
    rival_targets, sabotage_penalty, settle_economy, tick_demand, tick_embargo, tick_npc_timers, tick_rival,
    AttackKind, Demand, NpcAttack, RivalEvent,
};
use factorio_street::item::ItemType;
use factorio_street::tool::Tool;

#[test]
fn demand_rolls() {
    assert_eq!(demand_items().len(), 10);
    assert_eq!(rival_targets(), &[ItemType::Steel, ItemType::CircuitBoard, ItemType::Processor, ItemType::Plastic, ItemType::AiCore]);
    assert_eq!(next_demand(0, 0, 0), Demand { item: ItemType::Silicon, multiplier: 2, ticks: 15 });
    assert_eq!(next_demand(9, 2, 14), Demand { item: ItemType::AiCore, multiplier: 4, ticks: 29 });
}

#[test]
fn demand_counts_down_then_renews() {
    let mut d = Demand { item: ItemType::Glass, multiplier: 3, ticks: 2 };
    tick_demand(&mut d);
    assert_eq!(d, Demand { item: ItemType::Glass, multiplier: 3, ticks: 1 });
    for _ in 0..50 {
        let mut d = Demand { item: ItemType::Glass, multiplier: 3, ticks: 1 };
        tick_demand(&mut d);
        assert!(demand_items().contains(&d.item));
        assert!((2..=4).contains(&d.multiplier));
        assert!((15..30).contains(&d.ticks));
    }
}

fn event(target: ItemType, ticks: i32, attack: Option<NpcAttack>) -> RivalEvent {
    RivalEvent { msg: "x".to_string(), target, ticks, attack }
}

#[test]
fn rival_events_expire() {
    let mut none: Option<RivalEvent> = None;
    assert!(!tick_rival(&mut none));
    assert!(none.is_none());
    let mut ev = Some(event(ItemType::Steel, 2, None));
    assert!(tick_rival(&mut ev));
    assert_eq!(ev.as_ref().unwrap().ticks, 1);
    assert!(tick_rival(&mut ev));
    assert!(ev.is_none());
}

#[test]
fn one_item_at_the_floor() {
    let ev = Some(event(ItemType::Steel, 3, None));
    assert!(price_forced_to_floor(ItemType::Steel, &ev));
    assert!(!price_forced_to_floor(ItemType::Plastic, &ev));
    let dump = Some(event(ItemType::IronOre, 3, Some(NpcAttack::Dumping { target: ItemType::Plastic })));
    assert!(price_forced_to_floor(ItemType::Plastic, &dump));
    assert!(!price_forced_to_floor(ItemType::IronOre, &dump));
    // embargo and sabotage events leave every price alone
    let emb = Some(event(ItemType::IronOre, 3, Some(NpcAttack::Embargo { blocked: ItemType::Steel })));
    assert!(!price_forced_to_floor(ItemType::IronOre, &emb));
    assert!(!price_forced_to_floor(ItemType::Steel, &emb));
    let sab = Some(event(ItemType::IronOre, 3, Some(NpcAttack::Sabotage { extra_upkeep: 100 })));
    assert!(!price_forced_to_floor(ItemType::IronOre, &sab));
    assert!(!price_forced_to_floor(ItemType::Steel, &None));
}

#[test]
fn trends() {
    assert_eq!(price_trend(5, 4), 1);
    assert_eq!(price_trend(3, 4), -1);
    assert_eq!(price_trend(4, 4), 0);
}

#[test]
fn embargo_lifts_at_zero() {
    let mut item = Some(ItemType::Processor);
    let mut ticks = 2;
    assert!(!tick_embargo(&mut item, &mut ticks));
    assert_eq!((item, ticks), (Some(ItemType::Processor), 1));
    assert!(tick_embargo(&mut item, &mut ticks));
    assert_eq!((item, ticks), (None, 0));
    assert!(!tick_embargo(&mut item, &mut ticks));
    assert_eq!((item, ticks), (None, 0));
}

#[test]
fn cartel_timers() {
    let mut cd = 2;
    let mut pen = 120;
    assert!(!tick_npc_timers(&mut cd, &mut pen));
    assert_eq!((cd, pen), (1, 70));
    assert!(!tick_npc_timers(&mut cd, &mut pen));
    assert_eq!((cd, pen), (0, 20));
    assert!(tick_npc_timers(&mut cd, &mut pen));
    assert_eq!((cd, pen), (0, 0));
    assert!(!tick_npc_timers(&mut cd, &mut pen));
    assert!(npc_may_attack(0, false, 10));
    assert!(!npc_may_attack(1, false, 10));
    assert!(!npc_may_attack(0, true, 10));
    assert!(!npc_may_attack(0, false, 0));
}

#[test]
fn sabotage_size() {
    assert_eq!(sabotage_penalty(0), 100);
    assert_eq!(sabotage_penalty(-1000), 500);
    assert_eq!(sabotage_penalty(201), 100);
    assert_eq!(sabotage_penalty(450), 225);
}

#[test]
fn dumping_picks_the_largest_valuable_stock() {
    let cache = vec![(ItemType::IronOre, 100), (ItemType::Steel, 9), (ItemType::Plastic, 12), (ItemType::Processor, 12), (ItemType::Glass, 50)];
    // iron ore and glass are too cheap; plastic and processor tie, the later wins
    assert_eq!(dumping_target(&cache, 0), ItemType::Processor);
    let thin = vec![(ItemType::AiCore, 5), (ItemType::Wood, 40)];
    assert_eq!(dumping_target(&thin, 3), ItemType::Plastic);
    assert_eq!(dumping_target(&[], 4), ItemType::AiCore);
}

#[test]
fn attacks() {
    assert_eq!(attack_from_roll(AttackKind::Sabotage, -600, &[], 0), NpcAttack::Sabotage { extra_upkeep: 300 });
    assert_eq!(attack_from_roll(AttackKind::Embargo, 0, &[], 2), NpcAttack::Embargo { blocked: ItemType::CircuitBoard });
    assert_eq!(attack_from_roll(AttackKind::Dumping, 0, &[(ItemType::Steel, 6)], 4), NpcAttack::Dumping { target: ItemType::Steel });
    match choose_attack(AttackKind::Embargo, 0, &[]) {
        NpcAttack::Embargo { blocked } => assert!([ItemType::Processor, ItemType::AiCore, ItemType::CircuitBoard, ItemType::Steel].contains(&blocked)),
        other => panic!("unexpected {:?}", other),
    }
    match choose_attack(AttackKind::Dumping, 0, &[]) {
        NpcAttack::Dumping { target } => assert!(rival_targets().contains(&target)),
        other => panic!("unexpected {:?}", other),
    }
}

#[test]
fn applying_attacks() {
    let (mut item, mut ticks, mut pen) = (None, 0, 10);
    assert_eq!(apply_attack(NpcAttack::Embargo { blocked: ItemType::AiCore }, &mut item, &mut ticks, &mut pen), 12);
    assert_eq!((item, ticks, pen), (Some(ItemType::AiCore), 12, 10));
    assert_eq!(apply_attack(NpcAttack::Sabotage { extra_upkeep: 150 }, &mut item, &mut ticks, &mut pen), 6);
    assert_eq!(pen, 160);
    assert_eq!(apply_attack(NpcAttack::Dumping { target: ItemType::Steel }, &mut item, &mut ticks, &mut pen), 8);
    let ev = rival_event_for(NpcAttack::Dumping { target: ItemType::Steel }, "dump".to_string());
    assert_eq!((ev.target, ev.ticks, ev.msg.as_str()), (ItemType::Steel, 8, "dump"));
    let ev = rival_event_for(NpcAttack::Sabotage { extra_upkeep: 100 }, "s".to_string());
    assert_eq!((ev.target, ev.ticks), (ItemType::IronOre, 6));
    assert_eq!(ev.attack, Some(NpcAttack::Sabotage { extra_upkeep: 100 }));
}

#[test]
fn cooldown_range() {
    for _ in 0..100 {
        let c = next_cooldown();
        assert!((20..40).contains(&c));
    }
}

#[test]
fn economy_settlement() {
    let (mut money, mut income, mut pending) = (1000, 0, 40);
    settle_economy(&mut money, &mut income, &mut pending, 25, 5);
    assert_eq!((money, income, pending), (1060, 60, 0));
    settle_economy(&mut money, &mut income, &mut pending, -100, 0);
    assert_eq!((money, income, pending), (960, -100, 0));
}

#[test]
fn wear() {
    assert!(degrades_over_time(Tool::House));
    assert!(degrades_over_time(Tool::Nuclear));
    assert!(!degrades_over_time(Tool::Street));
    assert!(!degrades_over_time(Tool::Battery));
    assert!(!degrades_over_time(Tool::Smelter));
}

#[test]
fn rival_dumping_events() {
    for _ in 0..50 {
        let t = random_rival_target();
        assert!(rival_targets().contains(&t));
    }
    let ev = rival_dump_event(ItemType::Steel, "TechCorp desovou AÇO!".to_string());
    assert_eq!(ev.target, ItemType::Steel);
    assert_eq!(ev.ticks, 10);
    assert!(ev.attack.is_none());
    assert_eq!(ev.msg, "TechCorp desovou AÇO!");
}

#[test]
fn city_totals_follow_buildings() {
    assert_eq!(totals_after_change(0, 0, None, Some(Tool::House)), (15, 1));
    assert_eq!(totals_after_change(15, 1, Some(Tool::House), Some(Tool::Nuclear)), (-100, 0));
    assert_eq!(totals_after_change(-100, 0, Some(Tool::Nuclear), None), (0, 0));
    assert_eq!(totals_after_change(7, 3, Some(Tool::Miner), Some(Tool::Street)), (8, 3));
}

#[test]
fn market_sales_are_paid_and_counted() {
    let mut money = 100;
    let mut pending = 7;
    factorio_street::economy::record_sale(&mut money, &mut pending, 45);
    assert_eq!((money, pending), (145, 52));
    factorio_street::economy::record_sale(&mut money, &mut pending, 0);
    assert_eq!((money, pending), (145, 52));
}

#[test]
fn clock_wraps_at_midnight() {
    for (t, expected) in [(600, 650), (2350, 0), (2399, 49), (0, 50)] {
        assert_eq!(factorio_street::economy::advance_clock(t), expected);
    }
}

#[test]
fn embargo_lifts_on_the_twelfth_tick() {
    let mut item = None;
    let mut ticks = 0;
    let mut penalty = 0;
    apply_attack(NpcAttack::Embargo { blocked: ItemType::Steel }, &mut item, &mut ticks, &mut penalty);
    for n in 1..=12 {
        let lifted = tick_embargo(&mut item, &mut ticks);
        assert_eq!(lifted, n == 12, "tick {}", n);
    }
    assert_eq!(item, None);
    assert_eq!(ticks, 0);
    assert!(!tick_embargo(&mut item, &mut ticks));
}

#[test]
fn embargoed_items_are_not_sold() {
    assert!(!factorio_street::economy::sale_allowed(ItemType::Steel, Some(ItemType::Steel), 5));
    assert!(factorio_street::economy::sale_allowed(ItemType::Plastic, Some(ItemType::Steel), 5));
    assert!(factorio_street::economy::sale_allowed(ItemType::Steel, Some(ItemType::Steel), 0));
    assert!(factorio_street::economy::sale_allowed(ItemType::Steel, None, 5));
}

#[test]
fn rolls_pick_targets_and_cooldowns() {
    assert_eq!(rival_target_for(0), ItemType::Steel);
    assert_eq!(rival_target_for(4), ItemType::AiCore);
    assert_eq!(cooldown_for(0), 20);
    assert_eq!(cooldown_for(19), 39);
}

#[test]
fn a_new_game_opens_the_economy() {
    assert_eq!(STARTING_MONEY, 50000);
    assert_eq!(opening_demand(), Demand { item: ItemType::CopperWire, multiplier: 3, ticks: 15 });
    assert_eq!(opening_price(ItemType::AiCore), 3500);
}

#[test]
fn sabotage_penalty_wears_off() {
    let mut cooldown = 0;
    let mut penalty = 120;
    assert!(!tick_npc_timers(&mut cooldown, &mut penalty));
    assert_eq!(penalty, 70);
    assert!(!tick_npc_timers(&mut cooldown, &mut penalty));
    assert_eq!(penalty, 20);
    assert!(tick_npc_timers(&mut cooldown, &mut penalty));
    assert_eq!(penalty, 0);
    assert!(!tick_npc_timers(&mut cooldown, &mut penalty));
}
