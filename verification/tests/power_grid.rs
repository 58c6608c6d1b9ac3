use factorio_street::grid_graph::{power_graph, GridBlock};
use factorio_street::components::power_components;
use factorio_street::power::{is_power_block, ordered_link, power_linked, PowerDSU, PowerLink};
use factorio_street::tool::Tool;

#[test]
fn union_connects_and_spreads_generation() {
    let mut d = PowerDSU::default();
    d.make((0, 0), true);
    d.make((1, 0), false);
    d.make((5, 5), false);
    assert!(d.component_has_gen((0, 0)));
    assert!(!d.component_has_gen((1, 0)));
    d.union((1, 0), (0, 0));
    assert_eq!(d.find((1, 0)), d.find((0, 0)));
    assert!(d.component_has_gen((1, 0)));
    assert!(!d.component_has_gen((5, 5)));
    assert_ne!(d.find((5, 5)), d.find((0, 0)));
    d.union((5, 5), (1, 0));
    assert!(d.component_has_gen((5, 5)));
}

#[test]
fn union_by_rank_keeps_first_root_on_tie() {
    let mut d = PowerDSU::default();
    d.make((2, 3), false);
    d.make((4, 5), false);
    d.union((2, 3), (4, 5));
    assert_eq!(d.find((4, 5)), (2, 3));
    d.make((9, 9), false);
    // the taller tree's root survives
    d.union((9, 9), (4, 5));
    assert_eq!(d.find((9, 9)), (2, 3));
}

#[test]
fn make_is_idempotent_and_clear_forgets() {
    let mut d = PowerDSU::default();
    d.make((1, 1), false);
    d.make((1, 1), true);
    assert!(!d.component_has_gen((1, 1)));
    assert!(!d.component_has_gen((7, 7)));
    d.clear();
    assert!(!d.component_has_gen((1, 1)));
    d.make((1, 1), true);
    assert!(d.component_has_gen((1, 1)));
}

#[test]
fn long_chain_compresses() {
    let mut d = PowerDSU::default();
    for i in 0..200 {
        d.make((i, -i), i == 150);
    }
    for i in 1..200 {
        d.union((i, -i), (i - 1, -(i - 1)));
    }
    let r = d.find((0, 0));
    for i in 0..200 {
        assert_eq!(d.find((i, -i)), r);
        assert!(d.component_has_gen((i, -i)));
    }
}

#[test]
fn power_blocks() {
    assert!(is_power_block(Tool::Node));
    assert!(is_power_block(Tool::Battery));
    assert!(is_power_block(Tool::Solar));
    assert!(is_power_block(Tool::House));
    assert!(!is_power_block(Tool::Street));
    assert!(!is_power_block(Tool::ConveyorIron));
}

#[test]
fn wiring_rules() {
    // orthogonal neighbours wire
    assert!(power_linked(Tool::House, Tool::Solar, 1, 0));
    // diagonal neighbours do not, unless a pole is involved
    assert!(!power_linked(Tool::House, Tool::Solar, 1, 1));
    assert!(power_linked(Tool::House, Tool::Node, 1, 1));
    // poles reach three cells
    assert!(power_linked(Tool::Node, Tool::House, 3, -2));
    assert!(!power_linked(Tool::House, Tool::Node, 2, 0));
    // not a power block
    assert!(!power_linked(Tool::Node, Tool::Street, 1, 0));
    assert!(!power_linked(Tool::Node, Tool::Node, 0, 0));
}

#[test]
fn links_are_stored_in_one_orientation() {
    let a = (3, 4);
    let b = (3, 2);
    assert_eq!(ordered_link(a, b), ordered_link(b, a));
    assert_eq!(ordered_link(a, b), PowerLink { u: (3, 2), v: (3, 4) });
    assert_eq!(ordered_link((-1, 9), (0, 0)), PowerLink { u: (-1, 9), v: (0, 0) });
}

#[test]
fn components_by_breadth_first_search() {
    // 0 - 1 - 2   3   4 - 5, block 5 is only reachable (not a start)
    let nb: Vec<Vec<usize>> = vec![vec![1], vec![0, 2], vec![1], vec![], vec![5], vec![4]];
    let comps = power_components(&nb, 5);
    assert_eq!(comps, vec![vec![0, 1, 2], vec![3], vec![4, 5]]);
}

#[test]
fn components_visit_in_breadth_first_order() {
    // star around 0, with a tail behind 2
    let nb: Vec<Vec<usize>> = vec![vec![3, 1, 2], vec![0], vec![0, 4], vec![0], vec![2]];
    let comps = power_components(&nb, 5);
    assert_eq!(comps, vec![vec![0, 3, 1, 2, 4]]);
    let empty: Vec<Vec<usize>> = Vec::new();
    assert!(power_components(&empty, 0).is_empty());
}

#[test]
fn sunlight_over_the_day() {
    let cases = [(0, 0), (599, 0), (600, 0), (650, 50), (799, 199), (800, 200), (1200, 200), (1600, 200), (1650, 150), (1800, 0), (1850, 0), (2399, 0)];
    for (t, s) in cases {
        assert_eq!(factorio_street::power::sunlight(t), s, "at {}", t);
    }
}

#[test]
fn wiring_graph_from_registered_blocks() {
    let b = |x: i32, y: i32, tool: Tool, live: bool| GridBlock { pos: (x, y), tool, live };
    let blocks = vec![
        b(0, 0, Tool::Node, true),     // registered pole
        b(5, 5, Tool::House, true),    // registered house, far away
        b(3, 2, Tool::Miner, true),    // within the pole's reach
        b(1, 0, Tool::Smelter, false), // next to the pole but unfinished
        b(6, 5, Tool::Market, true),   // next to the house
        b(9, 9, Tool::Solar, true),    // reached by nobody
    ];
    let nb = power_graph(&blocks, 2);
    assert_eq!(nb[0], vec![2]);
    assert_eq!(nb[1], vec![4]);
    assert_eq!(nb[2], vec![0]);
    assert!(nb[3].is_empty());
    assert_eq!(nb[4], vec![1]);
    assert!(nb[5].is_empty());
    let comps = power_components(&nb, 2);
    assert_eq!(comps, vec![vec![0, 2], vec![1, 4]]);
}
