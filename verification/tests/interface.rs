use factorio_street::text::hex_rgb;
use factorio_street::controls::{can_walk_onto, hover_gauges, tools_in_category, LoginForm};
use factorio_street::protocol::{packet_kind, packet_type, ws_address, PacketKind};
use factorio_street::terrain::Terrain;
use factorio_street::tool::Tool;

#[test]
fn packet_names_round_trip() {
    let kinds = [
        PacketKind::RegionState,
        PacketKind::MarketEvent,
        PacketKind::StateUpdate,
        PacketKind::CursorSync,
        PacketKind::Chat,
        PacketKind::PlayerList,
        PacketKind::NpcUpdate,
    ];
    for k in kinds {
        assert_eq!(packet_kind(packet_type(k)), Some(k));
    }
    assert_eq!(packet_type(PacketKind::CursorSync), "cursor_sync");
    assert_eq!(packet_kind("region_state"), Some(PacketKind::RegionState));
    assert_eq!(packet_kind("npc_update"), Some(PacketKind::NpcUpdate));
    assert_eq!(packet_kind("chat "), None);
    assert_eq!(packet_kind(""), None);
    assert_eq!(packet_kind("Chat"), None);
}

fn text(v: &[char]) -> String {
    v.iter().collect()
}

#[test]
fn login_form_typing() {
    let mut f = LoginForm::new("http://x".chars().collect());
    assert_eq!(f.focus, 1);
    f.type_char('b');
    f.type_char('o');
    f.type_char('b');
    assert_eq!(text(&f.username), "bob");
    f.type_char('\u{8}');
    assert_eq!(text(&f.username), "bo");
    f.type_char('\t');
    assert_eq!(f.focus, 2);
    f.type_char('p');
    f.type_char('\n');
    f.type_char('é');
    assert_eq!(text(&f.password), "p");
    f.type_char('\t');
    assert_eq!(f.focus, 0);
    f.type_char('\u{8}');
    assert_eq!(text(&f.server_url), "http://");
    f.type_char('\t');
    assert_eq!(f.focus, 1);
    // backspace on an empty field does nothing
    let mut g = LoginForm::new(Vec::new());
    g.type_char('\u{8}');
    assert!(g.username.is_empty());
}

#[test]
fn tool_bar_categories() {
    assert_eq!(
        tools_in_category(2),
        vec![Tool::Solar, Tool::Wind, Tool::CoalPlant, Tool::Nuclear, Tool::Battery]
    );
    assert_eq!(tools_in_category(4), vec![Tool::Market, Tool::House]);
    assert_eq!(tools_in_category(0).len(), 7);
    assert!(tools_in_category(5).is_empty());
}

#[test]
fn walking() {
    assert!(can_walk_onto(Terrain::Empty, None));
    assert!(!can_walk_onto(Terrain::Water, None));
    assert!(can_walk_onto(Terrain::Water, Some(Tool::Street)));
    assert!(!can_walk_onto(Terrain::Water, Some(Tool::Pipe)));
    assert!(can_walk_onto(Terrain::Iron, Some(Tool::ConveyorIron)));
    assert!(!can_walk_onto(Terrain::Empty, Some(Tool::House)));
}

#[test]
fn hover_panel_gauges() {
    let g = hover_gauges(Tool::Nuclear);
    assert!(g.fuel && g.heat && !g.charge);
    let g = hover_gauges(Tool::CoalPlant);
    assert!(g.fuel && !g.heat && !g.charge);
    let g = hover_gauges(Tool::Battery);
    assert!(!g.fuel && !g.heat && g.charge);
    let g = hover_gauges(Tool::House);
    assert!(!g.fuel && !g.heat && !g.charge);
}

#[test]
fn colour_codes() {
    assert_eq!(hex_rgb("#2d5e1e"), (0x2d, 0x5e, 0x1e));
    assert_eq!(hex_rgb("#FFFFFF"), (255, 255, 255));
    assert_eq!(hex_rgb("##0a1430"), (0x0a, 0x14, 0x30));
    assert_eq!(hex_rgb("000000"), (0, 0, 0));
    // a field that is not a number reads as 0; a leading plus is a sign
    assert_eq!(hex_rgb("#zz+f1g"), (0, 15, 0));
}

fn ws(url: &str) -> String {
    ws_address(&url.chars().collect()).into_iter().collect()
}

#[test]
fn websocket_addresses() {
    assert_eq!(ws("http://151.243.24.240:8081"), "ws://151.243.24.240:8081");
    assert_eq!(ws("https://game.example"), "wss://game.example");
    assert_eq!(ws("game.example:80"), "game.example:80");
    assert_eq!(ws("http://a/http://b"), "ws://a/ws://b");
    assert_eq!(ws("htt"), "htt");
}
