use factorio_street::grid_key::{decode_key, encode_pos};
use factorio_street::text::str_equal;
use factorio_street::world::{accepts_edits, dir_offset, idx, world_to_sector, SectorState, SECTOR_SIZE};

#[test]
fn local_index() {
    assert_eq!(idx(0, 0), Some(0));
    assert_eq!(idx(63, 63), Some(63 * 64 + 63));
    assert_eq!(idx(5, 2), Some(2 * SECTOR_SIZE + 5));
    assert_eq!(idx(64, 0), None);
    assert_eq!(idx(0, -1), None);
}

#[test]
fn sector_split_rounds_down() {
    assert_eq!(world_to_sector(0, 0), ((0, 0), (0, 0)));
    assert_eq!(world_to_sector(63, 64), ((0, 1), (63, 0)));
    assert_eq!(world_to_sector(-1, -64), ((-1, -1), (63, 0)));
    assert_eq!(world_to_sector(-65, 130), ((-2, 2), (63, 2)));
    for g in -200..200 {
        let ((s, _), (l, _)) = world_to_sector(g, 0);
        assert_eq!(s * 64 + l, g);
        assert!((0..64).contains(&l));
    }
}

#[test]
fn only_live_sectors_accept_edits() {
    assert!(accepts_edits(SectorState::ACTIVE));
    assert!(accepts_edits(SectorState::UNLOCKING));
    assert!(!accepts_edits(SectorState::LOCKED));
    assert!(!accepts_edits(SectorState::IDLE));
}

#[test]
fn direction_offsets() {
    assert_eq!(dir_offset(0), (0, -1));
    assert_eq!(dir_offset(1), (1, 0));
    assert_eq!(dir_offset(2), (0, 1));
    assert_eq!(dir_offset(3), (-1, 0));
}

#[test]
fn position_keys_roundtrip() {
    for p in [(0, 0), (-1, -1), (i32::MIN, i32::MAX), (i32::MAX, i32::MIN), (12, -7)] {
        assert_eq!(decode_key(encode_pos(p)), p);
    }
    assert_ne!(encode_pos((1, 0)), encode_pos((0, 1)));
}

#[test]
fn string_equality() {
    assert!(str_equal("ÁGUA", "ÁGUA"));
    assert!(!str_equal("abc", "abd"));
    assert!(!str_equal("ab", "abc"));
    assert!(str_equal("", ""));
}
