use factorio_street::imaging::{clear_red_background, finish_sprite, is_red_background, scale_sprite, sprite_pixels};

#[test]
fn red_key() {
    assert!(is_red_background(200, 50, 50));
    assert!(!is_red_background(150, 100, 0));
    // exactly one and a half times is not enough
    assert!(!is_red_background(147, 98, 0));
    assert!(!is_red_background(147, 0, 98));
    // just over one and a half times is
    assert!(is_red_background(150, 99, 0));
    assert!(!is_red_background(255, 200, 10));
}

#[test]
fn keying_clears_alpha_only() {
    let mut px = vec![200, 10, 10, 255, 10, 200, 10, 255, 120, 20, 30, 128, 9, 9];
    clear_red_background(&mut px);
    assert_eq!(px, vec![200, 10, 10, 0, 10, 200, 10, 255, 120, 20, 30, 0, 9, 9]);
}

fn png_bytes(w: u32, h: u32, px: Vec<u8>) -> Vec<u8> {
    let img = image::RgbaImage::from_raw(w, h, px).unwrap();
    let mut bytes = Vec::new();
    img.write_to(&mut std::io::Cursor::new(&mut bytes), image::ImageFormat::Png).unwrap();
    bytes
}

#[test]
fn sprites_are_decoded_scaled_and_keyed() {
    // a red pixel beside a green one, scaled from 2x1 to 4x4
    let bytes = png_bytes(2, 1, vec![200, 10, 10, 255, 10, 200, 10, 255]);
    let plain = sprite_pixels(&bytes, 4, false).unwrap();
    assert_eq!(plain.len(), 64);
    assert_eq!(&plain[0..4], &[200, 10, 10, 255]);
    assert_eq!(&plain[60..64], &[10, 200, 10, 255]);
    let keyed = sprite_pixels(&bytes, 4, true).unwrap();
    assert_eq!(&keyed[0..4], &[200, 10, 10, 0]);
    assert_eq!(&keyed[60..64], &[10, 200, 10, 255]);
    // bytes that are no image give nothing
    assert!(sprite_pixels(&[1, 2, 3, 4], 4, true).is_none());
    assert!(sprite_pixels(&[], 32, false).is_none());
}

#[test]
fn finishing_keys_only_when_asked() {
    let px = vec![200, 10, 10, 255];
    assert_eq!(finish_sprite(px.clone(), false), px);
    assert_eq!(finish_sprite(px, true), vec![200, 10, 10, 0]);
}

#[test]
fn decoded_sheets_scale_to_a_square() {
    let px = vec![200, 10, 10, 255, 10, 200, 10, 255];
    let scaled = scale_sprite(2, 1, px, 3, false);
    assert_eq!(scaled.len(), 36);
    let keyed = scale_sprite(2, 1, vec![200, 10, 10, 255, 10, 200, 10, 255], 3, true);
    assert_eq!(keyed.len(), 36);
    assert_eq!(keyed[3], 0);
    assert_eq!(keyed[35], 255);
    // the same image through the file bytes
    let bytes = png_bytes(2, 1, vec![200, 10, 10, 255, 10, 200, 10, 255]);
    assert_eq!(sprite_pixels(&bytes, 3, false).unwrap(), scaled);
    assert!(sprite_pixels(&bytes, 0, false).is_none());
}
