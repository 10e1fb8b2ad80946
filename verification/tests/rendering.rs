use chip8_vm::rendering::{get_colors, pack_vram, Rgb};

#[test]
fn pack_vram_of_dark_screen_is_all_zero() {
    let video = vec![false; 2048];
    let out = pack_vram(&video);
    assert_eq!(out.len(), 64);
    assert!(out.iter().all(|w| *w == 0));
}

#[test]
fn pack_vram_sets_bit_y_of_word_x() {
    let mut video = vec![false; 2048];
    video[5 * 64 + 3] = true; // row 5, column 3
    video[0] = true; // row 0, column 0
    video[31 * 64 + 63] = true; // row 31, column 63
    let out = pack_vram(&video);
    assert_eq!(out[3], 1 << 5);
    assert_eq!(out[0], 1);
    assert_eq!(out[63], 1 << 31);
    assert!(out[1] == 0 && out[2] == 0 && out[62] == 0);
}

#[test]
fn pack_vram_packs_a_full_column() {
    let mut video = vec![false; 2048];
    for y in 0..32 {
        video[y * 64 + 7] = true;
    }
    let out = pack_vram(&video);
    assert_eq!(out[7], u32::MAX);
    assert_eq!(out[8], 0);
}

#[test]
fn colour_schemes_resolve_by_name() {
    let p = get_colors("amber");
    assert!(p.known);
    assert_eq!(p.foreground, Rgb { r: 255, g: 197, b: 0 });
    assert_eq!(p.background, Rgb { r: 30, g: 18, b: 8 });

    let p = get_colors("pride");
    assert!(p.known);
    assert_eq!(p.foreground, Rgb { r: 245, g: 169, b: 184 });
    assert_eq!(p.background, Rgb { r: 91, g: 206, b: 250 });

    let p = get_colors("moneybags");
    assert!(p.known);
    assert_eq!(p.foreground, Rgb { r: 239, g: 152, b: 21 });

    let p = get_colors("mono");
    assert!(p.known);
    assert_eq!(p.foreground, Rgb { r: 255, g: 255, b: 255 });
    assert_eq!(p.background, Rgb { r: 0, g: 0, b: 0 });

    let p = get_colors("inverted");
    assert!(p.known);
    assert_eq!(p.foreground, Rgb { r: 0, g: 0, b: 0 });
    assert_eq!(p.background, Rgb { r: 255, g: 255, b: 255 });
}

#[test]
fn unknown_colour_scheme_falls_back_to_mono() {
    // The host sees `known == false` and warns; the colours are mono's.
    let p = get_colors("sepia");
    assert!(!p.known);
    assert_eq!(p.foreground, Rgb { r: 255, g: 255, b: 255 });
    assert_eq!(p.background, Rgb { r: 0, g: 0, b: 0 });

    let p = get_colors("");
    assert!(!p.known);

    // Near misses are still unknown.
    let p = get_colors("ambe");
    assert!(!p.known);
    let p = get_colors("amberr");
    assert!(!p.known);
}
