use mickey::ico::select_icon_image;
use mickey::pixels::{
    colorize_icon_pixels, fade_pixels, icon_mask_stride, opacity_to_alpha, premultiplied_pixel,
};

#[test]
fn premultiplied_circle_pixel() {
    assert_eq!(premultiplied_pixel([255, 0, 128], 0), 0);
    assert_eq!(premultiplied_pixel([255, 0, 128], 255), 0xFFFF_0080);
    assert_eq!(premultiplied_pixel([255, 100, 10], 128), 0x8080_3205);
}

#[test]
fn whole_window_alpha() {
    assert_eq!(opacity_to_alpha(0), 0);
    assert_eq!(opacity_to_alpha(100), 255);
    assert_eq!(opacity_to_alpha(50), 127);
    assert_eq!(opacity_to_alpha(255), (255u32 * 255 / 100) as u8);
}

#[test]
fn fading_icon_pixels() {
    let icon = vec![0xFF10_2030, 0x0000_0000, 0x80FF_FFFF];
    assert_eq!(fade_pixels(&icon, 0), vec![0, 0, 0]);
    let full = fade_pixels(&icon, 100);
    assert_eq!(full[0], 0xFF10_2030);
    assert_eq!(full[2] >> 24, 0x80);
    assert_eq!(full[2] & 0xFF, 0x80);
    let half = fade_pixels(&icon, 50);
    assert_eq!(half[0] >> 24, 127);
}

#[test]
fn mask_stride_pads_rows_to_words() {
    assert_eq!(icon_mask_stride(16), 4);
    assert_eq!(icon_mask_stride(32), 4);
    assert_eq!(icon_mask_stride(33), 8);
    assert_eq!(icon_mask_stride(0), 0);
}

#[test]
fn colorize_uses_colour_alpha_when_present() {
    let px = vec![0xFF00_0000, 0x0012_3456, 0x7F00_0000, 0x0100_0000];
    let mask = vec![0u8; 8];
    let out = colorize_icon_pixels(&px, &mask, 2, [1, 2, 3]);
    assert_eq!(out, vec![0xFF01_0203, 0, 0x7F01_0203, 0x0101_0203]);
}

#[test]
fn colorize_falls_back_to_mask() {
    // No alpha anywhere: mask bit 0 is opaque. Rows are stored bottom-up.
    let px = vec![0u32; 4];
    // bottom row (y = 1) first: x = 0 opaque, x = 1 transparent; top row: both transparent
    let mask = vec![0b0100_0000, 0, 0, 0, 0b1100_0000, 0, 0, 0];
    let out = colorize_icon_pixels(&px, &mask, 2, [9, 8, 7]);
    assert_eq!(out, vec![0, 0, 0xFF09_0807, 0]);
}

fn ico_with(entries: &[(u8, u32, u32)], total: usize) -> Vec<u8> {
    let mut b = vec![0u8; total];
    b[4] = entries.len() as u8;
    for (i, (w, len, off)) in entries.iter().enumerate() {
        let e = 6 + i * 16;
        b[e] = *w;
        b[e + 8..e + 12].copy_from_slice(&len.to_le_bytes());
        b[e + 12..e + 16].copy_from_slice(&off.to_le_bytes());
    }
    b
}

#[test]
fn ico_picks_closest_width() {
    let b = ico_with(&[(16, 10, 100), (32, 20, 120), (48, 30, 150)], 200);
    assert_eq!(select_icon_image(&b, 16), Some((100, 10)));
    assert_eq!(select_icon_image(&b, 30), Some((120, 20)));
    assert_eq!(select_icon_image(&b, 64), Some((150, 30)));
    assert_eq!(select_icon_image(&b, 24), Some((100, 10)));
}

#[test]
fn ico_skips_entries_outside_the_file() {
    let b = ico_with(&[(16, 500, 100), (32, 20, 120)], 200);
    assert_eq!(select_icon_image(&b, 16), Some((120, 20)));
    let b = ico_with(&[(16, 0, 100)], 200);
    assert_eq!(select_icon_image(&b, 16), None);
    assert_eq!(select_icon_image(&[0, 0, 1, 0], 16), None);
    let mut b = ico_with(&[(16, 10, 100)], 30);
    b[4] = 5;
    assert_eq!(select_icon_image(&b, 16), None);
}

#[test]
fn ico_width_zero_is_always_replaced() {
    let b = ico_with(&[(0, 10, 100), (200, 20, 120)], 200);
    assert_eq!(select_icon_image(&b, 0), Some((120, 20)));
}
