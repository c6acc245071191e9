use carapace::embed_render::{pad_rows, padded_row_bytes, swizzle_rgba_bgra, unpad_rows, Tier};
use carapace::proto::blit_nearest;
use carapace::spike::{parity_check, Pixmap};

const FILL: [u8; 4] = [255, 0, 0, 255];
const BG: [u8; 4] = [0, 0, 0, 255];

// A 4x4 pixmap: left two columns the fill color, right two the background.
fn solid_pixmap() -> Pixmap {
    let mut data = Vec::with_capacity(4 * 4 * 4);
    for _y in 0..4 {
        for x in 0..4 {
            let c = if x < 2 { FILL } else { BG };
            data.extend_from_slice(&c);
        }
    }
    Pixmap { width: 4, height: 4, data }
}

// The hit test of a region covering the left half (pixel centers x=0.5,1.5 inside).
fn left_half_inside() -> Vec<bool> {
    let mut v = Vec::new();
    for _y in 0..4 {
        for x in 0..4 {
            v.push(x < 2);
        }
    }
    v
}

#[test]
fn parity_passes_when_render_matches_hittest() {
    let report = parity_check(&solid_pixmap(), &left_half_inside(), FILL, BG);
    assert_eq!(report.mismatches, Vec::<(u32, u32)>::new());
    assert_eq!(report.checked, 16);
}

#[test]
fn parity_catches_a_wrong_pixel() {
    let mut pm = solid_pixmap();
    let i = ((0 * 4 + 3) * 4) as usize;
    pm.data[i..i + 4].copy_from_slice(&[255, 0, 0, 255]);
    let report = parity_check(&pm, &left_half_inside(), FILL, BG);
    assert_eq!(report.mismatches, vec![(3, 0)]);
}

#[test]
fn parity_skips_antialiased_pixels() {
    let mut pm = solid_pixmap();
    let i = ((0 * 4 + 3) * 4) as usize;
    pm.data[i..i + 4].copy_from_slice(&[128, 0, 0, 255]);
    let report = parity_check(&pm, &left_half_inside(), FILL, BG);
    assert_eq!(report.mismatches, Vec::<(u32, u32)>::new());
    assert_eq!(report.checked, 15);
}

#[test]
fn parity_reports_mismatch_coordinates_in_row_major_order() {
    let pm = solid_pixmap();
    let mut inside = left_half_inside();
    inside[1 * 4 + 3] = true; // (3,1): background pixel the hit test calls inside
    inside[2 * 4 + 0] = false; // (0,2): fill pixel the hit test calls outside
    let report = parity_check(&pm, &inside, FILL, BG);
    assert_eq!(report.mismatches, vec![(3, 1), (0, 2)]);
    assert_eq!(report.checked, 16);
}

#[test]
fn blit_nearest_scales_up_by_two() {
    // 2x1 canvas: red then green, scaled to a 4x2 window.
    let data = vec![255, 0, 0, 255, 0, 255, 0, 255];
    let buf = blit_nearest(&data, 2, 1, 4, 2);
    let red = 0x00ff_0000u32;
    let green = 0x0000_ff00u32;
    assert_eq!(buf, vec![red, red, green, green, red, red, green, green]);
}

#[test]
fn blit_nearest_at_canvas_size_copies_pixels() {
    let data = vec![1, 2, 3, 4, 5, 6, 7, 8, 9, 10, 11, 12, 13, 14, 15, 16];
    let buf = blit_nearest(&data, 2, 2, 2, 2);
    assert_eq!(buf, vec![0x010203, 0x050607, 0x090a0b, 0x0d0e0f]);
}

#[test]
fn blit_nearest_scales_down_by_sampling() {
    // 4x1 canvas to a 2x1 window: pixels 0 and 2 are sampled.
    let data = vec![1, 0, 0, 0, 2, 0, 0, 0, 3, 0, 0, 0, 4, 0, 0, 0];
    assert_eq!(blit_nearest(&data, 4, 1, 2, 1), vec![0x010000, 0x030000]);
}

#[test]
fn padded_rows_round_up_to_256() {
    assert_eq!(padded_row_bytes(64), 256);
    assert_eq!(padded_row_bytes(65), 512);
    assert_eq!(padded_row_bytes(1), 256);
    assert_eq!(padded_row_bytes(0), 0);
}

#[test]
fn unpad_rows_keeps_each_rows_pixels() {
    let data = vec![1, 2, 9, 9, 3, 4, 9, 9, 5, 6, 9, 9];
    assert_eq!(unpad_rows(&data, 2, 4, 3), vec![1, 2, 3, 4, 5, 6]);
    assert_eq!(unpad_rows(&data, 4, 4, 3), data);
}

#[test]
fn swizzle_swaps_red_and_blue() {
    let rgba = vec![1, 2, 3, 4, 5, 6, 7, 8];
    let bgra = swizzle_rgba_bgra(&rgba);
    assert_eq!(bgra, vec![3, 2, 1, 4, 7, 6, 5, 8]);
    assert_eq!(swizzle_rgba_bgra(&bgra), rgba);
}

#[test]
fn tier_codes_cross_the_c_boundary() {
    assert_eq!(Tier::Readback.code(), 1);
    assert_eq!(Tier::Shared.code(), 2);
}

#[test]
fn pad_rows_lays_rows_at_the_stride_and_unpad_undoes_it() {
    let rows = vec![1u8, 2, 3, 4, 5, 6];
    let padded = pad_rows(&rows, 2, 4, 3);
    assert_eq!(padded, vec![1, 2, 0, 0, 3, 4, 0, 0, 5, 6, 0, 0]);
    assert_eq!(unpad_rows(&padded, 2, 4, 3), rows);
    assert_eq!(pad_rows(&rows, 3, 3, 2), rows);
}
