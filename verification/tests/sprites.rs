use asteria_meadow::assets::{draw_npc_sprite, draw_player_sheet, draw_slime_sprite};

const CLEAR: [u8; 4] = [0, 0, 0, 0];

#[test]
fn player_sheet_frames() {
    let sheet = draw_player_sheet();
    assert_eq!(sheet.image.dimensions(), (128, 32));
    let px = |x: u32, y: u32| sheet.image.get_pixel(x, y).0;
    let outline = [15, 20, 26, 255];
    let body = [40, 190, 255, 255];
    let head = [220, 245, 255, 255];
    // frame 0 faces up
    assert_eq!(px(0, 0), CLEAR);
    assert_eq!(px(16, 20), body);
    assert_eq!(px(7, 20), outline);
    assert_eq!(px(25, 31), outline);
    assert_eq!(px(16, 9), head);
    assert_eq!(px(16, 1), outline);
    assert_eq!(px(16, 4), outline);
    assert_eq!(px(16, 14), head);
    // frame 1 faces down
    assert_eq!(px(48, 14), outline);
    assert_eq!(px(48, 4), head);
    assert_eq!(px(48, 20), body);
    // frame 2 faces left, frame 3 right
    assert_eq!(px(64 + 11, 9), outline);
    assert_eq!(px(64 + 21, 9), head);
    assert_eq!(px(96 + 21, 9), outline);
    assert_eq!(px(96 + 11, 9), head);
    assert_eq!(px(127, 0), CLEAR);
}

#[test]
fn npc_sprite_pixels() {
    let img = draw_npc_sprite();
    assert_eq!(img.image.dimensions(), (32, 32));
    let px = |x: u32, y: u32| img.image.get_pixel(x, y).0;
    let outline = [26, 20, 15, 255];
    let robe = [200, 150, 30, 255];
    assert_eq!(px(0, 0), CLEAR);
    assert_eq!(px(6, 6), outline);
    assert_eq!(px(26, 20), outline);
    assert_eq!(px(16, 16), robe);
    assert_eq!(px(10, 4), outline);
    assert_eq!(px(16, 6), robe);
    assert_eq!(px(16, 8), outline);
    assert_eq!(px(27, 27), CLEAR);
}

#[test]
fn slime_sprite_pixels() {
    let img = draw_slime_sprite();
    assert_eq!(img.image.dimensions(), (32, 32));
    let px = |x: u32, y: u32| img.image.get_pixel(x, y).0;
    let outline = [26, 10, 20, 255];
    let body = [200, 40, 140, 255];
    assert_eq!(px(0, 0), CLEAR);
    assert_eq!(px(16, 16), body);
    assert_eq!(px(16, 5), body);
    assert_eq!(px(16, 4), outline);
    assert_eq!(px(4, 16), outline);
    assert_eq!(px(11, 15), outline);
    assert_eq!(px(20, 14), outline);
    assert_eq!(px(16, 15), body);
}

use asteria_meadow::assets::{circle, circle_fill, rect, rect_fill, SpriteImage};
use image::{Rgba, RgbaImage};

fn canvas(w: u32, h: u32) -> SpriteImage {
    SpriteImage { image: RgbaImage::from_pixel(w, h, Rgba(CLEAR)) }
}

const RED: [u8; 4] = [255, 0, 0, 255];

#[test]
fn rect_fill_clips_to_image() {
    let mut img = canvas(4, 3);
    rect_fill(&mut img, -2, -5, 10, 1, RED);
    for y in 0..3 {
        for x in 0..4 {
            let expected = if y <= 1 { RED } else { CLEAR };
            assert_eq!(img.image.get_pixel(x, y).0, expected, "({}, {})", x, y);
        }
    }
}

#[test]
fn rect_fill_empty_when_corners_swapped() {
    let mut img = canvas(4, 4);
    rect_fill(&mut img, 3, 3, 1, 1, RED);
    assert!(img.image.pixels().all(|p| p.0 == CLEAR));
}

#[test]
fn rect_draws_outline_only() {
    let mut img = canvas(6, 6);
    rect(&mut img, 1, 1, 4, 4, RED);
    for y in 0..6u32 {
        for x in 0..6u32 {
            let on = (1..=4).contains(&x) && (y == 1 || y == 4) || (1..=4).contains(&y) && (x == 1 || x == 4);
            assert_eq!(img.image.get_pixel(x, y).0, if on { RED } else { CLEAR }, "({}, {})", x, y);
        }
    }
}

#[test]
fn rect_skips_edges_outside() {
    let mut img = canvas(6, 6);
    // every edge lies outside the image: nothing is drawn
    rect(&mut img, -1, -1, 10, 10, RED);
    assert!(img.image.pixels().all(|p| p.0 == CLEAR));
}

#[test]
fn circle_fill_clips_at_corner() {
    let mut img = canvas(5, 5);
    circle_fill(&mut img, 0, 0, 2, RED);
    for y in 0..5i32 {
        for x in 0..5i32 {
            let inside = x <= 2 && y <= 2 && x * x + y * y <= 4;
            assert_eq!(img.image.get_pixel(x as u32, y as u32).0, if inside { RED } else { CLEAR });
        }
    }
}

#[test]
fn circle_draws_ring() {
    let mut img = canvas(9, 9);
    circle(&mut img, 4, 4, 3, RED);
    for y in 0..9i32 {
        for x in 0..9i32 {
            let (dx, dy) = (x - 4, y - 4);
            let d = dx * dx + dy * dy;
            let on = dx.abs() <= 3 && dy.abs() <= 3 && d >= 7 && d <= 11;
            assert_eq!(img.image.get_pixel(x as u32, y as u32).0, if on { RED } else { CLEAR }, "({}, {})", x, y);
        }
    }
}

#[test]
fn negative_radius_draws_nothing() {
    let mut img = canvas(5, 5);
    circle(&mut img, 2, 2, -1, RED);
    circle_fill(&mut img, 2, 2, -1, RED);
    assert!(img.image.pixels().all(|p| p.0 == CLEAR));
}

use asteria_meadow::assets::draw_player_frame;

#[test]
fn frame_stays_in_its_cell_and_ignores_old_pixels() {
    let mut img = SpriteImage { image: RgbaImage::from_pixel(96, 32, Rgba(RED)) };
    draw_player_frame(&mut img, 32, 0, 32, 32, 3);
    for y in 0..32 {
        for x in 0..96 {
            if !(32..64).contains(&x) {
                assert_eq!(img.image.get_pixel(x, y).0, RED, "({}, {})", x, y);
            }
        }
    }
    // the cell was cleared first: its corner is transparent, not red
    assert_eq!(img.image.get_pixel(32, 0).0, CLEAR);
    assert_eq!(img.image.get_pixel(63, 31).0, CLEAR);
    let fresh = draw_player_sheet();
    for y in 0..32 {
        for x in 0..32 {
            assert_eq!(img.image.get_pixel(32 + x, y).0, fresh.image.get_pixel(96 + x, y).0);
        }
    }
}

#[test]
fn size_reports_dimensions() {
    assert_eq!(canvas(7, 3).size(), (7, 3));
    assert_eq!(draw_player_sheet().size(), (128, 32));
}
