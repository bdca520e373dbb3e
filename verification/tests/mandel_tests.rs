use standby_core::fixed::SCALE;
use standby_core::mandel::{compose_viewport, escape_iters, render_frame, Viewport};

#[test]
fn escape_iters_known_points() {
    // c = 2: the first step lands on |z| = 2 (not yet escaped), the
    // second leaves the bound.
    assert_eq!(escape_iters(2 * SCALE, 0, 100), 1);
    // c = 0 never escapes: the budget is spent whole.
    assert_eq!(escape_iters(0, 0, 50), 50);
    // c = -1 cycles between 0 and -1 forever.
    assert_eq!(escape_iters(-SCALE, 0, 50), 50);
    // Points outside the set escape with mid-range counts.
    assert_eq!(escape_iters(3 * SCALE / 10, 6 * SCALE / 10, 1000), 14);
    assert_eq!(escape_iters(-75 * SCALE / 100, 3 * SCALE / 10, 1000), 10);
    assert_eq!(escape_iters(4 * SCALE / 10, 4 * SCALE / 10, 1000), 8);
}

#[test]
fn escape_iters_caps_at_budget() {
    for max_iter in [0u32, 1, 7, 100] {
        assert!(escape_iters(0, 0, max_iter) == max_iter);
    }
}

#[test]
fn render_frame_exterior_view() {
    // A 2x2 frame of a wide view: the four samples land at (+-1, +-1),
    // which escape after 1 or 2 steps, so no pixel is interior.
    let mut buf = vec![0u8; 2 * 2 * 4];
    let view = Viewport { center_x: 0, center_y: 0, zoom: 2 * SCALE, aspect: SCALE };
    let interior = render_frame(&mut buf, 2, 2, view, 30);
    assert_eq!(interior, 0);
    assert_eq!(buf.len(), 16);
    for p in 0..4 {
        assert_eq!(buf[4 * p], 0, "red at pixel {p}");
        assert_eq!(buf[4 * p + 3], 255, "alpha at pixel {p}");
    }
    // The two right-hand pixels (count 1) are dimmer than the two
    // left-hand ones (count 2).
    assert!(buf[4 * 0 + 2] > buf[4 * 1 + 2]);
    assert_eq!(buf[4 * 0 + 1], buf[4 * 2 + 1]);
    assert_eq!(buf[4 * 1 + 2], buf[4 * 3 + 2]);
}

#[test]
fn render_frame_interior_view() {
    // Zoomed deep onto the origin every sample stays in the set: the
    // whole frame is interior and pure black.
    let mut buf = vec![7u8; 3 * 2 * 4];
    let view = Viewport { center_x: 0, center_y: 0, zoom: SCALE / 20, aspect: SCALE };
    let interior = render_frame(&mut buf, 3, 2, view, 64);
    assert_eq!(interior, 6);
    for p in 0..6 {
        assert_eq!(&buf[4 * p..4 * p + 4], &[0, 0, 0, 255]);
    }
}

#[test]
fn render_frame_rewrites_every_byte() {
    let mut buf = vec![123u8; 4 * 3 * 4];
    let view = Viewport {
        center_x: -743_643_887,
        center_y: 131_825_904,
        zoom: 7 * SCALE / 10,
        aspect: 16 * SCALE / 9,
    };
    let interior = render_frame(&mut buf, 4, 3, view, 80);
    assert!(interior <= 12);
    for p in 0..12 {
        assert_eq!(buf[4 * p], 0);
        assert_eq!(buf[4 * p + 3], 255);
    }
}

#[test]
fn compose_viewport_centers_and_clamps() {
    let v = compose_viewport(-743_643_887, 131_825_904, 1_000_000, -2_000_000, 700_000_000,
        1_777_777_777);
    assert_eq!(v.center_x, -742_643_887);
    assert_eq!(v.center_y, 129_825_904);
    assert_eq!(v.zoom, 700_000_000);
    assert_eq!(v.aspect, 1_777_777_777);
    // Out-of-range components are clamped into the renderer's range.
    let v = compose_viewport(4_000_000_000, -4_000_000_000, 3_000_000_000, -3_000_000_000, 0,
        9_000_000_000);
    assert_eq!(v.center_x, 4_000_000_000);
    assert_eq!(v.center_y, -4_000_000_000);
    assert_eq!(v.zoom, 1);
    assert_eq!(v.aspect, 8_000_000_000);
}
