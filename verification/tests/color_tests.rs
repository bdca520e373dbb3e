use standby_core::color::{mandelbrot_color, Rgba};

#[test]
fn interior_is_pure_black_full_alpha() {
    for max_iter in [1u32, 2, 80, 1024] {
        let c = mandelbrot_color(max_iter, max_iter);
        assert_eq!(c, Rgba { r: 0, g: 0, b: 0, a: 255 });
        let c = mandelbrot_color(max_iter + 5, max_iter);
        assert_eq!(c, Rgba { r: 0, g: 0, b: 0, a: 255 });
    }
}

#[test]
fn red_channel_is_always_zero() {
    let max_iter = 97u32;
    for iter in 0..=max_iter {
        let c = mandelbrot_color(iter, max_iter);
        assert_eq!(c.r, 0);
        assert_eq!(c.a, 255);
    }
}

#[test]
fn exact_palette_values() {
    let c = mandelbrot_color(1, 2);
    assert_eq!((c.g, c.b), (141, 200));
    let c = mandelbrot_color(100, 1024);
    assert_eq!((c.g, c.b), (80, 114));
    let c = mandelbrot_color(511, 512);
    assert_eq!((c.g, c.b), (179, 254));
    let c = mandelbrot_color(0, 80);
    assert_eq!((c.g, c.b), (0, 0));
    let c = mandelbrot_color(1, 80);
    assert_eq!((c.g, c.b), (39, 56));
    let c = mandelbrot_color(79, 80);
    assert_eq!((c.g, c.b), (179, 253));
}

#[test]
fn channels_monotone_in_iteration_count() {
    let max_iter = 1024u32;
    let mut last = mandelbrot_color(0, max_iter);
    for iter in 1..max_iter {
        let c = mandelbrot_color(iter, max_iter);
        assert!(c.g >= last.g, "green dropped at iter {iter}");
        assert!(c.b >= last.b, "blue dropped at iter {iter}");
        last = c;
    }
}

#[test]
fn escaping_pixel_never_reaches_full_green() {
    let max_iter = 512u32;
    for iter in 0..max_iter {
        let c = mandelbrot_color(iter, max_iter);
        assert!(c.g <= 179);
        assert!(c.b <= 254);
    }
}
