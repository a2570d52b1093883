use mandelbrot::coords::Coordinates;
use mandelbrot::engine::Mandelbrot;
use mandelbrot::errors::ConfigError;
use mandelbrot::escape::escape_iterations;
use mandelbrot::fixed::{COORD_BOUND, SCALE};
use mandelbrot::render::Palette;

fn gray_palette(width: usize) -> Palette {
    let mut pixels: Vec<u8> = Vec::new();
    for i in 0..width {
        let g = (i % 256) as u8;
        pixels.push(g);
        pixels.push(g);
        pixels.push(g);
    }
    Palette::new(width, pixels).unwrap()
}

fn engine(max_iterations: usize, width: usize, height: usize) -> Mandelbrot {
    Mandelbrot::new(max_iterations, width, height, None, gray_palette(100)).unwrap()
}

#[test]
fn origin_never_escapes() {
    for n in [1usize, 2, 10, 50, 500] {
        assert_eq!(escape_iterations(0, 0, n, 2 * SCALE), 0);
    }
}

#[test]
fn far_point_escapes_immediately() {
    // c = 3: already past the threshold after one step of the map
    assert_eq!(escape_iterations(3 * SCALE, 0, 50, 2 * SCALE), 1);
}

#[test]
fn escape_count_monotone_and_stable_in_budget() {
    // c = 0.5 escapes after a handful of steps
    let cx = SCALE / 2;
    let mut prev = 0usize;
    let mut settled = 0usize;
    for n in 1..=60usize {
        let v = escape_iterations(cx, 0, n, 2 * SCALE);
        assert!(v >= prev);
        if settled != 0 {
            assert_eq!(v, settled);
        }
        if v != 0 {
            settled = v;
        }
        prev = v;
    }
    assert!(settled != 0);
}

#[test]
fn center_pixel_of_default_view_is_in_the_set() {
    // Default viewport, budget 50, 100x100 grid: the pixel at (50, 50) maps
    // to the plane point (-0.5, 0), which never escapes.
    let m = engine(50, 100, 100);
    let c = Coordinates::default();
    assert_eq!(escape_iterations(-SCALE / 2, 0, 50, 2 * SCALE), 0);
    assert_eq!(m.pixel_value(&c, 50 * 100 + 50), 0);
}

#[test]
fn buffer_covers_grid_within_budget() {
    let m = engine(50, 40, 30);
    let c = Coordinates::default();
    let buffer = m.calculate(&c);
    assert_eq!(buffer.len(), 40 * 30);
    for &v in buffer.iter() {
        assert!(v <= 50);
    }
}

#[test]
fn parallel_and_sequential_buffers_agree() {
    let m = engine(50, 64, 48);
    let c = Coordinates::default();
    let sequential = m.calculate(&c);
    let parallel = m.calculate2(&c);
    assert_eq!(sequential, parallel);
    // corner pixel maps to (-2, -1), which escapes early
    assert!(parallel[0] >= 1);
    // a center-ish pixel sits in the set
    assert_eq!(parallel[24 * 64 + 42], 0);
}

#[test]
fn identical_inputs_render_identical_images() {
    let m = engine(50, 32, 20);
    let c = Coordinates::default();
    let image1 = m.render_mandelbrot_image(&m.calculate2(&c));
    let image2 = m.render_mandelbrot_image(&m.calculate2(&c));
    assert_eq!(image1, image2);
    assert_eq!(image1.len(), 3 * 32 * 20);
}

#[test]
fn renderer_samples_the_palette_by_normalized_count() {
    let m = engine(50, 2, 2);
    let buffer: Vec<usize> = vec![0, 1, 25, 50];
    let image = m.render_mandelbrot_image(&buffer);
    // value 0: 0*100/50 - 1 = -1, clamped to column 0
    // value 1: 1*100/50 - 1 = 1
    // value 25: 25*100/50 - 1 = 49
    // value 50: 50*100/50 - 1 = 99
    assert_eq!(image, vec![0, 0, 0, 1, 1, 1, 49, 49, 49, 99, 99, 99]);
}

#[test]
fn renderer_clamps_counts_past_the_palette() {
    let wide = Mandelbrot::new(50, 2, 1, None, gray_palette(100)).unwrap();
    // a count past the budget lands past the palette and is clamped
    let image = wide.render_mandelbrot_image(&vec![60, 0]);
    assert_eq!(&image[0..3], &[99, 99, 99]);
    let narrow = Mandelbrot::new(50, 2, 1, None, gray_palette(10)).unwrap();
    // 25*100/50 - 1 = 49 exceeds a 10-column palette: clamped to 9
    let image = narrow.render_mandelbrot_image(&vec![25, 0]);
    assert_eq!(&image[0..3], &[9, 9, 9]);
}

#[test]
fn configuration_errors_are_reported_at_construction() {
    let pal = gray_palette(100);
    assert!(matches!(
        Mandelbrot::new(0, 10, 10, None, pal.clone()),
        Err(ConfigError::ZeroIterations)
    ));
    assert!(matches!(
        Mandelbrot::new(usize::MAX, 10, 10, None, pal.clone()),
        Err(ConfigError::IterationBudgetTooLarge)
    ));
    assert!(matches!(
        Mandelbrot::new(50, 0, 10, None, pal.clone()),
        Err(ConfigError::ZeroWidth)
    ));
    assert!(matches!(
        Mandelbrot::new(50, 10, 0, None, pal.clone()),
        Err(ConfigError::ZeroHeight)
    ));
    assert!(matches!(
        Mandelbrot::new(50, (COORD_BOUND as usize) + 1, 10, None, pal.clone()),
        Err(ConfigError::GridTooLarge)
    ));
    assert!(matches!(
        Mandelbrot::new(50, 10, 10, Some(0), pal.clone()),
        Err(ConfigError::ThresholdOutOfRange)
    ));
    assert!(matches!(
        Mandelbrot::new(50, 10, 10, Some(COORD_BOUND + 1), pal.clone()),
        Err(ConfigError::ThresholdOutOfRange)
    ));
    let torn = Palette { width: 2, pixels: vec![0, 0, 0, 0, 0] };
    assert!(matches!(
        Mandelbrot::new(50, 10, 10, None, torn),
        Err(ConfigError::BadPalette)
    ));
    assert!(matches!(Palette::new(0, Vec::new()), Err(ConfigError::BadPalette)));
    assert!(Mandelbrot::new(50, 10, 10, Some(2 * SCALE), pal).is_ok());
}

#[test]
fn custom_threshold_loosens_escape() {
    // with threshold 4.0, c = 3 does not escape at step 1 (|3| <= 4)
    let one_step = escape_iterations(3 * SCALE, 0, 50, 2 * SCALE);
    let later = escape_iterations(3 * SCALE, 0, 50, 4 * SCALE);
    assert_eq!(one_step, 1);
    assert!(later > 1);
}
