use mandelbrot::coords::{scale_value, Coordinates, Pos};
use mandelbrot::errors::ConfigError;
use mandelbrot::fixed::SCALE;

#[test]
fn scale_hits_endpoints_exactly() {
    assert_eq!(scale_value(0, 0, 100, -5, 5), -5);
    assert_eq!(scale_value(100, 0, 100, -5, 5), 5);
    assert_eq!(scale_value(0, 0, 100, 10, 0), 10);
    assert_eq!(scale_value(100, 0, 100, 10, 0), 0);
}

#[test]
fn scale_is_linear_in_between() {
    assert_eq!(scale_value(50, 0, 100, 0, 10), 5);
    assert_eq!(scale_value(25, 0, 100, 0, 100), 25);
    assert_eq!(scale_value(50, 0, 100, -2 * SCALE, SCALE), -SCALE / 2);
}

#[test]
fn scale_stays_in_output_interval() {
    for value in 0..=200i64 {
        let r = scale_value(value, 0, 200, -7, 13);
        assert!(-7 <= r && r <= 13);
        let rev = scale_value(value, 0, 200, 13, -7);
        assert!(-7 <= rev && rev <= 13);
    }
}

#[test]
fn default_viewport_is_full_set_view() {
    let c = Coordinates::default();
    assert_eq!(c.re_min, -2 * SCALE);
    assert_eq!(c.re_max, SCALE);
    assert_eq!(c.im_min, -SCALE);
    assert_eq!(c.im_max, SCALE);
}

#[test]
fn viewport_rejects_degenerate_and_out_of_range() {
    assert_eq!(
        Coordinates::new(SCALE, SCALE, -SCALE, SCALE),
        Err(ConfigError::DegenerateViewport)
    );
    assert_eq!(
        Coordinates::new(SCALE, -SCALE, -SCALE, SCALE),
        Err(ConfigError::DegenerateViewport)
    );
    assert_eq!(
        Coordinates::new(-(1 << 50), SCALE, -SCALE, SCALE),
        Err(ConfigError::CoordinateOutOfRange)
    );
    let ok = Coordinates::new(-2 * SCALE, SCALE, -SCALE, SCALE).unwrap();
    assert_eq!(ok, Coordinates::default());
}

#[test]
fn zoom_in_quarters_the_area_around_the_center() {
    let mut c = Coordinates::default();
    let canvas = Pos { x: 100 * SCALE, y: 100 * SCALE };
    let click = Pos { x: 50 * SCALE, y: 50 * SCALE };
    let dx0 = (c.re_max - c.re_min) as i128;
    let dy0 = (c.im_max - c.im_min) as i128;
    c.calc_zoom_on_pos(click, canvas, true);
    let dx1 = (c.re_max - c.re_min) as i128;
    let dy1 = (c.im_max - c.im_min) as i128;
    assert_eq!(4 * dx1 * dy1, dx0 * dy0);
    // centered on the clicked plane point, the middle of the default view
    assert_eq!(c.re_min + c.re_max, 2 * (-SCALE / 2));
    assert_eq!(c.im_min + c.im_max, 0);
}

#[test]
fn zoom_out_quadruples_the_area_around_the_center() {
    let mut c = Coordinates::default();
    let canvas = Pos { x: 100 * SCALE, y: 100 * SCALE };
    let click = Pos { x: 50 * SCALE, y: 50 * SCALE };
    let dx0 = (c.re_max - c.re_min) as i128;
    let dy0 = (c.im_max - c.im_min) as i128;
    c.calc_zoom_on_pos(click, canvas, false);
    let dx1 = (c.re_max - c.re_min) as i128;
    let dy1 = (c.im_max - c.im_min) as i128;
    assert_eq!(dx1 * dy1, 4 * dx0 * dy0);
    assert_eq!(c.re_min + c.re_max, 2 * (-SCALE / 2));
    assert_eq!(c.im_min + c.im_max, 0);
}

#[test]
fn corner_click_zoom_scenario() {
    // Click at screen (0, 0) on a 1200x760 canvas over the default view,
    // zooming in: the new real bounds are centered on re_min with a
    // half-span of 0.75 (a quarter of the original span 3.0).
    let mut c = Coordinates::default();
    let canvas = Pos { x: 1200 * SCALE, y: 760 * SCALE };
    let click = Pos { x: 0, y: 0 };
    c.calc_zoom_on_pos(click, canvas, true);
    assert_eq!(c.re_min + c.re_max, 2 * (-2 * SCALE));
    assert_eq!(c.re_max - c.re_min, 2 * (3 * SCALE / 4));
    assert_eq!(c.re_min, -2 * SCALE - 3 * SCALE / 4);
    assert_eq!(c.re_max, -2 * SCALE + 3 * SCALE / 4);
    assert_eq!(c.im_min + c.im_max, 2 * (-SCALE));
    assert_eq!(c.im_max - c.im_min, SCALE);
}

#[test]
fn screen_to_plane_maps_canvas_corners_to_viewport_corners() {
    let c = Coordinates::default();
    let canvas = Pos { x: 1200 * SCALE, y: 760 * SCALE };
    let top_left = c.screen_to_plane(Pos { x: 0, y: 0 }, canvas);
    assert_eq!(top_left, Pos { x: c.re_min, y: c.im_min });
    let bottom_right = c.screen_to_plane(Pos { x: canvas.x, y: canvas.y }, canvas);
    assert_eq!(bottom_right, Pos { x: c.re_max, y: c.im_max });
}
