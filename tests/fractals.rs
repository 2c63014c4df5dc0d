use fractals::escape::iterate;
use fractals::fixed::{descale, from_ratio, Coordinate, LIMIT, SCALE};
use fractals::fractal::{Fractal, FractalTrait, Julia, Mandelbrot};
use fractals::glyph::{glyph, weight};
use fractals::terminal::{decode, Action, FrameStep, KeyCode, KeyPress, Terminal};
use fractals::viewport::{Motion, Range};

fn pt(x: i64, y: i64) -> Coordinate {
    Coordinate { x, y }
}

#[test]
fn descale_floors_toward_negative_infinity() {
    assert_eq!(descale(3 * SCALE), 3);
    assert_eq!(descale(3 * SCALE + 5), 3);
    assert_eq!(descale(-1), -1);
    assert_eq!(descale(-SCALE), -1);
    assert_eq!(descale(-SCALE - 1), -2);
    assert_eq!(descale(0), 0);
}

#[test]
fn from_ratio_gives_fixed_point_values() {
    assert_eq!(from_ratio(2, 1), 2 * SCALE);
    assert_eq!(from_ratio(1, 2), SCALE / 2);
    assert_eq!(from_ratio(-8, 10), -13421773);
    assert_eq!(from_ratio(156, 1000), 2617245);
}

#[test]
fn origin_never_escapes_mandelbrot() {
    for budget in [1u32, 2, 100, 10000] {
        assert_eq!(iterate(pt(0, 0), pt(0, 0), budget), budget);
    }
}

#[test]
fn far_point_escapes_after_one_step() {
    let two = 2 * SCALE;
    assert_eq!(iterate(pt(0, 0), pt(two, two), 10000), 1);
    assert_eq!(iterate(pt(0, 0), pt(-two, 0), 10000), 10000);
    assert_eq!(iterate(pt(0, 0), pt(-two - 1, 0), 10000), 1);
    assert_eq!(iterate(pt(0, 0), pt(0, 0), 0), 0);
}

#[test]
fn escape_counts_of_known_points() {
    // c = 1: z runs 0, 1, 2, 5: three steps before |z| > 2.
    assert_eq!(iterate(pt(0, 0), pt(SCALE, 0), 100), 3);
    // c = -1: z cycles 0, -1, 0, -1.
    assert_eq!(iterate(pt(0, 0), pt(-SCALE, 0), 100), 100);
    // c = i: z runs 0, i, -1+i, -i, -1+i, ...: bounded.
    assert_eq!(iterate(pt(0, 0), pt(0, SCALE), 50), 50);
    // Julia start outside the radius escapes at once.
    assert_eq!(iterate(pt(3 * SCALE, 0), pt(0, 0), 100), 0);
}

#[test]
fn glyph_ends_of_the_ramp() {
    for budget in [1u32, 5, 9, 10, 100, 500, 10000, u32::MAX] {
        assert_eq!(glyph(0, budget), ' ');
        assert_eq!(glyph(budget, budget), '@');
        assert_eq!(weight(0, budget), 0);
        assert_eq!(weight(budget, budget), 9);
    }
}

#[test]
fn glyph_thresholds_for_a_large_budget() {
    assert_eq!(glyph(49, 10000), ' ');
    assert_eq!(glyph(50, 10000), '.');
    assert_eq!(glyph(100, 10000), ':');
    assert_eq!(glyph(500, 10000), '-');
    assert_eq!(glyph(1000, 10000), '=');
    assert_eq!(glyph(2000, 10000), '+');
    assert_eq!(glyph(2500, 10000), '*');
    assert_eq!(glyph(3000, 10000), '%');
    assert_eq!(glyph(4999, 10000), '#');
    assert_eq!(glyph(5000, 10000), '@');
}

#[test]
fn glyph_thresholds_for_a_small_budget() {
    assert_eq!(glyph(1, 100), ' ');
    assert_eq!(glyph(9, 100), ' ');
    assert_eq!(glyph(10, 100), '=');
    assert_eq!(glyph(20, 100), '+');
    assert_eq!(glyph(49, 100), '#');
    assert_eq!(glyph(50, 100), '@');
}

#[test]
fn glyph_is_monotonic() {
    for budget in [1u32, 7, 100, 500, 10000] {
        let mut prev = 0usize;
        for n in 0..=budget.min(12000) {
            let w = weight(n, budget);
            assert!(w >= prev);
            prev = w;
        }
    }
}

#[test]
fn new_viewport_spans_minus_two_to_two() {
    let f = Fractal::new(24, 80, 100);
    assert_eq!(f.x_bounds(), Range { min: -2 * SCALE, max: 2 * SCALE });
    assert_eq!(f.y_bounds(), Range { min: -2 * SCALE, max: 2 * SCALE });
    assert_eq!(f.get_rows(), 24);
    assert_eq!(f.get_cols(), 80);
    assert_eq!(f.max_iterations(), 100);
}

#[test]
fn zoom_in_shrinks_each_axis_by_a_tenth_per_side() {
    let mut f = Fractal::new(10, 10, 100);
    f.apply(Motion::ZoomIn);
    assert_eq!(f.x_bounds(), Range { min: -26843546, max: 26843546 });
    assert_eq!(f.y_bounds(), Range { min: -26843546, max: 26843546 });
}

#[test]
fn zoom_in_then_out_returns_the_viewport() {
    let mut f = Fractal::new(10, 10, 100);
    f.apply(Motion::Right);
    f.apply(Motion::Down);
    let x0 = f.x_bounds();
    let y0 = f.y_bounds();
    for _ in 0..5 {
        f.apply(Motion::ZoomIn);
    }
    for _ in 0..5 {
        f.apply(Motion::ZoomOut);
    }
    let x1 = f.x_bounds();
    let y1 = f.y_bounds();
    assert_eq!(x1.min + x1.max, x0.min + x0.max);
    assert_eq!(y1.min + y1.max, y0.min + y0.max);
    // Within a few fixed-point steps of 2^-24 each.
    assert!(x0.min - 6 <= x1.min && x1.min <= x0.min);
    assert!(y0.min - 6 <= y1.min && y1.min <= y0.min);
    assert!(x0.max <= x1.max && x1.max <= x0.max + 6);
}

#[test]
fn one_zoom_in_and_out_from_the_default_view() {
    let mut f = Fractal::new(10, 10, 100);
    f.apply(Motion::ZoomIn);
    f.apply(Motion::ZoomOut);
    assert_eq!(f.x_bounds(), Range { min: -2 * SCALE, max: 2 * SCALE });
    assert_eq!(f.y_bounds(), Range { min: -2 * SCALE, max: 2 * SCALE });
}

#[test]
fn zoom_out_widens_each_side_by_an_eighth_of_the_span() {
    let mut f = Fractal::new(10, 10, 100);
    f.apply(Motion::ZoomOut);
    assert_eq!(f.x_bounds(), Range { min: -2 * SCALE - SCALE / 2, max: 2 * SCALE + SCALE / 2 });
}

#[test]
fn many_zoom_round_trips_stay_close() {
    let mut f = Fractal::new(10, 10, 100);
    for _ in 0..20 {
        f.apply(Motion::ZoomIn);
    }
    for _ in 0..20 {
        f.apply(Motion::ZoomOut);
    }
    let x = f.x_bounds();
    assert_eq!(x.min + x.max, 0);
    assert!((x.max - 2 * SCALE).abs() < 1000);
}

#[test]
fn move_left_then_right_restores_x_range() {
    let mut f = Fractal::new(10, 10, 100);
    f.apply(Motion::ZoomIn);
    let x0 = f.x_bounds();
    let y0 = f.y_bounds();
    f.apply(Motion::Left);
    assert_eq!(f.x_bounds(), Range { min: x0.min - 5368709, max: x0.max - 5368709 });
    assert_eq!(f.y_bounds(), y0);
    f.apply(Motion::Right);
    assert_eq!(f.x_bounds(), x0);
    assert_eq!(f.y_bounds(), y0);
}

#[test]
fn vertical_moves_touch_only_y() {
    let mut f = Fractal::new(10, 10, 100);
    f.apply(Motion::Up);
    assert_eq!(f.x_bounds(), Range { min: -2 * SCALE, max: 2 * SCALE });
    assert_eq!(f.y_bounds(), Range { min: -2 * SCALE - 6710886, max: 2 * SCALE - 6710886 });
    f.apply(Motion::Down);
    assert_eq!(f.y_bounds(), Range { min: -2 * SCALE, max: 2 * SCALE });
}

#[test]
fn ranges_stay_ordered_under_any_motions() {
    let motions = [Motion::ZoomIn, Motion::ZoomOut, Motion::Up, Motion::Down, Motion::Left, Motion::Right];
    let mut f = Fractal::new(10, 10, 100);
    let mut seed: u64 = 12345;
    for _ in 0..20000 {
        seed = seed.wrapping_mul(6364136223846793005).wrapping_add(1442695040888963407);
        let m = motions[((seed >> 33) % 6) as usize];
        f.apply(m);
        let x = f.x_bounds();
        let y = f.y_bounds();
        assert!(x.min < x.max && y.min < y.max);
        assert!(-LIMIT <= x.min && x.max <= LIMIT && -LIMIT <= y.min && y.max <= LIMIT);
    }
}

#[test]
fn deep_zoom_never_collapses_a_range() {
    let mut f = Fractal::new(10, 10, 100);
    for _ in 0..500 {
        f.apply(Motion::ZoomIn);
    }
    let x = f.x_bounds();
    assert!(x.min < x.max);
    assert!(x.max - x.min < 10);
}

#[test]
fn zoom_out_stops_at_the_limit() {
    let mut f = Fractal::new(10, 10, 100);
    for _ in 0..200 {
        f.apply(Motion::ZoomOut);
    }
    let x = f.x_bounds();
    assert!(-LIMIT <= x.min && x.max <= LIMIT);
    let before = x;
    f.apply(Motion::ZoomOut);
    assert_eq!(f.x_bounds(), before);
    for _ in 0..200 {
        f.apply(Motion::Left);
    }
    assert!(-LIMIT <= f.x_bounds().min);
}

#[test]
fn cell_points_of_a_ten_by_ten_grid() {
    let f = Fractal::new(10, 10, 100);
    assert_eq!(f.cell_point(0, 0), pt(-2 * SCALE, -2 * SCALE));
    assert_eq!(f.cell_point(5, 5), pt(0, 0));
    assert_eq!(f.cell_point(0, 9), pt(2 * SCALE - 4 * SCALE / 10 - 1, -2 * SCALE));
    assert_eq!(f.cell_point(9, 0), pt(-2 * SCALE, 2 * SCALE - 4 * SCALE / 10 - 1));
}

#[test]
fn mandelbrot_grid_centre_is_heavy_and_corners_light() {
    let m = Mandelbrot::new(10, 10, 100);
    let g = m.render();
    assert_eq!(g.len(), 10);
    for row in g.iter() {
        assert_eq!(row.len(), 10);
    }
    for (r, c) in [(4, 4), (4, 5), (5, 4), (5, 5)] {
        assert_eq!(g[r][c], '@');
    }
    for (r, c) in [(0, 0), (0, 9), (9, 0), (9, 9)] {
        assert_eq!(g[r][c], ' ');
    }
}

#[test]
fn mandelbrot_counts_match_cells() {
    let m = Mandelbrot::new(10, 10, 100);
    let counts = m.calculate();
    assert_eq!(counts[5][5], 100);
    assert_eq!(counts[0][0], 1);
    for r in 0..10u16 {
        for c in 0..10u16 {
            assert_eq!(counts[r as usize][c as usize], m.escape_cell(r, c));
            assert!(counts[r as usize][c as usize] <= 100);
        }
    }
}

#[test]
fn julia_iterates_each_point_under_its_parameter() {
    let cx = from_ratio(-8, 10);
    let cy = from_ratio(156, 1000);
    let j = Julia::new(10, 20, cx, cy, 500);
    assert_eq!(j.get_param(), pt(cx, cy));
    let counts = j.calculate();
    assert_eq!(counts.len(), 10);
    assert_eq!(counts[0].len(), 20);
    let f = j.get_frame();
    for r in 0..10u16 {
        for c in 0..20u16 {
            let z = f.cell_point(r, c);
            assert_eq!(counts[r as usize][c as usize], iterate(z, pt(cx, cy), 500));
        }
    }
    // The corner (-2, -2) lies outside the radius: it escapes at once.
    assert_eq!(counts[0][0], 0);
    assert_eq!(j.render()[0][0], ' ');
}

#[test]
fn julia_moves_keep_its_parameter() {
    let mut j = Julia::new(10, 10, from_ratio(-4, 10), from_ratio(6, 10), 300);
    j.zoom_in();
    j.move_left();
    j.move_up();
    j.zoom_out();
    j.move_right();
    j.move_down();
    assert_eq!(j.get_param(), pt(from_ratio(-4, 10), from_ratio(6, 10)));
    assert_eq!(j.get_frame().max_iterations(), 300);
    let t = Terminal::new(10, 10, 0);
    assert!(!t.handle_input(Some(KeyPress { code: KeyCode::Char('e'), control: false }), &mut j));
    assert_eq!(j.get_param(), pt(from_ratio(-4, 10), from_ratio(6, 10)));
}

#[test]
fn trait_moves_match_viewport_moves() {
    let mut m = Mandelbrot::new(10, 10, 100);
    let mut f = Fractal::new(10, 10, 100);
    m.zoom_in();
    f.apply(Motion::ZoomIn);
    m.move_right();
    f.apply(Motion::Right);
    m.move_down();
    f.apply(Motion::Down);
    m.zoom_out();
    f.apply(Motion::ZoomOut);
    assert_eq!(m.fractal.x_bounds(), f.x_bounds());
    assert_eq!(m.fractal.y_bounds(), f.y_bounds());
}

fn key(code: KeyCode, control: bool) -> KeyPress {
    KeyPress { code, control }
}

#[test]
fn keys_decode_to_actions() {
    assert_eq!(decode(key(KeyCode::Char('d'), true)), Action::Quit);
    assert_eq!(decode(key(KeyCode::Char('d'), false)), Action::Nothing);
    assert_eq!(decode(key(KeyCode::Char('e'), false)), Action::Move(Motion::ZoomIn));
    assert_eq!(decode(key(KeyCode::Char('r'), false)), Action::Move(Motion::ZoomOut));
    assert_eq!(decode(key(KeyCode::Left, false)), Action::Move(Motion::Left));
    assert_eq!(decode(key(KeyCode::Right, false)), Action::Move(Motion::Right));
    assert_eq!(decode(key(KeyCode::Up, false)), Action::Move(Motion::Up));
    assert_eq!(decode(key(KeyCode::Down, false)), Action::Move(Motion::Down));
    assert_eq!(decode(key(KeyCode::Char('x'), false)), Action::Nothing);
    assert_eq!(decode(key(KeyCode::Other, true)), Action::Nothing);
}

#[test]
fn handle_input_moves_the_viewport_or_quits() {
    let t = Terminal::new(10, 10, 0);
    let mut m = Mandelbrot::new(10, 10, 100);
    assert!(!t.handle_input(Some(key(KeyCode::Left, false)), &mut m));
    assert_eq!(m.fractal.x_bounds(), Range { min: -2 * SCALE - 6710886, max: 2 * SCALE - 6710886 });
    assert!(!t.handle_input(None, &mut m));
    assert!(!t.handle_input(Some(key(KeyCode::Char('z'), false)), &mut m));
    let before = m.fractal.x_bounds();
    assert!(t.handle_input(Some(key(KeyCode::Char('d'), true)), &mut m));
    assert_eq!(m.fractal.x_bounds(), before);
}

#[test]
fn terminal_reports_its_extent() {
    let t = Terminal::new(80, 24, 7);
    assert_eq!(t.get_cols(), 80);
    assert_eq!(t.get_rows(), 24);
}

#[test]
fn frames_are_paced_at_sixty_per_second() {
    let start: u64 = 1_000_000;
    let mut t = Terminal::new(80, 24, start);
    t.now(start + 5_000_000);
    assert_eq!(t.check_time(), FrameStep::Sleep(16_666_666 - 5_000_000));
    t.now(start + 16_666_666);
    assert_eq!(t.check_time(), FrameStep::Render);
    t.now(start + 16_666_667);
    assert_eq!(t.check_time(), FrameStep::Sleep(16_666_665));
    t.now(start + 40_000_000);
    assert_eq!(t.check_time(), FrameStep::Render);
    t.now(start);
    assert_eq!(t.check_time(), FrameStep::Sleep(16_666_666));
}
