use span_model::geometry::build_all_loops;
use span_model::geometry::build_loop;
use span_model::geometry::mirror_loop;
use span_model::geometry::Point;
use span_model::geometry::SpanCord;

fn pt(x: i64, y: i64) -> Point {
    Point { x, y }
}

fn band(x: i64, y: i64, height: i64) -> SpanCord {
    SpanCord {
        anchor: pt(x, y),
        height,
    }
}

#[test]
fn empty_sequence_yields_no_loops() {
    let bands: Vec<SpanCord> = vec![];
    let loops = build_all_loops(&bands, 100);
    assert!(loops.is_empty());
}

#[test]
fn single_band_yields_no_loops() {
    let bands = vec![band(10, 0, 10)];
    let loops = build_all_loops(&bands, 100);
    assert!(loops.is_empty());
}

#[test]
fn n_bands_yield_n_minus_one_loops() {
    let bands = vec![band(10, 0, 10), band(50, 50, 20), band(20, 150, 10)];
    let loops = build_all_loops(&bands, 100);
    assert_eq!(loops.len(), 2);
}

#[test]
fn each_loop_has_nine_points_and_is_closed() {
    let bands = vec![band(10, 0, 10), band(50, 50, 20), band(20, 150, 10)];
    let loops = build_all_loops(&bands, 100);
    for lp in &loops {
        assert_eq!(lp.len(), 9);
        assert_eq!(lp[0], lp[8]);
    }
}

#[test]
fn example_loop_matches_expected_points() {
    let upper = band(10, 0, 10);
    let lower = band(50, 50, 20);
    let lp = build_loop(&upper, &lower, 100);
    let expected = vec![
        pt(10, 0),
        pt(100, 0),
        pt(100, 50),
        pt(50, 50),
        pt(50, 70),
        pt(0, 70),
        pt(0, 10),
        pt(10, 10),
        pt(10, 0),
    ];
    assert_eq!(lp, expected);
}

#[test]
fn mirror_negates_every_y() {
    let upper = band(10, 0, 10);
    let lower = band(50, 50, 20);
    let lp = build_loop(&upper, &lower, 100);
    let mirrored = mirror_loop(&lp);
    assert_eq!(mirrored.len(), lp.len());
    for (m, p) in mirrored.iter().zip(lp.iter()) {
        assert_eq!(m.x, p.x);
        assert_eq!(m.y, -p.y);
    }
}

#[test]
fn mirror_twice_returns_the_original() {
    let upper = band(-5, -7, 13);
    let lower = band(2, 9, -4);
    let lp = build_loop(&upper, &lower, 33);
    let twice = mirror_loop(&mirror_loop(&lp));
    assert_eq!(twice, lp);
}

#[test]
fn vertical_translation_shifts_every_point() {
    let upper = band(10, 0, 10);
    let lower = band(50, 50, 20);
    let dy = 37;
    let base = build_loop(&upper, &lower, 100);
    let moved = build_loop(&band(10, 0 + dy, 10), &band(50, 50 + dy, 20), 100);
    assert_eq!(moved.len(), base.len());
    for (m, p) in moved.iter().zip(base.iter()) {
        assert_eq!(m.x, p.x);
        assert_eq!(m.y, p.y + dy);
    }
}

#[test]
fn horizontal_translation_pins_the_left_edge() {
    let upper = band(10, 0, 10);
    let lower = band(50, 50, 20);
    let dx = 25;
    let base = build_loop(&upper, &lower, 100);
    let moved = build_loop(&band(10 + dx, 0, 10), &band(50 + dx, 50, 20), 100 + dx);
    for i in 0..9 {
        if i == 5 || i == 6 {
            assert_eq!(moved[i].x, 0);
            assert_eq!(moved[i].y, base[i].y);
        } else {
            assert_eq!(moved[i].x, base[i].x + dx);
            assert_eq!(moved[i].y, base[i].y);
        }
    }
}

#[test]
fn group_width_moves_only_the_right_edge() {
    let upper = band(10, 0, 10);
    let lower = band(50, 50, 20);
    let narrow = build_loop(&upper, &lower, 100);
    let wide = build_loop(&upper, &lower, 250);
    for i in 0..9 {
        if i == 1 || i == 2 {
            assert_eq!(narrow[i].x, 100);
            assert_eq!(wide[i].x, 250);
            assert_eq!(narrow[i].y, wide[i].y);
        } else {
            assert_eq!(narrow[i], wide[i]);
        }
    }
}

#[test]
fn degenerate_inputs_are_accepted() {
    let upper = band(-10, 20, 0);
    let lower = band(0, -30, -5);
    let lp = build_loop(&upper, &lower, 0);
    assert_eq!(lp.len(), 9);
    assert_eq!(lp[0], pt(-10, 20));
    assert_eq!(lp[4], pt(0, -35));
    assert_eq!(lp[5], pt(0, -35));
}
