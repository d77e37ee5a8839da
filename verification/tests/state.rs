use span_model::geometry::Point;
use span_model::state::App;

#[test]
fn new_state_holds_the_defaults() {
    let app = App::new();
    assert_eq!(app.label, "Hello World!");
    assert_eq!(app.span_group_width, 100);
    assert_eq!(app.span_rect.len(), 9);
    let anchors: Vec<(i64, i64, i64)> = app
        .span_rect
        .iter()
        .map(|b| (b.anchor.x, b.anchor.y, b.height))
        .collect();
    assert_eq!(
        anchors,
        vec![
            (10, 0, 10),
            (50, 50, 20),
            (20, 150, 10),
            (70, 200, 50),
            (15, 300, 10),
            (25, 300, 10),
            (80, 300, 10),
            (80, 400, 10),
            (100, 500, 10),
        ]
    );
}

#[test]
fn default_matches_new() {
    let a: App = Default::default();
    let b = App::new();
    assert_eq!(a.label, b.label);
    assert_eq!(a.span_group_width, b.span_group_width);
    assert_eq!(a.span_rect, b.span_rect);
}

#[test]
fn display_loops_are_mirrored_stitches() {
    let app = App::new();
    let loops = app.display_loops();
    assert_eq!(loops.len(), 8);
    let first: &Vec<Point> = &loops[0];
    let expected = vec![
        Point { x: 10, y: 0 },
        Point { x: 100, y: 0 },
        Point { x: 100, y: -50 },
        Point { x: 50, y: -50 },
        Point { x: 50, y: -70 },
        Point { x: 0, y: -70 },
        Point { x: 0, y: -10 },
        Point { x: 10, y: -10 },
        Point { x: 10, y: 0 },
    ];
    assert_eq!(first, &expected);
    for lp in &loops {
        assert_eq!(lp.len(), 9);
        assert_eq!(lp[0], lp[8]);
    }
}
