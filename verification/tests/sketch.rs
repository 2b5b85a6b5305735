use unstable_sketch::capture::{capture_action, frame_file_name, CaptureAction};
use unstable_sketch::cutline::CutLine;
use unstable_sketch::geom::{Point, Rect};
use unstable_sketch::hatch::hatch_path;
use unstable_sketch::model::Model;
use unstable_sketch::physics::{Message, Vec2};

fn square(side: i64) -> Vec<Vec<Point>> {
    vec![vec![
        Point { x: 0, y: 0 },
        Point { x: side, y: 0 },
        Point { x: side, y: side },
        Point { x: 0, y: side },
    ]]
}

#[test]
fn hatch_square_scenario() {
    // A filled square of side 100 hatched at interval 10: ten horizontal
    // segments of length 100, spaced 10 apart.
    let segs = hatch_path(&square(100), 10);
    assert_eq!(segs.len(), 10);
    for (i, s) in segs.iter().enumerate() {
        let y = 10 * i as i64;
        assert_eq!(s.from.y, y);
        assert_eq!(s.to.y, y);
        assert_eq!(s.from.x, 0);
        assert_eq!(s.to.x, 100);
    }
}

#[test]
fn hatch_offset_square() {
    // Scan lines lie on multiples of the interval, so a square away from
    // them is crossed only where a multiple meets its vertical extent.
    let outline = vec![vec![
        Point { x: 5, y: 5 },
        Point { x: 25, y: 5 },
        Point { x: 25, y: 25 },
        Point { x: 5, y: 25 },
    ]];
    let segs = hatch_path(&outline, 10);
    assert_eq!(segs.len(), 2);
    assert_eq!((segs[0].from, segs[0].to), (Point { x: 5, y: 10 }, Point { x: 25, y: 10 }));
    assert_eq!((segs[1].from, segs[1].to), (Point { x: 5, y: 20 }, Point { x: 25, y: 20 }));
}

#[test]
fn hatch_triangle_slanted_edge() {
    // Crossings with a slanted edge interpolate linearly.
    let outline = vec![vec![
        Point { x: 0, y: 0 },
        Point { x: 10, y: 0 },
        Point { x: 0, y: 10 },
    ]];
    let segs = hatch_path(&outline, 2);
    assert_eq!(segs.len(), 5);
    for (i, s) in segs.iter().enumerate() {
        let y = 2 * i as i64;
        assert_eq!(s.from, Point { x: 0, y });
        assert_eq!(s.to, Point { x: 10 - y, y });
    }
}

#[test]
fn hatch_empty_outline() {
    let outline: Vec<Vec<Point>> = Vec::new();
    assert!(hatch_path(&outline, 1).is_empty());
}

#[test]
fn hatch_is_deterministic() {
    // Same outline, same interval: same segments, count, and total length,
    // however often the hatcher runs.
    let outline = square(100);
    let a = hatch_path(&outline, 7);
    let b = hatch_path(&outline, 7);
    assert_eq!(a, b);
    let len = |v: &Vec<unstable_sketch::geom::Segment>| -> i64 {
        v.iter().map(|s| (s.to.x - s.from.x).abs()).sum()
    };
    assert_eq!(len(&a), len(&b));
    assert_eq!(len(&a), 100 * a.len() as i64);
}

#[test]
fn impulse_scenario() {
    // Mass 10, one force of (50, 0), one advance: velocity (5, 0) and the
    // acceleration cleared.
    let mut m = Message::new(Vec::new());
    assert_eq!(m.mass, 10);
    m.apply_force(Vec2 { x: 50, y: 0 });
    m.advance();
    assert_eq!(m.momentum, Vec2 { x: 50, y: 0 });
    assert_eq!(m.velocity(), Some(Vec2 { x: 5, y: 0 }));
    assert_eq!(m.net_force, Vec2 { x: 0, y: 0 });
}

#[test]
fn forces_accumulate() {
    // Two forces before an advance sum; neither overwrites the other.
    let mut m = Message::new(Vec::new());
    m.apply_force(Vec2 { x: 30, y: -10 });
    m.apply_force(Vec2 { x: 20, y: 30 });
    assert_eq!(m.net_force, Vec2 { x: 50, y: 20 });
    m.advance();
    assert_eq!(m.momentum, Vec2 { x: 50, y: 20 });
    assert_eq!(m.velocity(), Some(Vec2 { x: 5, y: 2 }));
}

#[test]
fn sequence_of_impulses() {
    // Each force followed by an advance: momentum ends at the sum of the
    // forces, i.e. velocity at sum(f) / mass.
    let mut m = Message::new(Vec::new());
    let forces = [(10, 0), (-30, 50), (25, -5)];
    for (fx, fy) in forces {
        m.apply_force(Vec2 { x: fx, y: fy });
        m.advance();
    }
    assert_eq!(m.momentum, Vec2 { x: 5, y: 45 });
    // An advance with no prior force leaves the velocity unchanged.
    m.advance();
    assert_eq!(m.momentum, Vec2 { x: 5, y: 45 });
}

#[test]
fn velocity_not_whole() {
    let mut m = Message::new(Vec::new());
    m.apply_force(Vec2 { x: 55, y: 0 });
    m.advance();
    assert_eq!(m.velocity(), None);
}

#[test]
fn cut_line_stays_in_bounds() {
    let rect = Rect { left: -360, right: 360, bottom: -640, top: 640 };
    let mut c = CutLine::new(&rect);
    for _ in 0..200 {
        c.update(&rect);
        assert!(rect.left <= c.start.x && c.start.x <= rect.right);
        assert!(rect.bottom <= c.start.y && c.start.y <= rect.top);
        assert!(rect.left <= c.end.x && c.end.x <= rect.right);
        assert!(rect.bottom <= c.end.y && c.end.y <= rect.top);
    }
}

#[test]
fn cut_line_degenerate_rect_pins_endpoints() {
    // A single-point window leaves the sampler no choice: this fails if the
    // sampling ignored its bounds.
    let rect = Rect { left: 7, right: 7, bottom: -3, top: -3 };
    let mut c = CutLine::new(&rect);
    assert_eq!(c.start, Point { x: 7, y: -3 });
    assert_eq!(c.end, Point { x: 7, y: -3 });
    c.update(&rect);
    assert_eq!(c.start, Point { x: 7, y: -3 });
    assert_eq!(c.end, Point { x: 7, y: -3 });
}

#[test]
fn capture_boundary() {
    // Frame 450 is still captured, 451 triggers nothing at all, and later
    // frames only announce completion.
    assert_eq!(capture_action(0), CaptureAction::Capture);
    assert_eq!(capture_action(450), CaptureAction::Capture);
    assert_eq!(capture_action(451), CaptureAction::Idle);
    assert_eq!(capture_action(452), CaptureAction::Finish);
    assert_eq!(capture_action(10_000), CaptureAction::Finish);
}

#[test]
fn frame_file_names() {
    assert_eq!(frame_file_name(0), b"0000.png".to_vec());
    assert_eq!(frame_file_name(7), b"0007.png".to_vec());
    assert_eq!(frame_file_name(42), b"0042.png".to_vec());
    assert_eq!(frame_file_name(451), b"0451.png".to_vec());
    assert_eq!(frame_file_name(1234), b"1234.png".to_vec());
    assert_eq!(frame_file_name(98765), b"98765.png".to_vec());
}

#[test]
fn model_frames() {
    let rect = Rect { left: -360, right: 360, bottom: -640, top: 640 };
    let path = hatch_path(&square(100), 1);
    let path_len = path.len();
    let mut model = Model::init(path, &rect);
    assert_eq!(model.message.momentum, Vec2 { x: 0, y: 0 });
    for i in 1..=50i64 {
        model.update(&rect);
        // after each frame the pending force is cleared and the momentum has
        // grown by at most the wind bound
        assert_eq!(model.message.net_force, Vec2 { x: 0, y: 0 });
        assert!(model.message.momentum.x.abs() <= 5 * i);
        assert!(model.message.momentum.y.abs() <= 5 * i);
        assert!(rect.left <= model.cut_line.start.x && model.cut_line.start.x <= rect.right);
        assert!(rect.bottom <= model.cut_line.end.y && model.cut_line.end.y <= rect.top);
    }
    // the hatched path is never regenerated or touched by the animation
    assert_eq!(model.message.path.len(), path_len);
}
