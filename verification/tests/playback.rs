use ilda_player::anim::Animation;
use ilda_player::anim::Frame;
use ilda_player::anim::LoadError;
use ilda_player::cursor::Cursor;
use ilda_player::driver::Config;
use ilda_player::driver::Driver;
use ilda_player::point::HardwarePoint;
use ilda_player::point::SourcePoint;
use ilda_player::point::convert;
use ilda_player::point::expand;
use ilda_player::point::invert_x;

fn sp(x: i16, y: i16, r: u8, g: u8, b: u8, is_blank: bool) -> SourcePoint {
    SourcePoint { x, y, r, g, b, is_blank }
}

fn lit(x: i16, y: i16) -> SourcePoint {
    sp(x, y, 255, 255, 255, false)
}

fn animation(frames: Vec<Vec<SourcePoint>>) -> Animation {
    let frames: Vec<Frame> = frames.into_iter().map(Frame::new).collect();
    Animation::new(frames).unwrap()
}

#[test]
fn expand_is_exact_linear_scaling() {
    for c in 0..=255u16 {
        assert_eq!(expand(c as u8), c * 257);
    }
}

#[test]
fn expand_endpoints() {
    assert_eq!(expand(0), 0);
    assert_eq!(expand(255), 65535);
    assert_eq!(expand(1), 257);
    assert_eq!(expand(128), 32896);
}

#[test]
fn invert_x_negates() {
    assert_eq!(invert_x(0), 0);
    assert_eq!(invert_x(5), -5);
    assert_eq!(invert_x(-5), 5);
    assert_eq!(invert_x(i16::MAX), -i16::MAX);
}

#[test]
fn invert_x_saturates_at_minimum() {
    assert_eq!(invert_x(i16::MIN), i16::MAX);
}

#[test]
fn convert_blank_point_hidden() {
    let h = convert(sp(100, -40, 9, 8, 7, true), false);
    assert_eq!(
        h,
        HardwarePoint { x: -100, y: -40, r: 0, g: 0, b: 0, is_blank: true }
    );
}

#[test]
fn convert_blank_point_shown() {
    let h = convert(sp(100, -40, 9, 8, 7, true), true);
    assert_eq!(
        h,
        HardwarePoint {
            x: -100,
            y: -40,
            r: 9 * 257,
            g: 8 * 257,
            b: 7 * 257,
            is_blank: false
        }
    );
}

#[test]
fn convert_lit_point() {
    let h = convert(sp(-3, 12, 255, 0, 128, false), false);
    assert_eq!(
        h,
        HardwarePoint { x: 3, y: 12, r: 65535, g: 0, b: 32896, is_blank: false }
    );
}

#[test]
fn empty_animation_is_rejected() {
    let r = Animation::new(Vec::new());
    assert_eq!(r.err(), Some(LoadError::NoDrawablePoints));
}

#[test]
fn all_empty_frames_are_rejected() {
    let frames = vec![Frame::new(Vec::new()), Frame::new(Vec::new())];
    let r = Animation::new(frames);
    assert_eq!(r.err(), Some(LoadError::NoDrawablePoints));
}

#[test]
fn one_point_is_accepted() {
    let frames = vec![Frame::new(Vec::new()), Frame::new(vec![lit(1, 1)])];
    assert!(Animation::new(frames).is_ok());
}

#[test]
fn cursor_visits_every_point_in_order_then_wraps() {
    let pts = [lit(0, 0), lit(1, 0), lit(2, 0), lit(3, 0), lit(4, 0)];
    let a = animation(vec![
        vec![pts[0], pts[1]],
        vec![pts[2], pts[3], pts[4]],
    ]);
    let mut cursor = Cursor::new(a, 0);
    for p in &pts {
        assert_eq!(cursor.next(), *p);
    }
    // One full pass done: the next call wraps to frame 0, point 0.
    assert_eq!(cursor.next(), pts[0]);
    assert_eq!(cursor.next(), pts[1]);
}

#[test]
fn cursor_repeats_each_frame_limit_plus_one_times() {
    let a = lit(1, 0);
    let b = lit(2, 0);
    let c = lit(3, 0);
    let anim = animation(vec![vec![a, b], vec![c]]);
    let mut cursor = Cursor::new(anim, 2);
    let expected = [a, b, a, b, a, b, c, c, c, a, b];
    for e in &expected {
        assert_eq!(cursor.next(), *e);
    }
}

#[test]
fn cursor_skips_empty_frames() {
    let p1 = lit(1, 0);
    let p2 = lit(2, 0);
    let p3 = lit(3, 0);
    let anim = animation(vec![vec![p1, p2], Vec::new(), vec![p3]]);
    let mut cursor = Cursor::new(anim, 0);
    // Exactly three points per full pass, never stalling on the empty frame.
    for _ in 0..2 {
        assert_eq!(cursor.next(), p1);
        assert_eq!(cursor.next(), p2);
        assert_eq!(cursor.next(), p3);
    }
}

#[test]
fn cursor_skips_leading_empty_frame() {
    let p = lit(7, 7);
    let anim = animation(vec![Vec::new(), vec![p]]);
    let mut cursor = Cursor::new(anim, 3);
    for _ in 0..8 {
        assert_eq!(cursor.next(), p);
    }
}

#[test]
fn fill_returns_exactly_the_requested_count() {
    for n in [0usize, 1, 17, 1000] {
        let anim = animation(vec![vec![lit(0, 0), lit(1, 1), lit(2, 2)]]);
        let config = Config { show_blanking: false, frame_repeat_count_limit: 0 };
        let mut driver = Driver::new(anim, config);
        let buf = driver.fill(n);
        assert_eq!(buf.len(), n);
    }
}

#[test]
fn fill_wraps_animations_smaller_than_the_request() {
    let anim = animation(vec![vec![lit(1, 0)], vec![lit(2, 0)]]);
    let config = Config { show_blanking: false, frame_repeat_count_limit: 0 };
    let mut driver = Driver::new(anim, config);
    let buf = driver.fill(5);
    let xs: Vec<i16> = buf.iter().map(|h| h.x).collect();
    assert_eq!(xs, vec![-1, -2, -1, -2, -1]);
}

#[test]
fn consecutive_fills_continue_the_stream() {
    let anim = animation(vec![vec![lit(1, 0), lit(2, 0), lit(3, 0)]]);
    let config = Config { show_blanking: false, frame_repeat_count_limit: 0 };
    let mut driver = Driver::new(anim, config);
    let first = driver.fill(2);
    let second = driver.fill(2);
    assert_eq!(first.iter().map(|h| h.x).collect::<Vec<i16>>(), vec![-1, -2]);
    assert_eq!(second.iter().map(|h| h.x).collect::<Vec<i16>>(), vec![-3, -1]);
}

#[test]
fn end_to_end_single_frame_scenario() {
    let anim = animation(vec![vec![
        sp(0, 0, 255, 0, 0, false),
        sp(10, -10, 0, 255, 0, false),
        sp(0, 0, 0, 0, 0, true),
    ]]);
    let config = Config { show_blanking: false, frame_repeat_count_limit: 0 };
    let mut driver = Driver::new(anim, config);
    let buf = driver.fill(6);
    assert_eq!(buf.len(), 6);
    let expected_pass = [
        HardwarePoint { x: 0, y: 0, r: 65535, g: 0, b: 0, is_blank: false },
        HardwarePoint { x: -10, y: -10, r: 0, g: 65535, b: 0, is_blank: false },
        HardwarePoint { x: 0, y: 0, r: 0, g: 0, b: 0, is_blank: true },
    ];
    for i in 0..6 {
        assert_eq!(buf[i], expected_pass[i % 3]);
    }
}

#[test]
fn fill_honors_show_blanking() {
    let anim = animation(vec![vec![sp(4, 5, 1, 2, 3, true)]]);
    let config = Config { show_blanking: true, frame_repeat_count_limit: 0 };
    let mut driver = Driver::new(anim, config);
    let buf = driver.fill(2);
    assert_eq!(
        buf[0],
        HardwarePoint { x: -4, y: 5, r: 257, g: 514, b: 771, is_blank: false }
    );
    assert_eq!(buf[0], buf[1]);
}

#[test]
fn fill_respects_the_repeat_limit() {
    let anim = animation(vec![vec![lit(1, 0)], vec![lit(2, 0)]]);
    let config = Config { show_blanking: false, frame_repeat_count_limit: 1 };
    let mut driver = Driver::new(anim, config);
    let buf = driver.fill(6);
    let xs: Vec<i16> = buf.iter().map(|h| h.x).collect();
    assert_eq!(xs, vec![-1, -1, -2, -2, -1, -1]);
}
