use gescher::direction::{direction_from_comparisons, AxisComparisons, Direction};

fn is_stroke(f: u8) -> bool {
    matches!(f, 1 | 5 | 9 | 2 | 6 | 10 | 4 | 8)
}

#[test]
fn from_flags_keeps_strokes_and_drops_the_rest() {
    for f in 0u8..=255 {
        let d = Direction::from_flags(f);
        if is_stroke(f) {
            assert_eq!(d.bits(), f);
        } else {
            assert_eq!(d.bits(), 0);
        }
    }
}

#[test]
fn from_flags_is_idempotent() {
    for f in 0u8..=255 {
        let once = Direction::from_flags(f);
        let twice = Direction::from_flags(once.bits());
        assert_eq!(once, twice);
    }
}

#[test]
fn opposite_flags_are_undefined() {
    assert!(Direction::from_flags(0b0011).is_empty());
    assert!(Direction::from_flags(0b1100).is_empty());
    assert!(Direction::from_flags(0b0001_0001).is_empty());
}

#[test]
fn labels_of_strokes() {
    assert_eq!(Direction::undefined().label(), "UNDEFINED");
    assert_eq!(Direction::up().label(), "UP");
    assert_eq!(Direction::down().label(), "DOWN");
    assert_eq!(Direction::left().label(), "LEFT");
    assert_eq!(Direction::right().label(), "RIGHT");
    assert_eq!(Direction::up().union(Direction::left()).label(), "UP | LEFT");
    assert_eq!(Direction::from_flags(0b1010).label(), "DOWN | RIGHT");
    assert_eq!(Direction { bits: 0b1111 }.label(), "UP | DOWN | LEFT | RIGHT");
}

#[test]
fn labels_of_strokes_are_distinct() {
    let values = [0u8, 1, 5, 9, 2, 6, 10, 4, 8];
    let labels: Vec<String> = values.iter().map(|b| Direction { bits: *b }.label()).collect();
    for i in 0..labels.len() {
        for j in 0..labels.len() {
            if i != j {
                assert_ne!(labels[i], labels[j]);
            }
        }
    }
}

#[test]
fn compact_labels() {
    assert_eq!(Direction::undefined().compact_label(), "");
    assert_eq!(Direction::up().compact_label(), "Up");
    assert_eq!(Direction::from_flags(0b0110).compact_label(), "DownLeft");
    assert_eq!(Direction::from_flags(0b1001).compact_label(), "UpRight");
}

#[test]
fn flag_queries() {
    let ul = Direction::up().union(Direction::left());
    assert_eq!(ul.bits(), 5);
    assert!(ul.contains(Direction::up()));
    assert!(!ul.contains(Direction::right()));
    assert!(ul.intersects(Direction::left()));
    assert!(!ul.intersects(Direction::down().union(Direction::right())));
    assert!(!ul.is_empty());
    assert!(Direction::undefined().is_empty());
}

fn cmp(x: f64, y: f64, t: f64) -> AxisComparisons {
    AxisComparisons {
        y_above: y > t,
        y_below: y < -t,
        x_above: x > t,
        x_below: x < -t,
        x_dominant: x.abs() > y.abs(),
        y_dominant: y.abs() > x.abs(),
        x_small: x.abs() < t,
        y_small: y.abs() < t,
        x_positive: x > 0.0,
        y_positive: y > 0.0,
    }
}

#[test]
fn straight_strokes_without_diagonals() {
    let t = 0.258;
    assert_eq!(direction_from_comparisons(cmp(1.0, 0.0, t), false), Direction::right());
    assert_eq!(direction_from_comparisons(cmp(-1.0, 0.1, t), false), Direction::left());
    assert_eq!(direction_from_comparisons(cmp(0.1, 0.99, t), false), Direction::up());
    assert_eq!(direction_from_comparisons(cmp(0.0, -1.0, t), false), Direction::down());
    // 45 degrees is neither
    assert!(direction_from_comparisons(cmp(0.707, 0.707, t), false).is_empty());
}

#[test]
fn diagonal_strokes_set_two_flags() {
    let t = 0.258;
    let d = direction_from_comparisons(cmp(0.707, 0.707, t), true);
    assert_eq!(d.bits(), 0b1001);
    let d = direction_from_comparisons(cmp(-0.707, -0.707, t), true);
    assert_eq!(d.bits(), 0b0110);
    let d = direction_from_comparisons(cmp(1.0, 0.0, t), true);
    assert_eq!(d, Direction::right());
}

#[test]
fn labels_of_all_flag_sets_are_distinct() {
    let labels: Vec<String> = (0u8..16).map(|b| Direction { bits: b }.label()).collect();
    for i in 0..16 {
        for j in 0..16 {
            if i != j {
                assert_ne!(labels[i], labels[j]);
            }
        }
    }
    assert_eq!(Direction { bits: 0b0011 }.label(), "UP | DOWN");
    assert_eq!(Direction { bits: 0b1100 }.label(), "LEFT | RIGHT");
    assert_eq!(Direction { bits: 0b0111 }.label(), "UP | DOWN | LEFT");
}

fn opposite(bits: u8) -> u8 {
    ((bits & 1) << 1) | ((bits & 2) >> 1) | ((bits & 4) << 1) | ((bits & 8) >> 1) | (bits & 0xf0)
}

#[test]
fn reversed_movement_reverses_direction() {
    let t = 0.258;
    let vectors = [(1.0, 0.0), (0.3, 0.95), (0.707, 0.707), (-0.2, 0.98), (0.9, -0.43), (0.0, -1.0)];
    for (x, y) in vectors {
        for diag in [false, true] {
            let d = direction_from_comparisons(cmp(x, y, t), diag);
            let r = direction_from_comparisons(cmp(-x, -y, t), diag);
            assert_eq!(r.bits(), opposite(d.bits()));
        }
    }
}
