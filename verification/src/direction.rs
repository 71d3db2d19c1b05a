//! Stroke directions: a set of up/down/left/right flags over a byte.

use vstd::prelude::*;
use crate::text::{seq_join, string_views, join_strings, free_of};

verus! {

/// Flag bit for an upward stroke.
pub const UP: u8 = 0b0000_0001;
/// Flag bit for a downward stroke.
pub const DOWN: u8 = 0b0000_0010;
/// Flag bit for a leftward stroke.
pub const LEFT: u8 = 0b0000_0100;
/// Flag bit for a rightward stroke.
pub const RIGHT: u8 = 0b0000_1000;

/// A set of direction flags; the empty set means "undefined".
#[derive(Clone, Copy, Debug, PartialEq, Eq, Structural)]
pub struct Direction {
    pub bits: u8,
}

/// `bits` carries every flag of `flag`.
pub open spec fn has_flag(bits: u8, flag: u8) -> bool {
    bits & flag == flag
}

/// The direction values that `Direction::from_flags` accepts unchanged: the
/// four straight strokes and the four diagonals.
pub open spec fn is_stroke(flags: u8) -> bool {
    // UP, UP|LEFT, UP|RIGHT, DOWN, DOWN|LEFT, DOWN|RIGHT, LEFT, RIGHT
    flags == 0b0001 || flags == 0b0101 || flags == 0b1001 || flags == 0b0010 || flags == 0b0110
        || flags == 0b1010 || flags == 0b0100 || flags == 0b1000
}

/// What `Direction::from_flags` makes of a raw flag byte.
pub open spec fn flags_to_bits(flags: u8) -> u8 {
    if is_stroke(flags) {
        flags
    } else {
        0
    }
}

/// The words of a direction label, in the order up, down, left, right.
pub open spec fn label_parts(bits: u8) -> Seq<Seq<char>> {
    (if has_flag(bits, UP) { seq!["UP"@] } else { Seq::empty() }) + (if has_flag(bits, DOWN) {
        seq!["DOWN"@]
    } else {
        Seq::empty()
    }) + (if has_flag(bits, LEFT) { seq!["LEFT"@] } else { Seq::empty() }) + (if has_flag(
        bits,
        RIGHT,
    ) {
        seq!["RIGHT"@]
    } else {
        Seq::empty()
    })
}

/// The label of a direction: its flag words joined by `" | "`, or
/// `"UNDEFINED"` when no flag is set.
pub open spec fn label_of(bits: u8) -> Seq<char> {
    if label_parts(bits).len() == 0 {
        "UNDEFINED"@
    } else {
        seq_join(label_parts(bits), " | "@)
    }
}

/// The compact label of a direction: its capitalised flag words run
/// together (`"UpLeft"`), empty when no flag is set.
pub open spec fn compact_label_of(bits: u8) -> Seq<char> {
    (if has_flag(bits, UP) { "Up"@ } else { Seq::empty() }) + (if has_flag(bits, DOWN) {
        "Down"@
    } else {
        Seq::empty()
    }) + (if has_flag(bits, LEFT) { "Left"@ } else { Seq::empty() }) + (if has_flag(
        bits,
        RIGHT,
    ) {
        "Right"@
    } else {
        Seq::empty()
    })
}

impl Direction {
    /// The empty direction.
    pub fn undefined() -> (d: Direction)
        ensures
            d.bits == 0,
    {
        Direction { bits: 0 }
    }

    /// An upward stroke.
    pub fn up() -> (d: Direction)
        ensures
            d.bits == UP,
    {
        Direction { bits: UP }
    }

    /// A downward stroke.
    pub fn down() -> (d: Direction)
        ensures
            d.bits == DOWN,
    {
        Direction { bits: DOWN }
    }

    /// A leftward stroke.
    pub fn left() -> (d: Direction)
        ensures
            d.bits == LEFT,
    {
        Direction { bits: LEFT }
    }

    /// A rightward stroke.
    pub fn right() -> (d: Direction)
        ensures
            d.bits == RIGHT,
    {
        Direction { bits: RIGHT }
    }

    /// The raw flag byte.
    pub fn bits(&self) -> (b: u8)
        ensures
            b == self.bits,
    {
        self.bits
    }

    /// Reads a flag byte as a stroke: the straight and diagonal strokes are
    /// kept, any other combination (opposite flags together, unknown bits)
    /// becomes the undefined direction.
    pub fn from_flags(flags: u8) -> (d: Self)
        ensures
            d.bits == flags_to_bits(flags),
    {
        match flags {
            0b0000_0001 => Direction { bits: UP },
            0b0000_0101 => Direction { bits: 0b0000_0101 },
            0b0000_1001 => Direction { bits: 0b0000_1001 },
            0b0000_0010 => Direction { bits: DOWN },
            0b0000_0110 => Direction { bits: 0b0000_0110 },
            0b0000_1010 => Direction { bits: 0b0000_1010 },
            0b0000_0100 => Direction { bits: LEFT },
            0b0000_1000 => Direction { bits: RIGHT },
            _ => {
                assert(!is_stroke(flags)) by (bit_vector)
                    requires
                        flags != 1u8 && flags != 5u8 && flags != 9u8 && flags != 2u8 && flags
                            != 6u8 && flags != 10u8 && flags != 4u8 && flags != 8u8,
                ;
                Direction { bits: 0 }
            },
        }
    }

    /// Every flag of `other` is set in `self`.
    pub fn contains(&self, other: Direction) -> (res: bool)
        ensures
            res == has_flag(self.bits, other.bits),
    {
        self.bits & other.bits == other.bits
    }

    /// `self` and `other` share at least one flag.
    pub fn intersects(&self, other: Direction) -> (res: bool)
        ensures
            res == (self.bits & other.bits != 0),
    {
        self.bits & other.bits != 0
    }

    /// No flag is set.
    pub fn is_empty(&self) -> (res: bool)
        ensures
            res == (self.bits == 0),
    {
        self.bits == 0
    }

    /// The flags of both directions.
    pub fn union(&self, other: Direction) -> (d: Direction)
        ensures
            d.bits == self.bits | other.bits,
    {
        Direction { bits: self.bits | other.bits }
    }

    /// The label of the direction, such as `"UP | LEFT"` or `"UNDEFINED"`.
    pub fn label(&self) -> (s: String)
        ensures
            s@ == label_of(self.bits),
    {
        let mut parts: Vec<String> = Vec::new();
        if self.contains(Direction::up()) {
            parts.push(String::from_str("UP"));
        }
        let ghost p1 = parts@;
        if self.contains(Direction::down()) {
            parts.push(String::from_str("DOWN"));
        }
        let ghost p2 = parts@;
        if self.contains(Direction::left()) {
            parts.push(String::from_str("LEFT"));
        }
        let ghost p3 = parts@;
        if self.contains(Direction::right()) {
            parts.push(String::from_str("RIGHT"));
        }
        proof {
            let b = self.bits;
            let a1: Seq<Seq<char>> = if has_flag(b, UP) { seq!["UP"@] } else { Seq::empty() };
            let a2: Seq<Seq<char>> = if has_flag(b, DOWN) { seq!["DOWN"@] } else { Seq::empty() };
            let a3: Seq<Seq<char>> = if has_flag(b, LEFT) { seq!["LEFT"@] } else { Seq::empty() };
            let a4: Seq<Seq<char>> = if has_flag(b, RIGHT) { seq!["RIGHT"@] } else { Seq::empty() };
            assert(string_views(p1) =~= a1);
            assert(string_views(p2) =~= a1 + a2);
            assert(string_views(p3) =~= a1 + a2 + a3);
            assert(string_views(parts@) =~= label_parts(b));
        }
        if parts.len() == 0 {
            String::from_str("UNDEFINED")
        } else {
            join_strings(&parts, " | ")
        }
    }

    /// The compact label of the direction, such as `"UpLeft"`; empty when no
    /// flag is set.
    pub fn compact_label(&self) -> (s: String)
        ensures
            s@ == compact_label_of(self.bits),
    {
        let mut s = String::new();
        if self.contains(Direction::up()) {
            s.append("Up");
        }
        let ghost s1 = s@;
        if self.contains(Direction::down()) {
            s.append("Down");
        }
        let ghost s2 = s@;
        if self.contains(Direction::left()) {
            s.append("Left");
        }
        let ghost s3 = s@;
        if self.contains(Direction::right()) {
            s.append("Right");
        }
        proof {
            let b = self.bits;
            let a1: Seq<char> = if has_flag(b, UP) { "Up"@ } else { Seq::empty() };
            let a2: Seq<char> = if has_flag(b, DOWN) { "Down"@ } else { Seq::empty() };
            let a3: Seq<char> = if has_flag(b, LEFT) { "Left"@ } else { Seq::empty() };
            let a4: Seq<char> = if has_flag(b, RIGHT) { "Right"@ } else { Seq::empty() };
            assert(s1 =~= a1);
            assert(s2 =~= a1 + a2);
            assert(s3 =~= a1 + a2 + a3);
            assert(s@ =~= a1 + a2 + a3 + a4);
        }
        s
    }
}

/// How a normalised stroke vector `(x, y)` compares with the direction
/// threshold `t` (the sine of the angle tolerance) and with zero: these
/// comparisons decide the stroke's direction.
#[derive(Clone, Copy, Debug)]
pub struct AxisComparisons {
    /// `y > t`
    pub y_above: bool,
    /// `y < -t`
    pub y_below: bool,
    /// `x > t`
    pub x_above: bool,
    /// `x < -t`
    pub x_below: bool,
    /// `|x| > |y|`
    pub x_dominant: bool,
    /// `|y| > |x|`
    pub y_dominant: bool,
    /// `|x| < t`
    pub x_small: bool,
    /// `|y| < t`
    pub y_small: bool,
    /// `x > 0`
    pub x_positive: bool,
    /// `y > 0`
    pub y_positive: bool,
}

/// The direction of a stroke from its comparisons. With diagonals allowed,
/// every component beyond the threshold sets its flag (up, down, right,
/// left in that order), so two flags may be set. Without, a stroke whose
/// horizontal part dominates and whose vertical part is under the threshold
/// is right or left by its sign; one whose vertical part dominates and
/// whose horizontal part is under the threshold is up or down by its sign;
/// any other stroke is undefined.
pub open spec fn direction_bits_of(c: AxisComparisons, allow_diagonal: bool) -> u8 {
    if allow_diagonal {
        let b1: u8 = if c.y_above { 0u8 | UP } else { 0u8 };
        let b2: u8 = if c.y_below { b1 | DOWN } else { b1 };
        let b3: u8 = if c.x_above { b2 | RIGHT } else { b2 };
        if c.x_below { b3 | LEFT } else { b3 }
    } else if c.x_dominant && c.y_small {
        if c.x_positive { RIGHT } else { LEFT }
    } else if c.y_dominant && c.x_small {
        if c.y_positive { UP } else { DOWN }
    } else {
        0
    }
}

/// The direction of a stroke, from how its normalised vector compares with
/// the threshold (see `direction_bits_of`).
pub fn direction_from_comparisons(c: AxisComparisons, allow_diagonal: bool) -> (d: Direction)
    ensures
        d.bits == direction_bits_of(c, allow_diagonal),
{
    let mut dir = Direction::undefined();
    if allow_diagonal {
        if c.y_above {
            dir = dir.union(Direction::up());
        }
        if c.y_below {
            dir = dir.union(Direction::down());
        }
        if c.x_above {
            dir = dir.union(Direction::right());
        }
        if c.x_below {
            dir = dir.union(Direction::left());
        }
    } else {
        if c.x_dominant && c.y_small {
            if c.x_positive {
                dir = Direction::right();
            } else {
                dir = Direction::left();
            }
        } else if c.y_dominant && c.x_small {
            if c.y_positive {
                dir = Direction::up();
            } else {
                dir = Direction::down();
            }
        }
    }
    dir
}

/// Law: how a stroke's direction follows from its comparisons.
/// Without diagonals the result is a single flag or none: right or left
/// exactly when the horizontal part dominates and the vertical part is under
/// the threshold (by the horizontal sign), otherwise up or down exactly when
/// the vertical part dominates and the horizontal part is under the
/// threshold (by the vertical sign), and undefined in every other case (a
/// half-diagonal stroke is ignored). With diagonals each flag is set exactly
/// when its component passes the threshold in its direction, and no other
/// bit is set.
pub proof fn lemma_direction_follows_comparisons(c: AxisComparisons)
    ensures
        ({
            let b = direction_bits_of(c, false);
            &&& (b == RIGHT) == (c.x_dominant && c.y_small && c.x_positive)
            &&& (b == LEFT) == (c.x_dominant && c.y_small && !c.x_positive)
            &&& (b == UP) == (!(c.x_dominant && c.y_small) && c.y_dominant && c.x_small
                && c.y_positive)
            &&& (b == DOWN) == (!(c.x_dominant && c.y_small) && c.y_dominant && c.x_small
                && !c.y_positive)
            &&& (b == 0) == (!(c.x_dominant && c.y_small) && !(c.y_dominant && c.x_small))
            &&& (b == RIGHT || b == LEFT) ==> c.y_small
            &&& (b == UP || b == DOWN) ==> c.x_small
        }),
        ({
            let b = direction_bits_of(c, true);
            &&& has_flag(b, UP) == c.y_above
            &&& has_flag(b, DOWN) == c.y_below
            &&& has_flag(b, RIGHT) == c.x_above
            &&& has_flag(b, LEFT) == c.x_below
            &&& b & 0xf0u8 == 0
        }),
{
    let ya = c.y_above;
    let yb = c.y_below;
    let xa = c.x_above;
    let xb = c.x_below;
    let b1: u8 = if ya { 0u8 | UP } else { 0u8 };
    let b2: u8 = if yb { b1 | DOWN } else { b1 };
    let b3: u8 = if xa { b2 | RIGHT } else { b2 };
    let b4: u8 = if xb { b3 | LEFT } else { b3 };
    assert(direction_bits_of(c, true) == b4);
    assert(((b4 & 1u8) == 1u8) == ya && ((b4 & 2u8) == 2u8) == yb && ((b4 & 8u8) == 8u8) == xa
        && ((b4 & 4u8) == 4u8) == xb && (b4 & 0xf0u8) == 0u8) by (bit_vector)
        requires
            b1 == (if ya { 0u8 | 1u8 } else { 0u8 }),
            b2 == (if yb { b1 | 2u8 } else { b1 }),
            b3 == (if xa { b2 | 8u8 } else { b2 }),
            b4 == (if xb { b3 | 4u8 } else { b3 }),
    ;
}

/// Law: which flag bytes `from_flags` keeps. A non-zero byte is kept exactly when it
/// sets at least one of the four direction flags, no other bit, and never
/// both up and down nor both left and right; every other byte becomes the
/// undefined direction.
pub proof fn lemma_from_flags_keeps_exactly_the_strokes(f: u8)
    ensures
        (f != 0 && flags_to_bits(f) == f) <==> (f != 0 && f & 0xf0u8 == 0 && !(has_flag(f, UP) && has_flag(
            f,
            DOWN,
        )) && !(has_flag(f, LEFT) && has_flag(f, RIGHT))),
        flags_to_bits(f) != f ==> flags_to_bits(f) == 0,
{
    assert((f == 1u8 || f == 5u8 || f == 9u8 || f == 2u8 || f == 6u8 || f == 10u8 || f == 4u8 || f
        == 8u8) <==> (f != 0u8 && f & 0xf0u8 == 0u8 && !((f & 1u8) == 1u8 && (f & 2u8) == 2u8)
        && !((f & 4u8) == 4u8 && (f & 8u8) == 8u8))) by (bit_vector);
}

/// Law: the label of each single flag is its upper-case word, the empty
/// set is `"UNDEFINED"`, and two flags are named in the order up, down,
/// left, right, joined by `" | "`.
pub proof fn lemma_label_words()
    ensures
        label_of(0) == "UNDEFINED"@,
        label_of(UP) == "UP"@,
        label_of(DOWN) == "DOWN"@,
        label_of(LEFT) == "LEFT"@,
        label_of(RIGHT) == "RIGHT"@,
        label_of(0b0101) == "UP"@ + " | "@ + "LEFT"@,
        label_of(0b1001) == "UP"@ + " | "@ + "RIGHT"@,
        label_of(0b0110) == "DOWN"@ + " | "@ + "LEFT"@,
        label_of(0b1010) == "DOWN"@ + " | "@ + "RIGHT"@,
{
    lemma_label_written_out(0);
    lemma_label_written_out(1);
    lemma_label_written_out(2);
    lemma_label_written_out(4);
    lemma_label_written_out(8);
    lemma_label_written_out(5);
    lemma_label_written_out(9);
    lemma_label_written_out(6);
    lemma_label_written_out(10);
}

/// Law: the compact label names each flag by its capitalised word, in the
/// order up, down, left, right, run together.
pub proof fn lemma_compact_label_words(b: u8)
    ensures
        compact_label_of(UP) == "Up"@,
        compact_label_of(DOWN) == "Down"@,
        compact_label_of(LEFT) == "Left"@,
        compact_label_of(RIGHT) == "Right"@,
        compact_label_of(0) == Seq::<char>::empty(),
        compact_label_of(b) == (if has_flag(b, UP) { "Up"@ } else { Seq::<char>::empty() }) + (
        if has_flag(b, DOWN) {
            "Down"@
        } else {
            Seq::<char>::empty()
        }) + (if has_flag(b, LEFT) { "Left"@ } else { Seq::<char>::empty() }) + (if has_flag(
            b,
            RIGHT,
        ) {
            "Right"@
        } else {
            Seq::<char>::empty()
        }),
{
    assert(has_flag(1u8, 1u8) && !has_flag(1u8, 2u8) && !has_flag(1u8, 4u8) && !has_flag(1u8, 8u8))
        by (bit_vector);
    assert(!has_flag(2u8, 1u8) && has_flag(2u8, 2u8) && !has_flag(2u8, 4u8) && !has_flag(2u8, 8u8))
        by (bit_vector);
    assert(!has_flag(4u8, 1u8) && !has_flag(4u8, 2u8) && has_flag(4u8, 4u8) && !has_flag(4u8, 8u8))
        by (bit_vector);
    assert(!has_flag(8u8, 1u8) && !has_flag(8u8, 2u8) && !has_flag(8u8, 4u8) && has_flag(8u8, 8u8))
        by (bit_vector);
    assert(!has_flag(0u8, 1u8) && !has_flag(0u8, 2u8) && !has_flag(0u8, 4u8) && !has_flag(0u8, 8u8))
        by (bit_vector);
    assert(compact_label_of(UP) =~= "Up"@);
    assert(compact_label_of(DOWN) =~= "Down"@);
    assert(compact_label_of(LEFT) =~= "Left"@);
    assert(compact_label_of(RIGHT) =~= "Right"@);
    assert(compact_label_of(0) =~= Seq::<char>::empty());
}

/// The opposite flags: up and down swapped, left and right swapped, any
/// other bit kept.
pub open spec fn opposite_bits(b: u8) -> u8 {
    ((b & 1u8) << 1u8) | ((b & 2u8) >> 1u8) | ((b & 4u8) << 1u8) | ((b & 8u8) >> 1u8) | (b
        & 0xf0u8)
}

/// The comparisons of the reversed vector `(-x, -y)`: the above/below
/// comparisons trade places, the dominance and smallness tests stay, and
/// the signs flip. (A sign is only read when its axis dominates, so that
/// axis is not zero and its sign truly flips.)
pub open spec fn mirrored(c: AxisComparisons) -> AxisComparisons {
    AxisComparisons {
        y_above: c.y_below,
        y_below: c.y_above,
        x_above: c.x_below,
        x_below: c.x_above,
        x_dominant: c.x_dominant,
        y_dominant: c.y_dominant,
        x_small: c.x_small,
        y_small: c.y_small,
        x_positive: !c.x_positive,
        y_positive: !c.y_positive,
    }
}

/// Law: reversing a movement reverses its direction: the direction of the
/// reversed vector has up and down, and left and right, swapped (with or
/// without diagonals).
pub proof fn lemma_reversed_movement_reverses_direction(c: AxisComparisons, allow_diagonal: bool)
    ensures
        direction_bits_of(mirrored(c), allow_diagonal) == opposite_bits(
            direction_bits_of(c, allow_diagonal),
        ),
{
    let m = mirrored(c);
    if allow_diagonal {
        let ya = c.y_above;
        let yb = c.y_below;
        let xa = c.x_above;
        let xb = c.x_below;
        let b1: u8 = if ya { 0u8 | UP } else { 0u8 };
        let b2: u8 = if yb { b1 | DOWN } else { b1 };
        let b3: u8 = if xa { b2 | RIGHT } else { b2 };
        let b4: u8 = if xb { b3 | LEFT } else { b3 };
        let m1: u8 = if yb { 0u8 | UP } else { 0u8 };
        let m2: u8 = if ya { m1 | DOWN } else { m1 };
        let m3: u8 = if xb { m2 | RIGHT } else { m2 };
        let m4: u8 = if xa { m3 | LEFT } else { m3 };
        assert(direction_bits_of(c, true) == b4);
        assert(direction_bits_of(m, true) == m4);
        assert(m4 == ((b4 & 1u8) << 1u8) | ((b4 & 2u8) >> 1u8) | ((b4 & 4u8) << 1u8) | ((b4 & 8u8)
            >> 1u8) | (b4 & 0xf0u8)) by (bit_vector)
            requires
                b1 == (if ya { 0u8 | 1u8 } else { 0u8 }),
                b2 == (if yb { b1 | 2u8 } else { b1 }),
                b3 == (if xa { b2 | 8u8 } else { b2 }),
                b4 == (if xb { b3 | 4u8 } else { b3 }),
                m1 == (if yb { 0u8 | 1u8 } else { 0u8 }),
                m2 == (if ya { m1 | 2u8 } else { m1 }),
                m3 == (if xb { m2 | 8u8 } else { m2 }),
                m4 == (if xa { m3 | 4u8 } else { m3 }),
        ;
    } else {
        let b = direction_bits_of(c, false);
        assert(b == 0u8 || b == 1u8 || b == 2u8 || b == 4u8 || b == 8u8);
        assert(((0u8 & 1u8) << 1u8) | ((0u8 & 2u8) >> 1u8) | ((0u8 & 4u8) << 1u8) | ((0u8 & 8u8) >> 1u8)
            | (0u8 & 0xf0u8) == 0u8) by (bit_vector);
        assert(((1u8 & 1u8) << 1u8) | ((1u8 & 2u8) >> 1u8) | ((1u8 & 4u8) << 1u8) | ((1u8 & 8u8) >> 1u8)
            | (1u8 & 0xf0u8) == 2u8) by (bit_vector);
        assert(((2u8 & 1u8) << 1u8) | ((2u8 & 2u8) >> 1u8) | ((2u8 & 4u8) << 1u8) | ((2u8 & 8u8) >> 1u8)
            | (2u8 & 0xf0u8) == 1u8) by (bit_vector);
        assert(((4u8 & 1u8) << 1u8) | ((4u8 & 2u8) >> 1u8) | ((4u8 & 4u8) << 1u8) | ((4u8 & 8u8) >> 1u8)
            | (4u8 & 0xf0u8) == 8u8) by (bit_vector);
        assert(((8u8 & 1u8) << 1u8) | ((8u8 & 2u8) >> 1u8) | ((8u8 & 4u8) << 1u8) | ((8u8 & 8u8) >> 1u8)
            | (8u8 & 0xf0u8) == 4u8) by (bit_vector);
    }
}

/// Law: reading a flag byte as a stroke always gives a stroke or the
/// undefined direction, never a pair of opposite flags, and reading it
/// again changes nothing; a byte that is already a stroke is kept.
pub proof fn lemma_from_flags_is_canonical(flags: u8)
    ensures
        is_stroke(flags_to_bits(flags)) || flags_to_bits(flags) == 0,
        flags_to_bits(flags_to_bits(flags)) == flags_to_bits(flags),
        !(has_flag(flags_to_bits(flags), UP) && has_flag(flags_to_bits(flags), DOWN)),
        !(has_flag(flags_to_bits(flags), LEFT) && has_flag(flags_to_bits(flags), RIGHT)),
        is_stroke(flags) ==> flags_to_bits(flags) == flags,
{
    let b = flags_to_bits(flags);
    assert(!(b & 1u8 == 1u8 && b & 2u8 == 2u8) && !(b & 4u8 == 4u8 && b & 8u8 == 8u8))
        by (bit_vector)
        requires
            b == 0u8 || b == 1u8 || b == 5u8 || b == 9u8 || b == 2u8 || b == 6u8 || b == 10u8 || b
                == 4u8 || b == 8u8,
    ;
}

proof fn lemma_flags_of_low_bits(v: u8)
    requires
        v < 16,
    ensures
        has_flag(v, UP) == (v == 1 || v == 3 || v == 5 || v == 7 || v == 9 || v == 11 || v == 13 || v == 15),
        has_flag(v, DOWN) == (v == 2 || v == 3 || v == 6 || v == 7 || v == 10 || v == 11 || v == 14 || v == 15),
        has_flag(v, LEFT) == (v == 4 || v == 5 || v == 6 || v == 7 || v == 12 || v == 13 || v == 14 || v == 15),
        has_flag(v, RIGHT) == (v == 8 || v == 9 || v == 10 || v == 11 || v == 12 || v == 13 || v == 14 || v == 15),
{
    assert(((v & 1u8) == 1u8) == (v == 1u8 || v == 3u8 || v == 5u8 || v == 7u8 || v == 9u8 || v == 11u8 || v == 13u8 || v == 15u8) && ((v & 2u8) == 2u8) == (v == 2u8 || v == 3u8 || v == 6u8 || v == 7u8 || v == 10u8 || v == 11u8 || v == 14u8 || v == 15u8) && ((v & 4u8) == 4u8) == (v == 4u8 || v == 5u8 || v == 6u8 || v == 7u8 || v == 12u8 || v == 13u8 || v == 14u8 || v == 15u8) && ((v & 8u8) == 8u8) == (v == 8u8 || v == 9u8 || v == 10u8 || v == 11u8 || v == 12u8 || v == 13u8 || v == 14u8 || v == 15u8)) by (bit_vector)
        requires
            v < 16u8,
    ;
}

/// The label of a flag set of the four low bits, written out.
spec fn label_written_out(v: u8) -> Seq<char> {
    if v == 0 {
        "UNDEFINED"@
    } else if v == 1 {
        "UP"@
    } else if v == 2 {
        "DOWN"@
    } else if v == 3 {
        "UP"@ + " | "@ + "DOWN"@
    } else if v == 4 {
        "LEFT"@
    } else if v == 5 {
        "UP"@ + " | "@ + "LEFT"@
    } else if v == 6 {
        "DOWN"@ + " | "@ + "LEFT"@
    } else if v == 7 {
        "UP"@ + " | "@ + "DOWN"@ + " | "@ + "LEFT"@
    } else if v == 8 {
        "RIGHT"@
    } else if v == 9 {
        "UP"@ + " | "@ + "RIGHT"@
    } else if v == 10 {
        "DOWN"@ + " | "@ + "RIGHT"@
    } else if v == 11 {
        "UP"@ + " | "@ + "DOWN"@ + " | "@ + "RIGHT"@
    } else if v == 12 {
        "LEFT"@ + " | "@ + "RIGHT"@
    } else if v == 13 {
        "UP"@ + " | "@ + "LEFT"@ + " | "@ + "RIGHT"@
    } else if v == 14 {
        "DOWN"@ + " | "@ + "LEFT"@ + " | "@ + "RIGHT"@
    } else {
        "UP"@ + " | "@ + "DOWN"@ + " | "@ + "LEFT"@ + " | "@ + "RIGHT"@
    }
}

proof fn lemma_label_written_out(v: u8)
    requires
        v < 16,
    ensures
        label_of(v) == label_written_out(v),
{
    lemma_flags_of_low_bits(v);
    let parts = label_parts(v);
    let sep = " | "@;
    if v == 0 {
        assert(parts =~= Seq::<Seq<char>>::empty());
    } else if v == 1 {
        assert(parts =~= seq!["UP"@]);
        assert(parts.last() == "UP"@);
        assert(seq_join(parts, sep) == "UP"@);
    } else if v == 2 {
        assert(parts =~= seq!["DOWN"@]);
        assert(parts.last() == "DOWN"@);
        assert(seq_join(parts, sep) == "DOWN"@);
    } else if v == 3 {
        assert(parts =~= seq!["UP"@, "DOWN"@]);
        assert(parts.drop_last().last() == "UP"@);
        assert(seq_join(parts.drop_last(), sep) == "UP"@);
        assert(parts.last() == "DOWN"@);
        assert(seq_join(parts, sep) == "UP"@ + sep + "DOWN"@);
    } else if v == 4 {
        assert(parts =~= seq!["LEFT"@]);
        assert(parts.last() == "LEFT"@);
        assert(seq_join(parts, sep) == "LEFT"@);
    } else if v == 5 {
        assert(parts =~= seq!["UP"@, "LEFT"@]);
        assert(parts.drop_last().last() == "UP"@);
        assert(seq_join(parts.drop_last(), sep) == "UP"@);
        assert(parts.last() == "LEFT"@);
        assert(seq_join(parts, sep) == "UP"@ + sep + "LEFT"@);
    } else if v == 6 {
        assert(parts =~= seq!["DOWN"@, "LEFT"@]);
        assert(parts.drop_last().last() == "DOWN"@);
        assert(seq_join(parts.drop_last(), sep) == "DOWN"@);
        assert(parts.last() == "LEFT"@);
        assert(seq_join(parts, sep) == "DOWN"@ + sep + "LEFT"@);
    } else if v == 7 {
        assert(parts =~= seq!["UP"@, "DOWN"@, "LEFT"@]);
        assert(parts.drop_last().drop_last().last() == "UP"@);
        assert(seq_join(parts.drop_last().drop_last(), sep) == "UP"@);
        assert(parts.drop_last().last() == "DOWN"@);
        assert(seq_join(parts.drop_last(), sep) == "UP"@ + sep + "DOWN"@);
        assert(parts.last() == "LEFT"@);
        assert(seq_join(parts, sep) == "UP"@ + sep + "DOWN"@ + sep + "LEFT"@);
    } else if v == 8 {
        assert(parts =~= seq!["RIGHT"@]);
        assert(parts.last() == "RIGHT"@);
        assert(seq_join(parts, sep) == "RIGHT"@);
    } else if v == 9 {
        assert(parts =~= seq!["UP"@, "RIGHT"@]);
        assert(parts.drop_last().last() == "UP"@);
        assert(seq_join(parts.drop_last(), sep) == "UP"@);
        assert(parts.last() == "RIGHT"@);
        assert(seq_join(parts, sep) == "UP"@ + sep + "RIGHT"@);
    } else if v == 10 {
        assert(parts =~= seq!["DOWN"@, "RIGHT"@]);
        assert(parts.drop_last().last() == "DOWN"@);
        assert(seq_join(parts.drop_last(), sep) == "DOWN"@);
        assert(parts.last() == "RIGHT"@);
        assert(seq_join(parts, sep) == "DOWN"@ + sep + "RIGHT"@);
    } else if v == 11 {
        assert(parts =~= seq!["UP"@, "DOWN"@, "RIGHT"@]);
        assert(parts.drop_last().drop_last().last() == "UP"@);
        assert(seq_join(parts.drop_last().drop_last(), sep) == "UP"@);
        assert(parts.drop_last().last() == "DOWN"@);
        assert(seq_join(parts.drop_last(), sep) == "UP"@ + sep + "DOWN"@);
        assert(parts.last() == "RIGHT"@);
        assert(seq_join(parts, sep) == "UP"@ + sep + "DOWN"@ + sep + "RIGHT"@);
    } else if v == 12 {
        assert(parts =~= seq!["LEFT"@, "RIGHT"@]);
        assert(parts.drop_last().last() == "LEFT"@);
        assert(seq_join(parts.drop_last(), sep) == "LEFT"@);
        assert(parts.last() == "RIGHT"@);
        assert(seq_join(parts, sep) == "LEFT"@ + sep + "RIGHT"@);
    } else if v == 13 {
        assert(parts =~= seq!["UP"@, "LEFT"@, "RIGHT"@]);
        assert(parts.drop_last().drop_last().last() == "UP"@);
        assert(seq_join(parts.drop_last().drop_last(), sep) == "UP"@);
        assert(parts.drop_last().last() == "LEFT"@);
        assert(seq_join(parts.drop_last(), sep) == "UP"@ + sep + "LEFT"@);
        assert(parts.last() == "RIGHT"@);
        assert(seq_join(parts, sep) == "UP"@ + sep + "LEFT"@ + sep + "RIGHT"@);
    } else if v == 14 {
        assert(parts =~= seq!["DOWN"@, "LEFT"@, "RIGHT"@]);
        assert(parts.drop_last().drop_last().last() == "DOWN"@);
        assert(seq_join(parts.drop_last().drop_last(), sep) == "DOWN"@);
        assert(parts.drop_last().last() == "LEFT"@);
        assert(seq_join(parts.drop_last(), sep) == "DOWN"@ + sep + "LEFT"@);
        assert(parts.last() == "RIGHT"@);
        assert(seq_join(parts, sep) == "DOWN"@ + sep + "LEFT"@ + sep + "RIGHT"@);
    } else if v == 15 {
        assert(parts =~= seq!["UP"@, "DOWN"@, "LEFT"@, "RIGHT"@]);
        assert(parts.drop_last().drop_last().drop_last().last() == "UP"@);
        assert(seq_join(parts.drop_last().drop_last().drop_last(), sep) == "UP"@);
        assert(parts.drop_last().drop_last().last() == "DOWN"@);
        assert(seq_join(parts.drop_last().drop_last(), sep) == "UP"@ + sep + "DOWN"@);
        assert(parts.drop_last().last() == "LEFT"@);
        assert(seq_join(parts.drop_last(), sep) == "UP"@ + sep + "DOWN"@ + sep + "LEFT"@);
        assert(parts.last() == "RIGHT"@);
        assert(seq_join(parts, sep) == "UP"@ + sep + "DOWN"@ + sep + "LEFT"@ + sep + "RIGHT"@);
    }
}

spec fn label_length(v: u8) -> int {
    if v == 0 {
        9
    } else if v == 1 {
        2
    } else if v == 2 {
        4
    } else if v == 3 {
        9
    } else if v == 4 {
        4
    } else if v == 5 {
        9
    } else if v == 6 {
        11
    } else if v == 7 {
        16
    } else if v == 8 {
        5
    } else if v == 9 {
        10
    } else if v == 10 {
        12
    } else if v == 11 {
        17
    } else if v == 12 {
        12
    } else if v == 13 {
        17
    } else if v == 14 {
        19
    } else {
        24
    }
}

spec fn label_char_0(v: u8) -> char {
    if v == 0 {
        'U'
    } else if v == 1 {
        'U'
    } else if v == 2 {
        'D'
    } else if v == 3 {
        'U'
    } else if v == 4 {
        'L'
    } else if v == 5 {
        'U'
    } else if v == 6 {
        'D'
    } else if v == 7 {
        'U'
    } else if v == 8 {
        'R'
    } else if v == 9 {
        'U'
    } else if v == 10 {
        'D'
    } else if v == 11 {
        'U'
    } else if v == 12 {
        'L'
    } else if v == 13 {
        'U'
    } else if v == 14 {
        'D'
    } else {
        'U'
    }
}

spec fn label_char_1(v: u8) -> char {
    if v == 0 {
        'N'
    } else if v == 1 {
        'P'
    } else if v == 2 {
        'O'
    } else if v == 3 {
        'P'
    } else if v == 4 {
        'E'
    } else if v == 5 {
        'P'
    } else if v == 6 {
        'O'
    } else if v == 7 {
        'P'
    } else if v == 8 {
        'I'
    } else if v == 9 {
        'P'
    } else if v == 10 {
        'O'
    } else if v == 11 {
        'P'
    } else if v == 12 {
        'E'
    } else if v == 13 {
        'P'
    } else if v == 14 {
        'O'
    } else {
        'P'
    }
}

spec fn label_char_5(v: u8) -> char {
    if v == 0 {
        'I'
    } else if v == 1 {
        ' '
    } else if v == 2 {
        ' '
    } else if v == 3 {
        'D'
    } else if v == 4 {
        ' '
    } else if v == 5 {
        'L'
    } else if v == 6 {
        '|'
    } else if v == 7 {
        'D'
    } else if v == 8 {
        ' '
    } else if v == 9 {
        'R'
    } else if v == 10 {
        '|'
    } else if v == 11 {
        'D'
    } else if v == 12 {
        '|'
    } else if v == 13 {
        'L'
    } else if v == 14 {
        '|'
    } else {
        'D'
    }
}

proof fn lemma_label_key(v: u8)
    requires
        v < 16,
    ensures
        label_of(v).len() == label_length(v),
        label_of(v).len() >= 2,
        label_of(v)[0] == label_char_0(v),
        label_of(v)[1] == label_char_1(v),
        label_of(v).len() > 5 ==> label_of(v)[5] == label_char_5(v),
{
    lemma_label_written_out(v);
    reveal_strlit("UP");
    reveal_strlit("DOWN");
    reveal_strlit("LEFT");
    reveal_strlit("RIGHT");
    reveal_strlit("UNDEFINED");
    reveal_strlit(" | ");
}

/// Every label is non-empty and holds no `'>'`.
pub(crate) proof fn lemma_label_has_no_arrow(v: u8)
    requires
        v & 0xf0u8 == 0,
    ensures
        label_of(v).len() > 0,
        forall|k: int| 0 <= k < label_of(v).len() ==> label_of(v)[k] != '>',
{
    assert(v & 0xf0u8 == 0 ==> v < 16u8) by (bit_vector);
    lemma_label_key(v);
    lemma_label_written_out(v);
    reveal_strlit("UP");
    reveal_strlit("DOWN");
    reveal_strlit("LEFT");
    reveal_strlit("RIGHT");
    reveal_strlit("UNDEFINED");
    reveal_strlit(" | ");
    let m = '>';
    assert(free_of("UP"@, m));
    assert(free_of("DOWN"@, m));
    assert(free_of("LEFT"@, m));
    assert(free_of("RIGHT"@, m));
    assert(free_of("UNDEFINED"@, m));
    assert(free_of(" | "@, m));
    assert forall|x: Seq<char>, y: Seq<char>| free_of(x, m) && free_of(y, m) implies #[trigger] free_of(
        x + y,
        m,
    ) by {
        assert forall|k: int| 0 <= k < (x + y).len() implies (x + y)[k] != m by {
            if k >= x.len() {
                assert((x + y)[k] == y[k - x.len()]);
            }
        }
    }
    assert(free_of(label_written_out(v), m));
}

/// Law: any two different flag sets of the four direction bits (no other
/// bit set) have different labels; the label of a direction names exactly
/// its flags.
pub proof fn lemma_labels_are_distinct(a: u8, b: u8)
    requires
        a & 0xf0u8 == 0,
        b & 0xf0u8 == 0,
        a != b,
    ensures
        label_of(a) != label_of(b),
{
    assert(a & 0xf0u8 == 0 ==> a < 16u8) by (bit_vector);
    assert(b & 0xf0u8 == 0 ==> b < 16u8) by (bit_vector);
    lemma_label_key(a);
    lemma_label_key(b);
    if label_of(a) == label_of(b) {
        assert(label_length(a) == label_length(b));
        assert(label_char_0(a) == label_char_0(b));
        assert(label_char_1(a) == label_char_1(b));
        if label_length(a) > 5 {
            assert(label_char_5(a) == label_char_5(b));
        }
        assert(a == b);
    }
}

} // verus!
