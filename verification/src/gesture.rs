//! Turning a finished pointer trail into a gesture: the direction sequence
//! read off the trail's segments, its textual form, and what becomes of it
//! (replayed as a plain right click, recorded, or executed).

use vstd::prelude::*;
use crate::app_state::{AppState, add_ignore_count, after_add_ignore};
use crate::direction::{Direction, label_of, is_stroke, lemma_label_has_no_arrow, lemma_labels_are_distinct};
use crate::text::{seq_join, string_views, join_strings, free_of, lemma_join_injective};

verus! {

/// What the geometry of one trail segment says: whether the pointer moved
/// far enough over it to count, the stroke direction it points in, and
/// whether it turned sharply against the previous moving segment.
#[derive(Clone, Copy, Debug)]
pub struct Segment {
    pub moving: bool,
    pub direction: Direction,
    pub turned: bool,
}

/// The scan state: directions found so far, the current direction's flags,
/// and the index of the last corner.
pub type ScanState = (Seq<Direction>, u8, int);

/// One step of the scan over segment `i` with window `win`.
///
/// A moving segment that turned sharply, more than `win` segments after the
/// last corner, starts a new direction when its direction is defined and
/// shares no flag with the current one (and marks a corner). Independently,
/// every `win`-th segment that is moving with a defined direction starts a
/// new direction when none is current or it shares no flag with the current
/// one. Segments that do not move change nothing.
pub open spec fn scan_step(st: ScanState, seg: Segment, i: int, win: int) -> ScanState {
    if !seg.moving {
        st
    } else {
        let dir = seg.direction;
        let st1: ScanState = if seg.turned && i > st.2 + win && dir.bits != 0 && st.1 & dir.bits
            == 0 {
            (st.0.push(dir), dir.bits, i)
        } else {
            st
        };
        if i % win == 0 && dir.bits != 0 && (st1.1 == 0 || st1.1 & dir.bits == 0) {
            (st1.0.push(dir), dir.bits, st1.2)
        } else {
            st1
        }
    }
}

/// The scan over all of `segs`, starting with no direction and the last
/// corner at index 0.
pub open spec fn scan(segs: Seq<Segment>, win: int) -> ScanState
    decreases segs.len(),
{
    if segs.len() == 0 {
        (Seq::empty(), 0u8, 0)
    } else {
        scan_step(scan(segs.drop_last(), win), segs.last(), segs.len() - 1, win)
    }
}

/// The directions a trail with these segments makes.
pub open spec fn detected(segs: Seq<Segment>, win: int) -> Seq<Direction> {
    scan(segs, win).0
}

/// The scan never evaluates `i % win` with `win == 0`.
pub open spec fn window_ok(segs: Seq<Segment>, win: int) -> bool {
    win > 0 || forall|k: int| 0 <= k < segs.len() ==> !(#[trigger] segs[k]).moving
}

/// Reads the direction sequence off the segments of a denoised trail, where
/// segment `i` joins point `i` to point `i + window`.
pub fn detect_directions(segments: &Vec<Segment>, window: usize) -> (dirs: Vec<Direction>)
    requires
        window_ok(segments@, window as int),
    ensures
        dirs@ == detected(segments@, window as int),
{
    let mut dirs: Vec<Direction> = Vec::new();
    let mut current = Direction::undefined();
    let mut last_corner: usize = 0;
    let mut i: usize = 0;
    while i < segments.len()
        invariant
            i <= segments.len(),
            window_ok(segments@, window as int),
            last_corner <= i,
            scan(segments@.take(i as int), window as int) == (dirs@, current.bits, last_corner as int),
        decreases segments.len() - i,
    {
        assert(segments@.take(i + 1).drop_last() =~= segments@.take(i as int));
        assert(segments@.take(i + 1).last() == segments@[i as int]);
        let seg = segments[i];
        if seg.moving {
            let dir = seg.direction;
            if seg.turned && i - last_corner > window {
                if !dir.is_empty() && !current.intersects(dir) {
                    dirs.push(dir);
                    current = dir;
                    last_corner = i;
                }
            }
            if i % window == 0 && !dir.is_empty() {
                if current.is_empty() || !current.intersects(dir) {
                    dirs.push(dir);
                    current = dir;
                }
            }
        }
        i = i + 1;
    }
    assert(segments@.take(segments.len() as int) =~= segments@);
    dirs
}

/// Invariant of the scan: every direction found is defined, neighbours
/// share no flag, the current flags are those of the last direction found
/// (none before the first), and at most one direction per segment.
pub open spec fn scan_wf(st: ScanState, n: int) -> bool {
    &&& forall|k: int| 0 <= k < st.0.len() ==> (#[trigger] st.0[k]).bits != 0
    &&& forall|k: int| 0 <= k < st.0.len() - 1 ==> #[trigger] (st.0[k].bits & st.0[k + 1].bits) == 0
    &&& (st.0.len() == 0 ==> st.1 == 0)
    &&& (st.0.len() > 0 ==> st.1 == st.0.last().bits)
    &&& st.0.len() <= n
}

proof fn lemma_scan_step_wf(st: ScanState, seg: Segment, i: int, win: int, n: int)
    requires
        scan_wf(st, n),
    ensures
        scan_wf(scan_step(st, seg, i, win), n + 1),
        (forall|k: int| 0 <= k < st.0.len() ==> is_stroke(#[trigger] st.0[k].bits)) && is_stroke(
            seg.direction.bits,
        ) ==> forall|k: int|
            0 <= k < scan_step(st, seg, i, win).0.len() ==> is_stroke(
                #[trigger] scan_step(st, seg, i, win).0[k].bits,
            ),
{
    let d = seg.direction.bits;
    assert(0u8 & d == 0) by (bit_vector);
    assert(d & d == d) by (bit_vector);
    if seg.moving {
        let st1: ScanState = if seg.turned && i > st.2 + win && d != 0 && st.1 & d == 0 {
            (st.0.push(seg.direction), d, i)
        } else {
            st
        };
        assert(scan_wf(st1, n + 1)) by {
            if st1.0.len() > st.0.len() {
                assert forall|k: int| 0 <= k < st1.0.len() - 1 implies #[trigger] (st1.0[k].bits
                    & st1.0[k + 1].bits) == 0 by {
                    if k < st.0.len() - 1 {
                        assert(st1.0[k] == st.0[k] && st1.0[k + 1] == st.0[k + 1]);
                    }
                }
            }
        }
        let st2 = scan_step(st, seg, i, win);
        if st2.0.len() > st1.0.len() {
            assert(st1.0.len() == st.0.len());
            assert forall|k: int| 0 <= k < st2.0.len() - 1 implies #[trigger] (st2.0[k].bits
                & st2.0[k + 1].bits) == 0 by {
                if k < st1.0.len() - 1 {
                    assert(st2.0[k] == st1.0[k] && st2.0[k + 1] == st1.0[k + 1]);
                }
            }
        }
    }
}

proof fn lemma_scan_wf(segs: Seq<Segment>, win: int)
    ensures
        scan_wf(scan(segs, win), segs.len() as int),
        (forall|k: int| 0 <= k < segs.len() ==> is_stroke(#[trigger] segs[k].direction.bits))
            ==> forall|k: int|
            0 <= k < scan(segs, win).0.len() ==> is_stroke(#[trigger] scan(segs, win).0[k].bits),
    decreases segs.len(),
{
    if segs.len() > 0 {
        let prefix = segs.drop_last();
        lemma_scan_wf(prefix, win);
        assert forall|k: int| 0 <= k < prefix.len() implies prefix[k] == segs[k] by {}
        lemma_scan_step_wf(scan(prefix, win), segs.last(), segs.len() - 1, win, prefix.len() as int);
    }
}

/// Law: a detected gesture never repeats itself: every direction in it is
/// defined, two neighbouring directions share no flag, and it has at most
/// one direction per segment. When every segment points in a stroke
/// direction, so does every direction of the gesture.
pub proof fn lemma_detected_directions_alternate(segs: Seq<Segment>, win: int)
    ensures
        forall|k: int| 0 <= k < detected(segs, win).len() ==> (#[trigger] detected(segs, win)[k]).bits != 0,
        forall|k: int|
            0 <= k < detected(segs, win).len() - 1 ==> #[trigger] (detected(segs, win)[k].bits
                & detected(segs, win)[k + 1].bits) == 0,
        detected(segs, win).len() <= segs.len(),
        (forall|k: int| 0 <= k < segs.len() ==> is_stroke(#[trigger] segs[k].direction.bits))
            ==> forall|k: int|
            0 <= k < detected(segs, win).len() ==> is_stroke(
                #[trigger] detected(segs, win)[k].bits,
            ),
{
    lemma_scan_wf(segs, win);
}

/// Law: the scan reads a trail one segment at a time. A segment that does
/// not move adds nothing. A moving segment at a multiple of the window whose
/// direction is defined and shares no flag with the last direction found
/// (or comes first) is added, exactly once, however many directions were
/// found before it. A moving segment never adds a direction that is
/// undefined or shares a flag with the last one found, and adds at most one.
pub proof fn lemma_scan_reads_segments_in_turn(segs: Seq<Segment>, win: int, i: int)
    requires
        0 <= i < segs.len(),
        win > 0,
    ensures
        !segs[i].moving ==> detected(segs.take(i + 1), win) == detected(segs.take(i), win),
        ({
            let before = detected(segs.take(i), win);
            let d = segs[i].direction;
            segs[i].moving && i % win == 0 && d.bits != 0 && (before.len() == 0
                || before.last().bits & d.bits == 0) ==> detected(segs.take(i + 1), win)
                == before.push(d)
        }),
        ({
            let before = detected(segs.take(i), win);
            let after = detected(segs.take(i + 1), win);
            let d = segs[i].direction;
            ||| after == before
            ||| after == before.push(d) && d.bits != 0 && (before.len() == 0 || before.last().bits
                & d.bits == 0)
        }),
{
    let pre = segs.take(i);
    assert(segs.take(i + 1).drop_last() =~= pre);
    assert(segs.take(i + 1).last() == segs[i]);
    lemma_scan_wf(pre, win);
    let d = segs[i].direction.bits;
    assert(d & d == d) by (bit_vector);
    assert(0u8 & d == 0) by (bit_vector);
}

/// The index of the last corner the scan found (0 before the first).
pub open spec fn last_corner(segs: Seq<Segment>, win: int) -> int {
    scan(segs, win).2
}

/// Law: corners. A moving segment that turned sharply, with a defined
/// direction that shares no flag with the last direction found (or comes
/// first), more than a window after the last corner, adds its direction
/// exactly once and becomes the last corner. Otherwise the last corner
/// stays; the scan starts with the last corner at index 0.
pub proof fn lemma_scan_adds_corners(segs: Seq<Segment>, win: int, i: int)
    requires
        0 <= i < segs.len(),
        win > 0,
    ensures
        last_corner(Seq::<Segment>::empty(), win) == 0,
        ({
            let before = detected(segs.take(i), win);
            let d = segs[i].direction;
            segs[i].moving && segs[i].turned && d.bits != 0 && (before.len() == 0
                || before.last().bits & d.bits == 0) && i > last_corner(segs.take(i), win) + win
                ==> detected(segs.take(i + 1), win) == before.push(d) && last_corner(
                segs.take(i + 1),
                win,
            ) == i
        }),
        ({
            let d = segs[i].direction;
            let before = detected(segs.take(i), win);
            !(segs[i].moving && segs[i].turned && d.bits != 0 && (before.len() == 0
                || before.last().bits & d.bits == 0) && i > last_corner(segs.take(i), win) + win)
                ==> last_corner(segs.take(i + 1), win) == last_corner(segs.take(i), win)
        }),
{
    let pre = segs.take(i);
    assert(segs.take(i + 1).drop_last() =~= pre);
    assert(segs.take(i + 1).last() == segs[i]);
    lemma_scan_wf(pre, win);
    let d = segs[i].direction.bits;
    assert(d & d == d) by (bit_vector);
    assert(0u8 & d == 0) by (bit_vector);
}

/// The gesture's text: the labels of its directions joined by `" -> "`.
pub open spec fn gesture_text(dirs: Seq<Direction>) -> Seq<char> {
    seq_join(dirs.map_values(|d: Direction| label_of(d.bits)), " -> "@)
}

/// Law: the text of a gesture lists the labels of its directions in order,
/// joined by `" -> "`: no direction gives the empty text, one gives its
/// label, and each further direction appends `" -> "` and its label.
pub proof fn lemma_gesture_text_lists_labels(dirs: Seq<Direction>, d: Direction)
    ensures
        gesture_text(Seq::<Direction>::empty()) == Seq::<char>::empty(),
        gesture_text(seq![d]) == label_of(d.bits),
        dirs.len() > 0 ==> gesture_text(dirs.push(d)) == gesture_text(dirs) + " -> "@ + label_of(
            d.bits,
        ),
{
    let f = |x: Direction| label_of(x.bits);
    assert(Seq::<Direction>::empty().map_values(f) =~= Seq::<Seq<char>>::empty());
    assert(seq![d].map_values(f) =~= seq![label_of(d.bits)]);
    if dirs.len() > 0 {
        assert(dirs.push(d).map_values(f) =~= dirs.map_values(f).push(label_of(d.bits)));
        assert(dirs.push(d).map_values(f).drop_last() =~= dirs.map_values(f));
    }
}

/// The text of a direction sequence, such as `"UP -> LEFT"`.
pub fn gesture_label(dirs: &Vec<Direction>) -> (s: String)
    ensures
        s@ == gesture_text(dirs@),
{
    let mut labels: Vec<String> = Vec::new();
    let mut i: usize = 0;
    while i < dirs.len()
        invariant
            i <= dirs.len(),
            string_views(labels@) =~= dirs@.take(i as int).map_values(
                |d: Direction| label_of(d.bits),
            ),
        decreases dirs.len() - i,
    {
        let l = dirs[i].label();
        let ghost before = labels@;
        labels.push(l);
        assert(string_views(labels@) =~= string_views(before).push(l@));
        assert(dirs@.take(i + 1) =~= dirs@.take(i as int).push(dirs@[i as int]));
        i = i + 1;
    }
    assert(dirs@.take(dirs.len() as int) =~= dirs@);
    join_strings(&labels, " -> ")
}

/// Law: the text of a gesture names its directions unambiguously: two
/// sequences of directions (flags of the four direction bits only) with the
/// same text are the same sequence. So matching a configured trigger against the text is
/// matching the direction sequence.
pub proof fn lemma_gesture_text_is_unambiguous(a: Seq<Direction>, b: Seq<Direction>)
    requires
        forall|k: int| 0 <= k < a.len() ==> #[trigger] a[k].bits & 0xf0u8 == 0,
        forall|k: int| 0 <= k < b.len() ==> #[trigger] b[k].bits & 0xf0u8 == 0,
        gesture_text(a) == gesture_text(b),
    ensures
        a == b,
{
    let la = a.map_values(|d: Direction| label_of(d.bits));
    let lb = b.map_values(|d: Direction| label_of(d.bits));
    let sep = " -> "@;
    reveal_strlit(" -> ");
    assert forall|k: int| 0 <= k < la.len() implies #[trigger] la[k].len() > 0 && free_of(la[k], '>') by {
        lemma_label_has_no_arrow(a[k].bits);
    }
    assert forall|k: int| 0 <= k < lb.len() implies #[trigger] lb[k].len() > 0 && free_of(lb[k], '>') by {
        lemma_label_has_no_arrow(b[k].bits);
    }
    lemma_join_injective(la, lb, sep, '>', 2);
    assert(a.len() == b.len());
    assert forall|k: int| 0 <= k < a.len() implies a[k] == b[k] by {
        assert(la[k] == lb[k]);
        if a[k].bits != b[k].bits {
            lemma_labels_are_distinct(a[k].bits, b[k].bits);
        }
    }
    assert(a =~= b);
}

/// Gesture recording: while recording, the next detected gesture is kept
/// instead of executed.
pub struct Recorder {
    pub recording: bool,
    pub recorded: Option<String>,
}

impl Recorder {
    /// Not recording, nothing recorded.
    pub fn new() -> (r: Recorder)
        ensures
            !r.recording,
            r.recorded is None,
    {
        Recorder { recording: false, recorded: None }
    }
}

/// Starts recording and forgets any earlier recorded gesture.
pub fn start_recording(recorder: &mut Recorder)
    ensures
        final(recorder).recording,
        final(recorder).recorded is None,
{
    recorder.recording = true;
    recorder.recorded = None;
}

/// Stops recording and hands out the recorded gesture's text, or the error
/// `"No gesture recorded"` when none was recorded. The recorded gesture is
/// kept.
pub fn stop_recording(recorder: &mut Recorder) -> (res: Result<String, String>)
    ensures
        !final(recorder).recording,
        final(recorder).recorded == old(recorder).recorded,
        match old(recorder).recorded {
            Some(g) => res matches Ok(s) && s@ == g@,
            None => res matches Err(e) && e@ == "No gesture recorded"@,
        },
{
    recorder.recording = false;
    match &recorder.recorded {
        Some(g) => Ok(g.clone()),
        None => Err(String::from_str("No gesture recorded")),
    }
}

/// What becomes of a finished trail.
pub enum GestureOutcome {
    /// No gesture: the right click is to be replayed as a plain click.
    ReplayClick,
    /// The gesture with this text was recorded.
    Recorded(String),
    /// The gesture with this text is to be executed.
    Execute(String),
}

/// A denoised trail of `len` points is too short to judge with this window.
pub open spec fn too_short(len: int, window: int) -> bool {
    len < 2 * window
}

/// Law: a denoised trail is judged once it holds at least two windows of
/// points: one point fewer is too short, and any longer trail is not.
pub proof fn lemma_two_windows_are_enough(len: int, window: int)
    requires
        window >= 0,
        len >= 0,
    ensures
        too_short(len, window) <==> len < window + window,
        window > 0 ==> too_short(window + window - 1, window),
        !too_short(window + window, window),
{
}

/// Decides what a finished trail amounts to. A trail shorter than two
/// windows, or one in which no direction is detected, is no gesture: two
/// input events (the replayed press and release) are set to be ignored and
/// the click is to be replayed. Otherwise the gesture's text is recorded
/// when recording is on, and handed out for execution when it is not.
pub fn conclude_gesture(
    state: &mut AppState,
    recorder: &mut Recorder,
    denoised_len: usize,
    window: usize,
    segments: &Vec<Segment>,
) -> (out: GestureOutcome)
    requires
        too_short(denoised_len as int, window as int) || window_ok(segments@, window as int),
    ensures
        ({
            let dirs = detected(segments@, window as int);
            if too_short(denoised_len as int, window as int) || dirs.len() == 0 {
                &&& out is ReplayClick
                &&& final(state).ignore_count == after_add_ignore(old(state).ignore_count, 2)
                &&& final(state).active == old(state).active
                &&& *final(recorder) == *old(recorder)
            } else if old(recorder).recording {
                &&& out matches GestureOutcome::Recorded(s) && s@ == gesture_text(dirs)
                &&& final(recorder).recording
                &&& final(recorder).recorded matches Some(r) && r@ == gesture_text(dirs)
                &&& *final(state) == *old(state)
            } else {
                &&& out matches GestureOutcome::Execute(s) && s@ == gesture_text(dirs)
                &&& *final(recorder) == *old(recorder)
                &&& *final(state) == *old(state)
            }
        }),
{
    if denoised_len / 2 < window {
        add_ignore_count(state, 2);
        return GestureOutcome::ReplayClick;
    }
    let dirs = detect_directions(segments, window);
    if dirs.len() == 0 {
        add_ignore_count(state, 2);
        return GestureOutcome::ReplayClick;
    }
    let text = gesture_label(&dirs);
    if recorder.recording {
        recorder.recorded = Some(text.clone());
        GestureOutcome::Recorded(text)
    } else {
        GestureOutcome::Execute(text)
    }
}

} // verus!
