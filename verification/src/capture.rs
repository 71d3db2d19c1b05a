//! Capturing the pointer trail of a right-button drag: which input events
//! are swallowed, when tracking starts and ends, and the bounded buffer of
//! trail points handed on when the button is released.

use vstd::prelude::*;
use circular_queue::CircularQueue;
use crate::app_state::{AppState, should_ignore, after_should_ignore};

verus! {

#[verifier::external_type_specification]
#[verifier::external_body]
#[verifier::reject_recursive_types(T)]
pub struct ExCircularQueue<T>(CircularQueue<T>);

/// The points held by a trail buffer, oldest first. A point is the pair of
/// bit patterns of its two `f64` coordinates.
pub uninterp spec fn queue_items(q: CircularQueue<(u64, u64)>) -> Seq<(u64, u64)>;

/// The capacity a trail buffer was made with.
pub uninterp spec fn queue_capacity(q: CircularQueue<(u64, u64)>) -> nat;

/// The items of a buffer of capacity `cap` after pushing `x`: nothing
/// changes when the capacity is zero, `x` is appended while there is room,
/// and otherwise the oldest item makes way for it.
pub open spec fn pushed(items: Seq<(u64, u64)>, cap: nat, x: (u64, u64)) -> Seq<(u64, u64)> {
    if cap == 0 {
        items
    } else if items.len() < cap {
        items.push(x)
    } else {
        items.drop_first().push(x)
    }
}

/// `CircularQueue::with_capacity`: an empty buffer with the given capacity.
/// Its storage is reserved up front, so the capacity must fit in memory.
#[verifier::external_body]
fn queue_with_capacity(capacity: usize) -> (q: CircularQueue<(u64, u64)>)
    requires
        capacity <= isize::MAX as usize / 16,
    ensures
        queue_items(q) == Seq::<(u64, u64)>::empty(),
        queue_capacity(q) == capacity,
{
    CircularQueue::with_capacity(capacity)
}

/// `CircularQueue::push`: appends `x`, overwriting and returning the oldest
/// item when the buffer is full; a buffer of capacity zero stays empty.
#[verifier::external_body]
fn queue_push(q: &mut CircularQueue<(u64, u64)>, x: (u64, u64)) -> (popped: Option<(u64, u64)>)
    requires
        queue_items(*old(q)).len() <= queue_capacity(*old(q)),
    ensures
        queue_capacity(*final(q)) == queue_capacity(*old(q)),
        queue_items(*final(q)) == pushed(queue_items(*old(q)), queue_capacity(*old(q)), x),
        popped == if queue_capacity(*old(q)) > 0 && queue_items(*old(q)).len() == queue_capacity(
            *old(q),
        ) {
            Some(queue_items(*old(q))[0])
        } else {
            None
        },
{
    q.push(x)
}

/// `CircularQueue::iter`, collected: the items from the newest to the oldest.
#[verifier::external_body]
fn queue_newest_first(q: &CircularQueue<(u64, u64)>) -> (v: Vec<(u64, u64)>)
    ensures
        v@ == queue_items(*q).reverse(),
{
    q.iter().cloned().collect()
}

/// `CircularQueue::clear`: empties the buffer, keeping its capacity.
#[verifier::external_body]
fn queue_clear(q: &mut CircularQueue<(u64, u64)>)
    ensures
        queue_items(*final(q)) == Seq::<(u64, u64)>::empty(),
        queue_capacity(*final(q)) == queue_capacity(*old(q)),
{
    q.clear()
}

/// Reverses a vector in place.
fn reverse_points(v: &mut Vec<(u64, u64)>)
    ensures
        final(v)@ == old(v)@.reverse(),
{
    let n = v.len();
    let mut i: usize = 0;
    while i < n / 2
        invariant
            n == v.len(),
            n == old(v)@.len(),
            i <= n / 2,
            forall|k: int| 0 <= k < i ==> v@[k] == old(v)@[n - 1 - k],
            forall|k: int| 0 <= k < i ==> v@[n - 1 - k] == old(v)@[k],
            forall|k: int| i <= k < n - i ==> v@[k] == old(v)@[k],
        decreases n / 2 - i,
    {
        let a = v[i];
        let b = v[n - 1 - i];
        v.set(i, b);
        v.set(n - 1 - i, a);
        i = i + 1;
    }
    assert(v@ =~= old(v)@.reverse());
}

/// The state of trail capture: the bounded buffer of trail points, whether
/// a right-button drag is being tracked, and the last pointer position seen
/// while tracking (initially the origin).
pub struct Tracker {
    pub trail: CircularQueue<(u64, u64)>,
    pub tracking: bool,
    pub last_point: (u64, u64),
}

impl Tracker {
    /// The points of the trail, oldest first.
    pub open spec fn points(&self) -> Seq<(u64, u64)> {
        queue_items(self.trail)
    }

    /// How many points the trail keeps at most.
    pub open spec fn capacity(&self) -> nat {
        queue_capacity(self.trail)
    }

    /// The trail never holds more points than its capacity.
    pub open spec fn wf(&self) -> bool {
        self.points().len() <= self.capacity()
    }

    /// Not tracking, an empty trail that keeps the last `buffer_size`
    /// points, the last position at the origin.
    pub fn new(buffer_size: usize) -> (t: Tracker)
        requires
            buffer_size <= isize::MAX as usize / 16,
        ensures
            t.wf(),
            t.points() == Seq::<(u64, u64)>::empty(),
            t.capacity() == buffer_size,
            !t.tracking,
            t.last_point == (0u64, 0u64),
    {
        Tracker { trail: queue_with_capacity(buffer_size), tracking: false, last_point: (0, 0) }
    }
}

/// An input event, as far as trail capture is concerned. A pointer move
/// carries the new position and whether it lies more than one pixel from
/// the tracker's last position.
pub enum InputEvent {
    RightPress,
    RightRelease,
    MouseMove { point: (u64, u64), moved_far: bool },
    Other,
}

/// How to answer an input event: whether to let it through to the system,
/// whether to start the drag timer, and the finished trail (oldest point
/// first) when a tracked drag ended.
pub struct EventResponse {
    pub pass_through: bool,
    pub start_timer: bool,
    pub finished_trail: Option<Vec<(u64, u64)>>,
}

/// Handles one input event. An event arriving while events are to be
/// ignored passes through untouched (using up one ignore token). Otherwise
/// a right press starts tracking; a right release ends it, handing out the
/// trail and emptying it; both are swallowed while capture is active. A
/// pointer move while tracking updates the last position and, when it went
/// far enough, appends the position to the trail. Other events pass.
pub fn handle_event(state: &mut AppState, tracker: &mut Tracker, event: InputEvent) -> (res:
    EventResponse)
    requires
        old(tracker).wf(),
    ensures
        final(tracker).wf(),
        final(tracker).capacity() == old(tracker).capacity(),
        final(state).active == old(state).active,
        final(state).ignore_count == after_should_ignore(old(state).ignore_count),
        old(state).ignore_count > 0 ==> {
            &&& res.pass_through
            &&& !res.start_timer
            &&& res.finished_trail is None
            &&& final(tracker).points() == old(tracker).points()
            &&& final(tracker).tracking == old(tracker).tracking
            &&& final(tracker).last_point == old(tracker).last_point
        },
        old(state).ignore_count == 0 ==> match event {
            InputEvent::RightPress => {
                &&& res.pass_through == !old(state).active
                &&& res.start_timer
                &&& res.finished_trail is None
                &&& final(tracker).tracking
                &&& final(tracker).points() == old(tracker).points()
                &&& final(tracker).last_point == old(tracker).last_point
            },
            InputEvent::RightRelease => {
                &&& res.pass_through == !old(state).active
                &&& !res.start_timer
                &&& !final(tracker).tracking
                &&& final(tracker).last_point == old(tracker).last_point
                &&& if old(tracker).tracking {
                    &&& res.finished_trail matches Some(v) && v@ == old(tracker).points()
                    &&& final(tracker).points() == Seq::<(u64, u64)>::empty()
                } else {
                    &&& res.finished_trail is None
                    &&& final(tracker).points() == old(tracker).points()
                }
            },
            InputEvent::MouseMove { point, moved_far } => {
                &&& res.pass_through
                &&& !res.start_timer
                &&& res.finished_trail is None
                &&& final(tracker).tracking == old(tracker).tracking
                &&& if old(tracker).tracking {
                    &&& final(tracker).last_point == point
                    &&& final(tracker).points() == if moved_far {
                        pushed(old(tracker).points(), old(tracker).capacity(), point)
                    } else {
                        old(tracker).points()
                    }
                } else {
                    &&& final(tracker).last_point == old(tracker).last_point
                    &&& final(tracker).points() == old(tracker).points()
                }
            },
            InputEvent::Other => {
                &&& res.pass_through
                &&& !res.start_timer
                &&& res.finished_trail is None
                &&& final(tracker).points() == old(tracker).points()
                &&& final(tracker).tracking == old(tracker).tracking
                &&& final(tracker).last_point == old(tracker).last_point
            },
        },
{
    let active = state.active;
    let ignore = should_ignore(state);
    if ignore {
        return EventResponse { pass_through: true, start_timer: false, finished_trail: None };
    }
    match event {
        InputEvent::RightPress => {
            tracker.tracking = true;
            EventResponse { pass_through: !active, start_timer: true, finished_trail: None }
        },
        InputEvent::RightRelease => {
            let was_tracking = tracker.tracking;
            tracker.tracking = false;
            if was_tracking {
                let mut points = queue_newest_first(&tracker.trail);
                queue_clear(&mut tracker.trail);
                reverse_points(&mut points);
                proof {
                    assert(points@ =~= old(tracker).points());
                }
                EventResponse { pass_through: !active, start_timer: false, finished_trail: Some(points) }
            } else {
                EventResponse { pass_through: !active, start_timer: false, finished_trail: None }
            }
        },
        InputEvent::MouseMove { point, moved_far } => {
            if tracker.tracking {
                tracker.last_point = point;
                if moved_far {
                    let _ = queue_push(&mut tracker.trail, point);
                }
            }
            EventResponse { pass_through: true, start_timer: false, finished_trail: None }
        },
        InputEvent::Other => {
            EventResponse { pass_through: true, start_timer: false, finished_trail: None }
        },
    }
}

/// Law: the trail keeps the most recent points pushed into it, in order:
/// pushing onto a trail within its capacity gives the last `capacity` of the
/// old points followed by the new one.
pub proof fn lemma_trail_keeps_latest_points(items: Seq<(u64, u64)>, cap: nat, x: (u64, u64))
    requires
        items.len() <= cap,
        cap > 0,
    ensures
        pushed(items, cap, x).len() <= cap,
        pushed(items, cap, x).last() == x,
        pushed(items, cap, x) == items.push(x).subrange(
            items.push(x).len() - pushed(items, cap, x).len(),
            items.push(x).len() as int,
        ),
        pushed(items, cap, x).len() == if items.len() < cap { items.len() + 1 } else { cap },
{
    let s = items.push(x);
    if items.len() < cap {
        assert(s.subrange(0, s.len() as int) =~= s);
    } else {
        assert(s.subrange(1, s.len() as int) =~= items.drop_first().push(x));
    }
}

} // verus!
