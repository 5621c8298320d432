//! Touch events: who touched (`id`), where (`location`), in which phase of
//! its contact (`phase`) and with what (`tool`), and the lifecycle that a
//! stream of events for one id follows.
use vstd::prelude::*;
use crate::angle::UnitAngle;
use crate::point::TouchPoint;

verus! {

/// Represents a single touch point on the screen.
#[derive(Debug, Clone, PartialEq, Eq, Hash, Structural)]
pub struct Touch {
    /// Unique ID for tracking this touch point across frames.
    ///
    /// The ID stays stable for a given finger or stylus while it remains in
    /// contact, and can be reused for a new touch after `Phase::Ended` or
    /// `Phase::Cancelled`.
    pub id: u8,
    /// Coordinates of the interaction in units of screen pixels.
    pub location: TouchPoint,
    /// Current phase of this touch interaction.
    pub phase: Phase,
    /// The tool used for this touch point.
    pub tool: Tool,
}

/// Phase of a touch interaction.
#[derive(Debug, Clone, Copy, PartialEq, Eq, Hash, Structural)]
pub enum Phase {
    /// Touch just started.
    Started,
    /// Touch moved from its previous position.
    Moved,
    /// Touch ended normally.
    Ended,
    /// Touch was cancelled (e.g., palm rejection triggered).
    Cancelled,
    /// Touch is hovering above the screen without contact, with an optional
    /// proximity (implementation-specific units).
    Hovering(Option<u16>),
}

/// Tool or instrument used for a touch interaction.
#[derive(Debug, Clone, Copy, PartialEq, Eq, Hash, Structural)]
pub enum Tool {
    /// Finger or unknown tool.
    Finger,
    /// Virtual pointing device (e.g., mouse cursor).
    Pointer {
        /// The button pressed on the virtual pointer.
        button: PointerButton,
    },
    /// Passive or active stylus.
    Stylus {
        /// Pressure, in grams.
        pressure: Option<u16>,
        /// Tilt angle: 0 degrees is normal to the screen, 90 degrees is
        /// parallel to it.
        tilt: Option<UnitAngle>,
        /// Azimuth angle: 0 degrees points up to the top of the screen in its
        /// default orientation.
        azimuth: Option<UnitAngle>,
    },
}

/// The button state of a virtual pointer device.
#[derive(Debug, Clone, Copy, PartialEq, Eq, Hash, Structural)]
pub enum PointerButton {
    /// No button pressed, e.g., mouse hover state.
    ///
    /// Named `NoButton` rather than `None` so that it never stands in for
    /// `Option::None` in specifications and patterns.
    NoButton,
    /// Primary mouse button, typically left.
    Primary,
    /// Secondary mouse button, typically right.
    Secondary,
    /// Tertiary mouse button, typically middle or wheel.
    Tertiary,
}

impl Touch {
    /// Creates a new touch point.
    pub fn new(id: u8, location: TouchPoint, phase: Phase, tool: Tool) -> (r: Touch)
        ensures
            r == (Touch { id, location, phase, tool }),
    {
        Touch { id, location, phase, tool }
    }
}

/// Whether the phase ends a contact.
pub open spec fn is_terminal(phase: Phase) -> bool {
    phase is Ended || phase is Cancelled
}

/// Whether an id is in contact after an event of the given phase: a contact
/// runs from `Started` through `Moved` to a terminal phase; hovering is not
/// contact.
pub open spec fn in_contact_after_phase(phase: Phase) -> bool {
    phase is Started || phase is Moved
}

/// Whether `id` is in contact after the events: its last event, if any, is
/// `Started` or `Moved`.
pub open spec fn in_contact_after(events: Seq<Touch>, id: u8) -> bool
    decreases events.len(),
{
    if events.len() == 0 {
        false
    } else if events.last().id == id {
        in_contact_after_phase(events.last().phase)
    } else {
        in_contact_after(events.drop_last(), id)
    }
}

/// Whether an event of the phase may come for an id that is (or is not) in
/// contact: `Started` and `Hovering` only outside a contact, `Moved`, `Ended`
/// and `Cancelled` only inside one.
pub open spec fn phase_may_follow(in_contact: bool, phase: Phase) -> bool {
    match phase {
        Phase::Started => !in_contact,
        Phase::Moved => in_contact,
        Phase::Ended => in_contact,
        Phase::Cancelled => in_contact,
        Phase::Hovering(_) => !in_contact,
    }
}

/// Whether every event of the stream is allowed by the contact state of its
/// id that the events before it leave.
pub open spec fn follows_lifecycle_spec(events: Seq<Touch>) -> bool {
    forall|i: int|
        0 <= i < events.len() ==> #[trigger] phase_may_follow(
            in_contact_after(events.take(i), events[i].id),
            events[i].phase,
        )
}

/// Checks that a stream of touch events, in the order reported, follows the
/// contact lifecycle for every id: `Started` begins a contact, `Moved` comes
/// only within one, `Ended` or `Cancelled` closes it, and `Hovering` comes
/// only outside one.
pub fn follows_lifecycle(events: &[Touch]) -> (r: bool)
    ensures
        r == follows_lifecycle_spec(events@),
{
    let mut in_contact: Vec<bool> = Vec::new();
    let mut n: usize = 0;
    while n < 256
        invariant
            n <= 256,
            in_contact@.len() == n,
            forall|j: int| 0 <= j < n ==> !in_contact@[j],
        decreases 256 - n,
    {
        in_contact.push(false);
        n = n + 1;
    }
    let mut i: usize = 0;
    while i < events.len()
        invariant
            i <= events@.len(),
            in_contact@.len() == 256,
            forall|id: u8| #[trigger]
                in_contact@[id as int] == in_contact_after(events@.take(i as int), id),
            forall|j: int|
                0 <= j < i ==> #[trigger] phase_may_follow(
                    in_contact_after(events@.take(j), events@[j].id),
                    events@[j].phase,
                ),
        decreases events@.len() - i,
    {
        let id = events[i].id;
        let phase = events[i].phase;
        let active = in_contact[id as usize];
        let allowed = match phase {
            Phase::Started => !active,
            Phase::Moved => active,
            Phase::Ended => active,
            Phase::Cancelled => active,
            Phase::Hovering(_) => !active,
        };
        if !allowed {
            assert(!phase_may_follow(
                in_contact_after(events@.take(i as int), events@[i as int].id),
                events@[i as int].phase,
            ));
            return false;
        }
        let next = match phase {
            Phase::Started => true,
            Phase::Moved => true,
            _ => false,
        };
        in_contact.set(id as usize, next);
        proof {
            let before = events@.take(i as int);
            let after = events@.take(i as int + 1);
            assert(after.drop_last() =~= before);
            assert(after.last() == events@[i as int]);
            assert forall|other: u8| #[trigger]
                in_contact@[other as int] == in_contact_after(after, other) by {
                if other != id {
                    assert(in_contact_after(after, other) == in_contact_after(before, other));
                }
            }
        }
        i = i + 1;
    }
    assert(events@.take(events@.len() as int) =~= events@);
    true
}

/// Within a stream that follows the lifecycle, a contact that started stays
/// in contact for as long as no terminal event for its id has come.
proof fn lemma_contact_persists(events: Seq<Touch>, start: int, n: int)
    requires
        follows_lifecycle_spec(events),
        0 <= start < n <= events.len(),
        events[start].phase is Started,
        forall|k: int|
            start < k < n && #[trigger] events[k].id == events[start].id ==> !is_terminal(
                events[k].phase,
            ),
    ensures
        in_contact_after(events.take(n), events[start].id),
    decreases n - start,
{
    let id = events[start].id;
    let prefix = events.take(n);
    assert(prefix.drop_last() =~= events.take(n - 1));
    assert(prefix.last() == events[n - 1]);
    if n - 1 > start {
        lemma_contact_persists(events, start, n - 1);
        if events[n - 1].id == id {
            assert(phase_may_follow(
                in_contact_after(events.take(n - 1), events[n - 1].id),
                events[n - 1].phase,
            ));
            assert(!is_terminal(events[n - 1].phase));
        }
    }
}

/// Within a stream that follows the lifecycle, an id that started a contact
/// neither starts again nor hovers before an `Ended` or `Cancelled` event
/// for it.
pub proof fn lemma_no_restart_before_end(events: Seq<Touch>, first: int, second: int)
    requires
        follows_lifecycle_spec(events),
        0 <= first < second < events.len(),
        events[first].id == events[second].id,
        events[first].phase is Started,
        events[second].phase is Started || events[second].phase is Hovering,
    ensures
        exists|k: int|
            first < k < second && #[trigger] events[k].id == events[first].id && is_terminal(
                events[k].phase,
            ),
{
    if !exists|k: int|
        first < k < second && #[trigger] events[k].id == events[first].id && is_terminal(
            events[k].phase,
        ) {
        lemma_contact_persists(events, first, second);
        assert(phase_may_follow(
            in_contact_after(events.take(second), events[second].id),
            events[second].phase,
        ));
    }
}

/// An id in contact after a prefix of a stream that follows the lifecycle
/// has a `Started` event in that prefix with no terminal event for the id
/// after it.
proof fn lemma_contact_has_start(events: Seq<Touch>, id: u8, n: int)
    requires
        follows_lifecycle_spec(events),
        0 <= n <= events.len(),
        in_contact_after(events.take(n), id),
    ensures
        exists|i: int|
            0 <= i < n && #[trigger] events[i].id == id && events[i].phase is Started && forall|
                k: int,
            |
                i < k < n && #[trigger] events[k].id == id ==> !is_terminal(events[k].phase),
    decreases n,
{
    let prefix = events.take(n);
    assert(prefix.drop_last() =~= events.take(n - 1));
    assert(prefix.last() == events[n - 1]);
    if events[n - 1].id == id && events[n - 1].phase is Started {
        assert(events[n - 1].id == id);
    } else {
        if events[n - 1].id == id {
            assert(phase_may_follow(
                in_contact_after(events.take(n - 1), events[n - 1].id),
                events[n - 1].phase,
            ));
        }
        lemma_contact_has_start(events, id, n - 1);
        let i = choose|i: int|
            0 <= i < n - 1 && #[trigger] events[i].id == id && events[i].phase is Started
                && forall|k: int|
                i < k < n - 1 && #[trigger] events[k].id == id ==> !is_terminal(events[k].phase);
        assert(events[i].id == id);
    }
}

/// Within a stream that follows the lifecycle, every `Moved`, `Ended` or
/// `Cancelled` event comes after a `Started` event for its id, with no
/// terminal event for the id in between.
pub proof fn lemma_started_before_contact_events(events: Seq<Touch>, j: int)
    requires
        follows_lifecycle_spec(events),
        0 <= j < events.len(),
        events[j].phase is Moved || events[j].phase is Ended || events[j].phase is Cancelled,
    ensures
        exists|i: int|
            0 <= i < j && #[trigger] events[i].id == events[j].id && events[i].phase is Started
                && forall|k: int|
                i < k < j && #[trigger] events[k].id == events[j].id ==> !is_terminal(
                    events[k].phase,
                ),
{
    assert(phase_may_follow(in_contact_after(events.take(j), events[j].id), events[j].phase));
    lemma_contact_has_start(events, events[j].id, j);
}

} // verus!
