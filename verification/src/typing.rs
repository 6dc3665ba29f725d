//! The typing detector: a two-state machine that turns keystroke signals and
//! periodic monitor ticks into one typing event per burst.
//!
//! Time is a count of whole seconds on a monotonic clock. The caller owns the
//! session value and guards it with one lock around each call, so every
//! transition below is a single read-modify-write.

use vstd::prelude::*;
use crate::event::Event;

verus! {

/// A burst is reported once more than this many seconds have passed since its
/// first keystroke.
pub const IDLE_THRESHOLD_SECS: u64 = 3;

/// The period, in seconds, on which the monitor calls [`track_typing`].
pub const MONITOR_PERIOD_SECS: u64 = 1;

/// The state of one detector: idle, or inside a burst that began at
/// `started_at`.
#[derive(Clone, Copy, Debug, PartialEq, Eq, Structural)]
pub enum TypingSession {
    Idle,
    Typing { started_at: u64 },
}

/// Whole seconds from `started_at` to `now`; zero where the clock reads
/// earlier than the start.
pub open spec fn elapsed_secs(started_at: u64, now: u64) -> nat {
    if now >= started_at {
        (now - started_at) as nat
    } else {
        0
    }
}

/// The duration reported for `elapsed` seconds: the same number, held to the
/// largest value the duration field can carry.
pub open spec fn reported_duration(elapsed: nat) -> i64 {
    if elapsed > i64::MAX as nat {
        i64::MAX
    } else {
        elapsed as i64
    }
}

impl TypingSession {
    /// The session after a keystroke at `now`: a burst starts from idle, and a
    /// running burst keeps its start.
    pub open spec fn after_keystroke(self, now: u64) -> TypingSession {
        match self {
            TypingSession::Idle => TypingSession::Typing { started_at: now },
            TypingSession::Typing { started_at } => self,
        }
    }

    /// The duration that a monitor tick at `now` reports, if it reports one.
    pub open spec fn emits_at(self, now: u64) -> Option<i64> {
        match self {
            TypingSession::Idle => None,
            TypingSession::Typing { started_at } => {
                if elapsed_secs(started_at, now) > IDLE_THRESHOLD_SECS {
                    Some(reported_duration(elapsed_secs(started_at, now)))
                } else {
                    None
                }
            },
        }
    }

    /// The session after a monitor tick at `now`: idle once the burst has been
    /// reported, unchanged otherwise.
    pub open spec fn after_tick(self, now: u64) -> TypingSession {
        if self.emits_at(now) is Some {
            TypingSession::Idle
        } else {
            self
        }
    }

    /// A detector with no burst in progress.
    pub fn new() -> (session: TypingSession)
        ensures
            session == TypingSession::Idle,
    {
        TypingSession::Idle
    }
}

/// Whether `event` is the typing event for the given detector identity and
/// duration.
pub open spec fn is_typing_event(
    event: Event,
    file: &str,
    language: &str,
    project: &str,
    editor: &str,
    duration: i64,
) -> bool {
    &&& event.file@ == file@
    &&& event.activity@ == "typing"@
    &&& event.language@ == language@
    &&& event.project@ == project@
    &&& event.editor@ == editor@
    &&& event.metadata matches Some(text) && text@ == "User was actively typing"@
    &&& event.duration == Some(duration)
}

/// Records a keystroke observed at `now`.
pub fn start_typing(session: &mut TypingSession, now: u64)
    ensures
        *final(session) == old(session).after_keystroke(now),
{
    match *session {
        TypingSession::Idle => {
            *session = TypingSession::Typing { started_at: now };
        },
        TypingSession::Typing { .. } => {},
    }
}

/// One monitor tick at `now` for the detector of `(file, language, project,
/// editor)`: reports the burst as a typing event once it is older than the
/// idle threshold, and returns the session to idle.
pub fn track_typing<'a>(
    session: &mut TypingSession,
    file: &'a str,
    language: &'a str,
    project: &'a str,
    editor: &'a str,
    now: u64,
) -> (emitted: Option<Event<'a>>)
    ensures
        *final(session) == old(session).after_tick(now),
        match old(session).emits_at(now) {
            Some(duration) => emitted matches Some(event) && is_typing_event(
                event,
                file,
                language,
                project,
                editor,
                duration,
            ),
            None => emitted is None,
        },
{
    match *session {
        TypingSession::Idle => None,
        TypingSession::Typing { started_at } => {
            let elapsed: u64 = if now >= started_at {
                now - started_at
            } else {
                0
            };
            if elapsed > IDLE_THRESHOLD_SECS {
                let duration: i64 = if elapsed > i64::MAX as u64 {
                    i64::MAX
                } else {
                    elapsed as i64
                };
                *session = TypingSession::Idle;
                Some(
                    Event {
                        file,
                        activity: "typing",
                        language,
                        project,
                        editor,
                        metadata: Some("User was actively typing"),
                        duration: Some(duration),
                    },
                )
            } else {
                None
            }
        },
    }
}

/// One input of a detector: a keystroke or a monitor tick, with the time at
/// which it takes the session's lock.
pub ghost enum Signal {
    Keystroke { at: u64 },
    Tick { at: u64 },
}

impl Signal {
    /// The time of the signal.
    pub open spec fn at(self) -> u64 {
        match self {
            Signal::Keystroke { at } => at,
            Signal::Tick { at } => at,
        }
    }
}

/// The session after `signal`.
pub open spec fn after_signal(session: TypingSession, signal: Signal) -> TypingSession {
    match signal {
        Signal::Keystroke { at } => session.after_keystroke(at),
        Signal::Tick { at } => session.after_tick(at),
    }
}

/// The duration that `signal` makes the detector report, if any: only a tick
/// reports.
pub open spec fn emitted_on(session: TypingSession, signal: Signal) -> Option<i64> {
    match signal {
        Signal::Keystroke { at } => None,
        Signal::Tick { at } => session.emits_at(at),
    }
}

/// The durations of the typing events that the detector reports while it takes
/// `signals` one after another, in order.
pub open spec fn signals_emitted(session: TypingSession, signals: Seq<Signal>) -> Seq<i64>
    decreases signals.len(),
{
    if signals.len() == 0 {
        Seq::empty()
    } else {
        let rest = signals_emitted(after_signal(session, signals[0]), signals.drop_first());
        match emitted_on(session, signals[0]) {
            Some(duration) => seq![duration] + rest,
            None => rest,
        }
    }
}

/// Every signal of `signals` is a monitor tick.
pub open spec fn only_ticks(signals: Seq<Signal>) -> bool {
    forall|i: int| 0 <= i < signals.len() ==> signals[i] is Tick
}

/// No signal of `signals` comes later than the idle threshold after `start`.
pub open spec fn within_burst(start: u64, signals: Seq<Signal>) -> bool {
    forall|i: int| 0 <= i < signals.len() ==> (#[trigger] signals[i]).at() <= start
        + IDLE_THRESHOLD_SECS
}

/// An idle detector stays silent: whatever the tick times, no event is
/// reported while no keystroke arrives.
pub proof fn lemma_idle_ticks_are_silent(ticks: Seq<Signal>)
    requires
        only_ticks(ticks),
    ensures
        signals_emitted(TypingSession::Idle, ticks) == Seq::<i64>::empty(),
    decreases ticks.len(),
{
    if ticks.len() > 0 {
        assert(ticks[0] is Tick);
        lemma_idle_ticks_are_silent(ticks.drop_first());
    }
}

/// No duplicate emission: once a tick at `now` has reported a burst, later
/// ticks report nothing further, however many there are, until a keystroke
/// starts a new burst.
pub proof fn lemma_no_duplicate_emission(session: TypingSession, now: u64, later: Seq<Signal>)
    requires
        session.emits_at(now) is Some,
        only_ticks(later),
    ensures
        session.after_tick(now) == TypingSession::Idle,
        signals_emitted(session.after_tick(now), later) == Seq::<i64>::empty(),
{
    lemma_idle_ticks_are_silent(later);
}

/// Inside a burst the detector is quiet: keystrokes do not refresh the start,
/// and ticks up to the idle threshold report nothing, so what follows is
/// reported as if the burst had just begun.
pub proof fn lemma_burst_is_quiet(start: u64, burst: Seq<Signal>, rest: Seq<Signal>)
    requires
        within_burst(start, burst),
    ensures
        signals_emitted(TypingSession::Typing { started_at: start }, burst + rest)
            == signals_emitted(TypingSession::Typing { started_at: start }, rest),
    decreases burst.len(),
{
    let session = TypingSession::Typing { started_at: start };
    if burst.len() == 0 {
        assert(burst + rest =~= rest);
    } else {
        let all = burst + rest;
        assert(all[0] == burst[0]);
        assert(burst[0].at() <= start + IDLE_THRESHOLD_SECS);
        assert(all.drop_first() =~= burst.drop_first() + rest);
        assert(after_signal(session, burst[0]) == session);
        assert(emitted_on(session, burst[0]) is None);
        assert(within_burst(start, burst.drop_first())) by {
            assert forall|i: int| 0 <= i < burst.drop_first().len() implies (
            #[trigger] burst.drop_first()[i]).at() <= start + IDLE_THRESHOLD_SECS by {
                assert(burst.drop_first()[i] == burst[i + 1]);
            }
        }
        lemma_burst_is_quiet(start, burst.drop_first(), rest);
    }
}

/// Debounce: a keystroke at `start` from idle, then any keystrokes and ticks
/// up to the idle threshold, then silence watched by ticks, the first of them
/// at `idle_tick`, make the detector report exactly one typing event. Its
/// duration runs from the first keystroke to that tick; with a tick every
/// second that is four seconds.
pub proof fn lemma_burst_reported_once(
    start: u64,
    burst: Seq<Signal>,
    idle_tick: u64,
    later: Seq<Signal>,
)
    requires
        within_burst(start, burst),
        idle_tick > start + IDLE_THRESHOLD_SECS,
        only_ticks(later),
    ensures
        signals_emitted(
            TypingSession::Idle,
            seq![Signal::Keystroke { at: start }] + burst + seq![Signal::Tick { at: idle_tick }]
                + later,
        ) == seq![reported_duration((idle_tick - start) as nat)],
        idle_tick == start + IDLE_THRESHOLD_SECS + MONITOR_PERIOD_SECS ==> reported_duration(
            (idle_tick - start) as nat,
        ) == 4,
{
    let session = TypingSession::Typing { started_at: start };
    let first = Signal::Keystroke { at: start };
    let tail = seq![Signal::Tick { at: idle_tick }] + later;
    let all = seq![first] + burst + seq![Signal::Tick { at: idle_tick }] + later;
    let duration = reported_duration((idle_tick - start) as nat);
    assert(all[0] == first);
    assert(all.drop_first() =~= burst + tail);
    assert(after_signal(TypingSession::Idle, first) == session);
    lemma_burst_is_quiet(start, burst, tail);
    assert(tail[0] == Signal::Tick { at: idle_tick });
    assert(tail.drop_first() =~= later);
    assert(emitted_on(session, tail[0]) == Some(duration));
    lemma_no_duplicate_emission(session, idle_tick, later);
    assert(seq![duration] + Seq::<i64>::empty() =~= seq![duration]);
}

} // verus!
