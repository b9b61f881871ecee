//! The decisions of the playback loop between frames: quitting, pausing
//! and resuming, stopping when the requested duration has passed, and
//! whether a frame is drawn. Times are nanoseconds since playback started.

use vstd::prelude::*;

verus! {

/// What the playback loop remembers between iterations.
#[derive(Clone, Copy, Debug, Eq, PartialEq, Structural)]
pub struct PlaybackState {
    /// When the current pause started, if paused.
    pub paused_at: Option<u64>,
    /// Time spent in finished pauses.
    pub total_paused: u64,
    /// The animation time shown while paused.
    pub frozen_elapsed: u64,
    /// A frame must be drawn even while paused.
    pub needs_redraw: bool,
}

/// What the loop does next.
#[derive(Clone, Copy, Debug, Eq, PartialEq, Structural)]
pub enum PlaybackAction {
    /// Leave the loop.
    Stop,
    /// Paused with nothing to redraw: wait a moment.
    Wait,
    /// Draw the frame for animation time `elapsed`; `resumed` when a pause
    /// just ended, so the frame schedule is recomputed.
    Render { elapsed: u64, resumed: bool },
}

/// What happened since the last iteration.
#[derive(Clone, Copy, Debug, Eq, PartialEq, Structural)]
pub struct PlaybackEvents {
    /// A quit key was pressed.
    pub exit: bool,
    /// The screen changed size.
    pub resized: bool,
    /// The pause key was pressed.
    pub toggle_pause: bool,
}

impl PlaybackState {
    /// Playing from the start, with a first frame to draw.
    pub fn new() -> (s: Self)
        ensures
            s == (PlaybackState { paused_at: None, total_paused: 0, frozen_elapsed: 0, needs_redraw: true }),
    {
        PlaybackState { paused_at: None, total_paused: 0, frozen_elapsed: 0, needs_redraw: true }
    }
}

pub open spec fn sat_sub(a: u64, b: u64) -> u64 {
    if a >= b { (a - b) as u64 } else { 0 }
}

pub open spec fn sat_add(a: u64, b: u64) -> u64 {
    if a + b > u64::MAX { u64::MAX } else { (a + b) as u64 }
}

/// The animation time at `now`: the time since the start less the time
/// spent paused, or the frozen time while paused.
pub open spec fn spec_playback_elapsed(s: PlaybackState, now: u64) -> u64 {
    if s.paused_at is Some { s.frozen_elapsed } else { sat_sub(now, s.total_paused) }
}

pub fn playback_elapsed(s: &PlaybackState, now: u64) -> (r: u64)
    ensures
        r == spec_playback_elapsed(*s, now),
{
    match s.paused_at {
        Some(_) => s.frozen_elapsed,
        None => now.saturating_sub(s.total_paused),
    }
}

/// The state after the pause key at `now`: a pause ends (its length is
/// added to the paused time and a frame is due), or one starts (freezing
/// the animation time).
pub open spec fn spec_toggled(s: PlaybackState, now: u64) -> PlaybackState {
    match s.paused_at {
        Some(p) => PlaybackState {
            paused_at: None,
            total_paused: sat_add(s.total_paused, sat_sub(now, p)),
            needs_redraw: true,
            ..s
        },
        None => PlaybackState { paused_at: Some(now), frozen_elapsed: sat_sub(now, s.total_paused), ..s },
    }
}

/// One iteration's decision at `now` after `events`, with the optional
/// duration limit: quit stops at once; a resize asks for a frame; the pause
/// key toggles; past the limit playback stops; paused with nothing to
/// redraw it waits; otherwise a frame is drawn and nothing more is due.
pub open spec fn spec_playback_step(
    s: PlaybackState,
    now: u64,
    events: PlaybackEvents,
    duration: Option<u64>,
) -> (PlaybackState, PlaybackAction) {
    if events.exit {
        (s, PlaybackAction::Stop)
    } else {
        let marked = PlaybackState { needs_redraw: s.needs_redraw || events.resized, ..s };
        let t = if events.toggle_pause { spec_toggled(marked, now) } else { marked };
        let resumed = events.toggle_pause && s.paused_at is Some;
        let elapsed = spec_playback_elapsed(t, now);
        if duration matches Some(d) && elapsed >= d {
            (t, PlaybackAction::Stop)
        } else if t.paused_at is Some && !t.needs_redraw {
            (t, PlaybackAction::Wait)
        } else {
            (PlaybackState { needs_redraw: false, ..t }, PlaybackAction::Render { elapsed, resumed })
        }
    }
}

pub fn playback_step(s: &mut PlaybackState, now: u64, events: PlaybackEvents, duration: Option<u64>) -> (a: PlaybackAction)
    ensures
        (*final(s), a) == spec_playback_step(*old(s), now, events, duration),
{
    if events.exit {
        return PlaybackAction::Stop;
    }
    let was_paused = s.paused_at.is_some();
    s.needs_redraw = s.needs_redraw || events.resized;
    if events.toggle_pause {
        match s.paused_at {
            Some(p) => {
                s.total_paused = s.total_paused.saturating_add(now.saturating_sub(p));
                s.paused_at = None;
                s.needs_redraw = true;
            },
            None => {
                s.frozen_elapsed = now.saturating_sub(s.total_paused);
                s.paused_at = Some(now);
            },
        }
    }
    let elapsed = playback_elapsed(s, now);
    if let Some(d) = duration {
        if elapsed >= d {
            return PlaybackAction::Stop;
        }
    }
    if s.paused_at.is_some() && !s.needs_redraw {
        return PlaybackAction::Wait;
    }
    s.needs_redraw = false;
    PlaybackAction::Render { elapsed, resumed: events.toggle_pause && was_paused }
}

/// While paused the animation time stands still: a step that neither
/// quits nor toggles leaves the shown time unchanged.
pub proof fn lemma_paused_time_stands_still(s: PlaybackState, now: u64, later: u64, events: PlaybackEvents, duration: Option<u64>)
    requires
        s.paused_at is Some,
        !events.toggle_pause,
        !events.exit,
    ensures
        spec_playback_elapsed(spec_playback_step(s, now, events, duration).0, later) == s.frozen_elapsed,
        spec_playback_step(s, now, events, duration).1 matches PlaybackAction::Render { elapsed, .. } ==> elapsed == s.frozen_elapsed,
{
}

} // verus!
