//! The part of a parsed beatmap that a playfield is drawn from: its game
//! mode, its key count and its note events.

use vstd::prelude::*;

verus! {

/// The game mode of a beatmap. Only [`GameMode::Mania`] has a layout.
#[derive(Clone, Copy, Debug, PartialEq, Eq)]
pub enum GameMode {
    Osu,
    Taiko,
    Catch,
    Mania,
}

/// One note of a beatmap. Times are in milliseconds from the start of the
/// track; `x` is the raw horizontal coordinate, from which the lane follows
/// once the number of lanes is known.
#[derive(Clone, Copy, Debug, PartialEq, Eq)]
pub enum NoteEvent {
    /// A note that is hit at `time`.
    Tap { x: i32, time: i64 },
    /// A note that is held from `time` on for `duration`.
    Hold { x: i32, time: i64, duration: i64 },
}

impl NoteEvent {
    /// The raw horizontal coordinate.
    pub open spec fn coord(self) -> int {
        match self {
            NoteEvent::Tap { x, .. } => x as int,
            NoteEvent::Hold { x, .. } => x as int,
        }
    }

    /// The time at which the note is triggered.
    pub open spec fn start(self) -> int {
        match self {
            NoteEvent::Tap { time, .. } => time as int,
            NoteEvent::Hold { time, .. } => time as int,
        }
    }

    /// The time at which the note is over: a tap at once, a hold after its
    /// duration.
    pub open spec fn end(self) -> int {
        match self {
            NoteEvent::Tap { time, .. } => time as int,
            NoteEvent::Hold { time, duration, .. } => time + duration,
        }
    }

    /// Computes [`NoteEvent::coord`].
    pub fn x(&self) -> (x: i32)
        ensures
            x == self.coord(),
    {
        match self {
            NoteEvent::Tap { x, .. } => *x,
            NoteEvent::Hold { x, .. } => *x,
        }
    }

    /// Computes [`NoteEvent::start`].
    pub fn time(&self) -> (time: i64)
        ensures
            time == self.start(),
    {
        match self {
            NoteEvent::Tap { time, .. } => *time,
            NoteEvent::Hold { time, .. } => *time,
        }
    }

    /// Computes [`NoteEvent::end`].
    pub fn end_time(&self) -> (end: i128)
        ensures
            end == self.end(),
    {
        match self {
            NoteEvent::Tap { time, .. } => *time as i128,
            NoteEvent::Hold { time, duration, .. } => *time as i128 + *duration as i128,
        }
    }
}

/// A beatmap as far as a layout reads it.
#[derive(Debug, PartialEq, Eq)]
pub struct Beatmap {
    pub mode: GameMode,
    /// The number of keys, which is the number of lanes of the playfield.
    pub key_count: usize,
    pub events: Vec<NoteEvent>,
}

impl Clone for Beatmap {
    fn clone(&self) -> (copy: Self)
        ensures
            copy.mode == self.mode,
            copy.key_count == self.key_count,
            copy.events@ == self.events@,
    {
        Beatmap { mode: self.mode, key_count: self.key_count, events: self.events.clone() }
    }
}

/// Whether `duration` is the length of a track with these events: the
/// latest end of any event, and zero where there is no event or all of them
/// end before the track starts.
pub open spec fn is_track_duration(events: Seq<NoteEvent>, duration: int) -> bool {
    &&& duration >= 0
    &&& forall|i: int| 0 <= i < events.len() ==> (#[trigger] events[i]).end() <= duration
    &&& duration == 0 || exists|i: int| 0 <= i < events.len() && (#[trigger] events[i]).end() == duration
}

/// Scans the events for the length of the track.
pub fn track_duration(events: &[NoteEvent]) -> (duration: i128)
    ensures
        is_track_duration(events@, duration as int),
{
    let mut duration: i128 = 0;
    let mut i: usize = 0;
    while i < events.len()
        invariant
            i <= events.len(),
            is_track_duration(events@.take(i as int), duration as int),
            duration <= 0x1_0000_0000_0000_0000,
        decreases events.len() - i,
    {
        let end: i128 = events[i].end_time();
        let ghost before = events@.take(i as int);
        let ghost after = events@.take(i + 1);
        proof {
            assert(forall|j: int| 0 <= j < i ==> after[j] == before[j]);
            assert(after[i as int] == events@[i as int]);
        }
        if end > duration {
            duration = end;
        } else {
            proof {
                if duration != 0 {
                    let k = choose|k: int| 0 <= k < before.len() && (#[trigger] before[k]).end() == duration;
                    assert(after[k].end() == duration);
                }
            }
        }
        i += 1;
    }
    proof {
        assert(events@.take(i as int) =~= events@);
    }
    duration
}

impl Beatmap {
    /// The length of the track.
    pub fn duration(&self) -> (duration: i128)
        ensures
            is_track_duration(self.events@, duration as int),
    {
        track_duration(self.events.as_slice())
    }
}

/// A track has one length only.
pub proof fn lemma_track_duration_is_unique(events: Seq<NoteEvent>, a: int, b: int)
    requires
        is_track_duration(events, a),
        is_track_duration(events, b),
    ensures
        a == b,
{
}

} // verus!
