//! Draws the playfield of a rhythm game from a beatmap and a playback
//! clock.
//!
//! A [`Player`] owns a beatmap, the layout for its game mode and a clock.
//! Each frame it reads the clock, projects every note from its time in the
//! track to a height on the screen, and appends the drawing primitives of
//! the frame to a list that the host paints.

pub mod beatmap;
pub mod clock;
pub mod draw;
pub mod layout;
pub mod math;

use vstd::prelude::*;
use crate::beatmap::{is_track_duration, Beatmap, GameMode, NoteEvent};
use crate::clock::{PlaybackClock, DEFAULT_SCROLL_TIME_MS};
use crate::draw::{appended, DrawCommand, Position, Shape};
use crate::layout::mania::{is_default_style, Frame, ManiaRenderer, NoteStyle};
use crate::layout::projection::NORMAL_SPEED;

verus! {

/// The layout of a player, by game mode.
enum GameModeRenderer {
    Mania(ManiaRenderer),
}

impl GameModeRenderer {
    /// The lane-based layout.
    spec fn mania(&self) -> ManiaRenderer {
        match *self {
            GameModeRenderer::Mania(mania) => mania,
        }
    }

    /// Replaces the active style of the layout.
    fn set_note_style(&mut self, style: NoteStyle)
        ensures
            final(self).mania().note_style() == style,
            final(self).mania().column_width() == old(self).mania().column_width(),
            final(self).mania().note_size() == old(self).mania().note_size(),
            final(self).mania().height() == old(self).mania().height(),
            final(self).mania().speed() == old(self).mania().speed(),
    {
        match self {
            GameModeRenderer::Mania(mania) => {
                mania.set_note_style(style);
            },
        }
    }

    /// Sets the sizes of the layout.
    fn set_sizes(&mut self, column_width: u32, note_size: u32, height: u32)
        ensures
            final(self).mania().column_width() == column_width,
            final(self).mania().note_size() == note_size,
            final(self).mania().height() == height,
            final(self).mania().speed() == old(self).mania().speed(),
            final(self).mania().note_style() == old(self).mania().note_style(),
    {
        match self {
            GameModeRenderer::Mania(mania) => {
                mania.set_column_width(column_width);
                mania.set_note_size(note_size);
                mania.set_height(height);
            },
        }
    }

    /// Draws one frame with the layout.
    fn render_at(&mut self, canvas: &mut Vec<DrawCommand>, events: &[NoteEvent], frame: Frame)
        requires
            frame.speed > 0,
            frame.scroll_time_ms > 0,
            events@.len() > 0 ==> frame.keycount > 0,
        ensures
            final(self).mania().same_but_speed(&old(self).mania()),
            final(self).mania().speed() == frame.speed,
            appended(old(canvas)@, final(canvas)@, old(self).mania().frame_shapes(frame, events@)),
    {
        match self {
            GameModeRenderer::Mania(mania) => {
                mania.render_at(
                    canvas,
                    events,
                    frame.current_time,
                    frame.scroll_time_ms,
                    frame.speed,
                    frame.keycount,
                    frame.position,
                );
            },
        }
    }
}

/// Plays a beatmap: keeps its clock and draws its frames.
pub struct Player {
    beatmap: Beatmap,
    renderer: GameModeRenderer,
    clock: PlaybackClock,
}

impl Player {
    /// The beatmap that is played.
    pub closed spec fn beatmap(&self) -> Beatmap {
        self.beatmap
    }

    /// The layout that draws the frames.
    pub closed spec fn mania(&self) -> ManiaRenderer {
        self.renderer.mania()
    }

    /// The playback clock.
    pub closed spec fn clock(&self) -> PlaybackClock {
        self.clock
    }

    /// The events that are drawn: all of the beatmap, and none where the
    /// beatmap has no key and so the playfield no lane to put them into.
    pub open spec fn drawn_events(&self) -> Seq<NoteEvent> {
        if self.beatmap().key_count == 0 {
            Seq::empty()
        } else {
            self.beatmap().events@
        }
    }

    /// What a frame is drawn for when the track is at `current_time`.
    pub open spec fn frame(&self, current_time: i64, position: Position) -> Frame {
        Frame {
            current_time,
            scroll_time_ms: self.clock().scroll_time(),
            speed: self.clock().speed(),
            keycount: self.beatmap().key_count,
            position,
        }
    }

    /// The frame when the track is at `current_time`.
    pub open spec fn frame_shapes(&self, current_time: i64, position: Position) -> Seq<Shape> {
        self.mania().frame_shapes(self.frame(current_time, position), self.drawn_events())
    }

    /// Whether `self` is `before` but for the speed that its layout has
    /// recorded.
    pub open spec fn same_after_frame(&self, before: &Self) -> bool {
        &&& self.beatmap() == before.beatmap()
        &&& self.clock() == before.clock()
        &&& self.mania().same_but_speed(&before.mania())
    }

    /// A player for `beatmap`, at normal speed, with the track starting
    /// now. Only the mania mode has a layout: for a beatmap of another mode
    /// there is no player.
    pub fn new(beatmap: Beatmap, column_width: u32, note_size: u32, height: u32) -> (player: Option<
        Self,
    >)
        ensures
            player is Some <==> beatmap.mode == GameMode::Mania,
            player matches Some(p) ==> {
                &&& p.beatmap() == beatmap
                &&& p.mania().column_width() == column_width
                &&& p.mania().note_size() == note_size
                &&& p.mania().height() == height
                &&& p.mania().speed() == NORMAL_SPEED
                &&& is_default_style(p.mania().note_style())
                &&& p.clock().speed() == NORMAL_SPEED
                &&& p.clock().reference() == 0
                &&& p.clock().scroll_time() == DEFAULT_SCROLL_TIME_MS
            },
    {
        let renderer = match beatmap.mode {
            GameMode::Mania => GameModeRenderer::Mania(
                ManiaRenderer::with_sizes(column_width, note_size, height),
            ),
            _ => {
                return None;
            },
        };
        Some(
            Player {
                beatmap,
                renderer,
                clock: PlaybackClock::new(),
            },
        )
    }

    /// Replaces the active style; the next frame is drawn with `style`.
    pub fn set_note_style(&mut self, style: NoteStyle)
        ensures
            final(self).mania().note_style() == style,
            final(self).mania().column_width() == old(self).mania().column_width(),
            final(self).mania().note_size() == old(self).mania().note_size(),
            final(self).mania().height() == old(self).mania().height(),
            final(self).mania().speed() == old(self).mania().speed(),
            final(self).beatmap() == old(self).beatmap(),
            final(self).clock() == old(self).clock(),
    {
        self.renderer.set_note_style(style);
    }

    /// Sets the width of a lane, the note size and the height of the
    /// playfield; the next frame is drawn with them.
    pub fn set_sizes(&mut self, column_width: u32, note_size: u32, height: u32)
        ensures
            final(self).mania().column_width() == column_width,
            final(self).mania().note_size() == note_size,
            final(self).mania().height() == height,
            final(self).mania().speed() == old(self).mania().speed(),
            final(self).mania().note_style() == old(self).mania().note_style(),
            final(self).beatmap() == old(self).beatmap(),
            final(self).clock() == old(self).clock(),
    {
        self.renderer.set_sizes(column_width, note_size, height);
    }

    /// The active style.
    pub fn style(&self) -> (style: &NoteStyle)
        ensures
            *style == self.mania().note_style(),
    {
        match &self.renderer {
            GameModeRenderer::Mania(mania) => mania.style(),
        }
    }

    /// The size of the playfield: its width, one lane for each key of the
    /// beatmap, and its height.
    pub fn get_required_size(&self) -> (size: [i128; 2])
        ensures
            size[0] == self.mania().column_width() * self.beatmap().key_count,
            size[1] == self.mania().height(),
    {
        match &self.renderer {
            GameModeRenderer::Mania(mania) => {
                let keycount: usize = self.beatmap.key_count;
                [mania.required_width(keycount), mania.required_height()]
            },
        }
    }

    /// The playback speed, in thousandths. It is never zero.
    pub fn get_speed(&self) -> (speed: u32)
        ensures
            speed == self.clock().speed(),
            speed > 0,
    {
        self.clock.get_speed()
    }

    /// The scroll window, in milliseconds. It is never zero.
    pub fn get_scroll_time(&self) -> (ms: u32)
        ensures
            ms == self.clock().scroll_time(),
            ms > 0,
    {
        self.clock.get_scroll_time()
    }

    /// Sets the playback speed, in thousandths. A speed of zero is refused:
    /// the player stays as it was.
    pub fn set_speed(&mut self, speed: u32)
        ensures
            final(self).clock().speed() == (if speed > 0 { speed } else { old(self).clock().speed() }),
            final(self).clock().speed() > 0,
            final(self).clock().reference() == old(self).clock().reference(),
            final(self).clock().scroll_time() == old(self).clock().scroll_time(),
            final(self).clock().epoch() == old(self).clock().epoch(),
            final(self).beatmap() == old(self).beatmap(),
            final(self).mania() == old(self).mania(),
    {
        self.clock.set_speed(speed);
    }

    /// Sets the scroll window, in milliseconds. A window of zero is
    /// refused: the player stays as it was.
    pub fn set_scroll_time(&mut self, ms: u32)
        ensures
            final(self).clock().scroll_time() == (if ms > 0 {
                ms
            } else {
                old(self).clock().scroll_time()
            }),
            final(self).clock().scroll_time() > 0,
            final(self).clock().reference() == old(self).clock().reference(),
            final(self).clock().speed() == old(self).clock().speed(),
            final(self).clock().epoch() == old(self).clock().epoch(),
            final(self).beatmap() == old(self).beatmap(),
            final(self).mania() == old(self).mania(),
    {
        self.clock.set_scroll_time(ms);
    }

    /// The frame that is drawn when the monotonic clock of the player reads
    /// `now`.
    pub open spec fn frame_shapes_when(&self, now: u64, position: Position) -> Seq<Shape> {
        self.frame_shapes(self.clock().time_at(now as int) as i64, position)
    }

    /// Draws the frame for the time `current_time` in the track, with the
    /// top left corner of the playfield at `position`.
    pub fn render_frame(
        &mut self,
        canvas: &mut Vec<DrawCommand>,
        position: Position,
        current_time: i64,
    )
        ensures
            final(self).same_after_frame(old(self)),
            final(self).mania().speed() == old(self).clock().speed(),
            appended(old(canvas)@, final(canvas)@, old(self).frame_shapes(current_time, position)),
    {
        let frame = Frame {
            current_time,
            scroll_time_ms: self.clock.get_scroll_time(),
            speed: self.clock.get_speed(),
            keycount: self.beatmap.key_count,
            position,
        };
        if frame.keycount == 0 {
            let none: Vec<NoteEvent> = Vec::new();
            self.renderer.render_at(canvas, none.as_slice(), frame);
        } else {
            self.renderer.render_at(canvas, self.beatmap.events.as_slice(), frame);
        }
    }

    /// Draws the frame for the present time, with the top left corner of
    /// the playfield at `position`.
    pub fn render_at(&mut self, canvas: &mut Vec<DrawCommand>, position: Position)
        ensures
            final(self).same_after_frame(old(self)),
            final(self).mania().speed() == old(self).clock().speed(),
            exists|now: u64|
                appended(
                    old(canvas)@,
                    final(canvas)@,
                    #[trigger] old(self).frame_shapes_when(now, position),
                ),
    {
        let now: u64 = self.clock.now();
        let current_time: i64 = self.clock.current_time_at(now);
        self.render_frame(canvas, position, current_time);
        assert(appended(old(canvas)@, canvas@, old(self).frame_shapes_when(now, position)));
    }

    /// Draws the frame for the present time, with the top left corner of
    /// the playfield at the origin of the drawing surface.
    pub fn render(&mut self, canvas: &mut Vec<DrawCommand>)
        ensures
            final(self).same_after_frame(old(self)),
            final(self).mania().speed() == old(self).clock().speed(),
            exists|now: u64|
                appended(
                    old(canvas)@,
                    final(canvas)@,
                    #[trigger] old(self).frame_shapes_when(now, Position { x: 0, y: 0 }),
                ),
    {
        self.render_at(canvas, Position { x: 0, y: 0 })
    }

    /// The length of the track of the beatmap that is played.
    pub fn track_duration(&self) -> (duration: i128)
        ensures
            is_track_duration(self.beatmap().events@, duration as int),
    {
        self.beatmap.duration()
    }

    /// Plays `beatmap` in place of the present one, when the monotonic
    /// clock reads `now`. With `restart` the track starts over; without, the
    /// clock is left alone and the new beatmap is entered at the time that
    /// the old one was at. A beatmap of a mode other than mania is refused:
    /// the player stays as it was.
    pub fn set_beatmap_at(&mut self, beatmap: Beatmap, restart: bool, now: u64) -> (accepted: bool)
        ensures
            accepted == (beatmap.mode == GameMode::Mania),
            final(self).mania() == old(self).mania(),
            final(self).beatmap() == (if accepted { beatmap } else { old(self).beatmap() }),
            accepted && restart ==> final(self).clock().sought(&old(self).clock(), now as int, 0),
            !(accepted && restart) ==> final(self).clock() == old(self).clock(),
    {
        match beatmap.mode {
            GameMode::Mania => {
                self.beatmap = beatmap;
                if restart {
                    self.clock.reset_at(now);
                }
                true
            },
            _ => false,
        }
    }

    /// Plays `beatmap` in place of the present one, from now on.
    pub fn set_beatmap(&mut self, beatmap: Beatmap, restart: bool) -> (accepted: bool)
        ensures
            accepted == (beatmap.mode == GameMode::Mania),
            final(self).mania() == old(self).mania(),
            final(self).beatmap() == (if accepted { beatmap } else { old(self).beatmap() }),
            accepted && restart ==> exists|now: u64| #[trigger]
                final(self).clock().sought(&old(self).clock(), now as int, 0),
            !(accepted && restart) ==> final(self).clock() == old(self).clock(),
    {
        let now: u64 = self.clock.now();
        self.set_beatmap_at(beatmap, restart, now)
    }

    /// Reads the monotonic clock of the player: microseconds since the
    /// player was made.
    pub fn now(&self) -> (now: u64) {
        self.clock.now()
    }

    /// Restarts the track when the monotonic clock reads `now`.
    pub fn reset_time_at(&mut self, now: u64)
        ensures
            final(self).clock().sought(&old(self).clock(), now as int, 0),
            final(self).clock().time_at(now as int) == 0,
            final(self).beatmap() == old(self).beatmap(),
            final(self).mania() == old(self).mania(),
    {
        self.clock.reset_at(now);
    }

    /// Restarts the track now.
    pub fn reset_time(&mut self)
        ensures
            exists|now: u64| #[trigger]
                final(self).clock().sought(&old(self).clock(), now as int, 0),
            final(self).beatmap() == old(self).beatmap(),
            final(self).mania() == old(self).mania(),
    {
        let now: u64 = self.clock.now();
        self.clock.reset_at(now);
        assert(self.clock().sought(&old(self).clock(), now as int, 0));
    }

    /// Seeks to `time_ms` when the monotonic clock reads `now`. A reading
    /// at `now` gives `time_ms` back.
    pub fn set_current_time_at(&mut self, now: u64, time_ms: i64)
        ensures
            final(self).clock().sought(&old(self).clock(), now as int, time_ms as int),
            final(self).clock().time_at(now as int) == time_ms,
            final(self).beatmap() == old(self).beatmap(),
            final(self).mania() == old(self).mania(),
    {
        self.clock.set_time_at(now, time_ms);
    }

    /// Seeks to `time_ms` now.
    pub fn set_current_time(&mut self, time_ms: i64)
        ensures
            exists|now: u64| #[trigger]
                final(self).clock().sought(&old(self).clock(), now as int, time_ms as int),
            final(self).beatmap() == old(self).beatmap(),
            final(self).mania() == old(self).mania(),
    {
        let now: u64 = self.clock.now();
        self.clock.set_time_at(now, time_ms);
        assert(self.clock().sought(&old(self).clock(), now as int, time_ms as int));
    }

    /// The time in the track when the monotonic clock reads `now`.
    pub fn current_time_at(&self, now: u64) -> (time: i64)
        ensures
            time == self.clock().time_at(now as int),
    {
        self.clock.current_time_at(now)
    }

    /// The time in the track now.
    pub fn current_time(&self) -> (time: i64)
        ensures
            exists|now: u64| time == #[trigger] self.clock().time_at(now as int),
    {
        let now: u64 = self.clock.now();
        let time: i64 = self.clock.current_time_at(now);
        assert(time == self.clock().time_at(now as int));
        time
    }
}

} // verus!
