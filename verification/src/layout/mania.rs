//! The lane-based playfield: notes fall down their lanes towards a judgment
//! line, and holds trail a body behind them.

use vstd::prelude::*;
use crate::beatmap::NoteEvent;
use crate::draw::{
    appended, color_channels, emit, gray_color, lemma_appended_nothing, lemma_appended_twice,
    opaque_color, white_color, DrawCommand, Point, Position, Shape,
};
use crate::layout::projection::{
    judgment_line, judgment_line_y, lane_index, lane_of, lemma_on_the_line_until_passed,
    project, project_marker, project_time, project_y, remaining, visible, NORMAL_SPEED,
};
use crate::math::div_floor;

verus! {

/// `egui::Image`, an image that egui can load and paint. A value is kept in
/// the style and handed back to the host; nothing is read from it.
#[verifier::external_type_specification]
#[verifier::external_body]
pub struct ExImage<'a>(egui::Image<'a>);

/// The `Clone` impl that egui derives for `egui::Image`: the copy holds a
/// copy of every field, and so is the same image.
pub assume_specification<'a>[ <egui::Image<'a> as Clone>::clone ](
    image: &egui::Image<'a>,
) -> (copy: egui::Image<'a>)
    ensures
        copy == *image,
;

/// The unit of the width and height of a [`NoteShape`]: a side of this many
/// thousandths is as long as the note size.
pub const RATIO_UNIT: u32 = 1000;

/// Brightness of the lane background.
pub const LANE_GRAY: u8 = 20;

/// Stroke width of the judgment line.
pub const JUDGMENT_LINE_WIDTH: u32 = 2;

/// How a note is drawn. Widths and heights are in thousandths of the note
/// size.
pub enum NoteShape {
    Circle,
    Rectangle { width: u32, height: u32 },
    Arrow { width: u32, height: u32 },
    Image(egui::Image<'static>),
}

impl Clone for NoteShape {
    fn clone(&self) -> (copy: Self)
        ensures
            copy == *self,
    {
        match self {
            NoteShape::Circle => NoteShape::Circle,
            NoteShape::Rectangle { width, height } => NoteShape::Rectangle {
                width: *width,
                height: *height,
            },
            NoteShape::Arrow { width, height } => NoteShape::Arrow {
                width: *width,
                height: *height,
            },
            NoteShape::Image(image) => NoteShape::Image(image.clone()),
        }
    }
}

/// The look of every note of a frame.
pub struct NoteStyle {
    pub shape: NoteShape,
    pub color: egui::Color32,
    pub hold_body_color: egui::Color32,
    pub hold_cap_color: egui::Color32,
}

impl Default for NoteStyle {
    /// A flat blue bar on a light gray hold body.
    fn default() -> (style: Self)
        ensures
            style.shape == (NoteShape::Rectangle { width: 800, height: 250 }),
            color_channels(style.color) == seq![0u8, 174u8, 255u8, 255u8],
            color_channels(style.hold_body_color) == seq![200u8, 200u8, 200u8, 255u8],
            color_channels(style.hold_cap_color) == seq![0u8, 174u8, 255u8, 255u8],
    {
        NoteStyle {
            shape: NoteShape::Rectangle { width: 800, height: 250 },
            color: opaque_color(0, 174, 255),
            hold_body_color: opaque_color(200, 200, 200),
            hold_cap_color: opaque_color(0, 174, 255),
        }
    }
}

/// Whether `style` looks as the default style does.
pub open spec fn is_default_style(style: NoteStyle) -> bool {
    &&& style.shape == (NoteShape::Rectangle { width: 800, height: 250 })
    &&& color_channels(style.color) == seq![0u8, 174u8, 255u8, 255u8]
    &&& color_channels(style.hold_body_color) == seq![200u8, 200u8, 200u8, 255u8]
    &&& color_channels(style.hold_cap_color) == seq![0u8, 174u8, 255u8, 255u8]
}

/// Width of a hold, in thousandths of the note size.
pub const HOLD_WIDTH_RATIO: u32 = 800;

/// Height of the cap at the end of a hold, in thousandths of the width of
/// the hold.
pub const HOLD_CAP_RATIO: u32 = 300;

/// Bound on the magnitude of a coordinate handed to the drawing functions.
/// Every projected position and every left edge of a lane lies well within
/// it.
pub open spec fn coordinate_limit() -> int {
    0x100_0000_0000_0000_0000_0000_0000_0000
}

/// What one frame is drawn for: the time on the clock of the player, the
/// scroll window, the speed in thousandths, the number of lanes and the top
/// left corner of the playfield.
#[derive(Clone, Copy, Debug, PartialEq, Eq)]
pub struct Frame {
    pub current_time: i64,
    pub scroll_time_ms: u32,
    pub speed: u32,
    pub keycount: usize,
    pub position: Position,
}

/// Draws a lane-based playfield. Lengths are in pixels.
pub struct ManiaRenderer {
    column_width: u32,
    note_size: u32,
    speed: u32,
    height: u32,
    note_style: NoteStyle,
}

impl ManiaRenderer {
    /// Width of one lane.
    pub closed spec fn column_width(&self) -> int {
        self.column_width as int
    }

    /// Side of the square that a note of full width and height fills.
    pub closed spec fn note_size(&self) -> int {
        self.note_size as int
    }

    /// The speed of the frame drawn last, in thousandths.
    pub closed spec fn speed(&self) -> int {
        self.speed as int
    }

    /// Height of the playfield.
    pub closed spec fn height(&self) -> int {
        self.height as int
    }

    /// The active style.
    pub closed spec fn note_style(&self) -> NoteStyle {
        self.note_style
    }

    /// The sizes of a renderer, and the speed that it has recorded, are
    /// never negative and fit `u32`.
    pub proof fn lemma_sizes_fit(&self)
        ensures
            0 <= self.column_width() <= u32::MAX,
            0 <= self.note_size() <= u32::MAX,
            0 <= self.height() <= u32::MAX,
            0 <= self.speed() <= u32::MAX,
    {
    }

    /// A renderer with the default style.
    pub fn with_sizes(column_width: u32, note_size: u32, height: u32) -> (renderer: Self)
        ensures
            renderer.column_width() == column_width,
            renderer.note_size() == note_size,
            renderer.height() == height,
            renderer.speed() == NORMAL_SPEED,
            is_default_style(renderer.note_style()),
    {
        ManiaRenderer {
            column_width,
            note_size,
            speed: NORMAL_SPEED,
            height,
            note_style: NoteStyle::default(),
        }
    }

    /// Replaces the active style; the next frame is drawn with `style`.
    pub fn set_note_style(&mut self, style: NoteStyle)
        ensures
            final(self).note_style() == style,
            final(self).column_width() == old(self).column_width(),
            final(self).note_size() == old(self).note_size(),
            final(self).height() == old(self).height(),
            final(self).speed() == old(self).speed(),
    {
        self.note_style = style;
    }

    /// The active style.
    pub fn style(&self) -> (style: &NoteStyle)
        ensures
            *style == self.note_style(),
    {
        &self.note_style
    }

    /// Sets the width of a lane.
    pub fn set_column_width(&mut self, column_width: u32)
        ensures
            final(self).column_width() == column_width,
            final(self).note_size() == old(self).note_size(),
            final(self).height() == old(self).height(),
            final(self).speed() == old(self).speed(),
            final(self).note_style() == old(self).note_style(),
    {
        self.column_width = column_width;
    }

    /// Sets the note size.
    pub fn set_note_size(&mut self, note_size: u32)
        ensures
            final(self).note_size() == note_size,
            final(self).column_width() == old(self).column_width(),
            final(self).height() == old(self).height(),
            final(self).speed() == old(self).speed(),
            final(self).note_style() == old(self).note_style(),
    {
        self.note_size = note_size;
    }

    /// Sets the height of the playfield.
    pub fn set_height(&mut self, height: u32)
        ensures
            final(self).height() == height,
            final(self).column_width() == old(self).column_width(),
            final(self).note_size() == old(self).note_size(),
            final(self).speed() == old(self).speed(),
            final(self).note_style() == old(self).note_style(),
    {
        self.height = height;
    }

    /// Width of a playfield of `keycount` lanes.
    pub fn required_width(&self, keycount: usize) -> (width: i128)
        ensures
            width == self.column_width() * keycount,
            0 <= width <= 0x1_0000_0000_0000_0000_0000_0000,
    {
        assert(0 <= self.column_width * keycount <= 0x1_0000_0000_0000_0000_0000_0000)
            by (nonlinear_arith)
            requires
                0 <= self.column_width <= 0xffff_ffff,
                0 <= keycount <= 0xffff_ffff_ffff_ffff,
        ;
        self.column_width as i128 * (keycount as i128)
    }

    /// Height of the playfield.
    pub fn required_height(&self) -> (height: i128)
        ensures
            height == self.height(),
    {
        self.height as i128
    }

    /// The marker of a note in the lane whose left edge is at `x_pos`, at
    /// height `y_pos`: centred in the lane, in the shape and the colour of
    /// the active style.
    pub open spec fn note_shape(&self, x_pos: int, y_pos: int) -> Shape {
        let center_x = x_pos + self.column_width() / 2;
        let color = color_channels(self.note_style().color);
        match self.note_style().shape {
            NoteShape::Circle => Shape::Circle {
                center: (center_x, y_pos),
                radius: self.note_size() / 2,
                color,
            },
            NoteShape::Rectangle { width, height } => {
                let w = self.note_size() * width / RATIO_UNIT as int;
                let h = self.note_size() * height / RATIO_UNIT as int;
                Shape::Rect { min: (center_x - w / 2, y_pos - h / 2), width: w, height: h, color }
            },
            NoteShape::Arrow { width, height } => {
                let w = self.note_size() * width / RATIO_UNIT as int;
                let h = self.note_size() * height / RATIO_UNIT as int;
                Shape::Polygon {
                    a: (center_x, y_pos - h / 2),
                    b: (center_x + w / 2, y_pos + h / 2),
                    c: (center_x - w / 2, y_pos + h / 2),
                    color,
                }
            },
            NoteShape::Image(_) => Shape::Image {
                min: (center_x - self.note_size() / 2, y_pos - self.note_size() / 2),
                width: self.note_size(),
                height: self.note_size(),
            },
        }
    }

    /// Draws the marker of a note.
    pub fn draw_note(&self, canvas: &mut Vec<DrawCommand>, x_pos: i128, y_pos: i128)
        requires
            -coordinate_limit() <= x_pos <= coordinate_limit(),
            -coordinate_limit() <= y_pos <= coordinate_limit(),
        ensures
            appended(old(canvas)@, final(canvas)@, seq![self.note_shape(x_pos as int, y_pos as int)]),
    {
        let center_x: i128 = x_pos + (self.column_width / 2) as i128;
        let size: i128 = self.note_size as i128;
        let color = self.note_style.color;
        match &self.note_style.shape {
            NoteShape::Circle => {
                emit(
                    canvas,
                    DrawCommand::Circle {
                        center: Point { x: center_x, y: y_pos },
                        radius: size / 2,
                        color,
                    },
                );
            },
            NoteShape::Rectangle { width, height } => {
                let w: i128 = scale(self.note_size, *width) as i128;
                let h: i128 = scale(self.note_size, *height) as i128;
                emit(
                    canvas,
                    DrawCommand::Rect {
                        min: Point { x: center_x - w / 2, y: y_pos - h / 2 },
                        width: w,
                        height: h,
                        color,
                    },
                );
            },
            NoteShape::Arrow { width, height } => {
                let w: i128 = scale(self.note_size, *width) as i128;
                let h: i128 = scale(self.note_size, *height) as i128;
                emit(
                    canvas,
                    DrawCommand::Polygon {
                        a: Point { x: center_x, y: y_pos - h / 2 },
                        b: Point { x: center_x + w / 2, y: y_pos + h / 2 },
                        c: Point { x: center_x - w / 2, y: y_pos + h / 2 },
                        color,
                    },
                );
            },
            NoteShape::Image(_) => {
                emit(
                    canvas,
                    DrawCommand::Image {
                        min: Point { x: center_x - size / 2, y: y_pos - size / 2 },
                        width: size,
                        height: size,
                    },
                );
            },
        }
    }
}

/// `ratio` thousandths of `length`, rounded down.
pub fn scale(length: u32, ratio: u32) -> (scaled: u64)
    ensures
        scaled == length * ratio / RATIO_UNIT as int,
        ratio <= RATIO_UNIT ==> scaled <= length,
{
    assert(0 <= length * ratio <= 0xffff_ffff_0000_0000) by (nonlinear_arith)
        requires
            0 <= length <= 0xffff_ffff,
            0 <= ratio <= 0xffff_ffff,
    ;
    let product: u64 = length as u64 * ratio as u64;
    proof {
        if ratio <= RATIO_UNIT {
            assert(length * ratio <= length * 1000) by (nonlinear_arith)
                requires
                    0 <= length,
                    0 <= ratio <= 1000,
            ;
        }
    }
    product / RATIO_UNIT as u64
}

impl ManiaRenderer {
    /// Width of a hold.
    pub open spec fn hold_width(&self) -> int {
        self.note_size() * HOLD_WIDTH_RATIO as int / RATIO_UNIT as int
    }

    /// Left edge of a hold in the lane whose left edge is at `x_pos`: the
    /// hold is centred in the lane.
    pub open spec fn hold_x(&self, x_pos: int) -> int {
        x_pos + (self.column_width() - self.hold_width()) / 2
    }

    /// Lower edge of the body of a hold: the lower of its two ends, but
    /// never below the judgment line.
    pub open spec fn hold_bottom(start_y: int, end_y: int, line_y: int) -> int {
        let lower = if start_y >= end_y { start_y } else { end_y };
        if lower <= line_y { lower } else { line_y }
    }

    /// Upper edge of the body of a hold: the upper of its two ends, and the
    /// judgment line once both ends are below it.
    pub open spec fn hold_top(start_y: int, end_y: int, line_y: int) -> int {
        let upper = if start_y <= end_y { start_y } else { end_y };
        if upper <= line_y { upper } else { line_y }
    }

    /// The body of a hold whose ends are projected at `start_y` and `end_y`.
    pub open spec fn hold_body(&self, x_pos: int, start_y: int, end_y: int, line_y: int) -> Shape {
        Shape::Rect {
            min: (self.hold_x(x_pos), Self::hold_top(start_y, end_y, line_y)),
            width: self.hold_width(),
            height: Self::hold_bottom(start_y, end_y, line_y) - Self::hold_top(
                start_y,
                end_y,
                line_y,
            ),
            color: color_channels(self.note_style().hold_body_color),
        }
    }

    /// The cap that closes a hold at `end_y`.
    pub open spec fn hold_cap(&self, x_pos: int, end_y: int) -> Shape {
        Shape::Rect {
            min: (self.hold_x(x_pos), end_y),
            width: self.hold_width(),
            height: self.hold_width() * HOLD_CAP_RATIO as int / RATIO_UNIT as int,
            color: color_channels(self.note_style().hold_cap_color),
        }
    }

    /// What is drawn of a hold: always its body, and its cap as long as its
    /// end has not passed the judgment line.
    pub open spec fn hold_shapes(&self, x_pos: int, start_y: int, end_y: int, line_y: int) -> Seq<
        Shape,
    > {
        if end_y <= line_y {
            seq![self.hold_body(x_pos, start_y, end_y, line_y), self.hold_cap(x_pos, end_y)]
        } else {
            seq![self.hold_body(x_pos, start_y, end_y, line_y)]
        }
    }

    /// Draws a hold in the lane whose left edge is at `x_pos`.
    pub fn render_hold(
        &self,
        canvas: &mut Vec<DrawCommand>,
        x_pos: i128,
        start_y: i128,
        end_y: i128,
        judgment_line_y: i64,
    )
        requires
            -coordinate_limit() <= x_pos <= coordinate_limit(),
            -coordinate_limit() <= start_y <= coordinate_limit(),
            -coordinate_limit() <= end_y <= coordinate_limit(),
        ensures
            appended(
                old(canvas)@,
                final(canvas)@,
                self.hold_shapes(
                    x_pos as int,
                    start_y as int,
                    end_y as int,
                    judgment_line_y as int,
                ),
            ),
    {
        let line_y: i128 = judgment_line_y as i128;
        let note_width: u64 = scale(self.note_size, HOLD_WIDTH_RATIO);
        let slack: i128 = self.column_width as i128 - note_width as i128;
        let x: i128 = x_pos + div_floor(slack, 2);

        let upper: i128 = if start_y <= end_y { start_y } else { end_y };
        let lower: i128 = if start_y >= end_y { start_y } else { end_y };
        let top: i128 = if upper <= line_y { upper } else { line_y };
        let bottom: i128 = if lower <= line_y { lower } else { line_y };

        let ghost before = canvas@;
        emit(
            canvas,
            DrawCommand::Rect {
                min: Point { x, y: top },
                width: note_width as i128,
                height: bottom - top,
                color: self.note_style.hold_body_color,
            },
        );
        if end_y <= line_y {
            let ghost between = canvas@;
            let cap_height: u64 = scale(note_width as u32, HOLD_CAP_RATIO);
            emit(
                canvas,
                DrawCommand::Rect {
                    min: Point { x, y: end_y },
                    width: note_width as i128,
                    height: cap_height as i128,
                    color: self.note_style.hold_cap_color,
                },
            );
            proof {
                let body = self.hold_body(
                    x_pos as int,
                    start_y as int,
                    end_y as int,
                    judgment_line_y as int,
                );
                let cap = self.hold_cap(x_pos as int, end_y as int);
                lemma_appended_twice(before, between, canvas@, seq![body], seq![cap]);
                assert(seq![body] + seq![cap] =~= seq![body, cap]);
            }
        }
    }
}

impl ManiaRenderer {
    /// Position of the judgment line of a frame.
    pub open spec fn line_y(&self, frame: Frame) -> int {
        judgment_line(frame.position.y as int, self.height())
    }

    /// Left edge of the lane that a note with the raw coordinate `coord`
    /// falls into.
    pub open spec fn lane_x(&self, frame: Frame, coord: int) -> int {
        frame.position.x + lane_index(coord, frame.keycount as int) * self.column_width()
    }

    /// Position of an event of the track at the time of a frame.
    pub open spec fn event_y(&self, frame: Frame, event_time: int) -> int {
        project_y(
            event_time,
            frame.current_time as int,
            frame.speed as int,
            frame.scroll_time_ms as int,
            self.height(),
            self.line_y(frame),
        )
    }

    /// The background of the lane with the given index: a dark strip from
    /// the top of the playfield to its bottom.
    pub open spec fn lane_strip(&self, frame: Frame, lane: int) -> Shape {
        Shape::Rect {
            min: (frame.position.x + lane * self.column_width(), frame.position.y as int),
            width: self.column_width(),
            height: self.height(),
            color: seq![LANE_GRAY, LANE_GRAY, LANE_GRAY, 255u8],
        }
    }

    /// The backgrounds of the first `lanes` lanes, from left to right.
    pub open spec fn lane_strips(&self, frame: Frame, lanes: nat) -> Seq<Shape> {
        Seq::new(lanes, |lane: int| self.lane_strip(frame, lane))
    }

    /// The judgment line: a white line across all lanes.
    pub open spec fn judgment_line_shape(&self, frame: Frame) -> Shape {
        Shape::Line {
            from: (frame.position.x as int, self.line_y(frame)),
            to: (
                frame.position.x + self.column_width() * frame.keycount as int,
                self.line_y(frame),
            ),
            stroke: JUDGMENT_LINE_WIDTH as int,
            color: seq![255u8, 255u8, 255u8, 255u8],
        }
    }

    /// What the hold layer holds of one event: nothing of a tap, and of a
    /// hold its body and cap.
    pub open spec fn event_hold_shapes(&self, frame: Frame, event: NoteEvent) -> Seq<Shape> {
        match event {
            NoteEvent::Tap { .. } => Seq::empty(),
            NoteEvent::Hold { .. } => self.hold_shapes(
                self.lane_x(frame, event.coord()),
                self.event_y(frame, event.start()),
                self.event_y(frame, event.end()),
                self.line_y(frame),
            ),
        }
    }

    /// Whether an event of the track is visible at the time of a frame.
    pub open spec fn event_visible(&self, frame: Frame, event_time: int) -> bool {
        visible(
            event_time,
            frame.current_time as int,
            frame.speed as int,
            frame.scroll_time_ms as int,
            self.height(),
            self.line_y(frame),
        )
    }

    /// The time that remains, at the time of a frame, until an event of the
    /// track reaches the judgment line; negative once it has passed.
    pub open spec fn event_remaining(frame: Frame, event_time: int) -> int {
        remaining(
            event_time,
            frame.current_time as int,
            frame.speed as int,
            frame.scroll_time_ms as int,
        )
    }

    /// What the note layer holds of one event: the marker of its start,
    /// where that is visible.
    pub open spec fn event_note_shapes(&self, frame: Frame, event: NoteEvent) -> Seq<Shape> {
        if self.event_visible(frame, event.start()) {
            seq![
                self.note_shape(
                    self.lane_x(frame, event.coord()),
                    self.event_y(frame, event.start()),
                ),
            ]
        } else {
            Seq::empty()
        }
    }

    /// The hold layer: the holds among `events`, in their order.
    pub open spec fn hold_layer(&self, frame: Frame, events: Seq<NoteEvent>) -> Seq<Shape>
        decreases events.len(),
    {
        if events.len() == 0 {
            Seq::empty()
        } else {
            self.hold_layer(frame, events.drop_last()) + self.event_hold_shapes(
                frame,
                events.last(),
            )
        }
    }

    /// The note layer: the visible markers of `events`, in their order.
    pub open spec fn note_layer(&self, frame: Frame, events: Seq<NoteEvent>) -> Seq<Shape>
        decreases events.len(),
    {
        if events.len() == 0 {
            Seq::empty()
        } else {
            self.note_layer(frame, events.drop_last()) + self.event_note_shapes(
                frame,
                events.last(),
            )
        }
    }

    /// A whole frame, in painting order: the lane backgrounds, the judgment
    /// line, every hold, and on top of them every marker.
    pub open spec fn frame_shapes(&self, frame: Frame, events: Seq<NoteEvent>) -> Seq<Shape> {
        self.lane_strips(frame, frame.keycount as nat) + seq![self.judgment_line_shape(frame)]
            + self.hold_layer(frame, events) + self.note_layer(frame, events)
    }

    /// Whether `self` is `before` but for the speed that it has recorded.
    pub open spec fn same_but_speed(&self, before: &Self) -> bool {
        &&& self.column_width() == before.column_width()
        &&& self.note_size() == before.note_size()
        &&& self.height() == before.height()
        &&& self.note_style() == before.note_style()
    }

    /// Computes [`ManiaRenderer::lane_x`].
    fn lane_left(&self, frame: &Frame, coord: i32) -> (x: i128)
        requires
            frame.keycount > 0,
        ensures
            x == self.lane_x(*frame, coord as int),
            -0x1_0000_0000_0000_0000_0000_0000_0000 <= x <= 0x1_0000_0000_0000_0000_0000_0000_0000,
    {
        let lane: usize = lane_of(coord, frame.keycount);
        assert(0 <= lane * self.column_width <= 0x1_0000_0000_0000_0000_0000_0000) by (nonlinear_arith)
            requires
                0 <= self.column_width <= 0xffff_ffff,
                0 <= lane <= 0xffff_ffff_ffff_ffff,
        ;
        frame.position.x as i128 + lane as i128 * (self.column_width as i128)
    }

    /// Draws the lane backgrounds.
    fn draw_lanes(&self, canvas: &mut Vec<DrawCommand>, frame: &Frame)
        ensures
            appended(
                old(canvas)@,
                final(canvas)@,
                self.lane_strips(*frame, frame.keycount as nat),
            ),
    {
        let ghost before = canvas@;
        proof {
            lemma_appended_nothing(before);
            assert(self.lane_strips(*frame, 0) =~= Seq::<Shape>::empty());
        }
        let mut lane: usize = 0;
        while lane < frame.keycount
            invariant
                lane <= frame.keycount,
                appended(before, canvas@, self.lane_strips(*frame, lane as nat)),
            decreases frame.keycount - lane,
        {
            assert(0 <= lane * self.column_width <= 0x1_0000_0000_0000_0000_0000_0000) by (nonlinear_arith)
                requires
                    0 <= self.column_width <= 0xffff_ffff,
                    0 <= lane <= 0xffff_ffff_ffff_ffff,
            ;
            let x: i128 = frame.position.x as i128 + lane as i128 * (self.column_width as i128);
            let ghost between = canvas@;
            emit(
                canvas,
                DrawCommand::Rect {
                    min: Point { x, y: frame.position.y as i128 },
                    width: self.column_width as i128,
                    height: self.height as i128,
                    color: gray_color(LANE_GRAY),
                },
            );
            proof {
                let strip = self.lane_strip(*frame, lane as int);
                lemma_appended_twice(
                    before,
                    between,
                    canvas@,
                    self.lane_strips(*frame, lane as nat),
                    seq![strip],
                );
                assert(self.lane_strips(*frame, lane as nat) + seq![strip] =~= self.lane_strips(
                    *frame,
                    (lane + 1) as nat,
                ));
            }
            lane += 1;
        }
    }

    /// Draws the judgment line.
    fn draw_judgment_line(&self, canvas: &mut Vec<DrawCommand>, frame: &Frame)
        ensures
            appended(old(canvas)@, final(canvas)@, seq![self.judgment_line_shape(*frame)]),
    {
        let line_y: i128 = judgment_line_y(frame.position.y, self.height) as i128;
        let width: i128 = self.required_width(frame.keycount);
        emit(
            canvas,
            DrawCommand::Line {
                from: Point { x: frame.position.x as i128, y: line_y },
                to: Point { x: frame.position.x as i128 + width, y: line_y },
                stroke: JUDGMENT_LINE_WIDTH,
                color: white_color(),
            },
        );
    }

    /// Draws what the hold layer holds of one event.
    fn draw_event_hold(&self, canvas: &mut Vec<DrawCommand>, frame: &Frame, event: &NoteEvent)
        requires
            frame.speed > 0,
            frame.scroll_time_ms > 0,
            frame.keycount > 0,
        ensures
            appended(old(canvas)@, final(canvas)@, self.event_hold_shapes(*frame, *event)),
    {
        match event {
            NoteEvent::Tap { .. } => {
                proof {
                    lemma_appended_nothing(canvas@);
                }
            },
            NoteEvent::Hold { .. } => {
                let line_y: i64 = judgment_line_y(frame.position.y, self.height);
                let x_pos: i128 = self.lane_left(frame, event.x());
                let start_y: i128 = project_time(
                    event.time(),
                    frame.current_time,
                    frame.speed,
                    frame.scroll_time_ms,
                    self.height,
                    line_y,
                );
                let end_y: i128 = project(
                    event.end_time(),
                    frame.current_time,
                    frame.speed,
                    frame.scroll_time_ms,
                    self.height,
                    line_y,
                );
                self.render_hold(canvas, x_pos, start_y, end_y, line_y);
            },
        }
    }

    /// Draws what the note layer holds of one event.
    fn draw_event_note(&self, canvas: &mut Vec<DrawCommand>, frame: &Frame, event: &NoteEvent)
        requires
            frame.speed > 0,
            frame.scroll_time_ms > 0,
            frame.keycount > 0,
        ensures
            appended(old(canvas)@, final(canvas)@, self.event_note_shapes(*frame, *event)),
    {
        let line_y: i64 = judgment_line_y(frame.position.y, self.height);
        let marker: Option<i128> = project_marker(
            event.time(),
            frame.current_time,
            frame.speed,
            frame.scroll_time_ms,
            self.height,
            line_y,
        );
        match marker {
            Some(y_pos) => {
                let x_pos: i128 = self.lane_left(frame, event.x());
                self.draw_note(canvas, x_pos, y_pos);
            },
            None => {
                proof {
                    lemma_appended_nothing(canvas@);
                }
            },
        }
    }
}

impl ManiaRenderer {
    /// Draws the hold layer.
    fn draw_hold_layer(&self, canvas: &mut Vec<DrawCommand>, frame: &Frame, events: &[NoteEvent])
        requires
            frame.speed > 0,
            frame.scroll_time_ms > 0,
            events@.len() > 0 ==> frame.keycount > 0,
        ensures
            appended(old(canvas)@, final(canvas)@, self.hold_layer(*frame, events@)),
    {
        let ghost before = canvas@;
        proof {
            lemma_appended_nothing(before);
        }
        let mut i: usize = 0;
        while i < events.len()
            invariant
                i <= events.len(),
                frame.speed > 0,
                frame.scroll_time_ms > 0,
                events@.len() > 0 ==> frame.keycount > 0,
                appended(before, canvas@, self.hold_layer(*frame, events@.take(i as int))),
            decreases events.len() - i,
        {
            let ghost between = canvas@;
            self.draw_event_hold(canvas, frame, &events[i]);
            proof {
                let done = events@.take(i as int);
                let next = events@.take(i + 1);
                assert(next.drop_last() =~= done);
                assert(next.last() == events@[i as int]);
                lemma_appended_twice(
                    before,
                    between,
                    canvas@,
                    self.hold_layer(*frame, done),
                    self.event_hold_shapes(*frame, events@[i as int]),
                );
            }
            i += 1;
        }
        proof {
            assert(events@.take(i as int) =~= events@);
        }
    }

    /// Draws the note layer.
    fn draw_note_layer(&self, canvas: &mut Vec<DrawCommand>, frame: &Frame, events: &[NoteEvent])
        requires
            frame.speed > 0,
            frame.scroll_time_ms > 0,
            events@.len() > 0 ==> frame.keycount > 0,
        ensures
            appended(old(canvas)@, final(canvas)@, self.note_layer(*frame, events@)),
    {
        let ghost before = canvas@;
        proof {
            lemma_appended_nothing(before);
        }
        let mut i: usize = 0;
        while i < events.len()
            invariant
                i <= events.len(),
                frame.speed > 0,
                frame.scroll_time_ms > 0,
                events@.len() > 0 ==> frame.keycount > 0,
                appended(before, canvas@, self.note_layer(*frame, events@.take(i as int))),
            decreases events.len() - i,
        {
            let ghost between = canvas@;
            self.draw_event_note(canvas, frame, &events[i]);
            proof {
                let done = events@.take(i as int);
                let next = events@.take(i + 1);
                assert(next.drop_last() =~= done);
                assert(next.last() == events@[i as int]);
                lemma_appended_twice(
                    before,
                    between,
                    canvas@,
                    self.note_layer(*frame, done),
                    self.event_note_shapes(*frame, events@[i as int]),
                );
            }
            i += 1;
        }
        proof {
            assert(events@.take(i as int) =~= events@);
        }
    }

    /// Draws one frame with the top left corner of the playfield at
    /// `position`, and records `speed`.
    ///
    /// `speed` and `scroll_time_ms` are positive; where there are notes
    /// there is a lane to put them into.
    pub fn render_at(
        &mut self,
        canvas: &mut Vec<DrawCommand>,
        hit_objects: &[NoteEvent],
        current_time: i64,
        scroll_time_ms: u32,
        speed: u32,
        keycount: usize,
        position: Position,
    )
        requires
            speed > 0,
            scroll_time_ms > 0,
            hit_objects@.len() > 0 ==> keycount > 0,
        ensures
            final(self).same_but_speed(old(self)),
            final(self).speed() == speed,
            appended(
                old(canvas)@,
                final(canvas)@,
                old(self).frame_shapes(
                    Frame { current_time, scroll_time_ms, speed, keycount, position },
                    hit_objects@,
                ),
            ),
    {
        self.speed = speed;
        let frame = Frame { current_time, scroll_time_ms, speed, keycount, position };

        let ghost blank = canvas@;
        self.draw_lanes(canvas, &frame);
        let ghost with_lanes = canvas@;
        self.draw_judgment_line(canvas, &frame);
        let ghost with_line = canvas@;
        self.draw_hold_layer(canvas, &frame, hit_objects);
        let ghost with_holds = canvas@;
        self.draw_note_layer(canvas, &frame, hit_objects);
        proof {
            let lanes = self.lane_strips(frame, keycount as nat);
            let line = seq![self.judgment_line_shape(frame)];
            let holds = self.hold_layer(frame, hit_objects@);
            let notes = self.note_layer(frame, hit_objects@);
            lemma_appended_twice(blank, with_lanes, with_line, lanes, line);
            lemma_appended_twice(blank, with_line, with_holds, lanes + line, holds);
            lemma_appended_twice(blank, with_holds, canvas@, lanes + line + holds, notes);
            self.lemma_frame_ignores_speed(old(self), frame, hit_objects@);
        }
    }

    /// Draws one frame with the top left corner of the playfield at the
    /// origin of the drawing surface.
    pub fn render(
        &mut self,
        canvas: &mut Vec<DrawCommand>,
        hit_objects: &[NoteEvent],
        current_time: i64,
        scroll_time_ms: u32,
        speed: u32,
        keycount: usize,
    )
        requires
            speed > 0,
            scroll_time_ms > 0,
            hit_objects@.len() > 0 ==> keycount > 0,
        ensures
            final(self).same_but_speed(old(self)),
            final(self).speed() == speed,
            appended(
                old(canvas)@,
                final(canvas)@,
                old(self).frame_shapes(
                    Frame {
                        current_time,
                        scroll_time_ms,
                        speed,
                        keycount,
                        position: Position { x: 0, y: 0 },
                    },
                    hit_objects@,
                ),
            ),
    {
        self.render_at(
            canvas,
            hit_objects,
            current_time,
            scroll_time_ms,
            speed,
            keycount,
            Position { x: 0, y: 0 },
        )
    }

    /// The frame of a beatmap without events is the lane backgrounds and
    /// the judgment line, and nothing else.
    pub proof fn lemma_frame_without_events(&self, frame: Frame)
        ensures
            self.frame_shapes(frame, Seq::empty()) == self.lane_strips(
                frame,
                frame.keycount as nat,
            ).push(self.judgment_line_shape(frame)),
    {
        assert(self.frame_shapes(frame, Seq::empty()) =~= self.lane_strips(
            frame,
            frame.keycount as nat,
        ).push(self.judgment_line_shape(frame)));
    }

    /// A frame depends on the sizes and the style of the renderer alone, not
    /// on the speed that it has recorded.
    pub proof fn lemma_frame_ignores_speed(&self, other: &Self, frame: Frame, events: Seq<NoteEvent>)
        requires
            self.same_but_speed(other),
        ensures
            self.frame_shapes(frame, events) == other.frame_shapes(frame, events),
        decreases events.len(),
    {
        assert(self.lane_strips(frame, frame.keycount as nat) =~= other.lane_strips(
            frame,
            frame.keycount as nat,
        ));
        self.lemma_layers_ignore_speed(other, frame, events);
    }

    /// The two layers of notes depend on the sizes and the style of the
    /// renderer alone.
    pub proof fn lemma_layers_ignore_speed(&self, other: &Self, frame: Frame, events: Seq<NoteEvent>)
        requires
            self.same_but_speed(other),
        ensures
            self.hold_layer(frame, events) == other.hold_layer(frame, events),
            self.note_layer(frame, events) == other.note_layer(frame, events),
        decreases events.len(),
    {
        if events.len() > 0 {
            self.lemma_layers_ignore_speed(other, frame, events.drop_last());
        }
    }
}

impl ManiaRenderer {
    /// The body of a hold never reaches below the judgment line, and its
    /// height is never negative.
    pub proof fn lemma_hold_body_stops_at_the_line(start_y: int, end_y: int, line_y: int)
        ensures
            Self::hold_top(start_y, end_y, line_y) <= Self::hold_bottom(start_y, end_y, line_y)
                <= line_y,
    {
    }

    /// On a playfield of positive height a hold has its cap exactly as long
    /// as the end of the hold has not passed the judgment line.
    pub proof fn lemma_cap_until_the_end(&self, frame: Frame, event: NoteEvent)
        requires
            event is Hold,
            frame.speed > 0,
            frame.scroll_time_ms > 0,
            self.height() > 0,
        ensures
            self.event_hold_shapes(frame, event).len() == (if Self::event_remaining(
                frame,
                event.end(),
            ) >= 0 {
                2int
            } else {
                1int
            }),
            self.event_hold_shapes(frame, event)[0] == self.hold_body(
                self.lane_x(frame, event.coord()),
                self.event_y(frame, event.start()),
                self.event_y(frame, event.end()),
                self.line_y(frame),
            ),
            Self::event_remaining(frame, event.end()) >= 0 ==> self.event_hold_shapes(
                frame,
                event,
            )[1] == self.hold_cap(
                self.lane_x(frame, event.coord()),
                self.event_y(frame, event.end()),
            ),
    {
        lemma_on_the_line_until_passed(
            event.end(),
            frame.current_time as int,
            frame.speed as int,
            frame.scroll_time_ms as int,
            self.height(),
            self.line_y(frame),
        );
    }

    /// A hold whose end has passed the judgment line is still drawn: as its
    /// body alone, without a cap, and the body ends on the judgment line.
    pub proof fn lemma_hold_past_its_end(&self, frame: Frame, event: NoteEvent)
        requires
            event is Hold,
            frame.speed > 0,
            frame.scroll_time_ms > 0,
            self.height() > 0,
            Self::event_remaining(frame, event.end()) < 0,
        ensures
            self.event_hold_shapes(frame, event) == seq![
                self.hold_body(
                    self.lane_x(frame, event.coord()),
                    self.event_y(frame, event.start()),
                    self.event_y(frame, event.end()),
                    self.line_y(frame),
                ),
            ],
            Self::hold_bottom(
                self.event_y(frame, event.start()),
                self.event_y(frame, event.end()),
                self.line_y(frame),
            ) == self.line_y(frame),
    {
        lemma_on_the_line_until_passed(
            event.end(),
            frame.current_time as int,
            frame.speed as int,
            frame.scroll_time_ms as int,
            self.height(),
            self.line_y(frame),
        );
    }
}

} // verus!
