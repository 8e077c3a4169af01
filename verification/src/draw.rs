//! The drawing surface: a list of primitives in the order in which they are
//! to be painted, and the model in which contracts speak of them.

use vstd::prelude::*;

verus! {

/// `egui::Color32`, a colour of four bytes. A value is carried through to
/// the drawing commands; what it holds is known only as far as the
/// functions below say.
#[verifier::external_type_specification]
#[verifier::external_body]
pub struct ExColor32(egui::Color32);

/// The four bytes that an `egui::Color32` holds: red, green, blue and
/// alpha, in that order.
pub uninterp spec fn color_channels(color: egui::Color32) -> Seq<u8>;

/// `egui::Color32::from_rgb`, which stores the three bytes it is given and
/// sets alpha to 255.
#[verifier::external_body]
pub(crate) fn opaque_color(r: u8, g: u8, b: u8) -> (color: egui::Color32)
    ensures
        color_channels(color) == seq![r, g, b, 255u8],
{
    egui::Color32::from_rgb(r, g, b)
}

/// `egui::Color32::from_gray`, which stores the one byte it is given three
/// times over and sets alpha to 255.
#[verifier::external_body]
pub(crate) fn gray_color(l: u8) -> (color: egui::Color32)
    ensures
        color_channels(color) == seq![l, l, l, 255u8],
{
    egui::Color32::from_gray(l)
}

/// The constant `egui::Color32::WHITE`, which egui defines as opaque with
/// all three colour bytes at 255.
#[verifier::external_body]
pub(crate) fn white_color() -> (color: egui::Color32)
    ensures
        color_channels(color) == seq![255u8, 255u8, 255u8, 255u8],
{
    egui::Color32::WHITE
}

/// Top left corner of a playfield on the drawing surface.
#[derive(Clone, Copy, Debug, PartialEq, Eq)]
pub struct Position {
    pub x: i32,
    pub y: i32,
}

/// A point of the drawing surface, `y` growing downwards. The coordinates
/// are wide enough to hold the exact projection of any event, however far
/// off the screen.
#[derive(Clone, Copy, Debug, PartialEq, Eq)]
pub struct Point {
    pub x: i128,
    pub y: i128,
}

impl View for Point {
    type V = (int, int);

    open spec fn view(&self) -> (int, int) {
        (self.x as int, self.y as int)
    }
}

/// One drawing primitive.
#[derive(Clone, Copy, Debug, PartialEq, Eq)]
pub enum DrawCommand {
    /// A filled rectangle, given by its top left corner and its size.
    Rect { min: Point, width: i128, height: i128, color: egui::Color32 },
    /// A filled disc.
    Circle { center: Point, radius: i128, color: egui::Color32 },
    /// A filled triangle.
    Polygon { a: Point, b: Point, c: Point, color: egui::Color32 },
    /// The image of the active note style, painted into a rectangle.
    Image { min: Point, width: i128, height: i128 },
    /// A straight line, `stroke` pixels wide.
    Line { from: Point, to: Point, stroke: u32, color: egui::Color32 },
}

/// What a [`DrawCommand`] paints: the same primitive with mathematical
/// coordinates, a colour being the four bytes it holds.
pub enum Shape {
    Rect { min: (int, int), width: int, height: int, color: Seq<u8> },
    Circle { center: (int, int), radius: int, color: Seq<u8> },
    Polygon { a: (int, int), b: (int, int), c: (int, int), color: Seq<u8> },
    Image { min: (int, int), width: int, height: int },
    Line { from: (int, int), to: (int, int), stroke: int, color: Seq<u8> },
}

impl View for DrawCommand {
    type V = Shape;

    open spec fn view(&self) -> Shape {
        match *self {
            DrawCommand::Rect { min, width, height, color } => Shape::Rect {
                min: min@,
                width: width as int,
                height: height as int,
                color: color_channels(color),
            },
            DrawCommand::Circle { center, radius, color } => Shape::Circle {
                center: center@,
                radius: radius as int,
                color: color_channels(color),
            },
            DrawCommand::Polygon { a, b, c, color } => Shape::Polygon {
                a: a@,
                b: b@,
                c: c@,
                color: color_channels(color),
            },
            DrawCommand::Image { min, width, height } => Shape::Image {
                min: min@,
                width: width as int,
                height: height as int,
            },
            DrawCommand::Line { from, to, stroke, color } => Shape::Line {
                from: from@,
                to: to@,
                stroke: stroke as int,
                color: color_channels(color),
            },
        }
    }
}

/// What a list of commands paints, in order.
pub open spec fn shapes(commands: Seq<DrawCommand>) -> Seq<Shape> {
    commands.map_values(|c: DrawCommand| c@)
}

/// Appending one command appends the shape that it paints.
pub proof fn lemma_shapes_push(commands: Seq<DrawCommand>, command: DrawCommand)
    ensures
        shapes(commands.push(command)) == shapes(commands).push(command@),
{
    assert(shapes(commands.push(command)) =~= shapes(commands).push(command@));
}

/// Whether `after` is `before` with commands added at its end that paint
/// `added`, in that order.
pub open spec fn appended(before: Seq<DrawCommand>, after: Seq<DrawCommand>, added: Seq<Shape>) -> bool {
    &&& before.len() <= after.len()
    &&& after.take(before.len() as int) == before
    &&& shapes(after.skip(before.len() as int)) == added
}

/// A list to which nothing was added.
pub proof fn lemma_appended_nothing(before: Seq<DrawCommand>)
    ensures
        appended(before, before, Seq::<Shape>::empty()),
{
    assert(before.take(before.len() as int) =~= before);
    assert(shapes(before.skip(before.len() as int)) =~= Seq::<Shape>::empty());
}

/// Adding one more command adds the shape that it paints.
pub proof fn lemma_appended_push(
    before: Seq<DrawCommand>,
    after: Seq<DrawCommand>,
    added: Seq<Shape>,
    command: DrawCommand,
)
    requires
        appended(before, after, added),
    ensures
        appended(before, after.push(command), added.push(command@)),
{
    let n = before.len() as int;
    assert(after.push(command).take(n) =~= after.take(n));
    assert(after.push(command).skip(n) =~= after.skip(n).push(command));
    lemma_shapes_push(after.skip(n), command);
}

/// Two additions in a row are one addition of both runs of shapes.
pub proof fn lemma_appended_twice(
    before: Seq<DrawCommand>,
    between: Seq<DrawCommand>,
    after: Seq<DrawCommand>,
    first: Seq<Shape>,
    second: Seq<Shape>,
)
    requires
        appended(before, between, first),
        appended(between, after, second),
    ensures
        appended(before, after, first + second),
{
    let n = before.len() as int;
    let m = between.len() as int;
    assert(after.take(n) =~= after.take(m).take(n));
    assert(after.skip(n) =~= between.skip(n) + after.skip(m)) by {
        assert(after.take(m) == between);
        assert forall|i: int| 0 <= i < after.len() - n implies after.skip(n)[i] == (between.skip(n)
            + after.skip(m))[i] by {
            if i < m - n {
                assert(after.take(m)[i + n] == after[i + n]);
            }
        }
    }
    assert(shapes(between.skip(n) + after.skip(m)) =~= shapes(between.skip(n)) + shapes(
        after.skip(m),
    ));
}

/// Appends `command` to `canvas`.
pub fn emit(canvas: &mut Vec<DrawCommand>, command: DrawCommand)
    ensures
        final(canvas)@ == old(canvas)@.push(command),
        appended(old(canvas)@, final(canvas)@, seq![command@]),
{
    proof {
        lemma_appended_nothing(canvas@);
        lemma_appended_push(canvas@, canvas@, Seq::<Shape>::empty(), command);
        assert(Seq::<Shape>::empty().push(command@) =~= seq![command@]);
    }
    canvas.push(command);
}

} // verus!
