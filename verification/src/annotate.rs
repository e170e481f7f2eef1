//! Annotations drawn on top of a capture.
//!
//! Two things render these: the live preview on the overlay canvas, and the
//! rasteriser that bakes them into the saved image. Rather than writing the
//! shapes twice and watching the two drift apart, both draw from [`outline`],
//! which reduces every tool to a list of paths.
use crate::geom;
use crate::geom::{from_corners, max, min, Point, Rect, COORD_LIMIT, SUBPIXELS};
use crate::image;
use crate::image::{ImageError, ImageErrorView, Raster};
use crate::redact;
use crate::text;
use vstd::prelude::*;

verus! {

/// How far apart the ends of a two-corner annotation must be to be kept, in
/// coordinate units: 3 points.
pub const MIN_DRAG: i64 = 768;

#[derive(Debug, Clone, Copy, PartialEq, Eq, Structural)]
pub enum Tool {
    Pen,
    Arrow,
    Rectangle,
    Ellipse,
    /// Freehand, but thick and translucent so the text underneath stays legible.
    Highlight,
    /// Pixelates its rectangle. The one tool that edits pixels rather than
    /// drawing over them, because a drawn-on black box can be undone by anyone
    /// with the file, and redaction that can be undone is not redaction.
    Blur,
    /// A step number, placed with a click.
    Counter,
    /// A caption, typed after a click.
    Text,
}

/// Straight rgba, each in percent.
#[derive(Debug, Clone, Copy, PartialEq, Eq, Structural)]
pub struct Ink {
    pub red: u8,
    pub green: u8,
    pub blue: u8,
    pub alpha: u8,
}

impl Tool {
    pub open spec fn tip(self) -> Seq<char> {
        match self {
            Tool::Pen => "Pen  (p)"@,
            Tool::Arrow => "Arrow  (a)"@,
            Tool::Rectangle => "Box  (r)"@,
            Tool::Ellipse => "Ellipse  (o)"@,
            Tool::Highlight => "Highlight  (h)"@,
            Tool::Blur => "Blur  (b)"@,
            Tool::Counter => "Step number  (n)"@,
            Tool::Text => "Text  (x)"@,
        }
    }

    /// The tooltip: what the tool is called and the key that picks it.
    pub fn label(self) -> (label: &'static str)
        ensures
            label@ == self.tip(),
    {
        match self {
            Tool::Pen => "Pen  (p)",
            Tool::Arrow => "Arrow  (a)",
            Tool::Rectangle => "Box  (r)",
            Tool::Ellipse => "Ellipse  (o)",
            Tool::Highlight => "Highlight  (h)",
            Tool::Blur => "Blur  (b)",
            Tool::Counter => "Step number  (n)",
            Tool::Text => "Text  (x)",
        }
    }

    /// What the tool makes of the chosen ink and width.
    pub open spec fn inked(self, color: Ink, width: int) -> (Ink, int) {
        if self == Tool::Highlight {
            (Ink { alpha: 35, ..color }, width * 5)
        } else {
            (color, width)
        }
    }

    /// Highlighter ink is translucent, and thick enough to cover a line of text.
    pub fn ink(self, color: Ink, width: i64) -> (result: (Ink, i64))
        requires
            i64::MIN <= width * 5 <= i64::MAX,
        ensures
            (result.0, result.1 as int) == self.inked(color, width as int),
    {
        match self {
            Tool::Highlight => (
                Ink { red: color.red, green: color.green, blue: color.blue, alpha: 35 },
                width * 5,
            ),
            _ => (color, width),
        }
    }

    /// Freehand tools keep every sample of the pointer.
    pub open spec fn freehand(self) -> bool {
        self == Tool::Pen || self == Tool::Highlight
    }

    /// Tools whose shape is spanned by where the drag starts and where it ends.
    pub open spec fn spans_two_corners(self) -> bool {
        match self {
            Tool::Arrow | Tool::Rectangle | Tool::Ellipse | Tool::Blur => true,
            _ => false,
        }
    }

    /// Whether a stray click should be discarded rather than kept.
    pub fn needs_a_drag(self) -> (result: bool)
        ensures
            result == self.spans_two_corners(),
    {
        match self {
            Tool::Arrow | Tool::Rectangle | Tool::Ellipse | Tool::Blur => true,
            _ => false,
        }
    }
}

/// Colours offered for annotations, in the order they appear and are numbered.
pub open spec fn palette() -> Seq<(Seq<char>, Ink)> {
    seq![
        ("red"@, Ink { red: 92, green: 19, blue: 21, alpha: 100 }),
        ("orange"@, Ink { red: 96, green: 55, blue: 13, alpha: 100 }),
        ("yellow"@, Ink { red: 98, green: 83, blue: 20, alpha: 100 }),
        ("green"@, Ink { red: 30, green: 76, blue: 38, alpha: 100 }),
        ("blue"@, Ink { red: 26, green: 52, blue: 96, alpha: 100 }),
        ("white"@, Ink { red: 100, green: 100, blue: 100, alpha: 100 }),
    ]
}

/// How many colours the palette offers.
pub const PALETTE_SIZE: usize = 6;

/// One colour of the palette, with its name.
pub fn palette_entry(index: usize) -> (entry: (&'static str, Ink))
    requires
        index < PALETTE_SIZE,
    ensures
        (entry.0@, entry.1) == palette()[index as int],
{
    if index == 0 {
        ("red", Ink { red: 92, green: 19, blue: 21, alpha: 100 })
    } else if index == 1 {
        ("orange", Ink { red: 96, green: 55, blue: 13, alpha: 100 })
    } else if index == 2 {
        ("yellow", Ink { red: 98, green: 83, blue: 20, alpha: 100 })
    } else if index == 3 {
        ("green", Ink { red: 30, green: 76, blue: 38, alpha: 100 })
    } else if index == 4 {
        ("blue", Ink { red: 26, green: 52, blue: 96, alpha: 100 })
    } else {
        ("white", Ink { red: 100, green: 100, blue: 100, alpha: 100 })
    }
}

/// Stroke widths, cycled with the thickness control: 2, 4, 7 and 12 points.
pub open spec fn widths() -> Seq<i64> {
    seq![512, 1024, 1792, 3072]
}

/// The width that follows in the cycle; the first when `width` is none of them.
pub open spec fn next_width(width: i64) -> i64 {
    if width == widths()[0] {
        widths()[1]
    } else if width == widths()[1] {
        widths()[2]
    } else if width == widths()[2] {
        widths()[3]
    } else {
        widths()[0]
    }
}

/// Cycle the stroke width.
pub fn width_after(width: i64) -> (next: i64)
    ensures
        next == next_width(width),
{
    if width == 512 {
        1024
    } else if width == 1024 {
        1792
    } else if width == 1792 {
        3072
    } else {
        512
    }
}

/// The thickness control goes round all four widths, and comes back to where it
/// was after four turns.
pub proof fn law_the_widths_go_round(width: i64)
    ensures
        widths().contains(next_width(width)),
        widths().contains(width) ==> next_width(next_width(next_width(next_width(width)))) == width,
{
    let all = widths();
    assert(all[0] == 512 && all[1] == 1024 && all[2] == 1792 && all[3] == 3072);
    assert(all.contains(all[0]) && all.contains(all[1]) && all.contains(all[2]) && all.contains(
        all[3],
    ));
}

#[derive(Debug)]
pub struct Annotation {
    pub tool: Tool,
    /// Freehand tools keep every sample; the others only start and end.
    pub points: Vec<Point>,
    pub color: Ink,
    pub width: i64,
    /// The number a counter shows.
    pub index: u32,
    /// What has been typed into a text annotation.
    pub text: String,
}

/// An annotation's contents.
pub struct AnnotationView {
    pub tool: Tool,
    pub points: Seq<Point>,
    pub color: Ink,
    pub width: i64,
    pub index: u32,
    pub text: Seq<char>,
}

impl View for Annotation {
    type V = AnnotationView;

    open spec fn view(&self) -> AnnotationView {
        AnnotationView {
            tool: self.tool,
            points: self.points@,
            color: self.color,
            width: self.width,
            index: self.index,
            text: self.text@,
        }
    }
}

/// The contents of a list of annotations.
pub open spec fn drawn(list: Seq<Annotation>) -> Seq<AnnotationView> {
    list.map_values(|annotation: Annotation| annotation@)
}

impl AnnotationView {
    /// Every point is in range, and so is the stroke width.
    pub open spec fn wf(self) -> bool {
        &&& self.points.len() > 0
        &&& forall|i: int| 0 <= i < self.points.len() ==> (#[trigger] self.points[i]).wf()
        &&& 0 <= self.width <= 0x1_0000_0000
    }

    /// A new annotation that has not been dragged yet.
    pub open spec fn fresh(tool: Tool, from: Point, color: Ink, width: i64) -> AnnotationView {
        AnnotationView {
            tool,
            points: seq![from],
            color,
            width,
            index: 0,
            text: Seq::empty(),
        }
    }

    /// The annotation after the pointer moved to `to`: one sample more for a
    /// freehand tool, a replaced end for the others.
    pub open spec fn extended(self, to: Point) -> AnnotationView {
        if self.tool.freehand() {
            AnnotationView { points: self.points.push(to), ..self }
        } else {
            AnnotationView { points: self.points.take(1).push(to), ..self }
        }
    }

    /// Whether anything would be seen of it.
    pub open spec fn usable(self) -> bool {
        if self.tool.spans_two_corners() {
            self.points.len() == 2 && farther_apart(self.points[0], self.points[1], MIN_DRAG as int)
        } else if self.tool.freehand() {
            self.points.len() > 1
        } else if self.tool == Tool::Text {
            text::trimmed(self.text).len() > 0
        } else {
            self.points.len() > 0
        }
    }

    /// The rectangle between its two points, when it has exactly two.
    pub open spec fn area(self) -> Option<Rect> {
        if self.points.len() == 2 {
            Some(geom::spanned(self.points[0], self.points[1]))
        } else {
            None
        }
    }
}

/// Whether the straight line between two points is longer than `length`.
pub open spec fn farther_apart(a: Point, b: Point, length: int) -> bool {
    (a.x - b.x) * (a.x - b.x) + (a.y - b.y) * (a.y - b.y) > length * length
}

fn is_farther_apart(a: Point, b: Point, length: i64) -> (result: bool)
    requires
        a.wf(),
        b.wf(),
        0 <= length <= COORD_LIMIT,
    ensures
        result == farther_apart(a, b, length as int),
{
    let dx: i128 = a.x as i128 - b.x as i128;
    let dy: i128 = a.y as i128 - b.y as i128;
    proof {
        assert(0 <= dx * dx <= 0x2000_0000_0000 * 0x2000_0000_0000) by (nonlinear_arith)
            requires
                -0x2000_0000_0000 <= dx <= 0x2000_0000_0000,
        ;
        assert(0 <= dy * dy <= 0x2000_0000_0000 * 0x2000_0000_0000) by (nonlinear_arith)
            requires
                -0x2000_0000_0000 <= dy <= 0x2000_0000_0000,
        ;
        assert(0 <= length * length <= 0x1000_0000_0000 * 0x1000_0000_0000) by (nonlinear_arith)
            requires
                0 <= length <= 0x1000_0000_0000,
        ;
    }
    dx * dx + dy * dy > length as i128 * length as i128
}

impl Annotation {
    pub fn new(tool: Tool, from: Point, color: Ink, width: i64) -> (annotation: Self)
        ensures
            annotation@ == AnnotationView::fresh(tool, from, color, width),
    {
        let mut points: Vec<Point> = Vec::new();
        points.push(from);
        proof {
            assert(points@ =~= seq![from]);
        }
        Self { tool, points, color, width, index: 0, text: String::new() }
    }

    /// Extend with the pointer's latest position.
    ///
    /// Freehand accumulates; every other tool is defined by two corners, so it
    /// keeps replacing the second one as you drag.
    pub fn extend(&mut self, to: Point)
        requires
            old(self)@.points.len() > 0,
        ensures
            final(self)@ == old(self)@.extended(to),
    {
        match self.tool {
            Tool::Pen | Tool::Highlight => {
                self.points.push(to);
            },
            _ => {
                self.points.truncate(1);
                self.points.push(to);
                proof {
                    assert(self.points@ =~= old(self).points@.take(1).push(to));
                }
            },
        }
    }

    /// Whether this is worth keeping, or just a click that drew nothing.
    pub fn is_usable(&self) -> (result: bool)
        requires
            self@.wf(),
        ensures
            result == self@.usable(),
    {
        if self.tool.needs_a_drag() {
            self.points.len() == 2 && is_farther_apart(self.points[0], self.points[1], MIN_DRAG)
        } else {
            match self.tool {
                Tool::Pen | Tool::Highlight => self.points.len() > 1,
                Tool::Text => {
                    let shown = text::trim(self.text.as_str());
                    !shown.as_str().is_empty()
                },
                _ => self.points.len() > 0,
            }
        }
    }

    /// The rectangle a two-corner tool covers, in whatever space its points are.
    pub fn bounds(&self) -> (result: Option<Rect>)
        requires
            self@.wf(),
        ensures
            result == self@.area(),
            result matches Some(rect) ==> rect.wf() && rect.width >= 0 && rect.height >= 0,
    {
        if self.points.len() == 2 {
            proof {
                assert(self@.points[0].wf() && self@.points[1].wf());
            }
            Some(from_corners(self.points[0], self.points[1]))
        } else {
            None
        }
    }
}

/// One path of an annotation's outline.
#[derive(Debug)]
pub enum Path {
    /// Straight lines from point to point.
    Line(Vec<Point>),
    /// The two barbs of an arrow that points from `from` to `to`.
    ArrowHead { from: Point, to: Point },
    /// The ellipse inscribed in the box from its top left to its bottom right.
    Ellipse { a: Point, b: Point },
}

pub enum PathView {
    Line(Seq<Point>),
    ArrowHead { from: Point, to: Point },
    Ellipse { a: Point, b: Point },
}

impl View for Path {
    type V = PathView;

    open spec fn view(&self) -> PathView {
        match self {
            Path::Line(points) => PathView::Line(points@),
            Path::ArrowHead { from, to } => PathView::ArrowHead { from: *from, to: *to },
            Path::Ellipse { a, b } => PathView::Ellipse { a: *a, b: *b },
        }
    }
}

/// The paths of a list.
pub open spec fn path_list(list: Seq<Path>) -> Seq<PathView> {
    list.map_values(|path: Path| path@)
}

/// The box between two corners as a closed line, clockwise from its top left.
pub open spec fn box_line(a: Point, b: Point) -> Seq<Point> {
    let (left, right) = (geom::lesser(a.x as int, b.x as int) as i64, geom::greater(
        a.x as int,
        b.x as int,
    ) as i64);
    let (top, bottom) = (geom::lesser(a.y as int, b.y as int) as i64, geom::greater(
        a.y as int,
        b.y as int,
    ) as i64);
    seq![
        Point { x: left, y: top },
        Point { x: right, y: top },
        Point { x: right, y: bottom },
        Point { x: left, y: bottom },
        Point { x: left, y: top },
    ]
}

/// The top left corner of the box between two points.
pub open spec fn near_corner(a: Point, b: Point) -> Point {
    Point {
        x: geom::lesser(a.x as int, b.x as int) as i64,
        y: geom::lesser(a.y as int, b.y as int) as i64,
    }
}

/// The bottom right corner of the box between two points.
pub open spec fn far_corner(a: Point, b: Point) -> Point {
    Point {
        x: geom::greater(a.x as int, b.x as int) as i64,
        y: geom::greater(a.y as int, b.y as int) as i64,
    }
}

/// Every path making up an annotation.
pub open spec fn outline_of(annotation: AnnotationView) -> Seq<PathView> {
    let points = annotation.points;
    match annotation.tool {
        Tool::Pen | Tool::Highlight => seq![PathView::Line(points)],
        Tool::Arrow => if points.len() == 2 {
            seq![
                PathView::Line(points),
                PathView::ArrowHead { from: points[0], to: points[1] },
            ]
        } else {
            Seq::empty()
        },
        Tool::Rectangle => if points.len() == 2 {
            seq![PathView::Line(box_line(points[0], points[1]))]
        } else {
            Seq::empty()
        },
        Tool::Ellipse => if points.len() == 2 {
            seq![
                PathView::Ellipse {
                    a: near_corner(points[0], points[1]),
                    b: far_corner(points[0], points[1]),
                },
            ]
        } else {
            Seq::empty()
        },
        Tool::Blur | Tool::Counter | Tool::Text => Seq::empty(),
    }
}

fn copy_points(points: &Vec<Point>) -> (copy: Vec<Point>)
    ensures
        copy@ == points@,
{
    let mut copy: Vec<Point> = Vec::new();
    let mut i: usize = 0;
    while i < points.len()
        invariant
            i <= points@.len(),
            copy@ == points@.take(i as int),
        decreases points@.len() - i,
    {
        copy.push(points[i]);
        i += 1;
    }
    proof {
        assert(copy@ =~= points@);
    }
    copy
}

/// Every path making up an annotation, in the same space its points are in.
///
/// Blur has none: it replaces pixels rather than drawing on them. Step numbers
/// and captions have none either: they are drawn as text.
pub fn outline(annotation: &Annotation) -> (result: Vec<Path>)
    ensures
        path_list(result@) == outline_of(annotation@),
{
    let mut result: Vec<Path> = Vec::new();
    let two: bool = annotation.points.len() == 2;
    match annotation.tool {
        Tool::Pen | Tool::Highlight => {
            result.push(Path::Line(copy_points(&annotation.points)));
        },
        Tool::Arrow => {
            if two {
                result.push(Path::Line(copy_points(&annotation.points)));
                result.push(
                    Path::ArrowHead { from: annotation.points[0], to: annotation.points[1] },
                );
            }
        },
        Tool::Rectangle => {
            if two {
                let a = annotation.points[0];
                let b = annotation.points[1];
                let left: i64 = min(a.x, b.x);
                let right: i64 = max(a.x, b.x);
                let top: i64 = min(a.y, b.y);
                let bottom: i64 = max(a.y, b.y);
                let mut line: Vec<Point> = Vec::new();
                line.push(Point::new(left, top));
                line.push(Point::new(right, top));
                line.push(Point::new(right, bottom));
                line.push(Point::new(left, bottom));
                line.push(Point::new(left, top));
                proof {
                    assert(line@ =~= box_line(a, b));
                }
                result.push(Path::Line(line));
            }
        },
        Tool::Ellipse => {
            if two {
                let a = annotation.points[0];
                let b = annotation.points[1];
                result.push(
                    Path::Ellipse {
                        a: Point::new(min(a.x, b.x), min(a.y, b.y)),
                        b: Point::new(max(a.x, b.x), max(a.y, b.y)),
                    },
                );
            }
        },
        Tool::Blur | Tool::Counter | Tool::Text => {},
    }
    proof {
        assert(path_list(result@) =~= outline_of(annotation@));
    }
    result
}

/// A point of the screen as subpixels of the image whose corner is at `origin`.
pub open spec fn placed(point: Point, origin: Point, scale: u16) -> Point {
    Point { x: ((point.x - origin.x) * scale) as i64, y: ((point.y - origin.y) * scale) as i64 }
}

/// The points of a line, placed on the image.
pub open spec fn placed_line(points: Seq<Point>, origin: Point, scale: u16) -> Seq<Point> {
    points.map_values(|point: Point| placed(point, origin, scale))
}

/// A path, placed on the image.
pub open spec fn placed_path(path: PathView, origin: Point, scale: u16) -> PathView {
    match path {
        PathView::Line(points) => PathView::Line(placed_line(points, origin, scale)),
        PathView::ArrowHead { from, to } => PathView::ArrowHead {
            from: placed(from, origin, scale),
            to: placed(to, origin, scale),
        },
        PathView::Ellipse { a, b } => PathView::Ellipse {
            a: placed(a, origin, scale),
            b: placed(b, origin, scale),
        },
    }
}

/// Paths, placed on the image.
pub open spec fn placed_paths(paths: Seq<PathView>, origin: Point, scale: u16) -> Seq<PathView> {
    paths.map_values(|path: PathView| placed_path(path, origin, scale))
}

/// A length between two points in range, or a difference of two coordinates,
/// can be scaled.
proof fn lemma_scaled(length: int, scale: u16)
    requires
        -2 * COORD_LIMIT <= length <= 2 * COORD_LIMIT,
    ensures
        -0x2000_0000_0000_0000 <= length * scale <= 0x2000_0000_0000_0000,
{
    assert(-0x2000_0000_0000 * 0x1_0000 <= length * scale <= 0x2000_0000_0000 * 0x1_0000)
        by (nonlinear_arith)
        requires
            -0x2000_0000_0000 <= length <= 0x2000_0000_0000,
            0 <= scale <= 0xffff,
    ;
}

fn scaled(length: i64, scale: u16) -> (result: i64)
    requires
        -2 * COORD_LIMIT <= length <= 2 * COORD_LIMIT,
    ensures
        result == length * scale,
        -0x2000_0000_0000_0000 <= result <= 0x2000_0000_0000_0000,
{
    proof {
        lemma_scaled(length as int, scale);
    }
    length * scale as i64
}

/// A point of the screen as subpixels of the image whose corner is at `origin`.
pub fn place(point: Point, origin: Point, scale: u16) -> (result: Point)
    requires
        point.wf(),
        origin.wf(),
    ensures
        result == placed(point, origin, scale),
{
    Point::new(scaled(point.x - origin.x, scale), scaled(point.y - origin.y, scale))
}

fn place_line(points: &Vec<Point>, origin: Point, scale: u16) -> (result: Vec<Point>)
    requires
        origin.wf(),
        forall|i: int| 0 <= i < points@.len() ==> (#[trigger] points@[i]).wf(),
    ensures
        result@ == placed_line(points@, origin, scale),
{
    let mut result: Vec<Point> = Vec::new();
    let mut i: usize = 0;
    while i < points.len()
        invariant
            i <= points@.len(),
            origin.wf(),
            forall|j: int| 0 <= j < points@.len() ==> (#[trigger] points@[j]).wf(),
            result@ == placed_line(points@, origin, scale).take(i as int),
        decreases points@.len() - i,
    {
        proof {
            assert(points@[i as int].wf());
        }
        result.push(place(points[i], origin, scale));
        i += 1;
    }
    proof {
        assert(result@ =~= placed_line(points@, origin, scale));
    }
    result
}

/// Something to paint over the redacted image, in its subpixels.
#[derive(Debug)]
pub enum Mark {
    /// Paths to stroke.
    Stroke { paths: Vec<Path>, color: Ink, width: i64 },
    /// A step number to show.
    Badge { at: Point, index: u32, color: Ink, width: i64 },
    /// A caption to write.
    Caption { at: Point, text: String, color: Ink, width: i64 },
}

pub enum MarkView {
    Stroke { paths: Seq<PathView>, color: Ink, width: i64 },
    Badge { at: Point, index: u32, color: Ink, width: i64 },
    Caption { at: Point, text: Seq<char>, color: Ink, width: i64 },
}

impl View for Mark {
    type V = MarkView;

    open spec fn view(&self) -> MarkView {
        match self {
            Mark::Stroke { paths, color, width } => MarkView::Stroke {
                paths: path_list(paths@),
                color: *color,
                width: *width,
            },
            Mark::Badge { at, index, color, width } => MarkView::Badge {
                at: *at,
                index: *index,
                color: *color,
                width: *width,
            },
            Mark::Caption { at, text, color, width } => MarkView::Caption {
                at: *at,
                text: text@,
                color: *color,
                width: *width,
            },
        }
    }
}

/// The marks of a list.
pub open spec fn mark_list(list: Seq<Mark>) -> Seq<MarkView> {
    list.map_values(|mark: Mark| mark@)
}

/// An annotation's stroke width on the image: never thinner than a pixel.
pub open spec fn stroke_width(annotation: AnnotationView, scale: u16) -> i64 {
    geom::greater(annotation.width * scale, SUBPIXELS as int) as i64
}

/// What an annotation paints on the image.
pub open spec fn mark_of(annotation: AnnotationView, origin: Point, scale: u16) -> MarkView {
    let color = annotation.color;
    let width = stroke_width(annotation, scale);
    match annotation.tool {
        Tool::Counter => MarkView::Badge {
            at: placed(annotation.points[0], origin, scale),
            index: annotation.index,
            color,
            width,
        },
        Tool::Text => MarkView::Caption {
            at: placed(annotation.points[0], origin, scale),
            text: annotation.text,
            color,
            width,
        },
        _ => MarkView::Stroke {
            paths: placed_paths(outline_of(annotation), origin, scale),
            color,
            width,
        },
    }
}

/// What the annotations paint on the image, in order. Blur paints nothing.
pub open spec fn marks_of(list: Seq<AnnotationView>, origin: Point, scale: u16) -> Seq<MarkView>
    decreases list.len(),
{
    if list.len() == 0 {
        Seq::empty()
    } else {
        let rest = marks_of(list.drop_last(), origin, scale);
        if list.last().tool == Tool::Blur {
            rest
        } else {
            rest.push(mark_of(list.last(), origin, scale))
        }
    }
}

/// The side of a redaction's blocks: two and a half stroke widths, and at least
/// six pixels.
pub open spec fn block_side(annotation: AnnotationView, scale: u16) -> int {
    geom::greater(annotation.width * scale * 5 / 2, 6 * SUBPIXELS)
}

/// The image after every blur among the annotations, in order.
pub open spec fn redacted(
    pixels: (u32, u32, Seq<u8>),
    list: Seq<AnnotationView>,
    origin: Point,
    scale: u16,
) -> (u32, u32, Seq<u8>)
    decreases list.len(),
{
    if list.len() == 0 {
        pixels
    } else {
        let rest = redacted(pixels, list.drop_last(), origin, scale);
        let last = list.last();
        match last.area() {
            Some(area) if last.tool == Tool::Blur => redact::pixelated(
                rest,
                (area.x - origin.x) * scale,
                (area.y - origin.y) * scale,
                area.width * scale,
                area.height * scale,
                block_side(last, scale),
            ),
            _ => rest,
        }
    }
}

/// Every annotation of a list is valid.
pub open spec fn all_wf(list: Seq<AnnotationView>) -> bool {
    forall|i: int| 0 <= i < list.len() ==> (#[trigger] list[i]).wf()
}

/// A capture with its annotations worked in, as far as that goes without
/// painting.
pub enum Rasterized {
    /// Nothing was annotated: the capture as it is.
    Unchanged(Vec<u8>),
    /// The redacted image, and what is left to paint over it, in order.
    Redrawn { raster: Raster, marks: Vec<Mark> },
}

pub enum RasterizedView {
    Unchanged(Seq<u8>),
    Redrawn { pixels: (u32, u32, Seq<u8>), marks: Seq<MarkView> },
}

impl View for Rasterized {
    type V = RasterizedView;

    open spec fn view(&self) -> RasterizedView {
        match self {
            Rasterized::Unchanged(png) => RasterizedView::Unchanged(png@),
            Rasterized::Redrawn { raster, marks } => RasterizedView::Redrawn {
                pixels: raster@,
                marks: mark_list(marks@),
            },
        }
    }
}

/// What becomes of a capture and its annotations: nothing annotated leaves it
/// as it is; else it is decoded, redacted, and the rest is left to paint.
pub open spec fn rasterized(
    list: Seq<AnnotationView>,
    png: Seq<u8>,
    origin: Point,
    scale: u16,
) -> Result<RasterizedView, ImageErrorView> {
    if list.len() == 0 {
        Ok(RasterizedView::Unchanged(png))
    } else {
        match image::decoded(png) {
            Err(cause) => Err(ImageErrorView::Decode(cause)),
            Ok(pixels) => Ok(
                RasterizedView::Redrawn {
                    pixels: redacted(pixels, list, origin, scale),
                    marks: marks_of(list, origin, scale),
                },
            ),
        }
    }
}

/// The paths of an annotation, placed on the image.
fn place_outline(annotation: &Annotation, origin: Point, scale: u16) -> (result: Vec<Path>)
    requires
        annotation@.wf(),
        origin.wf(),
    ensures
        path_list(result@) == placed_paths(outline_of(annotation@), origin, scale),
{
    let paths = outline(annotation);
    let ghost views = outline_of(annotation@);
    let mut result: Vec<Path> = Vec::new();
    let mut i: usize = 0;
    proof {
        assert forall|k: int| 0 <= k < views.len() implies path_points_wf(#[trigger] views[k]) by {
            lemma_outline_wf(annotation@, k);
        }
    }
    while i < paths.len()
        invariant
            i <= paths@.len() == views.len(),
            origin.wf(),
            views == path_list(paths@),
            forall|k: int| 0 <= k < views.len() ==> path_points_wf(#[trigger] views[k]),
            path_list(result@) == placed_paths(views, origin, scale).take(i as int),
        decreases paths@.len() - i,
    {
        let ghost before = result@;
        let ghost view = views[i as int];
        proof {
            assert(view == paths@[i as int]@);
            assert(path_points_wf(view));
        }
        let path = match &paths[i] {
            Path::Line(points) => Path::Line(place_line(points, origin, scale)),
            Path::ArrowHead { from, to } => Path::ArrowHead {
                from: place(*from, origin, scale),
                to: place(*to, origin, scale),
            },
            Path::Ellipse { a, b } => Path::Ellipse {
                a: place(*a, origin, scale),
                b: place(*b, origin, scale),
            },
        };
        result.push(path);
        proof {
            assert(path@ == placed_path(view, origin, scale));
            assert(path_list(result@) =~= path_list(before).push(path@));
            assert(placed_paths(views, origin, scale).take(i + 1) =~= placed_paths(
                views,
                origin,
                scale,
            ).take(i as int).push(path@));
        }
        i += 1;
    }
    proof {
        assert(placed_paths(views, origin, scale).take(i as int) =~= placed_paths(
            views,
            origin,
            scale,
        ));
    }
    result
}

/// Every point of a path is in range.
pub open spec fn path_points_wf(path: PathView) -> bool {
    match path {
        PathView::Line(points) => forall|i: int|
            0 <= i < points.len() ==> (#[trigger] points[i]).wf(),
        PathView::ArrowHead { from, to } => from.wf() && to.wf(),
        PathView::Ellipse { a, b } => a.wf() && b.wf(),
    }
}

proof fn lemma_outline_wf(annotation: AnnotationView, k: int)
    requires
        annotation.wf(),
        0 <= k < outline_of(annotation).len(),
    ensures
        path_points_wf(outline_of(annotation)[k]),
{
    let points = annotation.points;
    if points.len() == 2 {
        assert(points[0].wf() && points[1].wf());
    }
}

/// What an annotation paints on the image.
fn mark(annotation: &Annotation, origin: Point, scale: u16) -> (result: Mark)
    requires
        annotation@.wf(),
        origin.wf(),
    ensures
        result@ == mark_of(annotation@, origin, scale),
{
    let color = annotation.color;
    let width: i64 = max(scaled(annotation.width, scale), SUBPIXELS);
    proof {
        assert(annotation@.points[0].wf());
    }
    match annotation.tool {
        Tool::Counter => Mark::Badge {
            at: place(annotation.points[0], origin, scale),
            index: annotation.index,
            color,
            width,
        },
        Tool::Text => Mark::Caption {
            at: place(annotation.points[0], origin, scale),
            text: annotation.text.clone(),
            color,
            width,
        },
        _ => Mark::Stroke { paths: place_outline(annotation, origin, scale), color, width },
    }
}

/// Redact what one annotation asks for.
fn redact_one(raster: &mut Raster, annotation: &Annotation, origin: Point, scale: u16)
    requires
        old(raster).wf(),
        annotation@.wf(),
        origin.wf(),
    ensures
        final(raster).wf(),
        final(raster)@ == redacted(old(raster)@, seq![annotation@], origin, scale),
{
    proof {
        reveal_with_fuel(redacted, 2);
        assert(seq![annotation@].drop_last() =~= Seq::<AnnotationView>::empty());
    }
    if annotation.tool == Tool::Blur {
        if let Some(area) = annotation.bounds() {
            let wide: i64 = scaled(annotation.width, scale);
            proof {
                assert(0 <= annotation.width * scale <= 0x1_0000_0000 * 0x1_0000)
                    by (nonlinear_arith)
                    requires
                        0 <= annotation.width <= 0x1_0000_0000,
                        0 <= scale <= 0xffff,
                ;
                assert((area.x - origin.x) * scale + area.width * scale == (area.x + area.width
                    - origin.x) * scale) by (nonlinear_arith);
                assert((area.y - origin.y) * scale + area.height * scale == (area.y + area.height
                    - origin.y) * scale) by (nonlinear_arith);
                lemma_scaled(area.x + area.width - origin.x, scale);
                lemma_scaled(area.y + area.height - origin.y, scale);
            }
            redact::pixelate(
                raster,
                scaled(area.x - origin.x, scale),
                scaled(area.y - origin.y, scale),
                scaled(area.width, scale),
                scaled(area.height, scale),
                max(wide * 5 / 2, 6 * SUBPIXELS),
            );
        }
    }
}

/// Redacting in two goes, one list after the other, is redacting in one.
pub proof fn law_redactions_add_up(
    pixels: (u32, u32, Seq<u8>),
    first: Seq<AnnotationView>,
    second: Seq<AnnotationView>,
    origin: Point,
    scale: u16,
)
    ensures
        redacted(redacted(pixels, first, origin, scale), second, origin, scale) == redacted(
            pixels,
            first + second,
            origin,
            scale,
        ),
    decreases second.len(),
{
    if second.len() == 0 {
        assert(first + second =~= first);
    } else {
        assert((first + second).drop_last() =~= first + second.drop_last());
        law_redactions_add_up(pixels, first, second.drop_last(), origin, scale);
    }
}

/// Bake annotations into a captured region.
///
/// `origin` is the selection's top-left in the same space the annotations were
/// recorded in, and `scale` converts that space into image pixels - so the
/// drawing lands exactly where it appeared on screen. Redaction comes first, so
/// a box drawn to point at something is not itself pixelated by a later blur.
pub fn rasterize(
    annotations: &Vec<Annotation>,
    png: &Vec<u8>,
    origin: Point,
    scale: u16,
) -> (result: Result<Rasterized, ImageError>)
    requires
        all_wf(drawn(annotations@)),
        origin.wf(),
    ensures
        match result {
            Ok(done) => {
                &&& rasterized(drawn(annotations@), png@, origin, scale) == Ok::<
                    RasterizedView,
                    ImageErrorView,
                >(done@)
                &&& done matches Rasterized::Redrawn { raster, .. } ==> raster.wf()
            },
            Err(error) => rasterized(drawn(annotations@), png@, origin, scale) == Err::<
                RasterizedView,
                ImageErrorView,
            >(error@),
        },
{
    if annotations.len() == 0 {
        return Ok(Rasterized::Unchanged(png.clone()));
    }
    let mut raster = match image::decode(png) {
        Ok(raster) => raster,
        Err(error) => {
            return Err(error);
        },
    };
    let ghost pixels = raster@;
    let ghost all = drawn(annotations@);

    let mut i: usize = 0;
    while i < annotations.len()
        invariant
            i <= annotations@.len() == all.len(),
            all == drawn(annotations@),
            all_wf(all),
            origin.wf(),
            raster.wf(),
            raster@ == redacted(pixels, all.take(i as int), origin, scale),
        decreases annotations@.len() - i,
    {
        proof {
            assert(all[i as int] == annotations@[i as int]@);
            assert(all[i as int].wf());
            law_redactions_add_up(pixels, all.take(i as int), seq![all[i as int]], origin, scale);
            assert(all.take(i as int) + seq![all[i as int]] =~= all.take(i + 1));
        }
        redact_one(&mut raster, &annotations[i], origin, scale);
        i += 1;
    }

    let mut marks: Vec<Mark> = Vec::new();
    let mut j: usize = 0;
    while j < annotations.len()
        invariant
            j <= annotations@.len() == all.len(),
            all == drawn(annotations@),
            all_wf(all),
            origin.wf(),
            mark_list(marks@) == marks_of(all.take(j as int), origin, scale),
        decreases annotations@.len() - j,
    {
        proof {
            assert(all[j as int] == annotations@[j as int]@);
            assert(all[j as int].wf());
            assert(all.take(j + 1).drop_last() =~= all.take(j as int));
            assert(all.take(j + 1).last() == all[j as int]);
        }
        if annotations[j].tool != Tool::Blur {
            let ghost before = marks@;
            let painted = mark(&annotations[j], origin, scale);
            marks.push(painted);
            proof {
                assert(mark_list(marks@) =~= mark_list(before).push(painted@));
            }
        }
        j += 1;
    }
    proof {
        assert(all.take(all.len() as int) =~= all);
    }
    Ok(Rasterized::Redrawn { raster, marks })
}

/// A box closes back on itself, and is the same whichever corner it is dragged
/// from.
pub proof fn law_a_box_closes_and_has_no_direction(a: Point, b: Point)
    ensures
        box_line(a, b).len() == 5,
        box_line(a, b).first() == box_line(a, b).last(),
        box_line(a, b) == box_line(b, a),
{
    assert(box_line(a, b) =~= box_line(b, a));
}

/// A box or an ellipse has the same outline whichever corner it is dragged from.
pub proof fn law_boxes_and_ellipses_have_no_direction(annotation: AnnotationView)
    requires
        annotation.tool == Tool::Rectangle || annotation.tool == Tool::Ellipse,
        annotation.points.len() == 2,
    ensures
        outline_of(annotation) == outline_of(
            AnnotationView { points: seq![annotation.points[1], annotation.points[0]], ..annotation },
        ),
{
    law_a_box_closes_and_has_no_direction(annotation.points[0], annotation.points[1]);
}

/// Freehand accumulates; the other tools only ever replace their end.
pub proof fn law_freehand_accumulates_and_the_others_replace_their_end(
    annotation: AnnotationView,
    first: Point,
    second: Point,
)
    requires
        annotation.points.len() > 0,
    ensures
        annotation.tool.freehand() ==> annotation.extended(first).extended(second).points
            == annotation.points.push(first).push(second),
        !annotation.tool.freehand() ==> annotation.extended(first).extended(second)
            == annotation.extended(second),
        !annotation.tool.freehand() ==> annotation.extended(second).points == seq![
            annotation.points[0],
            second,
        ],
{
    if !annotation.tool.freehand() {
        let twice = annotation.extended(first).extended(second);
        assert(twice.points =~= annotation.extended(second).points);
        assert(annotation.extended(second).points =~= seq![annotation.points[0], second]);
    }
}

/// The highlighter is translucent and fat; every other tool leaves ink alone.
pub proof fn law_only_the_highlighter_changes_its_ink(tool: Tool, color: Ink, width: int)
    requires
        width > 0,
    ensures
        tool == Tool::Highlight ==> tool.inked(color, width).0.alpha < 50 && tool.inked(
            color,
            width,
        ).1 > width,
        tool != Tool::Highlight ==> tool.inked(color, width) == (color, width),
{
}

/// The redactions among annotations, in order.
pub open spec fn blurs(list: Seq<AnnotationView>) -> Seq<AnnotationView> {
    list.filter(|a: AnnotationView| a.tool == Tool::Blur)
}

/// Everything but the redactions, in order.
pub open spec fn strokes(list: Seq<AnnotationView>) -> Seq<AnnotationView> {
    list.filter(|a: AnnotationView| a.tool != Tool::Blur)
}

/// What is drawn, and where in the list it stands, has no say in the
/// redaction: only the blurs do, in their order.
pub proof fn law_redaction_depends_on_the_blurs_alone(
    pixels: (u32, u32, Seq<u8>),
    list: Seq<AnnotationView>,
    origin: Point,
    scale: u16,
)
    ensures
        redacted(pixels, list, origin, scale) == redacted(pixels, blurs(list), origin, scale),
    decreases list.len(),
{
    reveal(Seq::filter);
    if list.len() > 0 {
        law_redaction_depends_on_the_blurs_alone(pixels, list.drop_last(), origin, scale);
        let rest = blurs(list.drop_last());
        if list.last().tool == Tool::Blur {
            assert(blurs(list) == rest.push(list.last()));
            assert(rest.push(list.last()).drop_last() =~= rest);
        } else {
            assert(blurs(list) == rest);
        }
    }
}

proof fn lemma_marks_depend_on_the_strokes_alone(
    list: Seq<AnnotationView>,
    origin: Point,
    scale: u16,
)
    ensures
        marks_of(list, origin, scale) == marks_of(strokes(list), origin, scale),
    decreases list.len(),
{
    reveal(Seq::filter);
    if list.len() > 0 {
        lemma_marks_depend_on_the_strokes_alone(list.drop_last(), origin, scale);
        let rest = strokes(list.drop_last());
        if list.last().tool != Tool::Blur {
            assert(strokes(list) == rest.push(list.last()));
            assert(rest.push(list.last()).drop_last() =~= rest);
        } else {
            assert(strokes(list) == rest);
        }
    }
}

proof fn lemma_blurs_and_strokes_are_all(list: Seq<AnnotationView>)
    ensures
        blurs(list).len() + strokes(list).len() == list.len(),
    decreases list.len(),
{
    reveal(Seq::filter);
    if list.len() > 0 {
        lemma_blurs_and_strokes_are_all(list.drop_last());
    }
}

/// Redaction comes first whatever the order: annotations with the same blurs in
/// the same order, and the same others in the same order, come to the same image
/// and marks, however the two are mixed.
pub proof fn law_only_the_order_within_blurs_and_within_the_rest_matters(
    first: Seq<AnnotationView>,
    second: Seq<AnnotationView>,
    png: Seq<u8>,
    origin: Point,
    scale: u16,
)
    requires
        blurs(first) == blurs(second),
        strokes(first) == strokes(second),
    ensures
        rasterized(first, png, origin, scale) == rasterized(second, png, origin, scale),
{
    lemma_blurs_and_strokes_are_all(first);
    lemma_blurs_and_strokes_are_all(second);
    lemma_marks_depend_on_the_strokes_alone(first, origin, scale);
    lemma_marks_depend_on_the_strokes_alone(second, origin, scale);
    if let Some(pixels) = image::pixels(png) {
        law_redaction_depends_on_the_blurs_alone(pixels, first, origin, scale);
        law_redaction_depends_on_the_blurs_alone(pixels, second, origin, scale);
    }
}

/// A blur redacts exactly the rectangle it was dragged over: every pixel whose
/// centre lies between the two corners, rows between their vertical places and
/// columns between their horizontal ones, becomes the average of its block, and
/// every other byte of the image stays as it was.
///
/// `rows` and `columns` are the pixels with their centres between the corners.
/// `side` is the side of a block in whole pixels: two and a half stroke widths, six
/// pixels at least.
pub proof fn law_a_blur_redacts_exactly_its_rectangle(
    pixels: (u32, u32, Seq<u8>),
    annotation: AnnotationView,
    origin: Point,
    scale: u16,
    rows: (int, int),
    columns: (int, int),
    side: int,
    pixel: (int, int),
    channel: int,
)
    requires
        annotation.tool == Tool::Blur,
        annotation.points.len() == 2,
        annotation.wf(),
        origin.wf(),
        0 < pixels.0,
        pixels.2.len() == pixels.0 * pixels.1 * 4,
        ({
            let (a, b) = (annotation.points[0], annotation.points[1]);
            let near = (if a.y < b.y { a.y - origin.y } else { b.y - origin.y }) * scale;
            let far = (if a.y < b.y { b.y - origin.y } else { a.y - origin.y }) * scale;
            &&& 0 <= rows.0 <= rows.1 <= pixels.1
            &&& rows.0 < pixels.1 ==> near < rows.0 * 30720 + 15360
            &&& rows.0 > 0 ==> near >= (rows.0 - 1) * 30720 + 15360
            &&& rows.1 < pixels.1 ==> far < rows.1 * 30720 + 15360
            &&& rows.1 > 0 ==> far >= (rows.1 - 1) * 30720 + 15360
        }),
        ({
            let (a, b) = (annotation.points[0], annotation.points[1]);
            let near = (if a.x < b.x { a.x - origin.x } else { b.x - origin.x }) * scale;
            let far = (if a.x < b.x { b.x - origin.x } else { a.x - origin.x }) * scale;
            &&& 0 <= columns.0 <= columns.1 <= pixels.0
            &&& columns.0 < pixels.0 ==> near < columns.0 * 30720 + 15360
            &&& columns.0 > 0 ==> near >= (columns.0 - 1) * 30720 + 15360
            &&& columns.1 < pixels.0 ==> far < columns.1 * 30720 + 15360
            &&& columns.1 > 0 ==> far >= (columns.1 - 1) * 30720 + 15360
        }),
        side >= 6,
        annotation.width * scale * 5 / 2 < side * 30720 + 15360,
        side > 6 ==> annotation.width * scale * 5 / 2 >= side * 30720 - 15360,
        0 <= pixel.0 < pixels.1,
        0 <= pixel.1 < pixels.0,
        0 <= channel < 4,
    ensures
        ({
            let after = redacted(pixels, seq![annotation], origin, scale);
            let i = (pixel.0 * pixels.0 + pixel.1) * 4 + channel;
            &&& after.0 == pixels.0
            &&& after.1 == pixels.1
            &&& after.2.len() == pixels.2.len()
            &&& if rows.0 <= pixel.0 < rows.1 && columns.0 <= pixel.1 < columns.1 {
                let top = rows.0 + (pixel.0 - rows.0) / side * side;
                let left = columns.0 + (pixel.1 - columns.0) / side * side;
                let bottom = if top + side < rows.1 {
                    top + side
                } else {
                    rows.1
                };
                let right = if left + side < columns.1 {
                    left + side
                } else {
                    columns.1
                };
                &&& top <= pixel.0 < bottom
                &&& left <= pixel.1 < right
                &&& after.2[i] == redact::rows_sum(
                    pixels.2,
                    pixels.0 as int,
                    channel,
                    top,
                    bottom,
                    left,
                    right,
                ) / ((bottom - top) * (right - left))
            } else {
                after.2[i] == pixels.2[i]
            }
        }),
{
    reveal_with_fuel(redacted, 2);
    assert(seq![annotation].drop_last() =~= Seq::<AnnotationView>::empty());
    assert(annotation.points[0].wf() && annotation.points[1].wf());
    let area = geom::spanned(annotation.points[0], annotation.points[1]);
    let (x, y) = ((area.x - origin.x) * scale, (area.y - origin.y) * scale);
    let (width, height) = (area.width * scale, area.height * scale);
    assert(x + width == (area.x + area.width - origin.x) * scale) by (nonlinear_arith)
        requires
            x == (area.x - origin.x) * scale,
            width == area.width * scale,
    ;
    assert(y + height == (area.y + area.height - origin.y) * scale) by (nonlinear_arith)
        requires
            y == (area.y - origin.y) * scale,
            height == area.height * scale,
    ;
    redact::law_redacting_averages_exactly_the_area(
        pixels,
        x,
        y,
        width,
        height,
        block_side(annotation, scale),
        rows,
        columns,
        side,
        pixel,
        channel,
    );
}

/// Only a blur with two corners changes pixels, and the image keeps its size
/// through any annotations.
pub proof fn law_only_blurs_change_pixels(
    pixels: (u32, u32, Seq<u8>),
    list: Seq<AnnotationView>,
    origin: Point,
    scale: u16,
)
    ensures
        redacted(pixels, list, origin, scale).0 == pixels.0,
        redacted(pixels, list, origin, scale).1 == pixels.1,
        redacted(pixels, list, origin, scale).2.len() == pixels.2.len(),
        (forall|i: int|
            0 <= i < list.len() ==> (#[trigger] list[i]).tool != Tool::Blur || list[i].points.len()
                != 2) ==> redacted(pixels, list, origin, scale) == pixels,
    decreases list.len(),
{
    if list.len() > 0 {
        let before = list.drop_last();
        law_only_blurs_change_pixels(pixels, before, origin, scale);
        if forall|i: int|
            0 <= i < list.len() ==> (#[trigger] list[i]).tool != Tool::Blur || list[i].points.len()
                != 2 {
            assert forall|i: int| 0 <= i < before.len() implies (#[trigger] before[i]).tool
                != Tool::Blur || before[i].points.len() != 2 by {
                assert(before[i] == list[i]);
            }
            assert(list[list.len() - 1].tool != Tool::Blur || list[list.len() - 1].points.len()
                != 2);
        }
    }
}

/// A point lands on the image as far from its left edge as it was drawn from the
/// left edge of the selection, and as far from its top edge as it was drawn from
/// the top edge, each times the scale. What moves with the selection, on either
/// axis, stays where it was on the image.
pub proof fn law_a_point_lands_where_it_was_drawn(
    point: Point,
    origin: Point,
    scale: u16,
    dx: int,
    dy: int,
)
    requires
        point.wf(),
        origin.wf(),
        geom::in_range(point.x + dx),
        geom::in_range(point.y + dy),
        geom::in_range(origin.x + dx),
        geom::in_range(origin.y + dy),
    ensures
        placed(point, origin, scale).x == (point.x - origin.x) * scale,
        placed(point, origin, scale).y == (point.y - origin.y) * scale,
        placed(origin, origin, scale) == (Point { x: 0, y: 0 }),
        placed(
            Point { x: (point.x + dx) as i64, y: (point.y + dy) as i64 },
            Point { x: (origin.x + dx) as i64, y: (origin.y + dy) as i64 },
            scale,
        ) == placed(point, origin, scale),
{
    lemma_scaled(point.x - origin.x, scale);
    lemma_scaled(point.y - origin.y, scale);
    assert(0 * scale == 0) by (nonlinear_arith);
}

/// An annotation moved by so much.
pub open spec fn shifted(annotation: AnnotationView, dx: int, dy: int) -> AnnotationView {
    AnnotationView {
        points: Seq::new(
            annotation.points.len(),
            |i: int|
                Point {
                    x: (annotation.points[i].x + dx) as i64,
                    y: (annotation.points[i].y + dy) as i64,
                },
        ),
        ..annotation
    }
}

/// Moving the selection and an annotation together, on either axis, leaves what the
/// annotation paints on the image as it was.
pub proof fn law_marks_move_with_the_selection(
    annotation: AnnotationView,
    origin: Point,
    scale: u16,
    dx: int,
    dy: int,
)
    requires
        annotation.wf(),
        origin.wf(),
        shifted(annotation, dx, dy).wf(),
        geom::in_range(origin.x + dx),
        geom::in_range(origin.y + dy),
        -2 * COORD_LIMIT <= dx <= 2 * COORD_LIMIT,
        -2 * COORD_LIMIT <= dy <= 2 * COORD_LIMIT,
    ensures
        mark_of(
            shifted(annotation, dx, dy),
            Point { x: (origin.x + dx) as i64, y: (origin.y + dy) as i64 },
            scale,
        ) == mark_of(annotation, origin, scale),
{
    let moved = shifted(annotation, dx, dy);
    let there = Point { x: (origin.x + dx) as i64, y: (origin.y + dy) as i64 };
    assert forall|i: int| 0 <= i < annotation.points.len() implies {
        let (p, q) = (annotation.points[i], #[trigger] moved.points[i]);
        q.x == p.x + dx && q.y == p.y + dy && p.wf() && q.wf()
    } by {
        assert(annotation.points[i].wf());
        assert(moved.points[i].wf());
    }
    assert(moved.points[0].x == annotation.points[0].x + dx);
    let before = placed_paths(outline_of(annotation), origin, scale);
    let after = placed_paths(outline_of(moved), there, scale);
    if annotation.tool == Tool::Pen || annotation.tool == Tool::Highlight || annotation.tool
        == Tool::Arrow {
        assert(placed_line(moved.points, there, scale) =~= placed_line(
            annotation.points,
            origin,
            scale,
        ));
    }
    if annotation.points.len() == 2 {
        let (a, b) = (annotation.points[0], annotation.points[1]);
        let (c, d) = (moved.points[0], moved.points[1]);
        assert(c.x == a.x + dx && c.y == a.y + dy && d.x == b.x + dx && d.y == b.y + dy);
        assert(placed_line(box_line(c, d), there, scale) =~= placed_line(
            box_line(a, b),
            origin,
            scale,
        ));
    }
    assert(after =~= before);
}

/// Badges and captions are painted where they were placed, and hold what was put
/// into them; a stroke paints every path of the outline, point by point where it was
/// drawn. All of them in the annotation's colour, scaled, a pixel wide at least.
pub proof fn law_marks_land_where_they_were_drawn(
    annotation: AnnotationView,
    origin: Point,
    scale: u16,
)
    requires
        annotation.wf(),
        origin.wf(),
    ensures
        match mark_of(annotation, origin, scale) {
            MarkView::Badge { at, index, color, width } => {
                &&& annotation.tool == Tool::Counter
                &&& at.x == (annotation.points[0].x - origin.x) * scale
                &&& at.y == (annotation.points[0].y - origin.y) * scale
                &&& index == annotation.index
                &&& color == annotation.color
                &&& width >= 30720 && (width == 30720 || width == annotation.width * scale)
                &&& width >= annotation.width * scale
            },
            MarkView::Caption { at, text, color, width } => {
                &&& annotation.tool == Tool::Text
                &&& at.x == (annotation.points[0].x - origin.x) * scale
                &&& at.y == (annotation.points[0].y - origin.y) * scale
                &&& text == annotation.text
                &&& color == annotation.color
                &&& width >= 30720 && (width == 30720 || width == annotation.width * scale)
                &&& width >= annotation.width * scale
            },
            MarkView::Stroke { paths, color, width } => {
                &&& annotation.tool != Tool::Counter && annotation.tool != Tool::Text
                &&& color == annotation.color
                &&& width >= 30720 && (width == 30720 || width == annotation.width * scale)
                &&& width >= annotation.width * scale
                &&& paths.len() == outline_of(annotation).len()
                &&& forall|k: int|
                    0 <= k < paths.len() ==> match (#[trigger] paths[k], outline_of(annotation)[k]) {
                        (PathView::Line(there), PathView::Line(here)) => {
                            &&& there.len() == here.len()
                            &&& forall|i: int|
                                0 <= i < here.len() ==> (#[trigger] there[i]).x == (here[i].x
                                    - origin.x) * scale && there[i].y == (here[i].y - origin.y)
                                    * scale
                        },
                        (
                            PathView::ArrowHead { from, to },
                            PathView::ArrowHead { from: start, to: end },
                        ) => {
                            &&& from.x == (start.x - origin.x) * scale
                            &&& from.y == (start.y - origin.y) * scale
                            &&& to.x == (end.x - origin.x) * scale
                            &&& to.y == (end.y - origin.y) * scale
                        },
                        (PathView::Ellipse { a, b }, PathView::Ellipse { a: near, b: far }) => {
                            &&& a.x == (near.x - origin.x) * scale
                            &&& a.y == (near.y - origin.y) * scale
                            &&& b.x == (far.x - origin.x) * scale
                            &&& b.y == (far.y - origin.y) * scale
                        },
                        _ => false,
                    }
            },
        },
{
    assert(annotation.points[0].wf());
    assert(0 <= annotation.width * scale <= 0x1_0000_0000 * 0x1_0000) by (nonlinear_arith)
        requires
            0 <= annotation.width <= 0x1_0000_0000,
            0 <= scale <= 0xffff,
    ;
    lemma_scaled(annotation.points[0].x - origin.x, scale);
    lemma_scaled(annotation.points[0].y - origin.y, scale);
    let outline = outline_of(annotation);
    let paths = placed_paths(outline, origin, scale);
    assert forall|k: int| 0 <= k < outline.len() implies match (
        #[trigger] paths[k],
        outline[k],
    ) {
        (PathView::Line(there), PathView::Line(here)) => {
            &&& there.len() == here.len()
            &&& forall|i: int|
                0 <= i < here.len() ==> (#[trigger] there[i]).x == (here[i].x - origin.x) * scale
                    && there[i].y == (here[i].y - origin.y) * scale
        },
        (PathView::ArrowHead { from, to }, PathView::ArrowHead { from: start, to: end }) => {
            &&& from.x == (start.x - origin.x) * scale
            &&& from.y == (start.y - origin.y) * scale
            &&& to.x == (end.x - origin.x) * scale
            &&& to.y == (end.y - origin.y) * scale
        },
        (PathView::Ellipse { a, b }, PathView::Ellipse { a: near, b: far }) => {
            &&& a.x == (near.x - origin.x) * scale
            &&& a.y == (near.y - origin.y) * scale
            &&& b.x == (far.x - origin.x) * scale
            &&& b.y == (far.y - origin.y) * scale
        },
        _ => false,
    } by {
        lemma_outline_wf(annotation, k);
        match outline[k] {
            PathView::Line(here) => {
                let there = placed_line(here, origin, scale);
                assert forall|i: int| 0 <= i < here.len() implies (#[trigger] there[i]).x == (
                here[i].x - origin.x) * scale && there[i].y == (here[i].y - origin.y) * scale by {
                    assert(here[i].wf());
                    lemma_scaled(here[i].x - origin.x, scale);
                    lemma_scaled(here[i].y - origin.y, scale);
                }
            },
            PathView::ArrowHead { from, to } => {
                lemma_scaled(from.x - origin.x, scale);
                lemma_scaled(from.y - origin.y, scale);
                lemma_scaled(to.x - origin.x, scale);
                lemma_scaled(to.y - origin.y, scale);
            },
            PathView::Ellipse { a, b } => {
                lemma_scaled(a.x - origin.x, scale);
                lemma_scaled(a.y - origin.y, scale);
                lemma_scaled(b.x - origin.x, scale);
                lemma_scaled(b.y - origin.y, scale);
            },
        }
    }
}

/// A freehand stroke goes through every point of the pointer, in order. An arrow
/// goes from where the drag began to where it ended, with its head there.
pub proof fn law_strokes_and_arrows_follow_the_drag(annotation: AnnotationView)
    ensures
        annotation.tool == Tool::Pen || annotation.tool == Tool::Highlight ==> {
            &&& outline_of(annotation).len() == 1
            &&& outline_of(annotation)[0] matches PathView::Line(line) && line == annotation.points
        },
        annotation.tool == Tool::Arrow && annotation.points.len() == 2 ==> {
            &&& outline_of(annotation).len() == 2
            &&& outline_of(annotation)[0] matches PathView::Line(line) && line.len() == 2 && line[0]
                == annotation.points[0] && line[1] == annotation.points[1]
            &&& outline_of(annotation)[1] matches PathView::ArrowHead { from, to } && from
                == annotation.points[0] && to == annotation.points[1]
        },
        annotation.tool == Tool::Blur || annotation.tool == Tool::Counter || annotation.tool
            == Tool::Text ==> outline_of(annotation).len() == 0,
{
}

/// A box goes round the rectangle between its corners: from corner to corner along
/// its edges, turning at each, and back. An ellipse fills the same rectangle, from
/// its top left to its bottom right.
pub proof fn law_boxes_and_ellipses_fill_the_dragged_rectangle(annotation: AnnotationView)
    requires
        annotation.points.len() == 2,
    ensures
        ({
            let (a, b) = (annotation.points[0], annotation.points[1]);
            &&& annotation.tool == Tool::Rectangle ==> {
                &&& outline_of(annotation).len() == 1
                &&& outline_of(annotation)[0] matches PathView::Line(line) && {
                    &&& line.len() == 5
                    &&& line[0] == line[4]
                    &&& line[0].x <= line[1].x && line[0].y == line[1].y
                    &&& line[1].x == line[2].x && line[1].y <= line[2].y
                    &&& line[2].x >= line[3].x && line[2].y == line[3].y
                    &&& line[3].x == line[0].x && line[3].y >= line[0].y
                    &&& (line[0].x == a.x && line[2].x == b.x) || (line[0].x == b.x && line[2].x
                        == a.x)
                    &&& (line[0].y == a.y && line[2].y == b.y) || (line[0].y == b.y && line[2].y
                        == a.y)
                }
            }
            &&& annotation.tool == Tool::Ellipse ==> {
                &&& outline_of(annotation).len() == 1
                &&& outline_of(annotation)[0] matches PathView::Ellipse { a: near, b: far } && {
                    &&& near.x <= far.x && near.y <= far.y
                    &&& (near.x == a.x && far.x == b.x) || (near.x == b.x && far.x == a.x)
                    &&& (near.y == a.y && far.y == b.y) || (near.y == b.y && far.y == a.y)
                }
            }
        }),
{
}

/// What is worth keeping: a shape between two corners more than three points apart,
/// a freehand stroke of more than one point, a step number at once, and a caption
/// with anything but white space in it.
pub proof fn law_a_click_that_draws_nothing_is_not_kept(annotation: AnnotationView)
    requires
        annotation.points.len() > 0,
    ensures
        annotation.tool == Tool::Arrow || annotation.tool == Tool::Rectangle || annotation.tool
            == Tool::Ellipse || annotation.tool == Tool::Blur ==> {
            &&& annotation.points.len() != 2 ==> !annotation.usable()
            &&& annotation.points.len() == 2 ==> {
                let dx = annotation.points[0].x - annotation.points[1].x;
                let dy = annotation.points[0].y - annotation.points[1].y;
                annotation.usable() <==> dx * dx + dy * dy > (3 * 256) * (3 * 256)
            }
        },
        annotation.tool == Tool::Pen || annotation.tool == Tool::Highlight ==> (
        annotation.usable() <==> annotation.points.len() >= 2),
        annotation.tool == Tool::Counter ==> annotation.usable(),
        annotation.tool == Tool::Text ==> (annotation.usable() <==> exists|i: int|
            0 <= i < annotation.text.len() && !text::space(#[trigger] annotation.text[i])),
{
    let s = annotation.text;
    text::lemma_words_of_trimmed(s);
    text::lemma_no_words(s);
    text::lemma_no_words(text::trimmed(s));
    text::lemma_trimmed_is_bare(s);
    let cut = text::trimmed(s);
    if cut.len() > 0 {
        assert(!text::space(cut[0]));
    }
}

/// A drag adds every point to a freehand stroke, and moves the second corner of
/// anything else; the tool, the ink, the width and where it began stay.
pub proof fn law_a_drag_only_adds_points(annotation: AnnotationView, to: Point)
    requires
        annotation.points.len() > 0,
    ensures
        ({
            let after = annotation.extended(to);
            &&& after.tool == annotation.tool
            &&& after.color == annotation.color
            &&& after.width == annotation.width
            &&& after.index == annotation.index
            &&& after.text == annotation.text
            &&& after.points[0] == annotation.points[0]
            &&& after.points.last() == to
            &&& if annotation.tool == Tool::Pen || annotation.tool == Tool::Highlight {
                after.points.len() == annotation.points.len() + 1 && forall|i: int|
                    0 <= i < annotation.points.len() ==> #[trigger] after.points[i]
                        == annotation.points[i]
            } else {
                after.points.len() == 2
            }
        }),
{
}

/// The rectangle a blur covers lies between its two points and touches both.
pub proof fn law_the_area_lies_between_the_two_points(annotation: AnnotationView)
    requires
        annotation.wf(),
    ensures
        annotation.area() is Some <==> annotation.points.len() == 2,
        annotation.area() matches Some(area) ==> {
            let (a, b) = (annotation.points[0], annotation.points[1]);
            &&& (area.x == a.x && area.x + area.width == b.x) || (area.x == b.x && area.x
                + area.width == a.x)
            &&& (area.y == a.y && area.y + area.height == b.y) || (area.y == b.y && area.y
                + area.height == a.y)
            &&& area.width >= 0 && area.height >= 0
        },
{
    if annotation.points.len() == 2 {
        assert(annotation.points[0].wf() && annotation.points[1].wf());
    }
}

/// The highlighter keeps the hue of the ink in hand, lets about two thirds of what
/// is below shine through, and is five times as wide; every other tool draws with
/// the ink and the width in hand.
pub proof fn law_the_ink_in_hand_is_the_ink_drawn_with(tool: Tool, color: Ink, width: int)
    ensures
        ({
            let (ink, wide) = tool.inked(color, width);
            &&& ink.red == color.red && ink.green == color.green && ink.blue == color.blue
            &&& tool == Tool::Highlight ==> ink.alpha == 35 && wide == 5 * width
            &&& tool != Tool::Highlight ==> ink.alpha == color.alpha && wide == width
        }),
{
}

/// The colours are opaque, all different, and what their names say: the channel
/// that names one is its strongest.
pub proof fn law_the_colours_are_what_their_names_say(i: int, j: int)
    requires
        0 <= i < PALETTE_SIZE,
        0 <= j < PALETTE_SIZE,
    ensures
        palette().len() == PALETTE_SIZE,
        palette()[i].1.alpha == 100,
        palette()[i].1.red <= 100 && palette()[i].1.green <= 100 && palette()[i].1.blue <= 100,
        i != j ==> palette()[i].1 != palette()[j].1,
        ({
            let ink = palette()[i].1;
            &&& palette()[i].0 == "red"@ ==> ink.red > 2 * ink.green && ink.red > 2 * ink.blue
            &&& palette()[i].0 == "orange"@ ==> ink.red > ink.green > 2 * ink.blue
            &&& palette()[i].0 == "yellow"@ ==> ink.green > 2 * ink.blue && ink.red < 2 * ink.green
            &&& palette()[i].0 == "green"@ ==> ink.green > ink.red && ink.green > ink.blue
            &&& palette()[i].0 == "blue"@ ==> ink.blue > ink.red && ink.blue > ink.green
            &&& palette()[i].0 == "white"@ ==> ink.red == 100 && ink.green == 100 && ink.blue
                == 100
        }),
{
    reveal_strlit("red");
    reveal_strlit("orange");
    reveal_strlit("yellow");
    reveal_strlit("green");
    reveal_strlit("blue");
    reveal_strlit("white");
    let names = seq!["red"@, "orange"@, "yellow"@, "green"@, "blue"@, "white"@];
    assert(palette()[i].0 == names[i]);
    assert("red"@[0] == 'r' && "orange"@[0] == 'o' && "yellow"@[0] == 'y' && "green"@[0] == 'g'
        && "blue"@[0] == 'b' && "white"@[0] == 'w');
}

/// The thickness control goes to the next thicker stroke, and from the thickest
/// back to the thinnest.
pub proof fn law_the_widths_grow(width: i64, other: i64)
    requires
        widths().contains(width),
        widths().contains(other),
    ensures
        next_width(width) > width ==> !(width < other < next_width(width)),
        next_width(width) <= width ==> other <= width && other >= next_width(width),
        2 * 256 <= width <= 12 * 256,
{
    let all = widths();
    let i = choose|i: int| 0 <= i < all.len() && all[i] == width;
    let j = choose|j: int| 0 <= j < all.len() && all[j] == other;
    assert(all[0] == 512 && all[1] == 1024 && all[2] == 1792 && all[3] == 3072);
}

/// A redaction's blocks are two and a half stroke widths on the image, rounded down
/// to a subpixel, and never less than six pixels.
pub proof fn law_blocks_grow_with_the_stroke(annotation: AnnotationView, scale: u16)
    ensures
        block_side(annotation, scale) >= 6 * 30720,
        2 * block_side(annotation, scale) + 1 >= 5 * (annotation.width * scale),
        block_side(annotation, scale) > 6 * 30720 ==> 2 * block_side(annotation, scale) <= 5 * (
        annotation.width * scale),
{
    assert(annotation.width * scale * 5 == 5 * (annotation.width * scale)) by (nonlinear_arith);
}

/// Everything but the blurs is painted, each once, in the order it was drawn.
pub proof fn law_marks_keep_the_order_of_drawing(
    list: Seq<AnnotationView>,
    origin: Point,
    scale: u16,
)
    ensures
        marks_of(list, origin, scale).len() == strokes(list).len(),
        forall|k: int|
            0 <= k < strokes(list).len() ==> #[trigger] marks_of(list, origin, scale)[k] == mark_of(
                strokes(list)[k],
                origin,
                scale,
            ),
    decreases list.len(),
{
    reveal(Seq::filter);
    if list.len() > 0 {
        law_marks_keep_the_order_of_drawing(list.drop_last(), origin, scale);
    }
}

/// Nothing annotated leaves the file as it is; anything annotated leaves the image
/// its size, paints everything but the blurs, and fails only where the file cannot
/// be decoded.
pub proof fn law_rasterizing_keeps_the_image(
    list: Seq<AnnotationView>,
    png: Seq<u8>,
    origin: Point,
    scale: u16,
)
    ensures
        list.len() == 0 ==> rasterized(list, png, origin, scale) == Ok::<
            RasterizedView,
            ImageErrorView,
        >(RasterizedView::Unchanged(png)),
        list.len() > 0 ==> (rasterized(list, png, origin, scale) is Ok <==> image::pixels(png)
            is Some),
        list.len() > 0 && image::pixels(png) is Some ==> {
            &&& rasterized(list, png, origin, scale)->Ok_0 matches RasterizedView::Redrawn {
                pixels,
                marks,
            } && {
                let whole = image::pixels(png)->0;
                &&& pixels.0 == whole.0
                &&& pixels.1 == whole.1
                &&& pixels == redacted(image::pixels(png)->0, blurs(list), origin, scale)
                &&& marks.len() == strokes(list).len()
            }
        },
{
    if let Some(pixels) = image::pixels(png) {
        law_only_blurs_change_pixels(pixels, list, origin, scale);
        law_redaction_depends_on_the_blurs_alone(pixels, list, origin, scale);
        law_marks_keep_the_order_of_drawing(list, origin, scale);
    }
}

/// The colours come in the order of their numbers, each with its parts in hundredths.
pub proof fn law_the_colours_come_in_order()
    ensures
        palette()[0] == ("red"@, (Ink { red: 92, green: 19, blue: 21, alpha: 100 })),
        palette()[1] == ("orange"@, (Ink { red: 96, green: 55, blue: 13, alpha: 100 })),
        palette()[2] == ("yellow"@, (Ink { red: 98, green: 83, blue: 20, alpha: 100 })),
        palette()[3] == ("green"@, (Ink { red: 30, green: 76, blue: 38, alpha: 100 })),
        palette()[4] == ("blue"@, (Ink { red: 26, green: 52, blue: 96, alpha: 100 })),
        palette()[5] == ("white"@, (Ink { red: 100, green: 100, blue: 100, alpha: 100 })),
{
}

/// A new annotation is where the button went down and nowhere else, as it was asked
/// for, with no number and no text yet; a drag changes nothing but its points.
pub proof fn law_a_new_annotation_is_as_asked_for(
    tool: Tool,
    from: Point,
    color: Ink,
    width: i64,
    to: Point,
)
    ensures
        ({
            let new = AnnotationView::fresh(tool, from, color, width);
            let moved = new.extended(to);
            &&& new.tool == tool && new.color == color && new.width == width
            &&& new.points.len() == 1 && new.points[0] == from
            &&& new.index == 0 && new.text.len() == 0
            &&& moved.tool == tool && moved.color == color && moved.width == width
            &&& moved.points.len() == 2 && moved.points[0] == from && moved.points[1] == to
            &&& moved.index == 0 && moved.text.len() == 0
        }),
{
}

/// Only what is drawn between two places needs a drag, and only what follows the
/// pointer keeps every place it came by.
pub proof fn law_every_tool_is_used_its_own_way(tool: Tool)
    ensures
        tool.spans_two_corners() <==> tool == Tool::Arrow || tool == Tool::Rectangle || tool
            == Tool::Ellipse || tool == Tool::Blur,
        tool.freehand() <==> tool == Tool::Pen || tool == Tool::Highlight,
        !(tool.freehand() && tool.spans_two_corners()),
{
}

} // verus!
