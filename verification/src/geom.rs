//! Geometry for the selection overlay, independent of any toolkit.
//!
//! The rules for what a drag means, where the toolbars can sit and how a
//! selection maps onto image pixels have nothing to do with which library
//! draws them, so no widget type appears here.
//!
//! A coordinate counts 256ths of a logical point, the unit in which Wayland
//! reports pointer positions, and an output scale counts 120ths, the unit of
//! Wayland's fractional scale. Every position, size and area is then exact.
use vstd::prelude::*;

verus! {

/// Coordinate units in one logical point.
pub const UNITS: i64 = 256;

/// The scale of an output that shows one pixel per point.
pub const SCALE_ONE: u16 = 120;

/// Subpixels in one image pixel: a coordinate unit times a scale unit is one
/// subpixel.
pub const SUBPIXELS: i64 = 30720;

/// How close to a corner counts as grabbing it: 18 points.
pub const HANDLE_GRAB: i64 = 4608;

/// Drawn size of a corner handle: 8 points.
pub const HANDLE_DRAW: i64 = 2048;

/// Selections smaller than this in either axis are a stray click, not a drag:
/// 4 points.
pub const MIN_SELECTION: i64 = 1024;

/// The largest coordinate, in either direction, that positions may have.
pub const COORD_LIMIT: i64 = 0x1000_0000_0000;

pub open spec fn in_range(c: int) -> bool {
    -COORD_LIMIT <= c <= COORD_LIMIT
}

pub open spec fn lesser(a: int, b: int) -> int {
    if a <= b {
        a
    } else {
        b
    }
}

pub open spec fn greater(a: int, b: int) -> int {
    if a >= b {
        a
    } else {
        b
    }
}

pub open spec fn magnitude(a: int) -> int {
    if a < 0 {
        -a
    } else {
        a
    }
}

pub fn min(a: i64, b: i64) -> (result: i64)
    ensures
        result == lesser(a as int, b as int),
{
    if a <= b {
        a
    } else {
        b
    }
}

pub fn max(a: i64, b: i64) -> (result: i64)
    ensures
        result == greater(a as int, b as int),
{
    if a >= b {
        a
    } else {
        b
    }
}

fn distance(a: i64, b: i64) -> (result: i64)
    requires
        i64::MIN <= a - b <= i64::MAX,
        i64::MIN <= b - a <= i64::MAX,
    ensures
        result == magnitude(a - b),
{
    if a < b {
        b - a
    } else {
        a - b
    }
}

#[derive(Debug, Clone, Copy, PartialEq, Eq, Structural, Default)]
pub struct Point {
    pub x: i64,
    pub y: i64,
}

impl Point {
    pub open spec fn wf(self) -> bool {
        in_range(self.x as int) && in_range(self.y as int)
    }

    pub fn new(x: i64, y: i64) -> (point: Self)
        ensures
            point.x == x,
            point.y == y,
    {
        Self { x, y }
    }

    /// The top left corner of the screen.
    pub fn origin() -> (point: Self)
        ensures
            point.x == 0,
            point.y == 0,
    {
        Self { x: 0, y: 0 }
    }
}

#[derive(Debug, Clone, Copy, PartialEq, Eq, Structural, Default)]
pub struct Size {
    pub width: i64,
    pub height: i64,
}

impl Size {
    pub open spec fn wf(self) -> bool {
        in_range(self.width as int) && in_range(self.height as int)
    }

    pub fn new(width: i64, height: i64) -> (size: Self)
        ensures
            size.width == width,
            size.height == height,
    {
        Self { width, height }
    }
}

#[derive(Debug, Clone, Copy, PartialEq, Eq, Structural, Default)]
pub struct Rect {
    pub x: i64,
    pub y: i64,
    pub width: i64,
    pub height: i64,
}

impl Rect {
    /// All four corners are in range.
    pub open spec fn wf(self) -> bool {
        &&& in_range(self.x as int)
        &&& in_range(self.y as int)
        &&& in_range(self.x + self.width)
        &&& in_range(self.y + self.height)
    }

    /// Whether a position lies in the rectangle, its far edges left out.
    pub open spec fn covers(self, x: int, y: int) -> bool {
        self.x <= x < self.x + self.width && self.y <= y < self.y + self.height
    }

    pub open spec fn area(self) -> int {
        self.width * self.height
    }

    pub fn new(origin: Point, size: Size) -> (rect: Self)
        ensures
            rect.x == origin.x,
            rect.y == origin.y,
            rect.width == size.width,
            rect.height == size.height,
    {
        Self { x: origin.x, y: origin.y, width: size.width, height: size.height }
    }

    pub fn position(self) -> (point: Point)
        ensures
            point.x == self.x,
            point.y == self.y,
    {
        Point::new(self.x, self.y)
    }

    pub fn size(self) -> (size: Size)
        ensures
            size.width == self.width,
            size.height == self.height,
    {
        Size::new(self.width, self.height)
    }

    pub fn right(self) -> (result: i64)
        requires
            i64::MIN <= self.x + self.width <= i64::MAX,
        ensures
            result == self.x + self.width,
    {
        self.x + self.width
    }

    pub fn bottom(self) -> (result: i64)
        requires
            i64::MIN <= self.y + self.height <= i64::MAX,
        ensures
            result == self.y + self.height,
    {
        self.y + self.height
    }

    /// Whether a point lies in the rectangle, its edges included.
    pub open spec fn holds(self, point: Point) -> bool {
        &&& self.x <= point.x <= self.x + self.width
        &&& self.y <= point.y <= self.y + self.height
    }

    pub fn contains(self, point: Point) -> (result: bool)
        requires
            i64::MIN <= self.x + self.width <= i64::MAX,
            i64::MIN <= self.y + self.height <= i64::MAX,
        ensures
            result == self.holds(point),
    {
        point.x >= self.x && point.x <= self.right() && point.y >= self.y && point.y
            <= self.bottom()
    }
}

#[derive(Debug, Clone, Copy, PartialEq, Eq, Structural)]
pub enum Corner {
    TopLeft,
    TopRight,
    BottomLeft,
    BottomRight,
}

#[derive(Debug, Clone, Copy, PartialEq, Eq, Structural)]
pub enum Edge {
    Top,
    Bottom,
    Left,
    Right,
}

/// Whether two coordinates are within the grab radius of each other.
pub open spec fn near(a: int, b: int) -> bool {
    magnitude(a - b) <= HANDLE_GRAB
}

fn is_near(a: i64, b: i64) -> (result: bool)
    requires
        in_range(a as int),
        in_range(b as int),
    ensures
        result == near(a as int, b as int),
{
    distance(a, b) <= HANDLE_GRAB
}

/// Whether `position` is on the line through `edge`, no further past the
/// edge's ends than the grab radius.
pub open spec fn on_edge(rect: Rect, edge: Edge, position: Point) -> bool {
    let within_x = rect.x - HANDLE_GRAB <= position.x <= rect.x + rect.width + HANDLE_GRAB;
    let within_y = rect.y - HANDLE_GRAB <= position.y <= rect.y + rect.height + HANDLE_GRAB;
    match edge {
        Edge::Top => within_x && near(position.y as int, rect.y as int),
        Edge::Bottom => within_x && near(position.y as int, rect.y + rect.height),
        Edge::Left => within_y && near(position.x as int, rect.x as int),
        Edge::Right => within_y && near(position.x as int, rect.x + rect.width),
    }
}

/// The first of top, bottom, left and right that `position` is on.
pub open spec fn edge_at(rect: Rect, position: Point) -> Option<Edge> {
    if on_edge(rect, Edge::Top, position) {
        Some(Edge::Top)
    } else if on_edge(rect, Edge::Bottom, position) {
        Some(Edge::Bottom)
    } else if on_edge(rect, Edge::Left, position) {
        Some(Edge::Left)
    } else if on_edge(rect, Edge::Right, position) {
        Some(Edge::Right)
    } else {
        None
    }
}

/// The edge under the pointer, if any.
///
/// Corners are checked first by the caller and win: within the grab radius of a
/// corner, two edges are both in range, and resizing one axis when you aimed at
/// a corner feels broken.
pub fn nearest_edge(rect: Rect, position: Point) -> (edge: Option<Edge>)
    requires
        rect.wf(),
        position.wf(),
    ensures
        edge == edge_at(rect, position),
{
    let within_x: bool = position.x >= rect.x - HANDLE_GRAB && position.x <= rect.right()
        + HANDLE_GRAB;
    let within_y: bool = position.y >= rect.y - HANDLE_GRAB && position.y <= rect.bottom()
        + HANDLE_GRAB;

    if within_x && is_near(position.y, rect.y) {
        return Some(Edge::Top);
    }
    if within_x && is_near(position.y, rect.bottom()) {
        return Some(Edge::Bottom);
    }
    if within_y && is_near(position.x, rect.x) {
        return Some(Edge::Left);
    }
    if within_y && is_near(position.x, rect.right()) {
        return Some(Edge::Right);
    }
    None
}

/// The rectangle with two opposite corners at `a` and `b`.
pub open spec fn spanned(a: Point, b: Point) -> Rect {
    Rect {
        x: lesser(a.x as int, b.x as int) as i64,
        y: lesser(a.y as int, b.y as int) as i64,
        width: magnitude(a.x - b.x) as i64,
        height: magnitude(a.y - b.y) as i64,
    }
}

/// A rectangle from two opposite corners, in any order.
pub fn from_corners(a: Point, b: Point) -> (rect: Rect)
    requires
        a.wf(),
        b.wf(),
    ensures
        rect == spanned(a, b),
        rect.wf(),
        rect.width >= 0,
        rect.height >= 0,
{
    Rect::new(
        Point::new(min(a.x, b.x), min(a.y, b.y)),
        Size::new(distance(a.x, b.x), distance(a.y, b.y)),
    )
}

/// The rectangle with one edge moved through `position`, the other three kept.
pub open spec fn resized(rect: Rect, edge: Edge, position: Point) -> Rect {
    let left = if edge == Edge::Left {
        position.x
    } else {
        rect.x
    };
    let top = if edge == Edge::Top {
        position.y
    } else {
        rect.y
    };
    let right = if edge == Edge::Right {
        position.x as int
    } else {
        rect.x + rect.width
    };
    let bottom = if edge == Edge::Bottom {
        position.y as int
    } else {
        rect.y + rect.height
    };
    spanned(Point { x: left, y: top }, Point { x: right as i64, y: bottom as i64 })
}

/// The rectangle you get by dragging one edge to `position`.
///
/// Dragging an edge past its opposite flips the rectangle rather than
/// producing a negative size.
pub fn resize_edge(rect: Rect, edge: Edge, position: Point) -> (result: Rect)
    requires
        rect.wf(),
        position.wf(),
    ensures
        result == resized(rect, edge, position),
        result.wf(),
        result.width >= 0,
        result.height >= 0,
{
    let mut left: i64 = rect.x;
    let mut top: i64 = rect.y;
    let mut right: i64 = rect.right();
    let mut bottom: i64 = rect.bottom();

    match edge {
        Edge::Top => {
            top = position.y;
        },
        Edge::Bottom => {
            bottom = position.y;
        },
        Edge::Left => {
            left = position.x;
        },
        Edge::Right => {
            right = position.x;
        },
    }

    from_corners(Point::new(left, top), Point::new(right, bottom))
}

/// Where a corner of the rectangle is.
pub open spec fn corner_point(rect: Rect, corner: Corner) -> Point {
    let right = (rect.x + rect.width) as i64;
    let bottom = (rect.y + rect.height) as i64;
    match corner {
        Corner::TopLeft => Point { x: rect.x, y: rect.y },
        Corner::TopRight => Point { x: right, y: rect.y },
        Corner::BottomLeft => Point { x: rect.x, y: bottom },
        Corner::BottomRight => Point { x: right, y: bottom },
    }
}

/// The corners: top left, top right, bottom left, bottom right.
pub fn corners(rect: Rect) -> (result: [Point; 4])
    requires
        rect.wf(),
    ensures
        result@[0] == corner_point(rect, Corner::TopLeft),
        result@[1] == corner_point(rect, Corner::TopRight),
        result@[2] == corner_point(rect, Corner::BottomLeft),
        result@[3] == corner_point(rect, Corner::BottomRight),
        forall|i: int| 0 <= i < 4 ==> (#[trigger] result@[i]).wf(),
{
    [
        Point::new(rect.x, rect.y),
        Point::new(rect.right(), rect.y),
        Point::new(rect.x, rect.bottom()),
        Point::new(rect.right(), rect.bottom()),
    ]
}

/// Whether `position` is within the grab radius of a corner, in both axes.
pub open spec fn at_corner(rect: Rect, corner: Corner, position: Point) -> bool {
    let point = corner_point(rect, corner);
    near(point.x as int, position.x as int) && near(point.y as int, position.y as int)
}

/// The first of the corners, in reading order, that `position` is at.
pub open spec fn corner_at(rect: Rect, position: Point) -> Option<Corner> {
    if at_corner(rect, Corner::TopLeft, position) {
        Some(Corner::TopLeft)
    } else if at_corner(rect, Corner::TopRight, position) {
        Some(Corner::TopRight)
    } else if at_corner(rect, Corner::BottomLeft, position) {
        Some(Corner::BottomLeft)
    } else if at_corner(rect, Corner::BottomRight, position) {
        Some(Corner::BottomRight)
    } else {
        None
    }
}

/// The corner under the pointer, if any.
pub fn nearest_corner(rect: Rect, position: Point) -> (corner: Option<Corner>)
    requires
        rect.wf(),
        position.wf(),
    ensures
        corner == corner_at(rect, position),
{
    let left: bool = is_near(rect.x, position.x);
    let right: bool = is_near(rect.right(), position.x);
    let top: bool = is_near(rect.y, position.y);
    let bottom: bool = is_near(rect.bottom(), position.y);

    if left && top {
        Some(Corner::TopLeft)
    } else if right && top {
        Some(Corner::TopRight)
    } else if left && bottom {
        Some(Corner::BottomLeft)
    } else if right && bottom {
        Some(Corner::BottomRight)
    } else {
        None
    }
}

/// The corner diagonally across.
pub open spec fn across(corner: Corner) -> Corner {
    match corner {
        Corner::TopLeft => Corner::BottomRight,
        Corner::TopRight => Corner::BottomLeft,
        Corner::BottomLeft => Corner::TopRight,
        Corner::BottomRight => Corner::TopLeft,
    }
}

/// The corner that stays put while `corner` is dragged.
pub fn opposite(rect: Rect, corner: Corner) -> (point: Point)
    requires
        rect.wf(),
    ensures
        point == corner_point(rect, across(corner)),
        point.wf(),
{
    match corner {
        Corner::TopLeft => Point::new(rect.right(), rect.bottom()),
        Corner::TopRight => Point::new(rect.x, rect.bottom()),
        Corner::BottomLeft => Point::new(rect.right(), rect.y),
        Corner::BottomRight => Point::new(rect.x, rect.y),
    }
}

/// One rectangle if there is anything in it, else none.
pub open spec fn solid(x: int, y: int, width: int, height: int) -> Seq<Rect> {
    if width > 0 && height > 0 {
        seq![Rect { x: x as i64, y: y as i64, width: width as i64, height: height as i64 }]
    } else {
        Seq::empty()
    }
}

/// What lies above, below, left and right of `hole`, in that order, without
/// the empty ones.
pub open spec fn surroundings(full: Rect, hole: Rect) -> Seq<Rect> {
    let hole_right = hole.x + hole.width;
    let hole_bottom = hole.y + hole.height;
    solid(full.x as int, full.y as int, full.width as int, greater(hole.y - full.y, 0)) + solid(
        full.x as int,
        hole_bottom,
        full.width as int,
        greater(full.y + full.height - hole_bottom, 0),
    ) + solid(
        full.x as int,
        hole.y as int,
        greater(hole.x - full.x, 0),
        hole.height as int,
    ) + solid(
        hole_right,
        hole.y as int,
        greater(full.x + full.width - hole_right, 0),
        hole.height as int,
    )
}

fn push_solid(list: &mut Vec<Rect>, rect: Rect)
    ensures
        final(list)@ == old(list)@ + solid(
            rect.x as int,
            rect.y as int,
            rect.width as int,
            rect.height as int,
        ),
{
    if rect.width > 0 && rect.height > 0 {
        list.push(rect);
    }
    proof {
        assert(list@ =~= old(list)@ + solid(
            rect.x as int,
            rect.y as int,
            rect.width as int,
            rect.height as int,
        ));
    }
}

/// The rectangles covering `full` except for `hole`: at most four.
pub fn surround(full: Rect, hole: Rect) -> (result: Vec<Rect>)
    requires
        full.wf(),
        hole.wf(),
    ensures
        result@ == surroundings(full, hole),
{
    let mut result: Vec<Rect> = Vec::new();
    push_solid(
        &mut result,
        Rect::new(full.position(), Size::new(full.width, max(hole.y - full.y, 0))),
    );
    push_solid(
        &mut result,
        Rect::new(
            Point::new(full.x, hole.bottom()),
            Size::new(full.width, max(full.bottom() - hole.bottom(), 0)),
        ),
    );
    push_solid(
        &mut result,
        Rect::new(Point::new(full.x, hole.y), Size::new(max(hole.x - full.x, 0), hole.height)),
    );
    push_solid(
        &mut result,
        Rect::new(
            Point::new(hole.right(), hole.y),
            Size::new(max(full.right() - hole.right(), 0), hole.height),
        ),
    );
    proof {
        assert(result@ =~= surroundings(full, hole));
    }
    result
}

/// The area that two rectangles share.
pub open spec fn shared_area(a: Rect, b: Rect) -> int {
    let width = lesser(a.x + a.width, b.x + b.width) - greater(a.x as int, b.x as int);
    let height = lesser(a.y + a.height, b.y + b.height) - greater(a.y as int, b.y as int);
    if width <= 0 || height <= 0 {
        0
    } else {
        width * height
    }
}

/// Positions and sizes small enough for areas to be computed.
pub open spec fn computable(rect: Rect) -> bool {
    let limit = 0x1000_0000_0000_0000int;
    &&& -limit <= rect.x <= limit
    &&& -limit <= rect.y <= limit
    &&& -limit <= rect.width <= limit
    &&& -limit <= rect.height <= limit
}

/// Area shared by two rectangles, in square coordinate units.
pub fn overlap(a: Rect, b: Rect) -> (area: i128)
    requires
        computable(a),
        computable(b),
    ensures
        area == shared_area(a, b),
        area >= 0,
{
    let width: i64 = min(a.right(), b.right()) - max(a.x, b.x);
    let height: i64 = min(a.bottom(), b.bottom()) - max(a.y, b.y);

    if width <= 0 || height <= 0 {
        0
    } else {
        proof {
            assert(0 < width * height <= 0x4000_0000_0000_0000 * 0x4000_0000_0000_0000)
                by (nonlinear_arith)
                requires
                    0 < width <= 0x4000_0000_0000_0000,
                    0 < height <= 0x4000_0000_0000_0000,
            ;
        }
        width as i128 * height as i128
    }
}

#[derive(Debug, Clone, Copy, PartialEq, Eq, Structural)]
pub enum Anchor {
    Top,
    Bottom,
}

#[derive(Debug, Clone, Copy, PartialEq, Eq, Structural)]
pub enum Side {
    Left,
    Right,
}

/// The strip along the top or the bottom of the screen.
pub open spec fn bar_strip(anchor: Anchor, screen: Size, bar: i64) -> Rect {
    let y = match anchor {
        Anchor::Top => 0,
        Anchor::Bottom => greater(screen.height - bar, 0),
    };
    Rect { x: 0, y: y as i64, width: screen.width, height: bar }
}

/// The strip along the left or the right of the screen.
pub open spec fn side_strip(side: Side, screen: Size, strip: i64) -> Rect {
    let x = match side {
        Side::Left => 0,
        Side::Right => greater(screen.width - strip, 0),
    };
    Rect { x: x as i64, y: 0, width: strip, height: screen.height }
}

/// Top exactly when the selection covers less of it than of the bottom.
pub open spec fn anchor_for(selection: Option<Rect>, screen: Size, bar: i64) -> Anchor {
    match selection {
        Some(rect) => if shared_area(rect, bar_strip(Anchor::Top, screen, bar)) < shared_area(
            rect,
            bar_strip(Anchor::Bottom, screen, bar),
        ) {
            Anchor::Top
        } else {
            Anchor::Bottom
        },
        None => Anchor::Bottom,
    }
}

/// Right exactly when the selection covers less of it than of the left.
pub open spec fn side_for(selection: Option<Rect>, screen: Size, strip: i64) -> Side {
    match selection {
        Some(rect) => if shared_area(rect, side_strip(Side::Right, screen, strip)) < shared_area(
            rect,
            side_strip(Side::Left, screen, strip),
        ) {
            Side::Right
        } else {
            Side::Left
        },
        None => Side::Left,
    }
}

/// The horizontal screen edge the selection covers least.
pub fn toolbar_anchor(selection: Option<Rect>, screen: Size, bar: i64) -> (anchor: Anchor)
    requires
        selection matches Some(rect) ==> rect.wf(),
        screen.wf(),
        in_range(bar as int),
    ensures
        anchor == anchor_for(selection, screen, bar),
{
    let rect = match selection {
        Some(rect) => rect,
        None => {
            return Anchor::Bottom;
        },
    };

    let top = Rect::new(Point::origin(), Size::new(screen.width, bar));
    let bottom = Rect::new(
        Point::new(0, max(screen.height - bar, 0)),
        Size::new(screen.width, bar),
    );
    let in_bottom: i128 = overlap(rect, bottom);
    let in_top: i128 = overlap(rect, top);

    if in_bottom == 0 {
        Anchor::Bottom
    } else if in_top == 0 {
        Anchor::Top
    } else if in_top < in_bottom {
        Anchor::Top
    } else {
        Anchor::Bottom
    }
}

/// The vertical screen edge the selection covers least.
pub fn sidebar_anchor(selection: Option<Rect>, screen: Size, strip: i64) -> (side: Side)
    requires
        selection matches Some(rect) ==> rect.wf(),
        screen.wf(),
        in_range(strip as int),
    ensures
        side == side_for(selection, screen, strip),
{
    let rect = match selection {
        Some(rect) => rect,
        None => {
            return Side::Left;
        },
    };

    let left = Rect::new(Point::origin(), Size::new(strip, screen.height));
    let right = Rect::new(
        Point::new(max(screen.width - strip, 0), 0),
        Size::new(strip, screen.height),
    );
    let in_left: i128 = overlap(rect, left);
    let in_right: i128 = overlap(rect, right);

    if in_left == 0 {
        Side::Left
    } else if in_right == 0 {
        Side::Right
    } else if in_right < in_left {
        Side::Right
    } else {
        Side::Left
    }
}

/// A length of `value` subpixels in whole pixels, halves rounded away from
/// zero.
pub open spec fn rounded(value: int) -> int {
    if value >= 0 {
        (value + SUBPIXELS / 2) / SUBPIXELS as int
    } else {
        -((-value + SUBPIXELS / 2) / SUBPIXELS as int)
    }
}

/// Round a length in subpixels to whole pixels, halves away from zero.
pub fn round(value: i64) -> (result: i64)
    requires
        -0x4000_0000_0000_0000 <= value <= 0x4000_0000_0000_0000,
    ensures
        result == rounded(value as int),
        value >= 0 ==> result >= 0,
        value <= 0 ==> result <= 0,
        -0x1_0000_0000_0000 <= result <= 0x1_0000_0000_0000,
{
    if value >= 0 {
        (value + 15360) / 30720
    } else {
        let positive: i64 = (-value + 15360) / 30720;
        -positive
    }
}

/// A coordinate, or a length, as whole image pixels: none below zero, none
/// beyond what 32 bits hold.
pub open spec fn pixel(value: int, scale: int) -> int {
    lesser(greater(rounded(value * scale), 0), u32::MAX as int)
}

fn to_pixel(value: i64, scale: u16) -> (result: u32)
    requires
        -2 * COORD_LIMIT <= value <= 2 * COORD_LIMIT,
    ensures
        result == pixel(value as int, scale as int),
{
    proof {
        assert(-0x2000_0000_0000 * 0xffff <= value * scale <= 0x2000_0000_0000 * 0xffff)
            by (nonlinear_arith)
            requires
                -0x2000_0000_0000 <= value <= 0x2000_0000_0000,
                0 <= scale <= 0xffff,
        ;
    }
    let whole: i64 = round(value * scale as i64);
    if whole < 0 {
        0
    } else if whole > 0xffff_ffff {
        0xffff_ffff
    } else {
        whole as u32
    }
}

/// The pixels of an image that a selection stands for.
pub open spec fn pixels_of(rect: Rect, scale: u16, image: (u32, u32)) -> Option<
    (u32, u32, u32, u32),
> {
    let x = pixel(rect.x as int, scale as int);
    let y = pixel(rect.y as int, scale as int);
    let width = lesser(pixel(rect.width as int, scale as int), greater(image.0 - x, 0));
    let height = lesser(pixel(rect.height as int, scale as int), greater(image.1 - y, 0));
    if width > 0 && height > 0 {
        Some((x as u32, y as u32, width as u32, height as u32))
    } else {
        None
    }
}

/// Convert a selection in logical points to pixels in the captured image.
///
/// `scale` is image pixels per 120 points - the output's scale factor.
pub fn to_pixels(rect: Rect, scale: u16, image: (u32, u32)) -> (result: Option<
    (u32, u32, u32, u32),
>)
    requires
        rect.wf(),
    ensures
        result == pixels_of(rect, scale, image),
{
    let x: u32 = to_pixel(rect.x, scale);
    let y: u32 = to_pixel(rect.y, scale);
    let width: u32 = to_pixel(rect.width, scale);
    let height: u32 = to_pixel(rect.height, scale);

    // Clamp into the image rather than trusting the pointer: a drag can end a
    // pixel or two outside the surface.
    let room_x: u32 = image.0.saturating_sub(x);
    let room_y: u32 = image.1.saturating_sub(y);
    let width: u32 = if width <= room_x {
        width
    } else {
        room_x
    };
    let height: u32 = if height <= room_y {
        height
    } else {
        room_y
    };

    if width > 0 && height > 0 {
        Some((x, y, width, height))
    } else {
        None
    }
}

/// At least the smallest deliberate drag in both axes.
pub open spec fn usable(selection: Option<Rect>) -> bool {
    selection matches Some(rect) && rect.width >= MIN_SELECTION && rect.height >= MIN_SELECTION
}

/// Whether a selection is a deliberate drag rather than a stray click.
pub fn is_usable(selection: Option<Rect>) -> (result: bool)
    ensures
        result == usable(selection),
{
    match selection {
        Some(rect) => rect.width >= MIN_SELECTION && rect.height >= MIN_SELECTION,
        None => false,
    }
}

/// A rectangle comes out the same whichever corner it is dragged from.
pub proof fn law_corners_in_any_order(a: Point, b: Point)
    ensures
        spanned(a, b) == spanned(b, a),
{
}

/// Grabbing a corner and letting go where it was leaves the rectangle alone.
pub proof fn law_a_grabbed_corner_that_stays_changes_nothing(rect: Rect, corner: Corner)
    requires
        rect.wf(),
        rect.width >= 0,
        rect.height >= 0,
    ensures
        spanned(corner_point(rect, across(corner)), corner_point(rect, corner)) == rect,
{
}

/// Dragging a vertical edge leaves the vertical extent alone, and the two
/// sides afterwards are the opposite edge and the pointer.
pub proof fn law_a_dragged_vertical_edge_moves_only_its_side(
    rect: Rect,
    edge: Edge,
    position: Point,
)
    requires
        rect.wf(),
        position.wf(),
        rect.width >= 0,
        rect.height >= 0,
        edge == Edge::Left || edge == Edge::Right,
    ensures
        ({
            let result = resized(rect, edge, position);
            let kept = if edge == Edge::Left {
                rect.x + rect.width
            } else {
                rect.x as int
            };
            &&& result.y == rect.y
            &&& result.height == rect.height
            &&& result.width >= 0
            &&& result.x == lesser(kept, position.x as int)
            &&& result.x + result.width == greater(kept, position.x as int)
        }),
{
}

/// Dragging a horizontal edge leaves the horizontal extent alone, and the two
/// sides afterwards are the opposite edge and the pointer.
pub proof fn law_a_dragged_horizontal_edge_moves_only_its_side(
    rect: Rect,
    edge: Edge,
    position: Point,
)
    requires
        rect.wf(),
        position.wf(),
        rect.width >= 0,
        rect.height >= 0,
        edge == Edge::Top || edge == Edge::Bottom,
    ensures
        ({
            let result = resized(rect, edge, position);
            let kept = if edge == Edge::Top {
                rect.y + rect.height
            } else {
                rect.y as int
            };
            &&& result.x == rect.x
            &&& result.width == rect.width
            &&& result.height >= 0
            &&& result.y == lesser(kept, position.y as int)
            &&& result.y + result.height == greater(kept, position.y as int)
        }),
{
}

/// The sum of the areas of a list of rectangles.
pub open spec fn total_area(list: Seq<Rect>) -> int
    decreases list.len(),
{
    if list.len() == 0 {
        0
    } else {
        total_area(list.drop_last()) + list.last().area()
    }
}

proof fn lemma_total_area_append(a: Seq<Rect>, b: Seq<Rect>)
    ensures
        total_area(a + b) == total_area(a) + total_area(b),
    decreases b.len(),
{
    if b.len() == 0 {
        assert(a + b =~= a);
    } else {
        assert((a + b).drop_last() =~= a + b.drop_last());
        lemma_total_area_append(a, b.drop_last());
    }
}

proof fn lemma_solid_area(x: int, y: int, width: int, height: int)
    requires
        0 <= width <= i64::MAX,
        0 <= height <= i64::MAX,
    ensures
        total_area(solid(x, y, width, height)) == width * height,
{
    reveal_with_fuel(total_area, 2);
    let list = solid(x, y, width, height);
    if width > 0 && height > 0 {
        assert(list.drop_last() =~= Seq::<Rect>::empty());
        assert(list.last().area() == width * height);
    } else {
        assert(width * height == 0) by (nonlinear_arith)
            requires
                width == 0 || height == 0,
        ;
    }
}

/// Dimming covers everything except the selection: of an area with the selection
/// inside it, every position outside the selection lies in exactly one of the
/// surrounding rectangles and no other position in any, and their areas add up
/// to the rest.
pub proof fn law_dimming_covers_everything_but_the_selection(full: Rect, hole: Rect)
    requires
        full.wf(),
        full.x <= hole.x,
        full.y <= hole.y,
        0 <= hole.width,
        0 <= hole.height,
        hole.x + hole.width <= full.x + full.width,
        hole.y + hole.height <= full.y + full.height,
    ensures
        ({
            let around = surroundings(full, hole);
            &&& forall|i: int, x: int, y: int|
                0 <= i < around.len() && #[trigger] around[i].covers(x, y) ==> full.covers(x, y)
                    && !hole.covers(x, y)
            &&& forall|x: int, y: int|
                #[trigger] full.covers(x, y) && !hole.covers(x, y) ==> exists|i: int|
                    0 <= i < around.len() && #[trigger] around[i].covers(x, y)
            &&& forall|i: int, j: int, x: int, y: int|
                0 <= i < j < around.len() ==> !(#[trigger] around[i].covers(x, y)
                    && #[trigger] around[j].covers(x, y))
            &&& total_area(around) == full.area() - hole.area()
        }),
{
    let around = surroundings(full, hole);
    let (fw, fh) = (full.width as int, full.height as int);
    let (hx, hy) = (hole.x - full.x, hole.y - full.y);
    let (hw, hh) = (hole.width as int, hole.height as int);
    let above = solid(full.x as int, full.y as int, fw, hy);
    let below = solid(full.x as int, hole.y + hole.height, fw, fh - hy - hh);
    let left = solid(full.x as int, hole.y as int, hx, hh);
    let right = solid(hole.x + hole.width, hole.y as int, fw - hx - hw, hh);
    assert(around == above + below + left + right);
    let n1 = above.len() as int;
    let n2 = n1 + below.len();
    let n3 = n2 + left.len();
    assert forall|x: int, y: int|
        #[trigger] full.covers(x, y) && !hole.covers(x, y) implies exists|i: int|
        0 <= i < around.len() && #[trigger] around[i].covers(x, y) by {
        if y < hole.y {
            assert(above.len() == 1 && around[0] == above[0]);
            assert(around[0].covers(x, y));
        } else if y >= hole.y + hole.height {
            assert(below.len() == 1 && around[n1] == below[0]);
            assert(around[n1].covers(x, y));
        } else if x < hole.x {
            assert(left.len() == 1 && around[n2] == left[0]);
            assert(around[n2].covers(x, y));
        } else {
            assert(right.len() == 1 && around[n3] == right[0]);
            assert(around[n3].covers(x, y));
        }
    }
    lemma_total_area_append(above + below + left, right);
    lemma_total_area_append(above + below, left);
    lemma_total_area_append(above, below);
    lemma_solid_area(full.x as int, full.y as int, fw, hy);
    lemma_solid_area(full.x as int, hole.y + hole.height, fw, fh - hy - hh);
    lemma_solid_area(full.x as int, hole.y as int, hx, hh);
    lemma_solid_area(hole.x + hole.width, hole.y as int, fw - hx - hw, hh);
    assert(fw * hy + fw * (fh - hy - hh) + hx * hh + (fw - hx - hw) * hh == fw * fh - hw * hh)
        by (nonlinear_arith);
}

/// No rectangle of the dimming is empty.
pub proof fn law_dimming_holds_nothing_empty(full: Rect, hole: Rect)
    requires
        full.wf(),
        hole.wf(),
    ensures
        forall|i: int|
            0 <= i < surroundings(full, hole).len() ==> (#[trigger] surroundings(
                full,
                hole,
            )[i]).width > 0 && surroundings(full, hole)[i].height > 0,
{
}

/// The edges the bars are put on are the ones the selection covers least.
pub proof fn law_the_bars_take_the_edges_covered_least(
    rect: Rect,
    screen: Size,
    bar: i64,
    anchor: Anchor,
    side: Side,
)
    ensures
        shared_area(rect, bar_strip(anchor_for(Some(rect), screen, bar), screen, bar))
            <= shared_area(rect, bar_strip(anchor, screen, bar)),
        shared_area(rect, side_strip(side_for(Some(rect), screen, bar), screen, bar))
            <= shared_area(rect, side_strip(side, screen, bar)),
{
}

/// The pixels of a selection are never outside the image.
pub proof fn law_the_pixels_lie_inside_the_image(rect: Rect, scale: u16, image: (u32, u32))
    ensures
        pixels_of(rect, scale, image) matches Some((x, y, width, height)) ==> {
            &&& 0 < width
            &&& 0 < height
            &&& x + width <= image.0
            &&& y + height <= image.1
        },
{
}

/// Whole points on an output with a whole scale become that many whole pixels.
pub proof fn law_scaling_respects_the_output_scale(points: int, times: int)
    requires
        0 <= points,
        0 <= times,
        points * times <= u32::MAX,
    ensures
        pixel(points * UNITS, times * SCALE_ONE) == points * times,
{
    let n = points * times;
    assert((points * 256) * (times * 120) == n * 30720) by (nonlinear_arith)
        requires
            n == points * times,
    ;
    assert(n >= 0) by (nonlinear_arith)
        requires
            n == points * times,
            points >= 0,
            times >= 0,
    ;
    assert((n * 30720 + 15360) / 30720 == n) by (nonlinear_arith);
}

/// Comparing picks one of the two, and the right one; a magnitude is how far from
/// zero a number is.
pub proof fn law_comparing_picks_one_of_the_two(a: int, b: int)
    ensures
        lesser(a, b) <= a && lesser(a, b) <= b,
        greater(a, b) >= a && greater(a, b) >= b,
        lesser(a, b) + greater(a, b) == a + b,
        magnitude(a) >= 0,
        magnitude(a) == a || magnitude(a) == -a,
        magnitude(a - b) == magnitude(b - a),
{
}

/// A corner is reported only for a position within 18 points of that very corner,
/// in both axes; and where none is reported, none is that near.
pub proof fn law_a_reported_corner_is_the_one_in_reach(rect: Rect, position: Point)
    requires
        rect.wf(),
    ensures
        ({
            let reach = 18 * 256;
            let to_left = position.x - rect.x;
            let to_right = position.x - (rect.x + rect.width);
            let to_top = position.y - rect.y;
            let to_bottom = position.y - (rect.y + rect.height);
            match corner_at(rect, position) {
                Some(Corner::TopLeft) => -reach <= to_left <= reach && -reach <= to_top <= reach,
                Some(Corner::TopRight) => -reach <= to_right <= reach && -reach <= to_top <= reach,
                Some(Corner::BottomLeft) => -reach <= to_left <= reach && -reach <= to_bottom
                    <= reach,
                Some(Corner::BottomRight) => -reach <= to_right <= reach && -reach <= to_bottom
                    <= reach,
                None => !((-reach <= to_left <= reach || -reach <= to_right <= reach) && (-reach
                    <= to_top <= reach || -reach <= to_bottom <= reach)),
            }
        }),
{
}

/// On a rectangle larger than twice the grab radius, every position within reach
/// of a corner is reported as that corner.
pub proof fn law_every_corner_is_reported_as_itself(rect: Rect, position: Point)
    requires
        rect.wf(),
        rect.width > 2 * 18 * 256,
        rect.height > 2 * 18 * 256,
    ensures
        ({
            let reach = 18 * 256;
            let left = -reach <= position.x - rect.x <= reach;
            let right = -reach <= position.x - rect.x - rect.width <= reach;
            let top = -reach <= position.y - rect.y <= reach;
            let bottom = -reach <= position.y - rect.y - rect.height <= reach;
            &&& left && top <==> corner_at(rect, position) == Some(Corner::TopLeft)
            &&& right && top <==> corner_at(rect, position) == Some(Corner::TopRight)
            &&& left && bottom <==> corner_at(rect, position) == Some(Corner::BottomLeft)
            &&& right && bottom <==> corner_at(rect, position) == Some(Corner::BottomRight)
        }),
{
}

/// The corners are where their names say: left ones share the left edge, top ones
/// the top edge, and the diagonal from the top left to the bottom right spans the
/// rectangle. Across from a corner lies the one that differs from it both ways.
pub proof fn law_corners_lie_where_their_names_say(rect: Rect, corner: Corner)
    requires
        rect.wf(),
    ensures
        ({
            let (tl, tr) = (
                corner_point(rect, Corner::TopLeft),
                corner_point(rect, Corner::TopRight),
            );
            let (bl, br) = (
                corner_point(rect, Corner::BottomLeft),
                corner_point(rect, Corner::BottomRight),
            );
            &&& tl.x == bl.x == rect.x
            &&& tl.y == tr.y == rect.y
            &&& tr.x == br.x && tr.x - tl.x == rect.width
            &&& bl.y == br.y && bl.y - tl.y == rect.height
        }),
        ({
            let here = corner_point(rect, corner);
            let there = corner_point(rect, across(corner));
            &&& here.x + there.x == 2 * rect.x + rect.width
            &&& here.y + there.y == 2 * rect.y + rect.height
            &&& across(across(corner)) == corner
            &&& across(corner) != corner
        }),
{
}

/// An edge is reported only for a position within 18 points of the line it lies
/// on and of its ends; and where none is reported, no edge is that near.
pub proof fn law_a_reported_edge_is_the_one_in_reach(rect: Rect, position: Point)
    requires
        rect.wf(),
    ensures
        ({
            let reach = 18 * 256;
            let to_left = position.x - rect.x;
            let to_right = position.x - (rect.x + rect.width);
            let to_top = position.y - rect.y;
            let to_bottom = position.y - (rect.y + rect.height);
            let along_x = to_left >= -reach && to_right <= reach;
            let along_y = to_top >= -reach && to_bottom <= reach;
            match edge_at(rect, position) {
                Some(Edge::Top) => along_x && -reach <= to_top <= reach,
                Some(Edge::Bottom) => along_x && -reach <= to_bottom <= reach,
                Some(Edge::Left) => along_y && -reach <= to_left <= reach,
                Some(Edge::Right) => along_y && -reach <= to_right <= reach,
                None => {
                    &&& !(along_x && (-reach <= to_top <= reach || -reach <= to_bottom <= reach))
                    &&& !(along_y && (-reach <= to_left <= reach || -reach <= to_right <= reach))
                },
            }
        }),
{
}

/// On a rectangle larger than twice the grab radius, every position within reach
/// of an edge and of no corner is reported as that edge, and the middle as none.
pub proof fn law_every_edge_is_reported_as_itself(rect: Rect, position: Point)
    requires
        rect.wf(),
        rect.width > 2 * 18 * 256,
        rect.height > 2 * 18 * 256,
    ensures
        ({
            let reach = 18 * 256;
            let to_left = position.x - rect.x;
            let to_right = position.x - (rect.x + rect.width);
            let to_top = position.y - rect.y;
            let to_bottom = position.y - (rect.y + rect.height);
            let between_x = to_left > reach && to_right < -reach;
            let between_y = to_top > reach && to_bottom < -reach;
            &&& between_x && -reach <= to_top <= reach ==> edge_at(rect, position) == Some(
                Edge::Top,
            )
            &&& between_x && -reach <= to_bottom <= reach ==> edge_at(rect, position) == Some(
                Edge::Bottom,
            )
            &&& between_y && -reach <= to_left <= reach ==> edge_at(rect, position) == Some(
                Edge::Left,
            )
            &&& between_y && -reach <= to_right <= reach ==> edge_at(rect, position) == Some(
                Edge::Right,
            )
            &&& between_x && between_y ==> edge_at(rect, position) is None
        }),
{
}

/// The rectangle between two points holds both, and reaches no further than they
/// do on either axis.
pub proof fn law_a_span_is_the_tightest_rectangle_around_its_corners(a: Point, b: Point)
    requires
        a.wf(),
        b.wf(),
    ensures
        ({
            let rect = spanned(a, b);
            let (right, bottom) = (rect.x + rect.width, rect.y + rect.height);
            &&& rect.x <= a.x <= right && rect.x <= b.x <= right
            &&& rect.y <= a.y <= bottom && rect.y <= b.y <= bottom
            &&& (rect.x == a.x && right == b.x) || (rect.x == b.x && right == a.x)
            &&& (rect.y == a.y && bottom == b.y) || (rect.y == b.y && bottom == a.y)
        }),
{
}

/// Dragging one edge puts that edge through the pointer and leaves the other three
/// where they were, until it passes its opposite.
pub proof fn law_a_dragged_edge_goes_to_the_pointer(rect: Rect, position: Point)
    requires
        rect.wf(),
        position.wf(),
        rect.width >= 0,
        rect.height >= 0,
    ensures
        ({
            let (right, bottom) = (rect.x + rect.width, rect.y + rect.height);
            let left_pulled = resized(rect, Edge::Left, position);
            let right_pulled = resized(rect, Edge::Right, position);
            let top_pulled = resized(rect, Edge::Top, position);
            let bottom_pulled = resized(rect, Edge::Bottom, position);
            &&& position.x <= right ==> left_pulled.x == position.x && left_pulled.x
                + left_pulled.width == right
            &&& position.x >= rect.x ==> right_pulled.x == rect.x && right_pulled.x
                + right_pulled.width == position.x
            &&& position.y <= bottom ==> top_pulled.y == position.y && top_pulled.y
                + top_pulled.height == bottom
            &&& position.y >= rect.y ==> bottom_pulled.y == rect.y && bottom_pulled.y
                + bottom_pulled.height == position.y
            &&& left_pulled.y == right_pulled.y == rect.y
            &&& left_pulled.height == right_pulled.height == rect.height
            &&& top_pulled.x == bottom_pulled.x == rect.x
            &&& top_pulled.width == bottom_pulled.width == rect.width
        }),
{
}

/// A rectangle holds the points between its edges and on them, and no others.
pub proof fn law_a_rectangle_holds_what_is_between_its_edges(rect: Rect, dx: int, dy: int)
    requires
        rect.wf(),
        in_range(rect.x + dx),
        in_range(rect.y + dy),
    ensures
        rect.holds(Point { x: (rect.x + dx) as i64, y: (rect.y + dy) as i64 }) <==> 0 <= dx
            <= rect.width && 0 <= dy <= rect.height,
{
}

/// The area two rectangles share is the area of the rectangle of positions that
/// lie in both, and nothing when there are none.
pub proof fn law_the_shared_area_is_that_of_the_common_part(a: Rect, b: Rect, common: Rect)
    requires
        a.width >= 0,
        a.height >= 0,
        b.width >= 0,
        b.height >= 0,
    ensures
        shared_area(a, b) == shared_area(b, a),
        (forall|x: int, y: int|
            !(a.x <= x < a.x + a.width && a.y <= y < a.y + a.height && #[trigger] b.covers(x, y)))
            ==> shared_area(a, b) == 0,
        common.width > 0 && common.height > 0 && common.x >= a.x && common.x >= b.x && (common.x
            == a.x || common.x == b.x) && common.y >= a.y && common.y >= b.y && (common.y == a.y
            || common.y == b.y) && common.x + common.width <= a.x + a.width && common.x
            + common.width <= b.x + b.width && (common.x + common.width == a.x + a.width || common.x
            + common.width == b.x + b.width) && common.y + common.height <= a.y + a.height
            && common.y + common.height <= b.y + b.height && (common.y + common.height == a.y
            + a.height || common.y + common.height == b.y + b.height) ==> shared_area(a, b)
            == common.width * common.height,
{
    let left = greater(a.x as int, b.x as int);
    let right = lesser(a.x + a.width, b.x + b.width);
    let top = greater(a.y as int, b.y as int);
    let bottom = lesser(a.y + a.height, b.y + b.height);
    if left < right && top < bottom {
        assert(b.covers(left, top));
    }
}

/// The action bar goes to the top only when the selection covers more of the
/// bottom strip than of the top one, and the tool strip to the right only when it
/// covers more of the left one. A selection clear of the bottom leaves the action
/// bar at the bottom, and one clear of the left leaves the tool strip at the left.
pub proof fn law_the_bars_leave_their_edges_only_for_a_freer_one(
    selection: Option<Rect>,
    screen: Size,
    bar: i64,
)
    requires
        screen.wf(),
        0 <= bar <= screen.width,
        bar <= screen.height,
    ensures
        selection is None ==> anchor_for(selection, screen, bar) == Anchor::Bottom && side_for(
            selection,
            screen,
            bar,
        ) == Side::Left,
        selection matches Some(rect) ==> ({
            let top = Rect { x: 0, y: 0, width: screen.width, height: bar };
            let bottom = Rect {
                x: 0,
                y: (screen.height - bar) as i64,
                width: screen.width,
                height: bar,
            };
            let left = Rect { x: 0, y: 0, width: bar, height: screen.height };
            let right = Rect {
                x: (screen.width - bar) as i64,
                y: 0,
                width: bar,
                height: screen.height,
            };
            &&& anchor_for(selection, screen, bar) == Anchor::Top <==> shared_area(rect, top)
                < shared_area(rect, bottom)
            &&& side_for(selection, screen, bar) == Side::Right <==> shared_area(rect, right)
                < shared_area(rect, left)
            &&& rect.y + rect.height <= screen.height - bar ==> anchor_for(selection, screen, bar)
                == Anchor::Bottom
            &&& rect.x >= bar ==> side_for(selection, screen, bar) == Side::Left
            &&& rect.y >= bar && shared_area(rect, bottom) > 0 ==> anchor_for(
                selection,
                screen,
                bar,
            ) == Anchor::Top
            &&& rect.x + rect.width <= screen.width - bar && shared_area(rect, left) > 0
                ==> side_for(selection, screen, bar) == Side::Right
        }),
{
    if let Some(rect) = selection {
        let bottom = bar_strip(Anchor::Bottom, screen, bar);
        let left = side_strip(Side::Left, screen, bar);
        lemma_shared_area_is_not_negative(rect, bar_strip(Anchor::Top, screen, bar));
        lemma_shared_area_is_not_negative(rect, bottom);
        lemma_shared_area_is_not_negative(rect, left);
        lemma_shared_area_is_not_negative(rect, side_strip(Side::Right, screen, bar));
    }
}

proof fn lemma_shared_area_is_not_negative(a: Rect, b: Rect)
    ensures
        shared_area(a, b) >= 0,
{
    let width = lesser(a.x + a.width, b.x + b.width) - greater(a.x as int, b.x as int);
    let height = lesser(a.y + a.height, b.y + b.height) - greater(a.y as int, b.y as int);
    if width > 0 && height > 0 {
        assert(width * height > 0) by (nonlinear_arith)
            requires
                width > 0,
                height > 0,
        ;
    }
}

/// Rounding goes to the nearest pixel, halves away from zero, and is the same on
/// both sides of it.
pub proof fn law_rounding_goes_to_the_nearest_pixel(value: int)
    ensures
        value >= 0 ==> -15360 <= value - rounded(value) * 30720 < 15360,
        rounded(-value) == -rounded(value),
        rounded(value * 30720) == value,
{
    if value >= 0 {
        let r = (value + 15360) / 30720;
        assert(r * 30720 <= value + 15360 < r * 30720 + 30720) by (nonlinear_arith)
            requires
                r == (value + 15360) / 30720,
        ;
    }
    if value >= 0 {
        assert((value * 30720 + 15360) / 30720 == value) by (nonlinear_arith);
    } else {
        assert((-(value * 30720) + 15360) / 30720 == -value) by (nonlinear_arith);
    }
}

/// A selection inside the image becomes the pixels nearest to it: its left edge,
/// its top edge, its width and its height are each off by at most half a pixel. The
/// horizontal numbers come from the horizontal extent alone, the vertical ones from
/// the vertical extent alone.
pub proof fn law_the_pixels_are_those_nearest_to_the_selection(
    rect: Rect,
    scale: u16,
    image: (u32, u32),
)
    requires
        rect.wf(),
        rect.x >= 0,
        rect.y >= 0,
        rect.width >= 0,
        rect.height >= 0,
        (rect.x + rect.width) * scale <= (image.0 - 1) * 30720,
        (rect.y + rect.height) * scale <= (image.1 - 1) * 30720,
    ensures
        match pixels_of(rect, scale, image) {
            Some((x, y, width, height)) => {
                &&& -15360 <= rect.x * scale - x * 30720 < 15360
                &&& -15360 <= rect.y * scale - y * 30720 < 15360
                &&& -15360 <= rect.width * scale - width * 30720 < 15360
                &&& -15360 <= rect.height * scale - height * 30720 < 15360
            },
            None => rect.width * scale < 15360 || rect.height * scale < 15360,
        },
{
    lemma_nearest_pixel(rect.x as int, rect.width as int, scale as int, image.0 as int);
    lemma_nearest_pixel(rect.y as int, rect.height as int, scale as int, image.1 as int);
}

proof fn lemma_nearest_pixel(start: int, length: int, scale: int, limit: int)
    requires
        0 <= start,
        0 <= length,
        0 <= scale,
        (start + length) * scale <= (limit - 1) * 30720,
        limit <= u32::MAX,
    ensures
        -15360 <= start * scale - pixel(start, scale) * 30720 < 15360,
        -15360 <= length * scale - pixel(length, scale) * 30720 < 15360,
        0 <= pixel(start, scale),
        0 <= pixel(length, scale) <= limit - pixel(start, scale),
{
    let (a, b) = (start * scale, length * scale);
    assert((start + length) * scale == a + b) by (nonlinear_arith)
        requires
            a == start * scale,
            b == length * scale,
    ;
    assert(a >= 0 && b >= 0) by (nonlinear_arith)
        requires
            a == start * scale,
            b == length * scale,
            start >= 0,
            length >= 0,
            scale >= 0,
    ;
    law_rounding_goes_to_the_nearest_pixel(a);
    law_rounding_goes_to_the_nearest_pixel(b);
}

/// A selection that runs past the image is cut off at its edge, and none of what is
/// inside is lost.
pub proof fn law_a_selection_past_the_edge_is_cut_off_there(
    rect: Rect,
    scale: u16,
    image: (u32, u32),
)
    ensures
        pixels_of(rect, scale, image) matches Some((x, y, width, height)) ==> {
            let whole = pixels_of(rect, scale, (u32::MAX, u32::MAX));
            &&& whole matches Some((wx, wy, full_width, full_height)) && {
                &&& wx == x && wy == y
                &&& width <= full_width && height <= full_height
                &&& width < full_width ==> x + width == image.0
                &&& height < full_height ==> y + height == image.1
            }
        },
{
}

/// A selection counts as one exactly when it is at least four points in both axes.
pub proof fn law_a_selection_takes_four_points_both_ways(rect: Rect)
    ensures
        usable(Some(rect)) <==> rect.width >= 4 * 256 && rect.height >= 4 * 256,
        !usable(None),
{
}

} // verus!
