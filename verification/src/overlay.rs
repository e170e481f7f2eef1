//! The selection overlay: everything it decides, without the widgets.
//!
//! The screen is captured up front and shown back fullscreen, so the selection
//! is made on a still image and stays adjustable until a key or a button
//! commits it. This module holds what the overlay remembers while it is open
//! and what each pointer and key event makes of it.
use crate::annotate;
use crate::annotate::{
    palette_entry, rasterize, width_after, Annotation, AnnotationView, Ink, Rasterized,
    RasterizedView, Tool,
};
use crate::geom;
use crate::geom::{
    from_corners, nearest_corner, nearest_edge, opposite, resize_edge, sidebar_anchor, to_pixels,
    toolbar_anchor, Anchor, Corner, Edge, Point, Rect, Side, Size, COORD_LIMIT,
};
use crate::image;
use crate::image::{ImageError, ImageErrorView};
use crate::text;
use vstd::prelude::*;

verus! {

/// Height of the action bar as the anchor rules see it: 84 points. Only used to
/// decide which edge is free, so approximate is fine.
pub const ACTION_BAR: i64 = 21504;

/// Width of the tool strip as the anchor rules see it: 130 points.
pub const TOOL_STRIP: i64 = 33280;

/// A captured output.
pub struct Capture {
    pub png: Vec<u8>,
    /// The output's scale, in 120ths.
    pub scale: u16,
    /// A selection to start from, in image pixels: x, y, width, height.
    pub preset: Option<(u32, u32, u32, u32)>,
}

impl Capture {
    /// Whether the coordinates reach over the whole screen and the preset.
    pub open spec fn in_reach(self) -> bool {
        let scale = self.scale as int;
        &&& image::header(self.png@) matches Some((width, height)) ==> {
            &&& points_of(width as int, scale) <= COORD_LIMIT
            &&& points_of(height as int, scale) <= COORD_LIMIT
        }
        &&& self.preset matches Some((x, y, width, height)) ==> {
            &&& points_of(x + width, scale) <= COORD_LIMIT
            &&& points_of(y + height, scale) <= COORD_LIMIT
        }
    }

    /// Whether the coordinates reach over the whole screen and the preset. They
    /// do on every output that is not a great deal coarser than its points.
    pub fn fits(&self) -> (result: bool)
        requires
            self.scale > 0,
        ensures
            result == self.in_reach(),
    {
        if let Some((width, height)) = image::png_dimensions(&self.png) {
            if to_points(width as u64, self.scale) > COORD_LIMIT || to_points(
                height as u64,
                self.scale,
            ) > COORD_LIMIT {
                return false;
            }
        }
        if let Some((x, y, width, height)) = self.preset {
            if to_points(x as u64 + width as u64, self.scale) > COORD_LIMIT || to_points(
                y as u64 + height as u64,
                self.scale,
            ) > COORD_LIMIT {
                return false;
            }
        }
        true
    }
}

/// What a drag does.
#[derive(Debug, Clone, Copy, PartialEq, Eq, Structural)]
pub enum Drag {
    /// Spans a new selection.
    New { origin: Point },
    /// Moves the selection, held this far from its corner.
    Move { dx: i64, dy: i64 },
    /// Pulls one corner, the opposite one staying at `anchor`.
    Resize { anchor: Point },
    /// Pulls one edge of the selection as it was when the drag began.
    Edge { rect: Rect, edge: Edge },
    /// Draws an annotation.
    Draw,
}

/// What to do with the selection.
#[derive(Debug, Clone, Copy, PartialEq, Eq, Structural)]
pub enum Commit {
    Copy,
    Save,
    Extract,
    Translate,
}

/// Everything the overlay is holding while it is open.
pub struct Overlay {
    pub capture: Capture,
    pub screen: Size,
    pub selection: Option<Rect>,
    pub drag: Option<Drag>,
    /// `None` is the select and move tool.
    pub tool: Option<Tool>,
    pub annotations: Vec<Annotation>,
    pub drawing: Option<Annotation>,
    pub undone: Vec<Annotation>,
    pub ink: Ink,
    pub width: i64,
    /// True while a text annotation is being typed into. Every key belongs to
    /// the text while this is set, which is the whole reason it exists: the
    /// tools and commit actions are single letters, so typing "copy" would
    /// otherwise save the shot and close the overlay.
    pub typing: bool,
}

/// What the overlay holds, by content.
pub struct OverlayView {
    pub png: Seq<u8>,
    pub scale: u16,
    pub screen: Size,
    pub selection: Option<Rect>,
    pub drag: Option<Drag>,
    pub tool: Option<Tool>,
    pub annotations: Seq<AnnotationView>,
    pub drawing: Option<AnnotationView>,
    pub undone: Seq<AnnotationView>,
    pub ink: Ink,
    pub width: i64,
    pub typing: bool,
}

/// What is being drawn, by content.
pub open spec fn drawing_view(drawing: Option<Annotation>) -> Option<AnnotationView> {
    match drawing {
        Some(annotation) => Some(annotation@),
        None => None,
    }
}

impl View for Overlay {
    type V = OverlayView;

    open spec fn view(&self) -> OverlayView {
        OverlayView {
            png: self.capture.png@,
            scale: self.capture.scale,
            screen: self.screen,
            selection: self.selection,
            drag: self.drag,
            tool: self.tool,
            annotations: annotate::drawn(self.annotations@),
            drawing: drawing_view(self.drawing),
            undone: annotate::drawn(self.undone@),
            ink: self.ink,
            width: self.width,
            typing: self.typing,
        }
    }
}

/// A rectangle in range that does not have a negative size.
pub open spec fn proper(rect: Rect) -> bool {
    rect.wf() && rect.width >= 0 && rect.height >= 0
}

pub open spec fn drag_wf(drag: Drag) -> bool {
    match drag {
        Drag::New { origin } => origin.wf(),
        Drag::Move { dx, dy } => {
            &&& -2 * COORD_LIMIT <= dx <= 2 * COORD_LIMIT
            &&& -2 * COORD_LIMIT <= dy <= 2 * COORD_LIMIT
        },
        Drag::Resize { anchor } => anchor.wf(),
        Drag::Edge { rect, .. } => proper(rect),
        Drag::Draw => true,
    }
}

/// How many step numbers are among the annotations.
pub open spec fn counters(list: Seq<AnnotationView>) -> nat
    decreases list.len(),
{
    if list.len() == 0 {
        0
    } else {
        counters(list.drop_last()) + if list.last().tool == Tool::Counter {
            1nat
        } else {
            0nat
        }
    }
}

/// `c` in Unicode's control category.
pub open spec fn control_character(c: char) -> bool {
    let u = c as u32;
    u <= 0x1f || 0x7f <= u <= 0x9f
}

/// A key, as far as the overlay tells keys apart.
#[derive(Debug, Clone, Copy, PartialEq, Eq, Structural)]
pub enum Key {
    Return,
    KeypadEnter,
    Space,
    Escape,
    BackSpace,
    /// Any other key that stands for a character.
    Character(char),
    Other,
}

/// What a key press asks of the window.
#[derive(Debug, Clone, Copy, PartialEq, Eq, Structural)]
pub enum Reply {
    /// The key was used; redraw.
    Stop,
    /// The key is left to others.
    Proceed,
    /// Commit the selection and close.
    Commit(Commit),
    /// Close without doing anything.
    Cancel,
}

/// The tool a letter picks. `v` picks selecting.
pub open spec fn tool_for(c: char) -> Option<Option<Tool>> {
    if c == 'v' {
        Some(None)
    } else if c == 'p' {
        Some(Some(Tool::Pen))
    } else if c == 'a' {
        Some(Some(Tool::Arrow))
    } else if c == 'r' {
        Some(Some(Tool::Rectangle))
    } else if c == 'o' {
        Some(Some(Tool::Ellipse))
    } else if c == 'h' {
        Some(Some(Tool::Highlight))
    } else if c == 'b' {
        Some(Some(Tool::Blur))
    } else if c == 'n' {
        Some(Some(Tool::Counter))
    } else if c == 'x' {
        Some(Some(Tool::Text))
    } else {
        None
    }
}

/// What a letter commits the selection to.
pub open spec fn commit_for(c: char) -> Option<Commit> {
    if c == 'c' {
        Some(Commit::Copy)
    } else if c == 's' {
        Some(Commit::Save)
    } else if c == 'e' {
        Some(Commit::Extract)
    } else if c == 't' {
        Some(Commit::Translate)
    } else {
        None
    }
}

impl OverlayView {
    pub open spec fn wf(self) -> bool {
        &&& self.scale > 0
        &&& self.screen.wf()
        &&& self.selection matches Some(rect) ==> proper(rect)
        &&& self.drag matches Some(drag) ==> drag_wf(drag)
        &&& annotate::all_wf(self.annotations)
        &&& self.drawing matches Some(annotation) ==> annotation.wf()
        &&& annotate::all_wf(self.undone)
        &&& annotate::widths().contains(self.width)
    }

    /// The drag that begins at a point while no drawing tool is held. Corners
    /// are tried before edges and edges before the inside.
    pub open spec fn grabbed(self, at: Point) -> Drag {
        match self.selection {
            None => Drag::New { origin: at },
            Some(rect) => match geom::corner_at(rect, at) {
                Some(corner) => Drag::Resize {
                    anchor: geom::corner_point(rect, geom::across(corner)),
                },
                None => match geom::edge_at(rect, at) {
                    Some(edge) => Drag::Edge { rect, edge },
                    None => if rect.holds(at) {
                        Drag::Move { dx: (at.x - rect.x) as i64, dy: (at.y - rect.y) as i64 }
                    } else {
                        Drag::New { origin: at }
                    },
                },
            },
        }
    }

    /// An annotation with the number it gets if it is placed now. Step numbers
    /// count from how many are placed already.
    pub open spec fn counted(self, annotation: AnnotationView) -> AnnotationView {
        if annotation.tool == Tool::Counter {
            AnnotationView { index: (counters(self.annotations) + 1) as u32, ..annotation }
        } else {
            annotation
        }
    }

    /// The annotation a tool begins at a point.
    pub open spec fn started(self, tool: Tool, at: Point) -> AnnotationView {
        let (ink, width) = tool.inked(self.ink, self.width as int);
        self.counted(AnnotationView::fresh(tool, at, ink, width as i64))
    }

    /// The overlay after the button went down at a point.
    pub open spec fn begun(self, at: Point) -> OverlayView {
        match self.tool {
            Some(tool) => OverlayView {
                typing: tool == Tool::Text,
                drawing: Some(self.started(tool, at)),
                drag: Some(Drag::Draw),
                ..self
            },
            None => OverlayView { drag: Some(self.grabbed(at)), ..self },
        }
    }

    /// Whether a selection that is being moved stays in range wherever it is
    /// moved to.
    pub open spec fn movable(self) -> bool {
        self.drag matches Some(Drag::Move { .. }) ==> (self.selection matches Some(rect)
            ==> rect.width <= COORD_LIMIT && rect.height <= COORD_LIMIT)
    }

    /// The selection dragged so that it is held at `at`, kept on the screen.
    pub open spec fn moved(self, rect: Rect, dx: int, dy: int, at: Point) -> Rect {
        Rect {
            x: geom::lesser(
                geom::greater(at.x - dx, 0),
                geom::greater(self.screen.width - rect.width, 0),
            ) as i64,
            y: geom::lesser(
                geom::greater(at.y - dy, 0),
                geom::greater(self.screen.height - rect.height, 0),
            ) as i64,
            width: rect.width,
            height: rect.height,
        }
    }

    /// The overlay after the pointer was dragged to a point.
    pub open spec fn dragged(self, at: Point) -> OverlayView {
        match self.drag {
            Some(Drag::Draw) => match self.drawing {
                Some(annotation) => OverlayView {
                    drawing: Some(annotation.extended(at)),
                    ..self
                },
                None => self,
            },
            Some(Drag::New { origin }) => OverlayView {
                selection: Some(geom::spanned(origin, at)),
                ..self
            },
            Some(Drag::Resize { anchor }) => OverlayView {
                selection: Some(geom::spanned(anchor, at)),
                ..self
            },
            Some(Drag::Edge { rect, edge }) => OverlayView {
                selection: Some(geom::resized(rect, edge, at)),
                ..self
            },
            Some(Drag::Move { dx, dy }) => match self.selection {
                Some(rect) => OverlayView {
                    selection: Some(self.moved(rect, dx as int, dy as int, at)),
                    ..self
                },
                None => self,
            },
            None => self,
        }
    }

    /// The overlay after what is being drawn was finished: kept if anything
    /// would be seen of it, dropped otherwise. Keeping something new forgets
    /// what had been undone. A step number is counted where it is kept: undo and
    /// redo may have changed the count since it was begun.
    pub open spec fn kept(self) -> OverlayView {
        match self.drawing {
            Some(annotation) if annotation.usable() => OverlayView {
                annotations: self.annotations.push(self.counted(annotation)),
                undone: Seq::empty(),
                drawing: None,
                ..self
            },
            _ => OverlayView { drawing: None, ..self },
        }
    }

    /// The overlay after the button was let go. A text being typed is left
    /// alone: keys finish it.
    pub open spec fn released(self) -> OverlayView {
        if self.typing {
            OverlayView { drag: None, ..self }
        } else {
            OverlayView { drag: None, ..self.kept() }
        }
    }

    /// The overlay after a tool was chosen. What was being drawn is dropped, and
    /// with it a text that was being typed.
    pub open spec fn with_tool(self, tool: Option<Tool>) -> OverlayView {
        OverlayView { tool, drawing: None, typing: false, ..self }
    }

    /// The overlay after the last annotation was taken back.
    pub open spec fn undo_done(self) -> OverlayView {
        if self.annotations.len() > 0 {
            OverlayView {
                annotations: self.annotations.drop_last(),
                undone: self.undone.push(self.annotations.last()),
                ..self
            }
        } else {
            self
        }
    }

    /// The overlay after the annotation taken back last was put back.
    pub open spec fn redo_done(self) -> OverlayView {
        if self.undone.len() > 0 {
            OverlayView {
                undone: self.undone.drop_last(),
                annotations: self.annotations.push(self.undone.last()),
                ..self
            }
        } else {
            self
        }
    }

    /// The overlay with the typed text replaced.
    pub open spec fn with_text(self, text: Seq<char>) -> OverlayView {
        match self.drawing {
            Some(annotation) => OverlayView {
                drawing: Some(AnnotationView { text, ..annotation }),
                ..self
            },
            None => self,
        }
    }

    /// What has been typed so far.
    pub open spec fn typed(self) -> Seq<char> {
        match self.drawing {
            Some(annotation) => annotation.text,
            None => Seq::empty(),
        }
    }

    /// The overlay after a key was typed into a text.
    pub open spec fn after_typed(self, key: Key, shift: bool) -> OverlayView {
        match key {
            Key::Return | Key::KeypadEnter => if shift {
                self.with_text(self.typed().push('\n'))
            } else {
                OverlayView { typing: false, ..self }.kept()
            },
            Key::Escape => OverlayView { typing: false, drawing: None, ..self },
            Key::BackSpace => if self.typed().len() > 0 {
                self.with_text(self.typed().drop_last())
            } else {
                self
            },
            Key::Space => self.with_text(self.typed().push(' ')),
            Key::Character(c) => if control_character(c) {
                self
            } else {
                self.with_text(self.typed().push(c))
            },
            Key::Other => self,
        }
    }

    /// What a letter or digit does while no text is being typed.
    pub open spec fn after_character(self, c: char, control: bool, shift: bool) -> (
        OverlayView,
        Reply,
    ) {
        if commit_for(c) is Some {
            (self, Reply::Commit(commit_for(c)->0))
        } else if (c == 'z' || c == 'Z') && control && shift {
            (self.redo_done(), Reply::Stop)
        } else if c == 'z' && control {
            (self.undo_done(), Reply::Stop)
        } else if tool_for(c) is Some {
            (self.with_tool(tool_for(c)->0), Reply::Stop)
        } else if c == 'w' {
            (OverlayView { width: annotate::next_width(self.width), ..self }, Reply::Stop)
        } else if '1' <= c <= '6' {
            (
                OverlayView { ink: annotate::palette()[c as int - '1' as int].1, ..self },
                Reply::Proceed,
            )
        } else {
            (self, Reply::Proceed)
        }
    }

    /// The overlay after a key press, and what is asked of the window.
    pub open spec fn pressed(self, key: Key, control: bool, shift: bool) -> (OverlayView, Reply) {
        if self.typing {
            (self.after_typed(key, shift), Reply::Stop)
        } else {
            match key {
                Key::Return | Key::Space => (self, Reply::Commit(Commit::Save)),
                Key::Escape => if self.tool is Some {
                    (self.with_tool(None), Reply::Stop)
                } else {
                    (self, Reply::Cancel)
                },
                Key::Character(c) => self.after_character(c, control, shift),
                Key::KeypadEnter | Key::BackSpace | Key::Other => (self, Reply::Proceed),
            }
        }
    }
}

proof fn lemma_drawn_push(list: Seq<Annotation>, annotation: Annotation)
    ensures
        annotate::drawn(list.push(annotation)) == annotate::drawn(list).push(annotation@),
{
    assert(annotate::drawn(list.push(annotation)) =~= annotate::drawn(list).push(annotation@));
}

proof fn lemma_drawn_drop_last(list: Seq<Annotation>)
    requires
        list.len() > 0,
    ensures
        annotate::drawn(list.drop_last()) == annotate::drawn(list).drop_last(),
        annotate::drawn(list).last() == list.last()@,
{
    assert(annotate::drawn(list.drop_last()) =~= annotate::drawn(list).drop_last());
}

/// Pixels as coordinate units on an output of that scale.
pub open spec fn points_of(pixels: int, scale: int) -> int {
    pixels * geom::SUBPIXELS / scale
}

fn to_points(pixels: u64, scale: u16) -> (result: i64)
    requires
        scale > 0,
        pixels <= 0x1_ffff_fffe,
    ensures
        result == points_of(pixels as int, scale as int),
        result >= 0,
{
    proof {
        lemma_points_bound(pixels as int, scale as int);
    }
    (pixels * 30720 / scale as u64) as i64
}

proof fn lemma_points_bound(pixels: int, scale: int)
    requires
        0 <= pixels <= 0x1_ffff_fffe,
        scale > 0,
    ensures
        0 <= points_of(pixels, scale) <= 0x1_0000_0000_0000,
{
    let units = pixels * geom::SUBPIXELS;
    vstd::arithmetic::div_mod::lemma_div_pos_is_pos(units, scale);
    vstd::arithmetic::div_mod::lemma_div_nonincreasing(units, scale);
}

/// The selection that a preset in image pixels stands for.
pub open spec fn preset_selection(preset: (u32, u32, u32, u32), scale: u16) -> Rect {
    let s = scale as int;
    let (left, right) = (points_of(preset.0 as int, s), points_of(preset.0 + preset.2, s));
    let (top, bottom) = (points_of(preset.1 as int, s), points_of(preset.1 + preset.3, s));
    Rect {
        x: left as i64,
        y: top as i64,
        width: (right - left) as i64,
        height: (bottom - top) as i64,
    }
}

/// The size of the screen that a capture shows; a common one when the capture
/// does not say.
pub open spec fn screen_of(png: Seq<u8>, scale: u16) -> Size {
    match image::header(png) {
        Some((width, height)) => Size {
            width: points_of(width as int, scale as int) as i64,
            height: points_of(height as int, scale as int) as i64,
        },
        None => Size { width: 491520, height: 276480 },
    }
}

impl Overlay {
    /// Open the overlay for a capture: nothing drawn, the first colour, the
    /// second width, and the preset selected if there is one.
    pub fn open(capture: Capture) -> (overlay: Self)
        requires
            capture.scale > 0,
            capture.in_reach(),
        ensures
            overlay@.wf(),
            overlay@ == (OverlayView {
                png: capture.png@,
                scale: capture.scale,
                screen: screen_of(capture.png@, capture.scale),
                selection: match capture.preset {
                    Some(preset) => Some(preset_selection(preset, capture.scale)),
                    None => None,
                },
                drag: None,
                tool: None,
                annotations: Seq::empty(),
                drawing: None,
                undone: Seq::empty(),
                ink: annotate::palette()[0].1,
                width: annotate::widths()[1],
                typing: false,
            }),
            overlay.capture == capture,
    {
        let scale: u16 = capture.scale;
        let screen = match image::png_dimensions(&capture.png) {
            Some((width, height)) => Size::new(
                to_points(width as u64, scale),
                to_points(height as u64, scale),
            ),
            None => Size::new(491520, 276480),
        };
        let selection = match capture.preset {
            Some((x, y, width, height)) => {
                let left: i64 = to_points(x as u64, scale);
                let top: i64 = to_points(y as u64, scale);
                let right: i64 = to_points(x as u64 + width as u64, scale);
                let bottom: i64 = to_points(y as u64 + height as u64, scale);
                proof {
                    lemma_points_grow(x as int, x + width, scale as int);
                    lemma_points_grow(y as int, y + height, scale as int);
                }
                Some(Rect::new(Point::new(left, top), Size::new(right - left, bottom - top)))
            },
            None => None,
        };
        let annotations: Vec<Annotation> = Vec::new();
        let undone: Vec<Annotation> = Vec::new();
        proof {
            assert(annotate::drawn(annotations@) =~= Seq::<AnnotationView>::empty());
            assert(annotate::drawn(undone@) =~= Seq::<AnnotationView>::empty());
            assert(annotate::widths()[1] == 1024);
        }
        Overlay {
            capture,
            screen,
            selection,
            drag: None,
            tool: None,
            annotations,
            drawing: None,
            undone,
            ink: palette_entry(0).1,
            width: 1024,
            typing: false,
        }
    }

    fn count_counters(&self) -> (count: usize)
        ensures
            count == counters(self@.annotations),
            count <= self@.annotations.len(),
    {
        let mut count: usize = 0;
        let mut i: usize = 0;
        let ghost all = annotate::drawn(self.annotations@);
        while i < self.annotations.len()
            invariant
                i <= self.annotations@.len() == all.len(),
                all == annotate::drawn(self.annotations@),
                count == counters(all.take(i as int)),
                count <= i,
            decreases self.annotations@.len() - i,
        {
            proof {
                assert(all.take(i + 1).drop_last() =~= all.take(i as int));
                assert(all[i as int] == self.annotations@[i as int]@);
            }
            if self.annotations[i].tool == Tool::Counter {
                count += 1;
            }
            i += 1;
        }
        proof {
            assert(all.take(i as int) =~= all);
        }
        count
    }

    fn grab(&self, at: Point) -> (drag: Drag)
        requires
            self@.wf(),
            at.wf(),
        ensures
            drag == self@.grabbed(at),
            drag_wf(drag),
    {
        match self.selection {
            None => Drag::New { origin: at },
            Some(rect) => match nearest_corner(rect, at) {
                Some(corner) => Drag::Resize { anchor: opposite(rect, corner) },
                None => match nearest_edge(rect, at) {
                    Some(edge) => Drag::Edge { rect, edge },
                    None => if rect.contains(at) {
                        Drag::Move { dx: at.x - rect.x, dy: at.y - rect.y }
                    } else {
                        Drag::New { origin: at }
                    },
                },
            },
        }
    }

    /// The button went down.
    pub fn drag_begin(&mut self, at: Point)
        requires
            old(self)@.wf(),
            at.wf(),
            old(self)@.annotations.len() < u32::MAX,
        ensures
            final(self)@ == old(self)@.begun(at),
            final(self)@.wf(),
    {
        match self.tool {
            Some(tool) => {
                let (ink, width) = tool.ink(self.ink, self.width);
                let mut annotation = Annotation::new(tool, at, ink, width);
                if tool == Tool::Counter {
                    annotation.index = self.count_counters() as u32 + 1;
                }
                self.typing = tool == Tool::Text;
                self.drawing = Some(annotation);
                self.drag = Some(Drag::Draw);
            },
            None => {
                self.drag = Some(self.grab(at));
            },
        }
    }

    /// The pointer moved with the button down.
    pub fn drag_update(&mut self, at: Point)
        requires
            old(self)@.wf(),
            at.wf(),
            old(self)@.movable(),
        ensures
            final(self)@ == old(self)@.dragged(at),
            final(self)@.wf(),
    {
        match self.drag {
            Some(Drag::Draw) => {
                if let Some(annotation) = self.drawing.take() {
                    let mut annotation = annotation;
                    annotation.extend(at);
                    self.drawing = Some(annotation);
                }
            },
            Some(Drag::New { origin }) => {
                self.selection = Some(from_corners(origin, at));
            },
            Some(Drag::Resize { anchor }) => {
                self.selection = Some(from_corners(anchor, at));
            },
            Some(Drag::Edge { rect, edge }) => {
                self.selection = Some(resize_edge(rect, edge, at));
            },
            Some(Drag::Move { dx, dy }) => {
                if let Some(rect) = self.selection {
                    let room_x: i64 = geom::max(self.screen.width - rect.width, 0);
                    let room_y: i64 = geom::max(self.screen.height - rect.height, 0);
                    let x: i64 = geom::min(geom::max(at.x - dx, 0), room_x);
                    let y: i64 = geom::min(geom::max(at.y - dy, 0), room_y);
                    self.selection = Some(Rect::new(Point::new(x, y), rect.size()));
                }
            },
            None => {},
        }
    }

    /// Finish what is being drawn: keep it, or drop it if it drew nothing.
    ///
    /// A click that drew nothing is dropped rather than left as an invisible
    /// entry that undo would appear to ignore. A step number is counted here, as
    /// undo and redo may have changed the count since the button went down.
    fn keep_drawing(&mut self)
        requires
            old(self)@.wf(),
        ensures
            final(self)@ == old(self)@.kept(),
            final(self)@.wf(),
    {
        if let Some(annotation) = self.drawing.take() {
            if annotation.is_usable() {
                let mut annotation = annotation;
                if annotation.tool == Tool::Counter {
                    let number: u128 = self.count_counters() as u128 + 1;
                    annotation.index = number as u32;
                }
                let ghost before = self.annotations@;
                self.annotations.push(annotation);
                self.undone.clear();
                proof {
                    lemma_drawn_push(before, annotation);
                    assert(annotate::drawn(self.undone@) =~= Seq::<AnnotationView>::empty());
                }
            }
        }
    }

    /// The button was let go.
    pub fn drag_end(&mut self)
        requires
            old(self)@.wf(),
        ensures
            final(self)@ == old(self)@.released(),
            final(self)@.wf(),
    {
        if !self.typing {
            self.keep_drawing();
        }
        self.drag = None;
    }

    /// Choose a tool. `None` is the select and move tool, which is a tool like
    /// any other rather than the absence of one.
    ///
    /// Deliberately sets rather than toggles: a stray second click on the tool
    /// already held must not change what the next drag does.
    pub fn set_tool(&mut self, tool: Option<Tool>)
        requires
            old(self)@.wf(),
        ensures
            final(self)@ == old(self)@.with_tool(tool),
            final(self)@.wf(),
    {
        self.tool = tool;
        self.drawing = None;
        self.typing = false;
    }

    /// Choose a colour of the palette.
    pub fn set_ink(&mut self, index: usize)
        requires
            old(self)@.wf(),
            index < annotate::PALETTE_SIZE,
        ensures
            final(self)@ == (OverlayView {
                ink: annotate::palette()[index as int].1,
                ..old(self)@
            }),
            final(self)@.wf(),
    {
        self.ink = palette_entry(index).1;
    }

    /// Take back the last annotation.
    pub fn undo(&mut self)
        requires
            old(self)@.wf(),
        ensures
            final(self)@ == old(self)@.undo_done(),
            final(self)@.wf(),
    {
        proof {
            if self.annotations@.len() > 0 {
                lemma_drawn_drop_last(self.annotations@);
                lemma_drawn_push(self.undone@, self.annotations@.last());
            }
        }
        if let Some(annotation) = self.annotations.pop() {
            self.undone.push(annotation);
        }
    }

    /// Put back the annotation that was taken back last.
    pub fn redo(&mut self)
        requires
            old(self)@.wf(),
        ensures
            final(self)@ == old(self)@.redo_done(),
            final(self)@.wf(),
    {
        proof {
            if self.undone@.len() > 0 {
                lemma_drawn_drop_last(self.undone@);
                lemma_drawn_push(self.annotations@, self.undone@.last());
            }
        }
        if let Some(annotation) = self.undone.pop() {
            self.annotations.push(annotation);
        }
    }

    fn type_character(&mut self, c: char)
        requires
            old(self)@.wf(),
        ensures
            final(self)@ == old(self)@.with_text(old(self)@.typed().push(c)),
            final(self)@.wf(),
    {
        if let Some(annotation) = self.drawing.take() {
            let mut annotation = annotation;
            annotation.text.push(c);
            self.drawing = Some(annotation);
        }
    }

    fn erase_character(&mut self)
        requires
            old(self)@.wf(),
        ensures
            final(self)@ == (if old(self)@.typed().len() > 0 {
                old(self)@.with_text(old(self)@.typed().drop_last())
            } else {
                old(self)@
            }),
            final(self)@.wf(),
    {
        if let Some(annotation) = self.drawing.take() {
            let mut annotation = annotation;
            let _ = annotation.text.pop();
            self.drawing = Some(annotation);
        }
    }

    fn type_key(&mut self, key: Key, shift: bool)
        requires
            old(self)@.wf(),
        ensures
            final(self)@ == old(self)@.after_typed(key, shift),
            final(self)@.wf(),
    {
        match key {
            Key::Return | Key::KeypadEnter => {
                if shift {
                    self.type_character('\n');
                } else {
                    self.typing = false;
                    self.keep_drawing();
                }
            },
            Key::Escape => {
                self.typing = false;
                self.drawing = None;
            },
            Key::BackSpace => {
                self.erase_character();
            },
            Key::Space => {
                self.type_character(' ');
            },
            Key::Character(c) => {
                let u: u32 = c as u32;
                let control: bool = u <= 0x1f || (0x7f <= u && u <= 0x9f);
                if !control {
                    self.type_character(c);
                }
            },
            Key::Other => {},
        }
    }

    fn character_key(&mut self, c: char, control: bool, shift: bool) -> (reply: Reply)
        requires
            old(self)@.wf(),
        ensures
            (final(self)@, reply) == old(self)@.after_character(c, control, shift),
            final(self)@.wf(),
    {
        if c == 'c' {
            Reply::Commit(Commit::Copy)
        } else if c == 's' {
            Reply::Commit(Commit::Save)
        } else if c == 'e' {
            Reply::Commit(Commit::Extract)
        } else if c == 't' {
            Reply::Commit(Commit::Translate)
        } else if (c == 'z' || c == 'Z') && control && shift {
            self.redo();
            Reply::Stop
        } else if c == 'z' && control {
            self.undo();
            Reply::Stop
        } else if c == 'v' {
            self.set_tool(None);
            Reply::Stop
        } else if c == 'p' {
            self.set_tool(Some(Tool::Pen));
            Reply::Stop
        } else if c == 'a' {
            self.set_tool(Some(Tool::Arrow));
            Reply::Stop
        } else if c == 'r' {
            self.set_tool(Some(Tool::Rectangle));
            Reply::Stop
        } else if c == 'o' {
            self.set_tool(Some(Tool::Ellipse));
            Reply::Stop
        } else if c == 'h' {
            self.set_tool(Some(Tool::Highlight));
            Reply::Stop
        } else if c == 'b' {
            self.set_tool(Some(Tool::Blur));
            Reply::Stop
        } else if c == 'n' {
            self.set_tool(Some(Tool::Counter));
            Reply::Stop
        } else if c == 'x' {
            self.set_tool(Some(Tool::Text));
            Reply::Stop
        } else if c == 'w' {
            self.width = width_after(self.width);
            proof {
                let w = annotate::widths();
                assert(w[0] == 512 && w[1] == 1024 && w[2] == 1792 && w[3] == 3072);
            }
            Reply::Stop
        } else if '1' <= c && c <= '6' {
            self.set_ink((c as u32 - '1' as u32) as usize);
            Reply::Proceed
        } else {
            Reply::Proceed
        }
    }

    /// A key was pressed. While typing, the keyboard belongs to the text and
    /// nothing else.
    pub fn key_pressed(&mut self, key: Key, control: bool, shift: bool) -> (reply: Reply)
        requires
            old(self)@.wf(),
        ensures
            (final(self)@, reply) == old(self)@.pressed(key, control, shift),
            final(self)@.wf(),
    {
        if self.typing {
            self.type_key(key, shift);
            return Reply::Stop;
        }
        match key {
            Key::Return | Key::Space => Reply::Commit(Commit::Save),
            Key::Escape => {
                // Esc leaves the tool first, so it can never throw away a
                // capture you were still drawing on.
                if self.tool.is_some() {
                    self.set_tool(None);
                    Reply::Stop
                } else {
                    Reply::Cancel
                }
            },
            Key::Character(c) => self.character_key(c, control, shift),
            Key::KeypadEnter | Key::BackSpace | Key::Other => Reply::Proceed,
        }
    }
}

/// More pixels are at least as many points.
proof fn lemma_points_grow(a: int, b: int, scale: int)
    requires
        0 <= a <= b,
        scale > 0,
    ensures
        points_of(a, scale) <= points_of(b, scale),
{
    vstd::arithmetic::div_mod::lemma_div_is_ordered(
        a * geom::SUBPIXELS,
        b * geom::SUBPIXELS,
        scale,
    );
}

/// The shape of the pointer over the canvas.
#[derive(Debug, Clone, Copy, PartialEq, Eq, Structural)]
pub enum Cursor {
    Crosshair,
    Move,
    DiagonalDown,
    DiagonalUp,
    Vertical,
    Horizontal,
}

impl Cursor {
    pub open spec fn named(self) -> Seq<char> {
        match self {
            Cursor::Crosshair => "crosshair"@,
            Cursor::Move => "move"@,
            Cursor::DiagonalDown => "nwse-resize"@,
            Cursor::DiagonalUp => "nesw-resize"@,
            Cursor::Vertical => "ns-resize"@,
            Cursor::Horizontal => "ew-resize"@,
        }
    }

    /// The name toolkits know the shape by.
    pub fn name(self) -> (name: &'static str)
        ensures
            name@ == self.named(),
    {
        match self {
            Cursor::Crosshair => "crosshair",
            Cursor::Move => "move",
            Cursor::DiagonalDown => "nwse-resize",
            Cursor::DiagonalUp => "nesw-resize",
            Cursor::Vertical => "ns-resize",
            Cursor::Horizontal => "ew-resize",
        }
    }
}

/// Where the bars go: the edges they stick to, and their margins in points.
#[derive(Debug, Clone, Copy, PartialEq, Eq, Structural)]
pub struct Placement {
    pub anchor: Anchor,
    pub side: Side,
    pub margin_top: i32,
    pub margin_bottom: i32,
    pub margin_start: i32,
    pub margin_end: i32,
}

/// A capture with the selection cut out of it and the annotations worked in.
pub enum Committed {
    /// There is nothing selected that could be kept.
    Cancelled,
    /// The image could not be worked on.
    Failed(ImageError),
    Ready(Rasterized),
}

pub enum CommittedView {
    Cancelled,
    Failed(ImageErrorView),
    Ready(RasterizedView),
}

impl View for Committed {
    type V = CommittedView;

    open spec fn view(&self) -> CommittedView {
        match self {
            Committed::Cancelled => CommittedView::Cancelled,
            Committed::Failed(error) => CommittedView::Failed(error@),
            Committed::Ready(rasterized) => CommittedView::Ready(rasterized@),
        }
    }
}

impl OverlayView {
    /// The pointer says what a drag here would do, before you commit to it: a
    /// crosshair to draw, a four-way arrow to move, and the matching double
    /// arrow to resize.
    pub open spec fn cursor_at(self, at: Point) -> Cursor {
        match self.selection {
            Some(rect) if self.tool is None => match geom::corner_at(rect, at) {
                Some(Corner::TopLeft) | Some(Corner::BottomRight) => Cursor::DiagonalDown,
                Some(Corner::TopRight) | Some(Corner::BottomLeft) => Cursor::DiagonalUp,
                None => match geom::edge_at(rect, at) {
                    Some(Edge::Top) | Some(Edge::Bottom) => Cursor::Vertical,
                    Some(Edge::Left) | Some(Edge::Right) => Cursor::Horizontal,
                    None => if rect.holds(at) {
                        Cursor::Move
                    } else {
                        Cursor::Crosshair
                    },
                },
            },
            _ => Cursor::Crosshair,
        }
    }

    /// The bars on whichever screen edges the selection leaves clear.
    pub open spec fn placement(self) -> Placement {
        let anchor = geom::anchor_for(self.selection, self.screen, ACTION_BAR);
        let side = geom::side_for(self.selection, self.screen, TOOL_STRIP);
        Placement {
            anchor,
            side,
            margin_top: if anchor == Anchor::Top {
                24
            } else {
                0
            },
            margin_bottom: if anchor == Anchor::Bottom {
                24
            } else {
                0
            },
            margin_start: if side == Side::Left {
                16
            } else {
                0
            },
            margin_end: if side == Side::Right {
                16
            } else {
                0
            },
        }
    }

    /// The image pixels that the selection stands for, if it is a deliberate
    /// drag with anything of the image in it.
    pub open spec fn region(self) -> Option<(u32, u32, u32, u32)> {
        match self.selection {
            Some(rect) if geom::usable(self.selection) => geom::pixels_of(
                rect,
                self.scale,
                match image::header(self.png) {
                    Some(size) => size,
                    None => (0, 0),
                },
            ),
            _ => None,
        }
    }

    /// What committing makes of the selection: the region is cut out of the
    /// capture, and the annotations, recorded in screen points, are shifted by
    /// the selection's corner and scaled so that they land where they were
    /// drawn.
    pub open spec fn committed(self) -> CommittedView {
        match self.region() {
            None => CommittedView::Cancelled,
            Some(region) => match image::cropped(self.png, region) {
                Err(error) => CommittedView::Failed(error),
                Ok(file) => match annotate::rasterized(
                    self.annotations,
                    file,
                    Point { x: self.selection->0.x, y: self.selection->0.y },
                    self.scale,
                ) {
                    Err(error) => CommittedView::Failed(error),
                    Ok(done) => CommittedView::Ready(done),
                },
            },
        }
    }
}

impl Overlay {
    /// The shape the pointer should have at a point.
    pub fn cursor(&self, at: Point) -> (cursor: Cursor)
        requires
            self@.wf(),
            at.wf(),
        ensures
            cursor == self@.cursor_at(at),
    {
        if self.tool.is_some() {
            return Cursor::Crosshair;
        }
        match self.selection {
            None => Cursor::Crosshair,
            Some(rect) => match nearest_corner(rect, at) {
                Some(Corner::TopLeft) | Some(Corner::BottomRight) => Cursor::DiagonalDown,
                Some(Corner::TopRight) | Some(Corner::BottomLeft) => Cursor::DiagonalUp,
                None => match nearest_edge(rect, at) {
                    Some(Edge::Top) | Some(Edge::Bottom) => Cursor::Vertical,
                    Some(Edge::Left) | Some(Edge::Right) => Cursor::Horizontal,
                    None => if rect.contains(at) {
                        Cursor::Move
                    } else {
                        Cursor::Crosshair
                    },
                },
            },
        }
    }

    /// Put the toolbars on whichever screen edges the selection leaves clear.
    ///
    /// They stick to the screen rather than following the selection around -
    /// all they do is get out of its way.
    pub fn reposition(&self) -> (placement: Placement)
        requires
            self@.wf(),
        ensures
            placement == self@.placement(),
    {
        let anchor = toolbar_anchor(self.selection, self.screen, ACTION_BAR);
        let side = sidebar_anchor(self.selection, self.screen, TOOL_STRIP);
        let (margin_top, margin_bottom): (i32, i32) = match anchor {
            Anchor::Top => (24, 0),
            Anchor::Bottom => (0, 24),
        };
        let (margin_start, margin_end): (i32, i32) = match side {
            Side::Left => (16, 0),
            Side::Right => (0, 16),
        };
        Placement { anchor, side, margin_top, margin_bottom, margin_start, margin_end }
    }

    /// Cut the selection out of the capture and work the annotations in.
    pub fn commit(&self) -> (result: Committed)
        requires
            self@.wf(),
        ensures
            result@ == self@.committed(),
            result matches Committed::Ready(Rasterized::Redrawn { raster, .. }) ==> raster.wf(),
    {
        if !geom::is_usable(self.selection) {
            return Committed::Cancelled;
        }
        let rect = match self.selection {
            Some(rect) => rect,
            None => {
                return Committed::Cancelled;
            },
        };
        let size = match image::png_dimensions(&self.capture.png) {
            Some(size) => size,
            None => (0, 0),
        };
        let region = match to_pixels(rect, self.capture.scale, size) {
            Some(region) => region,
            None => {
                return Committed::Cancelled;
            },
        };
        let file = match image::crop(&self.capture.png, region) {
            Ok(file) => file,
            Err(error) => {
                return Committed::Failed(error);
            },
        };
        match rasterize(&self.annotations, &file, rect.position(), self.capture.scale) {
            Ok(done) => Committed::Ready(done),
            Err(error) => Committed::Failed(error),
        }
    }
}

/// What is left to do with the finished image.
pub enum Delivery {
    /// Put it on the clipboard.
    Copy(Vec<u8>),
    /// Put it on the clipboard, whether or not that works, and write it to disk.
    CopyAndSave(Vec<u8>),
    /// Read the text in it; `raw` skips translation.
    Recognise { png: Vec<u8>, raw: bool },
}

/// What is to be done with the finished image.
pub fn deliver(what: Commit, png: Vec<u8>) -> (delivery: Delivery)
    ensures
        delivery == (match what {
            Commit::Copy => Delivery::Copy(png),
            Commit::Save => Delivery::CopyAndSave(png),
            Commit::Extract => Delivery::Recognise { png, raw: true },
            Commit::Translate => Delivery::Recognise { png, raw: false },
        }),
{
    match what {
        Commit::Copy => Delivery::Copy(png),
        Commit::Save => Delivery::CopyAndSave(png),
        Commit::Extract => Delivery::Recognise { png, raw: true },
        Commit::Translate => Delivery::Recognise { png, raw: false },
    }
}

/// What the overlay decided to do with the selection.
pub enum Done {
    /// Copied, saved, or both - nothing further to do.
    Handled(String),
    /// Recognise this image; `raw` skips translation.
    Recognise { png: Vec<u8>, raw: bool },
    Cancelled,
}

/// What to report once the image was copied, or why it was not.
pub fn copied(outcome: Result<(), String>) -> (done: Done)
    ensures
        done matches Done::Handled(message) && message@ == match outcome {
            Ok(()) => "copied"@,
            Err(error) => error@,
        },
{
    match outcome {
        Ok(()) => Done::Handled("copied".to_owned()),
        Err(error) => Done::Handled(error),
    }
}

/// What to report once the image was saved at a path, or why it was not.
pub fn saved(outcome: Result<String, String>) -> (done: Done)
    ensures
        done matches Done::Handled(message) && message@ == match outcome {
            Ok(path) => "saved "@ + path@,
            Err(error) => error@,
        },
{
    match outcome {
        Ok(path) => {
            let mut message = "saved ".to_owned();
            message.append(path.as_str());
            Done::Handled(message)
        },
        Err(error) => Done::Handled(error),
    }
}

/// The pointer's shape says what a drag from there would do.
pub proof fn law_the_pointer_says_what_a_drag_would_do(overlay: OverlayView, at: Point)
    ensures
        ({
            let drag = overlay.begun(at).drag->0;
            let cursor = overlay.cursor_at(at);
            &&& overlay.begun(at).drag is Some
            &&& cursor == Cursor::Crosshair <==> drag is New || drag is Draw
            &&& cursor == Cursor::Move <==> drag is Move
            &&& cursor == Cursor::DiagonalDown || cursor == Cursor::DiagonalUp <==> drag is Resize
            &&& cursor == Cursor::Vertical || cursor == Cursor::Horizontal <==> drag is Edge
        }),
{
}

/// Moving the selection keeps its size and, where it fits, keeps it on the
/// screen.
pub proof fn law_a_moved_selection_keeps_its_size_and_stays_on_screen(
    overlay: OverlayView,
    rect: Rect,
    dx: int,
    dy: int,
    at: Point,
)
    requires
        overlay.screen.wf(),
        0 <= rect.width <= overlay.screen.width,
        0 <= rect.height <= overlay.screen.height,
    ensures
        ({
            let result = overlay.moved(rect, dx, dy, at);
            &&& result.width == rect.width
            &&& result.height == rect.height
            &&& 0 <= result.x
            &&& 0 <= result.y
            &&& result.x + result.width <= overlay.screen.width
            &&& result.y + result.height <= overlay.screen.height
        }),
{
}

/// Nothing is committed by a press that goes nowhere: with the select tool,
/// pressing and letting go leaves the selection and the annotations alone.
pub proof fn law_a_click_changes_no_selection(overlay: OverlayView, at: Point)
    requires
        overlay.tool is None,
    ensures
        overlay.begun(at).released().selection == overlay.selection,
        overlay.drawing is None ==> overlay.begun(at).released().annotations
            == overlay.annotations,
{
}

/// Redo puts back exactly what undo took, and undo takes exactly what redo put
/// back.
pub proof fn law_undo_and_redo_undo_each_other(overlay: OverlayView)
    ensures
        overlay.annotations.len() > 0 ==> overlay.undo_done().redo_done() == overlay,
        overlay.undone.len() > 0 ==> overlay.redo_done().undo_done() == overlay,
        overlay.annotations.len() == 0 ==> overlay.undo_done() == overlay,
        overlay.undone.len() == 0 ==> overlay.redo_done() == overlay,
{
    if overlay.annotations.len() > 0 {
        let back = overlay.undo_done().redo_done();
        assert(back.annotations =~= overlay.annotations);
        assert(back.undone =~= overlay.undone);
    }
    if overlay.undone.len() > 0 {
        let back = overlay.redo_done().undo_done();
        assert(back.annotations =~= overlay.annotations);
        assert(back.undone =~= overlay.undone);
    }
}

/// What was drawn is kept, a step number under its number, and forgets what had
/// been undone; a click that drew nothing forgets nothing and keeps nothing.
pub proof fn law_only_what_was_drawn_is_kept(overlay: OverlayView)
    requires
        !overlay.typing,
        overlay.drawing is Some,
    ensures
        overlay.drawing->0.usable() ==> {
            &&& overlay.released().annotations == overlay.annotations.push(
                overlay.counted(overlay.drawing->0),
            )
            &&& overlay.released().undone.len() == 0
        },
        !overlay.drawing->0.usable() ==> {
            &&& overlay.released().annotations == overlay.annotations
            &&& overlay.released().undone == overlay.undone
        },
{
}

/// While a text is being typed, no key commits, cancels, or changes the tool,
/// the colour, the width or the selection; and only Enter, without Shift,
/// changes the annotations.
pub proof fn law_while_typing_the_keyboard_belongs_to_the_text(
    overlay: OverlayView,
    key: Key,
    control: bool,
    shift: bool,
)
    requires
        overlay.typing,
    ensures
        ({
            let (after, reply) = overlay.pressed(key, control, shift);
            &&& reply == Reply::Stop
            &&& after.tool == overlay.tool
            &&& after.ink == overlay.ink
            &&& after.width == overlay.width
            &&& after.selection == overlay.selection
            &&& (after.annotations != overlay.annotations ==> !shift && (key == Key::Return || key
                == Key::KeypadEnter))
        }),
{
}

/// Esc leaves a tool before it closes anything: with a tool held it keeps the
/// overlay open, the selection and everything drawn.
pub proof fn law_escape_leaves_the_tool_first(overlay: OverlayView, control: bool, shift: bool)
    requires
        !overlay.typing,
    ensures
        overlay.tool is Some ==> {
            let (after, reply) = overlay.pressed(Key::Escape, control, shift);
            &&& reply == Reply::Stop
            &&& after.tool is None
            &&& after.selection == overlay.selection
            &&& after.annotations == overlay.annotations
        },
        overlay.tool is None ==> overlay.pressed(Key::Escape, control, shift) == (
            overlay,
            Reply::Cancel,
        ),
{
}

/// Every step number shows how many step numbers there are up to it.
pub open spec fn numbered(list: Seq<AnnotationView>) -> bool {
    forall|i: int|
        0 <= i < list.len() && list[i].tool == Tool::Counter ==> (#[trigger] list[i]).index
            == counters(list.take(i + 1))
}

/// Everything drawn that is kept or could be put back, in the order of drawing.
pub open spec fn history(overlay: OverlayView) -> Seq<AnnotationView> {
    overlay.annotations + overlay.undone.reverse()
}

/// Undo and redo move along the history without changing it.
pub proof fn law_undo_and_redo_keep_the_history(overlay: OverlayView)
    ensures
        history(overlay.undo_done()) == history(overlay),
        history(overlay.redo_done()) == history(overlay),
{
    assert(history(overlay.undo_done()) =~= history(overlay));
    assert(history(overlay.redo_done()) =~= history(overlay));
}

proof fn lemma_numbered_prefix(list: Seq<AnnotationView>, n: int)
    requires
        numbered(list),
        0 <= n <= list.len(),
    ensures
        numbered(list.take(n)),
{
    let prefix = list.take(n);
    assert forall|i: int|
        0 <= i < prefix.len() && prefix[i].tool == Tool::Counter implies (
    #[trigger] prefix[i]).index == counters(prefix.take(i + 1)) by {
        assert(prefix[i] == list[i]);
        assert(prefix.take(i + 1) =~= list.take(i + 1));
    }
}

/// Step numbers are handed out without a gap: a step number placed on a
/// numbered drawing continues the count.
pub proof fn law_step_numbers_leave_no_gap(overlay: OverlayView, at: Point)
    requires
        overlay.tool == Some(Tool::Counter),
        overlay.annotations.len() < u32::MAX,
        numbered(overlay.annotations),
    ensures
        ({
            let placed = overlay.begun(at).released();
            &&& placed.annotations.len() == overlay.annotations.len() + 1
            &&& placed.annotations.last().index == counters(overlay.annotations) + 1
            &&& numbered(placed.annotations)
        }),
{
    let placed = overlay.begun(at).released();
    let list = placed.annotations;
    lemma_counters_bound(overlay.annotations);
    assert(overlay.started(Tool::Counter, at).usable());
    assert(list == overlay.annotations.push(overlay.started(Tool::Counter, at)));
    assert forall|i: int| 0 <= i < list.len() && list[i].tool == Tool::Counter implies (
    #[trigger] list[i]).index == counters(list.take(i + 1)) by {
        if i < overlay.annotations.len() {
            assert(list[i] == overlay.annotations[i]);
            assert(list.take(i + 1) =~= overlay.annotations.take(i + 1));
        } else {
            assert(list.take(i + 1) =~= list);
            assert(list.drop_last() =~= overlay.annotations);
        }
    }
}

proof fn lemma_counters_bound(list: Seq<AnnotationView>)
    ensures
        counters(list) <= list.len(),
    decreases list.len(),
{
    if list.len() > 0 {
        lemma_counters_bound(list.drop_last());
    }
}

/// Undo hands a step number back: after a step number was undone, the next one
/// placed gets the same number.
pub proof fn law_undo_hands_the_number_back(overlay: OverlayView, at: Point)
    requires
        overlay.annotations.len() > 0,
        overlay.annotations.len() < u32::MAX,
        overlay.annotations.last().tool == Tool::Counter,
        numbered(overlay.annotations),
    ensures
        overlay.undo_done().started(Tool::Counter, at).index == overlay.annotations.last().index,
        numbered(overlay.undo_done().annotations),
{
    let list = overlay.annotations;
    let n = list.len() as int;
    assert(list.take(n) =~= list);
    assert(list[n - 1].index == counters(list));
    assert(list.take(n - 1) =~= list.drop_last());
    lemma_numbered_prefix(list, n - 1);
    lemma_counters_bound(list.drop_last());
}

/// Undone or put back, what remains stays numbered.
pub proof fn law_undo_and_redo_keep_the_numbering(overlay: OverlayView)
    requires
        numbered(history(overlay)),
    ensures
        numbered(overlay.annotations),
        numbered(overlay.undo_done().annotations),
        numbered(overlay.redo_done().annotations),
{
    law_undo_and_redo_keep_the_history(overlay);
    let all = history(overlay);
    let undone = overlay.undo_done().annotations;
    let redone = overlay.redo_done().annotations;
    lemma_numbered_prefix(all, overlay.annotations.len() as int);
    assert(all.take(overlay.annotations.len() as int) =~= overlay.annotations);
    lemma_numbered_prefix(all, undone.len() as int);
    assert(all.take(undone.len() as int) =~= undone);
    lemma_numbered_prefix(all, redone.len() as int);
    assert(history(overlay.redo_done()) == all);
    assert(all.take(redone.len() as int) =~= redone);
}

/// The step numbers are in order, with those that could be put back.
pub open spec fn orderly(overlay: OverlayView) -> bool {
    numbered(history(overlay))
}

proof fn lemma_numbered_push(list: Seq<AnnotationView>, annotation: AnnotationView)
    requires
        numbered(list),
        annotation.tool == Tool::Counter ==> annotation.index == counters(list) + 1,
    ensures
        numbered(list.push(annotation)),
{
    let longer = list.push(annotation);
    assert forall|i: int| 0 <= i < longer.len() && longer[i].tool == Tool::Counter implies (
    #[trigger] longer[i]).index == counters(longer.take(i + 1)) by {
        if i < list.len() {
            assert(longer[i] == list[i]);
            assert(longer.take(i + 1) =~= list.take(i + 1));
        } else {
            assert(longer.take(i + 1) =~= longer);
            assert(longer.drop_last() =~= list);
        }
    }
}

/// Finishing what is being drawn keeps the step numbers in order.
proof fn lemma_kept_is_orderly(overlay: OverlayView)
    requires
        orderly(overlay),
        overlay.annotations.len() < u32::MAX,
    ensures
        orderly(overlay.kept()),
{
    let all = history(overlay);
    lemma_numbered_prefix(all, overlay.annotations.len() as int);
    assert(all.take(overlay.annotations.len() as int) =~= overlay.annotations);
    let after = overlay.kept();
    match overlay.drawing {
        Some(annotation) if annotation.usable() => {
            lemma_counters_bound(overlay.annotations);
            lemma_numbered_push(overlay.annotations, overlay.counted(annotation));
            assert(history(after) =~= overlay.annotations.push(overlay.counted(annotation)));
        },
        _ => {
            assert(history(after) == all);
        },
    }
}

/// Every event keeps the step numbers in order: pressing, dragging, letting go,
/// choosing a tool, undo, redo and every key, a step number being placed or not.
pub proof fn law_every_event_keeps_the_numbers_in_order(
    overlay: OverlayView,
    at: Point,
    tool: Option<Tool>,
    key: Key,
    control: bool,
    shift: bool,
)
    requires
        orderly(overlay),
        overlay.annotations.len() < u32::MAX,
    ensures
        orderly(overlay.begun(at)),
        orderly(overlay.dragged(at)),
        orderly(overlay.released()),
        orderly(overlay.with_tool(tool)),
        orderly(overlay.undo_done()),
        orderly(overlay.redo_done()),
        orderly(overlay.pressed(key, control, shift).0),
{
    assert(history(overlay.begun(at)) == history(overlay));
    assert(history(overlay.dragged(at)) == history(overlay));
    assert(history(overlay.with_tool(tool)) == history(overlay));
    lemma_kept_is_orderly(overlay);
    assert(history(overlay.released()) == if overlay.typing {
        history(overlay)
    } else {
        history(overlay.kept())
    });
    law_undo_and_redo_keep_the_history(overlay);
    let after = overlay.pressed(key, control, shift).0;
    if overlay.typing {
        let still = OverlayView { typing: false, ..overlay };
        assert(history(still) == history(overlay));
        lemma_kept_is_orderly(still);
        if !((key == Key::Return || key == Key::KeypadEnter) && !shift) {
            assert(history(after) == history(overlay));
        }
    } else if after != overlay.undo_done() && after != overlay.redo_done() {
        assert(history(after) == history(overlay));
    }
}

/// What the user can do to the drawing.
pub enum Event {
    Press { at: Point },
    Drag { at: Point },
    Release,
    Tool { tool: Option<Tool> },
    Ink { ink: Ink },
    Undo,
    Redo,
    Key { key: Key, control: bool, shift: bool },
}

/// The overlay after an event.
pub open spec fn after_event(overlay: OverlayView, event: Event) -> OverlayView {
    match event {
        Event::Press { at } => overlay.begun(at),
        Event::Drag { at } => overlay.dragged(at),
        Event::Release => overlay.released(),
        Event::Tool { tool } => overlay.with_tool(tool),
        Event::Ink { ink } => OverlayView { ink, ..overlay },
        Event::Undo => overlay.undo_done(),
        Event::Redo => overlay.redo_done(),
        Event::Key { key, control, shift } => overlay.pressed(key, control, shift).0,
    }
}

/// The overlay after a series of events.
pub open spec fn after_events(overlay: OverlayView, events: Seq<Event>) -> OverlayView
    decreases events.len(),
{
    if events.len() == 0 {
        overlay
    } else {
        after_event(after_events(overlay, events.drop_last()), events.last())
    }
}

/// The step numbers shown, in the order in which they were placed.
pub open spec fn step_numbers(list: Seq<AnnotationView>) -> Seq<int>
    decreases list.len(),
{
    if list.len() == 0 {
        Seq::empty()
    } else if list.last().tool == Tool::Counter {
        step_numbers(list.drop_last()).push(list.last().index as int)
    } else {
        step_numbers(list.drop_last())
    }
}

proof fn lemma_numbered_counts_up(list: Seq<AnnotationView>)
    requires
        numbered(list),
    ensures
        step_numbers(list) == Seq::new(counters(list), |i: int| i + 1),
    decreases list.len(),
{
    if list.len() > 0 {
        let front = list.drop_last();
        let n = list.len() as int;
        assert(list.take(n - 1) =~= front);
        assert(list.take(n) =~= list);
        lemma_numbered_prefix(list, n - 1);
        lemma_numbered_counts_up(front);
        if list.last().tool == Tool::Counter {
            assert(list[n - 1].index == counters(list));
        }
    }
    assert(step_numbers(list) =~= Seq::new(counters(list), |i: int| i + 1));
}

proof fn lemma_event_keeps_order(overlay: OverlayView, event: Event)
    requires
        orderly(overlay),
        overlay.annotations.len() < u32::MAX,
    ensures
        orderly(after_event(overlay, event)),
        after_event(overlay, event).annotations.len() <= overlay.annotations.len() + 1,
{
    let nowhere = Point { x: 0, y: 0 };
    match event {
        Event::Press { at } => {
            law_every_event_keeps_the_numbers_in_order(overlay, at, None, Key::Other, false, false);
        },
        Event::Drag { at } => {
            law_every_event_keeps_the_numbers_in_order(overlay, at, None, Key::Other, false, false);
        },
        Event::Tool { tool } => {
            law_every_event_keeps_the_numbers_in_order(
                overlay,
                nowhere,
                tool,
                Key::Other,
                false,
                false,
            );
        },
        Event::Ink { ink } => {
            assert(history(after_event(overlay, event)) == history(overlay));
        },
        Event::Key { key, control, shift } => {
            law_every_event_keeps_the_numbers_in_order(overlay, nowhere, None, key, control, shift);
        },
        _ => {
            law_every_event_keeps_the_numbers_in_order(
                overlay,
                nowhere,
                None,
                Key::Other,
                false,
                false,
            );
        },
    }
}

proof fn lemma_events_keep_order(overlay: OverlayView, events: Seq<Event>)
    requires
        orderly(overlay),
        overlay.annotations.len() + events.len() <= u32::MAX,
    ensures
        orderly(after_events(overlay, events)),
        after_events(overlay, events).annotations.len() <= overlay.annotations.len() + events.len(),
    decreases events.len(),
{
    if events.len() > 0 {
        lemma_events_keep_order(overlay, events.drop_last());
        lemma_event_keeps_order(after_events(overlay, events.drop_last()), events.last());
    }
}

/// The step numbers in the drawing always run from one without a gap or a
/// repeat: on an overlay that opened with nothing drawn, whatever was placed,
/// undone and put back since, and in whatever order.
pub proof fn law_step_numbers_always_run_from_one(overlay: OverlayView, events: Seq<Event>)
    requires
        overlay.annotations.len() == 0,
        overlay.undone.len() == 0,
        events.len() <= u32::MAX,
    ensures
        ({
            let drawn = after_events(overlay, events).annotations;
            step_numbers(drawn) == Seq::new(counters(drawn), |i: int| i + 1)
        }),
{
    lemma_events_keep_order(overlay, events);
    let after = after_events(overlay, events);
    law_undo_and_redo_keep_the_numbering(after);
    lemma_numbered_counts_up(after.annotations);
}

/// A text is being drawn whenever one is being typed.
pub open spec fn typing_has_a_text(overlay: OverlayView) -> bool {
    overlay.typing ==> (overlay.drawing matches Some(annotation) && annotation.tool == Tool::Text)
}

/// The keyboard belongs to a text only while there is one: whatever happens, a
/// text is being drawn whenever one is being typed.
pub proof fn law_typing_always_has_a_text(overlay: OverlayView, event: Event)
    requires
        typing_has_a_text(overlay),
    ensures
        typing_has_a_text(after_event(overlay, event)),
{
}

/// Choosing a tool gives the keyboard back.
pub proof fn law_choosing_a_tool_ends_typing(overlay: OverlayView, tool: Option<Tool>)
    ensures
        !overlay.with_tool(tool).typing,
        overlay.with_tool(tool).tool == tool,
        overlay.with_tool(tool).annotations == overlay.annotations,
{
}

/// Nothing is committed until you say so: only Enter, the space bar and the four
/// commit letters do it, and none of them while a text is being typed.
pub proof fn law_only_the_commit_keys_commit(
    overlay: OverlayView,
    key: Key,
    control: bool,
    shift: bool,
)
    ensures
        overlay.pressed(key, control, shift).1 matches Reply::Commit(what) ==> {
            &&& !overlay.typing
            &&& match key {
                Key::Return | Key::Space => what == Commit::Save,
                Key::Character(c) => commit_for(c) == Some(what),
                _ => false,
            }
            &&& overlay.pressed(key, control, shift).0 == overlay
        },
{
}

proof fn lemma_pixel_back(pixels: int, scale: int, units: int)
    requires
        0 <= pixels <= u32::MAX,
        0 < scale < 15360,
        pixels * geom::SUBPIXELS - scale < units * scale < pixels * geom::SUBPIXELS + scale,
    ensures
        geom::pixel(units, scale) == pixels,
{
    let v = units * scale;
    if v >= 0 {
        assert((v + 15360) / 30720 == pixels) by (nonlinear_arith)
            requires
                pixels * 30720 - 15360 <= v < pixels * 30720 + 15360,
        ;
    } else {
        assert(pixels == 0) by (nonlinear_arith)
            requires
                pixels * 30720 - 15360 < v < 0,
                pixels >= 0,
        ;
        assert((-v + 15360) / 30720 == 0) by (nonlinear_arith)
            requires
                -15360 < v < 0,
        ;
    }
}

proof fn lemma_points_are_close(pixels: int, scale: int)
    requires
        0 <= pixels,
        0 < scale,
    ensures
        pixels * geom::SUBPIXELS - scale < points_of(pixels, scale) * scale <= pixels
            * geom::SUBPIXELS,
{
    let p = pixels * geom::SUBPIXELS;
    vstd::arithmetic::div_mod::lemma_fundamental_div_mod(p, scale);
    vstd::arithmetic::div_mod::lemma_mod_bound(p, scale);
    let q = p / scale;
    assert(scale * q == q * scale) by (nonlinear_arith);
}

/// The coordinates reach over every image with a preset inside it, down to a
/// scale of eight 120ths.
pub proof fn law_captures_fit(capture: Capture)
    requires
        capture.scale >= 8,
        capture.preset matches Some((x, y, width, height)) ==> x + width <= u32::MAX && y + height
            <= u32::MAX,
    ensures
        capture.in_reach(),
{
    let scale = capture.scale as int;
    assert forall|pixels: int| 0 <= pixels <= u32::MAX implies #[trigger] points_of(pixels, scale)
        <= COORD_LIMIT by {
        vstd::arithmetic::div_mod::lemma_div_is_ordered_by_denominator(
            pixels * geom::SUBPIXELS,
            8,
            scale,
        );
    }
}

/// A preset selects exactly the pixels it names: what the overlay opens with
/// maps back onto the preset.
pub proof fn law_a_preset_selects_its_own_pixels(
    preset: (u32, u32, u32, u32),
    scale: u16,
    image: (u32, u32),
)
    requires
        0 < scale < 15360,
        0 < preset.2,
        0 < preset.3,
        preset.0 + preset.2 <= image.0,
        preset.1 + preset.3 <= image.1,
    ensures
        geom::pixels_of(preset_selection(preset, scale), scale, image) == Some(preset),
{
    let s = scale as int;
    let rect = preset_selection(preset, scale);
    let (x, w) = (preset.0 as int, preset.2 as int);
    let (y, h) = (preset.1 as int, preset.3 as int);
    lemma_axis(x, w, image.0 as int, s);
    lemma_axis(y, h, image.1 as int, s);
}

/// One axis of a preset: its start and its length map back onto themselves.
proof fn lemma_axis(start: int, length: int, limit: int, scale: int)
    requires
        0 < scale < 15360,
        0 <= start,
        0 < length,
        start + length <= limit <= u32::MAX,
    ensures
        geom::pixel(points_of(start, scale), scale) == start,
        geom::pixel(points_of(start + length, scale) - points_of(start, scale), scale) == length,
        0 <= points_of(start, scale) <= points_of(start + length, scale) <= 0x1_0000_0000_0000,
{
    lemma_points_grow(start, start + length, scale);
    lemma_points_bound(start, scale);
    lemma_points_bound(start + length, scale);
    lemma_points_are_close(start, scale);
    lemma_points_are_close(start + length, scale);
    let a = points_of(start, scale);
    let b = points_of(start + length, scale);
    assert((b - a) * scale == b * scale - a * scale) by (nonlinear_arith);
    lemma_pixel_back(start, scale, a);
    lemma_pixel_back(length, scale, b - a);
}

/// Pressing within reach of a corner and dragging takes that corner to the pointer
/// and keeps the diagonally opposite one where it was.
pub proof fn law_a_pulled_corner_follows_and_the_opposite_stays(
    overlay: OverlayView,
    rect: Rect,
    press: Point,
    to: Point,
    right: bool,
    bottom: bool,
)
    requires
        overlay.tool is None,
        overlay.selection == Some(rect),
        proper(rect),
        rect.width > 2 * 18 * 256,
        rect.height > 2 * 18 * 256,
        press.wf(),
        to.wf(),
        -18 * 256 <= press.x - (if right { rect.x + rect.width } else { rect.x as int }) <= 18 * 256,
        -18 * 256 <= press.y - (if bottom { rect.y + rect.height } else { rect.y as int }) <= 18
            * 256,
    ensures
        ({
            let kept_x = if right { rect.x as int } else { rect.x + rect.width };
            let kept_y = if bottom { rect.y as int } else { rect.y + rect.height };
            overlay.begun(press).dragged(to).selection matches Some(after) && {
                &&& touches(after.x as int, after.x + after.width, kept_x, to.x as int)
                &&& touches(after.y as int, after.y + after.height, kept_y, to.y as int)
            }
        }),
{
    geom::law_every_corner_is_reported_as_itself(rect, press);
}

/// An extent runs from one of two places to the other.
pub open spec fn touches(start: int, end: int, a: int, b: int) -> bool {
    start <= end && ((start == a && end == b) || (start == b && end == a))
}

/// Pressing within reach of an edge, away from the corners, and dragging takes that
/// edge to the pointer and keeps the other three where they were.
pub proof fn law_a_pulled_edge_follows_and_the_others_stay(
    overlay: OverlayView,
    rect: Rect,
    press: Point,
    to: Point,
)
    requires
        overlay.tool is None,
        overlay.selection == Some(rect),
        proper(rect),
        rect.width > 2 * 18 * 256,
        rect.height > 2 * 18 * 256,
        press.wf(),
        to.wf(),
    ensures
        ({
            let reach = 18 * 256;
            let (left, right) = (rect.x as int, rect.x + rect.width);
            let (top, bottom) = (rect.y as int, rect.y + rect.height);
            let between_x = left + reach < press.x < right - reach;
            let between_y = top + reach < press.y < bottom - reach;
            overlay.begun(press).dragged(to).selection matches Some(after) && {
                &&& between_y && left - reach <= press.x <= left + reach ==> {
                    &&& after.y == rect.y && after.height == rect.height
                    &&& touches(after.x as int, after.x + after.width, right, to.x as int)
                }
                &&& between_y && right - reach <= press.x <= right + reach ==> {
                    &&& after.y == rect.y && after.height == rect.height
                    &&& touches(after.x as int, after.x + after.width, left, to.x as int)
                }
                &&& between_x && top - reach <= press.y <= top + reach ==> {
                    &&& after.x == rect.x && after.width == rect.width
                    &&& touches(after.y as int, after.y + after.height, bottom, to.y as int)
                }
                &&& between_x && bottom - reach <= press.y <= bottom + reach ==> {
                    &&& after.x == rect.x && after.width == rect.width
                    &&& touches(after.y as int, after.y + after.height, top, to.y as int)
                }
            }
        }),
{
    geom::law_every_edge_is_reported_as_itself(rect, press);
    geom::law_a_reported_corner_is_the_one_in_reach(rect, press);
}

/// Pressing inside the selection, away from its edges, and dragging moves it by as
/// much as the pointer moved, as far as it stays on the screen; it keeps its size.
pub proof fn law_a_dragged_selection_moves_with_the_pointer(
    overlay: OverlayView,
    rect: Rect,
    press: Point,
    to: Point,
)
    requires
        overlay.tool is None,
        overlay.selection == Some(rect),
        overlay.screen.wf(),
        proper(rect),
        press.wf(),
        to.wf(),
        rect.x + 18 * 256 < press.x < rect.x + rect.width - 18 * 256,
        rect.y + 18 * 256 < press.y < rect.y + rect.height - 18 * 256,
    ensures
        overlay.begun(press).dragged(to).selection matches Some(after) && {
            let x = rect.x + (to.x - press.x);
            let y = rect.y + (to.y - press.y);
            &&& after.width == rect.width && after.height == rect.height
            &&& 0 <= x && x + rect.width <= overlay.screen.width ==> after.x == x
            &&& 0 <= y && y + rect.height <= overlay.screen.height ==> after.y == y
            &&& x < 0 ==> after.x == 0
            &&& y < 0 ==> after.y == 0
            &&& rect.width <= overlay.screen.width && x + rect.width > overlay.screen.width
                ==> after.x + after.width == overlay.screen.width
            &&& rect.height <= overlay.screen.height && y + rect.height > overlay.screen.height
                ==> after.y + after.height == overlay.screen.height
        },
{
    geom::law_every_edge_is_reported_as_itself(rect, press);
    geom::law_a_reported_corner_is_the_one_in_reach(rect, press);
}

/// Pressing where nothing is selected, out of reach of what is, and dragging selects
/// what lies between the press and the pointer.
pub proof fn law_a_drag_elsewhere_selects_anew(overlay: OverlayView, press: Point, to: Point)
    requires
        overlay.tool is None,
        press.wf(),
        to.wf(),
        overlay.selection matches Some(rect) ==> {
            &&& proper(rect)
            &&& press.x < rect.x - 18 * 256 || press.x > rect.x + rect.width + 18 * 256 || press.y
                < rect.y - 18 * 256 || press.y > rect.y + rect.height + 18 * 256
        },
    ensures
        overlay.begun(press).dragged(to).selection matches Some(after) && {
            &&& touches(after.x as int, after.x + after.width, press.x as int, to.x as int)
            &&& touches(after.y as int, after.y + after.height, press.y as int, to.y as int)
        },
{
    if let Some(rect) = overlay.selection {
        geom::law_a_reported_corner_is_the_one_in_reach(rect, press);
        geom::law_a_reported_edge_is_the_one_in_reach(rect, press);
    }
}

/// Selecting never draws and drawing never selects: with a tool in hand a press and
/// a drag leave the selection alone, without one they leave the annotations alone.
pub proof fn law_selecting_and_drawing_keep_apart(overlay: OverlayView, press: Point, to: Point)
    ensures
        overlay.tool is Some ==> overlay.begun(press).dragged(to).selection == overlay.selection,
        overlay.begun(press).dragged(to).annotations == overlay.annotations,
        overlay.begun(press).dragged(to).undone == overlay.undone,
        overlay.begun(press).dragged(to).tool == overlay.tool,
        overlay.begun(press).dragged(to).ink == overlay.ink,
        overlay.begun(press).dragged(to).width == overlay.width,
        overlay.tool is None ==> overlay.begun(press).dragged(to).drawing == overlay.drawing,
        overlay.released().selection == overlay.selection,
        overlay.released().drag is None,
{
}

/// The double arrow points along the drag it announces: the diagonals along the
/// line from the corner that stays to the one under the pointer, the others across
/// the edge under it.
pub proof fn law_the_double_arrow_points_along_the_drag(
    overlay: OverlayView,
    rect: Rect,
    at: Point,
    to: Point,
)
    requires
        overlay.tool is None,
        overlay.selection == Some(rect),
        proper(rect),
        rect.width > 2 * 18 * 256,
        rect.height > 2 * 18 * 256,
        at.wf(),
        to.wf(),
    ensures
        ({
            let left_half = at.x < rect.x + rect.width - 18 * 256;
            let top_half = at.y < rect.y + rect.height - 18 * 256;
            let cursor = overlay.cursor_at(at);
            let after = overlay.begun(at).dragged(to).selection->0;
            &&& cursor == Cursor::DiagonalDown ==> left_half == top_half
            &&& cursor == Cursor::DiagonalUp ==> left_half != top_half
            &&& cursor == Cursor::Vertical ==> after.x == rect.x && after.width == rect.width
            &&& cursor == Cursor::Horizontal ==> after.y == rect.y && after.height == rect.height
            &&& cursor == Cursor::Move ==> after.width == rect.width && after.height == rect.height
                && rect.x <= at.x <= rect.x + rect.width && rect.y <= at.y <= rect.y + rect.height
        }),
        overlay.with_tool(Some(Tool::Pen)).cursor_at(at) == Cursor::Crosshair,
{
    geom::law_every_corner_is_reported_as_itself(rect, at);
    geom::law_a_reported_corner_is_the_one_in_reach(rect, at);
    geom::law_a_reported_edge_is_the_one_in_reach(rect, at);
}

/// What is begun with a tool is of that tool, begins where the button went down, and
/// is in the ink and the width in hand, thick and translucent for the highlighter.
/// Only a caption waits for the keyboard.
pub proof fn law_a_tool_draws_with_the_ink_in_hand(overlay: OverlayView, tool: Tool, at: Point)
    requires
        overlay.tool == Some(tool),
        0 <= overlay.width <= 12 * 256,
    ensures
        overlay.begun(at).drawing matches Some(drawing) && {
            &&& drawing.tool == tool
            &&& drawing.points == seq![at]
            &&& drawing.color.red == overlay.ink.red
            &&& drawing.color.green == overlay.ink.green
            &&& drawing.color.blue == overlay.ink.blue
            &&& tool != Tool::Highlight ==> drawing.color == overlay.ink && drawing.width
                == overlay.width
            &&& tool == Tool::Highlight ==> drawing.color.alpha == 35 && drawing.width == 5
                * overlay.width
            &&& drawing.text.len() == 0
        },
        overlay.begun(at).typing <==> tool == Tool::Text,
        overlay.begun(at).drag == Some(Drag::Draw),
{
}

/// What was drawn from one place to another is kept as it was drawn, and undo takes
/// exactly that back.
pub proof fn law_a_drawn_shape_is_kept_as_drawn(
    overlay: OverlayView,
    tool: Tool,
    from: Point,
    to: Point,
)
    requires
        overlay.tool == Some(tool),
        tool == Tool::Arrow || tool == Tool::Rectangle || tool == Tool::Ellipse || tool
            == Tool::Blur || tool == Tool::Pen,
        (from.x - to.x) * (from.x - to.x) + (from.y - to.y) * (from.y - to.y) > (3 * 256) * (3
            * 256),
    ensures
        ({
            let after = overlay.begun(from).dragged(to).released();
            &&& after.annotations.len() == overlay.annotations.len() + 1
            &&& after.annotations.drop_last() == overlay.annotations
            &&& after.annotations.last().tool == tool
            &&& after.annotations.last().points.len() == 2
            &&& after.annotations.last().points[0] == from
            &&& after.annotations.last().points[1] == to
            &&& after.annotations.last().color == overlay.ink
            &&& after.drawing is None
            &&& after.undone.len() == 0
            &&& after.selection == overlay.selection
            &&& after.undo_done().annotations == overlay.annotations
        }),
{
    let after = overlay.begun(from).dragged(to).released();
    assert(after.annotations.drop_last() =~= overlay.annotations);
}

/// Undo takes back the annotation drawn last, and no other; redo puts back the one
/// taken back last. Neither touches anything else.
pub proof fn law_undo_takes_back_the_last(overlay: OverlayView)
    ensures
        overlay.annotations.len() > 0 ==> {
            let after = overlay.undo_done();
            &&& after.annotations.len() == overlay.annotations.len() - 1
            &&& forall|i: int|
                0 <= i < after.annotations.len() ==> #[trigger] after.annotations[i]
                    == overlay.annotations[i]
            &&& after.undone.last() == overlay.annotations.last()
            &&& after.undone.len() == overlay.undone.len() + 1
        },
        overlay.undone.len() > 0 ==> {
            let after = overlay.redo_done();
            &&& after.annotations.len() == overlay.annotations.len() + 1
            &&& after.annotations.last() == overlay.undone.last()
            &&& after.undone.len() == overlay.undone.len() - 1
            &&& forall|i: int|
                0 <= i < overlay.annotations.len() ==> #[trigger] after.annotations[i]
                    == overlay.annotations[i]
        },
        overlay.undo_done().selection == overlay.selection,
        overlay.undo_done().drawing == overlay.drawing,
        overlay.undo_done().tool == overlay.tool,
        overlay.redo_done().selection == overlay.selection,
        overlay.redo_done().drawing == overlay.drawing,
        overlay.redo_done().tool == overlay.tool,
{
}

/// The count of step numbers goes up by one with every step number, and not at all
/// with anything else.
pub proof fn law_only_step_numbers_are_counted(
    first: Seq<AnnotationView>,
    annotation: AnnotationView,
)
    ensures
        counters(Seq::<AnnotationView>::empty()) == 0,
        counters(first.push(annotation)) == counters(first) + if annotation.tool == Tool::Counter {
            1nat
        } else {
            0nat
        },
{
    assert(first.push(annotation).drop_last() =~= first);
}

/// The keyboard writes a caption: a character is added at its end, Shift and Enter
/// add a line break, Backspace takes the last character away, and Esc throws it
/// away. Enter keeps it as it was written, unless there is only white space in it.
pub proof fn law_the_keyboard_writes_the_caption(
    overlay: OverlayView,
    drawing: AnnotationView,
    c: char,
    control: bool,
    shift: bool,
)
    requires
        overlay.typing,
        overlay.drawing == Some(drawing),
        drawing.tool == Tool::Text,
    ensures
        ({
            let typed = overlay.pressed(Key::Character(c), control, shift).0;
            let printable = c as u32 > 0x1f && !(0x7f <= c as u32 <= 0x9f);
            &&& typed.typing
            &&& typed.drawing matches Some(after) && {
                &&& printable ==> after.text == drawing.text.push(c)
                &&& !printable ==> after.text == drawing.text
                &&& after.points == drawing.points && after.color == drawing.color && after.width
                    == drawing.width && after.tool == drawing.tool
            }
        }),
        ({
            let spaced = overlay.pressed(Key::Space, control, shift).0;
            &&& spaced.typing
            &&& spaced.drawing matches Some(after) && after.text == drawing.text.push(' ')
        }),
        ({
            let broken = overlay.pressed(Key::Return, control, true).0;
            &&& broken.typing
            &&& broken.drawing matches Some(after) && after.text == drawing.text.push('\n')
        }),
        ({
            let erased = overlay.pressed(Key::BackSpace, control, shift).0;
            &&& erased.typing
            &&& erased.drawing matches Some(after) && {
                &&& drawing.text.len() > 0 ==> after.text == drawing.text.drop_last()
                &&& drawing.text.len() == 0 ==> after.text == drawing.text
            }
        }),
        ({
            let thrown = overlay.pressed(Key::Escape, control, shift).0;
            !thrown.typing && thrown.drawing is None && thrown.annotations == overlay.annotations
        }),
        ({
            let kept = overlay.pressed(Key::Return, control, false).0;
            let blank = forall|i: int|
                0 <= i < drawing.text.len() ==> text::space(#[trigger] drawing.text[i]);
            &&& !kept.typing && kept.drawing is None
            &&& drawing.points.len() > 0 && blank ==> kept.annotations == overlay.annotations
            &&& drawing.points.len() > 0 && !blank ==> kept.annotations
                == overlay.annotations.push(drawing)
        }),
        overlay.pressed(Key::KeypadEnter, control, shift) == overlay.pressed(
            Key::Return,
            control,
            shift,
        ),
{
    if drawing.points.len() > 0 {
        annotate::law_a_click_that_draws_nothing_is_not_kept(drawing);
    }
}

/// Every key does one thing: a letter that commits closes with its commit and changes
/// nothing, a letter that picks a tool changes the tool and drops what was being
/// drawn, a digit changes the ink to its colour, `w` the thickness, and Ctrl with `z`
/// takes back or, with Shift, puts back. No other key changes anything.
pub proof fn law_every_key_does_one_thing(
    overlay: OverlayView,
    c: char,
    control: bool,
    shift: bool,
)
    requires
        !overlay.typing,
    ensures
        ({
            let (after, reply) = overlay.pressed(Key::Character(c), control, shift);
            let commits = c == 'c' || c == 's' || c == 'e' || c == 't';
            let picks = c == 'v' || c == 'p' || c == 'a' || c == 'r' || c == 'o' || c == 'h' || c
                == 'b' || c == 'n' || c == 'x';
            &&& commits <==> reply is Commit
            &&& c == 'c' ==> reply == Reply::Commit(Commit::Copy)
            &&& c == 's' ==> reply == Reply::Commit(Commit::Save)
            &&& c == 'e' ==> reply == Reply::Commit(Commit::Extract)
            &&& c == 't' ==> reply == Reply::Commit(Commit::Translate)
            &&& c == 'z' && control && !shift ==> after == overlay.undo_done()
            &&& (c == 'z' || c == 'Z') && control && shift ==> after == overlay.redo_done()
            &&& picks ==> after.drawing is None && after.selection == overlay.selection
                && after.annotations == overlay.annotations && after.ink == overlay.ink
                && after.width == overlay.width
            &&& '1' <= c <= '6' ==> after.ink == annotate::palette()[c as int - '1' as int].1
                && after.tool == overlay.tool && after.drawing == overlay.drawing && after.width
                == overlay.width && after.annotations == overlay.annotations
            &&& c == 'w' ==> after.width == annotate::next_width(overlay.width) && after.ink
                == overlay.ink && after.tool == overlay.tool
            &&& !picks && !('1' <= c <= '6') && c != 'w' && !((c == 'z' || c == 'Z') && control)
                ==> after == overlay
            &&& after.selection == overlay.selection
        }),
        overlay.pressed(Key::Return, control, shift) == (overlay, Reply::Commit(Commit::Save)),
        overlay.pressed(Key::Space, control, shift) == (overlay, Reply::Commit(Commit::Save)),
        overlay.pressed(Key::Other, control, shift) == (overlay, Reply::Proceed),
{
}

/// Every tool is picked by its own letter, and selecting by `v`.
pub proof fn law_every_tool_has_its_own_letter(c: char, d: char)
    ensures
        tool_for(c) is Some && tool_for(c) == tool_for(d) ==> c == d,
        tool_for(c) is Some ==> commit_for(c) is None && c != 'w' && c != 'z',
        commit_for(c) is Some && commit_for(c) == commit_for(d) ==> c == d,
        tool_for('v') == Some(None::<Tool>),
{
}

/// The bars keep their margin from the edge they stick to, and none from the other.
pub proof fn law_the_margins_are_on_the_side_of_the_bars(overlay: OverlayView)
    ensures
        ({
            let at = overlay.placement();
            &&& at.margin_top > 0 <==> at.anchor == Anchor::Top
            &&& at.margin_bottom > 0 <==> at.anchor == Anchor::Bottom
            &&& at.margin_start > 0 <==> at.side == Side::Left
            &&& at.margin_end > 0 <==> at.side == Side::Right
            &&& at.margin_top + at.margin_bottom == 24
            &&& at.margin_start + at.margin_end == 16
        }),
        overlay.placement().anchor == geom::anchor_for(
            overlay.selection,
            overlay.screen,
            (84 * 256) as i64,
        ),
        overlay.placement().side == geom::side_for(
            overlay.selection,
            overlay.screen,
            (130 * 256) as i64,
        ),
{
}

/// Committing cuts out the pixels of the selection and works in the annotations as
/// seen from its top left corner; a selection that is none commits to nothing.
pub proof fn law_committing_keeps_what_is_selected(overlay: OverlayView)
    ensures
        match overlay.committed() {
            CommittedView::Cancelled => overlay.selection is None || {
                let rect = overlay.selection->0;
                rect.width < 4 * 256 || rect.height < 4 * 256 || image::header(overlay.png) is None
                    || geom::pixels_of(
                    rect,
                    overlay.scale,
                    image::header(overlay.png)->0,
                ) is None
            },
            CommittedView::Ready(done) => {
                let rect = overlay.selection->0;
                let region = geom::pixels_of(
                    rect,
                    overlay.scale,
                    image::header(overlay.png)->0,
                )->0;
                &&& overlay.selection is Some
                &&& rect.width >= 4 * 256 && rect.height >= 4 * 256
                &&& image::cropped(overlay.png, region) matches Ok(file) && {
                    &&& overlay.annotations.len() == 0 ==> done == RasterizedView::Unchanged(file)
                    &&& annotate::rasterized(
                        overlay.annotations,
                        file,
                        Point { x: rect.x, y: rect.y },
                        overlay.scale,
                    ) == Ok::<RasterizedView, ImageErrorView>(done)
                }
            },
            CommittedView::Failed(_) => overlay.selection is Some,
        },
{
    if image::header(overlay.png) is None && overlay.selection is Some {
        geom::law_the_pixels_lie_inside_the_image(overlay.selection->0, overlay.scale, (0, 0));
    }
}

/// The screen is as large as the image is at its scale, each axis from its own
/// number, and a preset's edges lie where its pixels do.
pub proof fn law_pixels_become_points_by_the_scale(
    png: Seq<u8>,
    preset: (u32, u32, u32, u32),
    scale: u16,
)
    requires
        scale > 0,
        image::header(png) is Some,
    ensures
        ({
            let screen = screen_of(png, scale);
            let (width, height) = image::header(png)->0;
            &&& screen.width * scale <= width * 30720 < (screen.width + 1) * scale
            &&& screen.height * scale <= height * 30720 < (screen.height + 1) * scale
        }),
        ({
            let rect = preset_selection(preset, scale);
            &&& rect.x * scale <= preset.0 * 30720 < (rect.x + 1) * scale
            &&& rect.y * scale <= preset.1 * 30720 < (rect.y + 1) * scale
            &&& (rect.x + rect.width) * scale <= (preset.0 + preset.2) * 30720 < (rect.x
                + rect.width + 1) * scale
            &&& (rect.y + rect.height) * scale <= (preset.1 + preset.3) * 30720 < (rect.y
                + rect.height + 1) * scale
        }),
{
    let s = scale as int;
    let (width, height) = image::header(png)->0;
    lemma_points_bracket(width as int, s);
    lemma_points_bracket(height as int, s);
    lemma_points_bracket(preset.0 as int, s);
    lemma_points_bracket(preset.1 as int, s);
    lemma_points_bracket(preset.0 + preset.2, s);
    lemma_points_bracket(preset.1 + preset.3, s);
}

proof fn lemma_points_bracket(pixels: int, scale: int)
    requires
        0 <= pixels <= 0x1_ffff_fffe,
        0 < scale,
    ensures
        points_of(pixels, scale) * scale <= pixels * 30720 < (points_of(pixels, scale) + 1) * scale,
        0 <= points_of(pixels, scale) <= 0x1_0000_0000_0000,
{
    lemma_points_are_close(pixels, scale);
    lemma_points_bound(pixels, scale);
    let q = points_of(pixels, scale);
    assert((q + 1) * scale == q * scale + scale) by (nonlinear_arith);
}

/// Only where the pointer is now counts: what a drag selects does not depend on the
/// way the pointer took.
pub proof fn law_a_drag_forgets_its_way(
    overlay: OverlayView,
    press: Point,
    via: Point,
    to: Point,
)
    requires
        overlay.tool is None,
    ensures
        overlay.begun(press).dragged(via).dragged(to).selection == overlay.begun(press).dragged(
            to,
        ).selection,
{
}

/// Letting go keeps nothing of a caption that is still being written and takes nothing
/// from it, ends every drag, and leaves what was undone alone unless something is kept.
pub proof fn law_letting_go_leaves_a_caption_alone(overlay: OverlayView)
    ensures
        overlay.released().drag is None,
        overlay.typing ==> {
            &&& overlay.released().typing
            &&& overlay.released().drawing == overlay.drawing
            &&& overlay.released().annotations == overlay.annotations
            &&& overlay.released().undone == overlay.undone
        },
        !overlay.typing ==> overlay.released().drawing is None,
        overlay.released().annotations.len() == overlay.annotations.len()
            ==> overlay.released().undone == overlay.undone,
        overlay.released().tool == overlay.tool && overlay.released().ink == overlay.ink
            && overlay.released().width == overlay.width,
{
}

/// A key that did something is used up and one that did nothing is passed on; a digit
/// is passed on too.
pub proof fn law_a_key_without_a_use_is_passed_on(
    overlay: OverlayView,
    c: char,
    control: bool,
    shift: bool,
)
    requires
        !overlay.typing,
    ensures
        ({
            let (after, reply) = overlay.pressed(Key::Character(c), control, shift);
            &&& tool_for(c) is Some || c == 'w' ==> reply == Reply::Stop
            &&& (c == 'z' || c == 'Z') && control && shift ==> reply == Reply::Stop
            &&& c == 'z' && control ==> reply == Reply::Stop
            &&& '1' <= c <= '6' ==> reply == Reply::Proceed
            &&& reply == Reply::Proceed && !('1' <= c <= '6') ==> after == overlay
            &&& reply != Reply::Cancel
        }),
        overlay.pressed(Key::KeypadEnter, control, shift) == (overlay, Reply::Proceed),
        overlay.pressed(Key::BackSpace, control, shift) == (overlay, Reply::Proceed),
        overlay.tool is Some ==> overlay.pressed(Key::Escape, control, shift).1 == Reply::Stop
            && overlay.pressed(Key::Escape, control, shift).0.tool is None,
        overlay.tool is None ==> overlay.pressed(Key::Escape, control, shift) == (
            overlay,
            Reply::Cancel,
        ),
{
}

/// The shapes of the pointer go by the names of the directions they point in.
pub proof fn law_the_pointer_is_named_by_its_directions()
    ensures
        Cursor::Crosshair.named() == "crosshair"@,
        Cursor::Move.named() == "move"@,
        Cursor::DiagonalDown.named() == "nwse-resize"@,
        Cursor::DiagonalUp.named() == "nesw-resize"@,
        Cursor::Vertical.named() == "ns-resize"@,
        Cursor::Horizontal.named() == "ew-resize"@,
{
}

/// Pressing on a corner and dragging by some way moves that corner by as much and keeps
/// the diagonally opposite one where it was, whichever of the four it is.
pub proof fn law_a_corner_moves_by_as_much_as_the_pointer(
    overlay: OverlayView,
    rect: Rect,
    right: bool,
    bottom: bool,
    press: Point,
    to: Point,
    dx: int,
    dy: int,
)
    requires
        overlay.tool is None,
        overlay.selection == Some(rect),
        proper(rect),
        rect.width > 2 * 18 * 256,
        rect.height > 2 * 18 * 256,
        press.wf(),
        to.wf(),
        press.x == if right { rect.x + rect.width } else { rect.x as int },
        press.y == if bottom { rect.y + rect.height } else { rect.y as int },
        to.x == press.x + dx,
        to.y == press.y + dy,
    ensures
        ({
            let (left_edge, right_edge) = (rect.x as int, rect.x + rect.width);
            let (top_edge, bottom_edge) = (rect.y as int, rect.y + rect.height);
            overlay.begun(press).dragged(to).selection matches Some(after) && {
                &&& right ==> touches(
                    after.x as int,
                    after.x + after.width,
                    left_edge,
                    right_edge + dx,
                )
                &&& !right ==> touches(
                    after.x as int,
                    after.x + after.width,
                    left_edge + dx,
                    right_edge,
                )
                &&& bottom ==> touches(
                    after.y as int,
                    after.y + after.height,
                    top_edge,
                    bottom_edge + dy,
                )
                &&& !bottom ==> touches(
                    after.y as int,
                    after.y + after.height,
                    top_edge + dy,
                    bottom_edge,
                )
            }
        }),
{
    law_a_pulled_corner_follows_and_the_opposite_stays(overlay, rect, press, to, right, bottom);
}

} // verus!
