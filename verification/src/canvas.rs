//! What the overlay shows: the picture painted over the frozen capture, and the
//! rows of its tool strip and action bar.
use crate::annotate;
use crate::annotate::{
    outline, palette_entry, Annotation, AnnotationView, Ink, MarkView, Path, PathView, Tool,
};
use crate::geom;
use crate::geom::{corners, surround, Corner, Point, Rect, Size, HANDLE_DRAW};
use crate::overlay;
use crate::overlay::{Commit, Overlay, OverlayView};
use crate::text;
use vstd::prelude::*;

verus! {

/// Width of the line around the selection: 2 points.
pub const FRAME_WIDTH: i64 = 512;

/// What covers everything that is not selected.
pub open spec fn dimming() -> Ink {
    Ink { red: 0, green: 0, blue: 0, alpha: 55 }
}

/// The selection's frame and its handles.
pub open spec fn accent() -> Ink {
    Ink { red: 45, green: 55, blue: 100, alpha: 100 }
}

/// What stands in for a redaction until it is worked in.
pub open spec fn redaction() -> Ink {
    Ink { red: 8, green: 8, blue: 10, alpha: 85 }
}

/// One step of painting, in screen coordinates.
#[derive(Debug)]
pub enum Paint {
    /// Fill rectangles.
    Fill { areas: Vec<Rect>, color: Ink },
    /// Stroke the outline of a rectangle.
    Frame { area: Rect, color: Ink, width: i64 },
    /// Stroke paths, with round caps and joins.
    Stroke { paths: Vec<Path>, color: Ink, width: i64 },
    /// Show a step number.
    Badge { at: Point, index: u32, color: Ink, width: i64 },
    /// Write a caption.
    Caption { at: Point, text: String, color: Ink, width: i64 },
}

pub enum PaintView {
    Fill { areas: Seq<Rect>, color: Ink },
    Frame { area: Rect, color: Ink, width: i64 },
    Stroke { paths: Seq<PathView>, color: Ink, width: i64 },
    Badge { at: Point, index: u32, color: Ink, width: i64 },
    Caption { at: Point, text: Seq<char>, color: Ink, width: i64 },
}

impl View for Paint {
    type V = PaintView;

    open spec fn view(&self) -> PaintView {
        match self {
            Paint::Fill { areas, color } => PaintView::Fill { areas: areas@, color: *color },
            Paint::Frame { area, color, width } => PaintView::Frame {
                area: *area,
                color: *color,
                width: *width,
            },
            Paint::Stroke { paths, color, width } => PaintView::Stroke {
                paths: annotate::path_list(paths@),
                color: *color,
                width: *width,
            },
            Paint::Badge { at, index, color, width } => PaintView::Badge {
                at: *at,
                index: *index,
                color: *color,
                width: *width,
            },
            Paint::Caption { at, text, color, width } => PaintView::Caption {
                at: *at,
                text: text@,
                color: *color,
                width: *width,
            },
        }
    }
}

/// The steps of a list.
pub open spec fn paint_list(list: Seq<Paint>) -> Seq<PaintView> {
    list.map_values(|paint: Paint| paint@)
}

/// The square that marks a corner of the selection.
pub open spec fn handle(corner: Point) -> Rect {
    Rect {
        x: (corner.x - HANDLE_DRAW / 2) as i64,
        y: (corner.y - HANDLE_DRAW / 2) as i64,
        width: HANDLE_DRAW,
        height: HANDLE_DRAW,
    }
}

/// The squares that mark the four corners of the selection.
pub open spec fn handles(rect: Rect) -> Seq<Rect> {
    seq![
        handle(geom::corner_point(rect, Corner::TopLeft)),
        handle(geom::corner_point(rect, Corner::TopRight)),
        handle(geom::corner_point(rect, Corner::BottomLeft)),
        handle(geom::corner_point(rect, Corner::BottomRight)),
    ]
}

/// The dimming and the selection: everything around the selection is dimmed, or
/// all of the canvas while nothing is selected.
pub open spec fn backdrop(selection: Option<Rect>, full: Rect) -> Seq<PaintView> {
    match selection {
        Some(rect) => seq![
            PaintView::Fill { areas: geom::surroundings(full, rect), color: dimming() },
            PaintView::Frame { area: rect, color: accent(), width: FRAME_WIDTH },
            PaintView::Fill { areas: handles(rect), color: accent() },
        ],
        None => seq![PaintView::Fill { areas: seq![full], color: dimming() }],
    }
}

/// What an annotation paints. Blur edits pixels rather than drawing, so a filled
/// box stands in for it; while it has no second corner it paints nothing.
pub open spec fn painted(annotation: AnnotationView) -> Seq<PaintView> {
    let color = annotation.color;
    let width = annotation.width;
    match annotation.tool {
        Tool::Counter => seq![
            PaintView::Badge { at: annotation.points[0], index: annotation.index, color, width },
        ],
        Tool::Text => seq![
            PaintView::Caption { at: annotation.points[0], text: annotation.text, color, width },
        ],
        Tool::Blur => match annotation.area() {
            Some(area) => seq![PaintView::Fill { areas: seq![area], color: redaction() }],
            None => Seq::empty(),
        },
        _ => seq![
            PaintView::Stroke { paths: annotate::outline_of(annotation), color, width },
        ],
    }
}

/// What annotations paint, in order.
pub open spec fn all_painted(list: Seq<AnnotationView>) -> Seq<PaintView>
    decreases list.len(),
{
    if list.len() == 0 {
        Seq::empty()
    } else {
        all_painted(list.drop_last()) + painted(list.last())
    }
}

/// The canvas, as large as the window.
pub open spec fn canvas(size: Size) -> Rect {
    Rect { x: 0, y: 0, width: size.width, height: size.height }
}

/// Everything painted over the frozen capture: the dimming and the selection,
/// then the annotations in the order they were drawn, then the one being drawn.
pub open spec fn scene_of(overlay: OverlayView, size: Size) -> Seq<PaintView> {
    let below = backdrop(overlay.selection, canvas(size)) + all_painted(overlay.annotations);
    match overlay.drawing {
        Some(annotation) => below + painted(annotation),
        None => below,
    }
}

fn draw_handle(corner: Point) -> (rect: Rect)
    requires
        corner.wf(),
    ensures
        rect == handle(corner),
{
    Rect {
        x: corner.x - HANDLE_DRAW / 2,
        y: corner.y - HANDLE_DRAW / 2,
        width: HANDLE_DRAW,
        height: HANDLE_DRAW,
    }
}

fn draw_annotation(list: &mut Vec<Paint>, annotation: &Annotation)
    requires
        annotation@.wf(),
    ensures
        paint_list(final(list)@) == paint_list(old(list)@) + painted(annotation@),
{
    let color = annotation.color;
    let width = annotation.width;
    match annotation.tool {
        Tool::Counter => {
            list.push(
                Paint::Badge { at: annotation.points[0], index: annotation.index, color, width },
            );
        },
        Tool::Text => {
            let text = annotation.text.as_str().to_owned();
            list.push(Paint::Caption { at: annotation.points[0], text, color, width });
        },
        Tool::Blur => {
            if let Some(area) = annotation.bounds() {
                let mut areas: Vec<Rect> = Vec::new();
                areas.push(area);
                proof {
                    assert(areas@ =~= seq![area]);
                }
                list.push(
                    Paint::Fill { areas, color: Ink { red: 8, green: 8, blue: 10, alpha: 85 } },
                );
            }
        },
        _ => {
            list.push(Paint::Stroke { paths: outline(annotation), color, width });
        },
    }
    proof {
        assert(paint_list(list@) =~= paint_list(old(list)@) + painted(annotation@));
    }
}

/// Everything to paint over the frozen capture, on a canvas of the given size.
pub fn scene(overlay: &Overlay, size: Size) -> (list: Vec<Paint>)
    requires
        overlay@.wf(),
        size.wf(),
    ensures
        paint_list(list@) == scene_of(overlay@, size),
{
    let full = Rect::new(Point::origin(), size);
    let dim = Ink { red: 0, green: 0, blue: 0, alpha: 55 };
    let mark = Ink { red: 45, green: 55, blue: 100, alpha: 100 };
    let mut list: Vec<Paint> = Vec::new();
    match overlay.selection {
        Some(rect) => {
            list.push(Paint::Fill { areas: surround(full, rect), color: dim });
            list.push(Paint::Frame { area: rect, color: mark, width: FRAME_WIDTH });
            let points = corners(rect);
            let mut areas: Vec<Rect> = Vec::new();
            proof {
                assert(points@[0].wf() && points@[1].wf() && points@[2].wf() && points@[3].wf());
            }
            areas.push(draw_handle(points[0]));
            areas.push(draw_handle(points[1]));
            areas.push(draw_handle(points[2]));
            areas.push(draw_handle(points[3]));
            proof {
                assert(areas@ =~= handles(rect));
            }
            list.push(Paint::Fill { areas, color: mark });
        },
        None => {
            let mut areas: Vec<Rect> = Vec::new();
            areas.push(full);
            proof {
                assert(areas@ =~= seq![full]);
            }
            list.push(Paint::Fill { areas, color: dim });
        },
    }
    proof {
        assert(paint_list(list@) =~= backdrop(overlay@.selection, canvas(size)));
        assert(backdrop(overlay@.selection, canvas(size)) =~= backdrop(
            overlay@.selection,
            canvas(size),
        ) + all_painted(overlay@.annotations.take(0)));
    }
    let mut i: usize = 0;
    while i < overlay.annotations.len()
        invariant
            i <= overlay.annotations@.len(),
            overlay@.wf(),
            paint_list(list@) == backdrop(overlay@.selection, canvas(size)) + all_painted(
                overlay@.annotations.take(i as int),
            ),
        decreases overlay.annotations@.len() - i,
    {
        let ghost all = overlay@.annotations;
        proof {
            assert(all[i as int].wf());
            assert(all[i as int] == overlay.annotations@[i as int]@);
            assert(all.take(i + 1).drop_last() =~= all.take(i as int));
            assert(backdrop(overlay@.selection, canvas(size)) + (all_painted(all.take(i as int))
                + painted(all[i as int])) =~= (backdrop(overlay@.selection, canvas(size))
                + all_painted(all.take(i as int))) + painted(all[i as int]));
        }
        draw_annotation(&mut list, &overlay.annotations[i]);
        i += 1;
    }
    proof {
        assert(overlay@.annotations.take(i as int) =~= overlay@.annotations);
    }
    if let Some(drawing) = &overlay.drawing {
        draw_annotation(&mut list, drawing);
    }
    list
}

/// One button of the tool strip. `None` is the select and move tool.
pub struct ToolButton {
    pub tool: Option<Tool>,
    pub icon: &'static str,
    pub tip: &'static str,
    /// Whether it is the tool in hand.
    pub active: bool,
}

/// How many tools the strip offers, with selecting.
pub const TOOL_COUNT: usize = 9;

/// The tools of the strip, from top to bottom, each with its icon.
pub open spec fn tool_rows() -> Seq<(Option<Tool>, Seq<char>)> {
    seq![
        (None, "find-location-symbolic"@),
        (Some(Tool::Pen), "document-edit-symbolic"@),
        (Some(Tool::Arrow), "go-next-symbolic"@),
        (Some(Tool::Rectangle), "view-grid-symbolic"@),
        (Some(Tool::Ellipse), "media-record-symbolic"@),
        (Some(Tool::Highlight), "format-text-underline-symbolic"@),
        (Some(Tool::Blur), "view-conceal-symbolic"@),
        (Some(Tool::Counter), "list-add-symbolic"@),
        (Some(Tool::Text), "insert-text-symbolic"@),
    ]
}

/// The tooltip of a tool: what it is called and the key that picks it.
pub open spec fn tool_tip(tool: Option<Tool>) -> Seq<char> {
    match tool {
        None => "Select and move  (v)"@,
        Some(tool) => tool.tip(),
    }
}

fn tool_row(index: usize) -> (row: (Option<Tool>, &'static str))
    requires
        index < TOOL_COUNT,
    ensures
        (row.0, row.1@) == tool_rows()[index as int],
{
    if index == 0 {
        (None, "find-location-symbolic")
    } else if index == 1 {
        (Some(Tool::Pen), "document-edit-symbolic")
    } else if index == 2 {
        (Some(Tool::Arrow), "go-next-symbolic")
    } else if index == 3 {
        (Some(Tool::Rectangle), "view-grid-symbolic")
    } else if index == 4 {
        (Some(Tool::Ellipse), "media-record-symbolic")
    } else if index == 5 {
        (Some(Tool::Highlight), "format-text-underline-symbolic")
    } else if index == 6 {
        (Some(Tool::Blur), "view-conceal-symbolic")
    } else if index == 7 {
        (Some(Tool::Counter), "list-add-symbolic")
    } else {
        (Some(Tool::Text), "insert-text-symbolic")
    }
}

/// One button of the tool strip, marked active when it is the tool in hand.
///
/// Tools and colours have separate indicators on purpose: they are independent
/// choices, and sharing one made picking a colour look like it had changed the
/// tool.
pub fn tool_button(overlay: &Overlay, index: usize) -> (button: ToolButton)
    requires
        index < TOOL_COUNT,
    ensures
        (button.tool, button.icon@) == tool_rows()[index as int],
        button.tip@ == tool_tip(button.tool),
        button.active == (button.tool == overlay@.tool),
{
    let (tool, icon) = tool_row(index);
    let tip = match tool {
        None => "Select and move  (v)",
        Some(tool) => tool.label(),
    };
    let active = match (tool, overlay.tool) {
        (None, None) => true,
        (Some(a), Some(b)) => a == b,
        _ => false,
    };
    ToolButton { tool, icon, tip, active }
}

/// One colour swatch.
pub struct Swatch {
    pub ink: Ink,
    pub tip: String,
    /// Whether it is the colour in hand.
    pub active: bool,
}

/// One colour swatch, numbered like the key that picks it.
pub fn swatch(overlay: &Overlay, index: usize) -> (swatch: Swatch)
    requires
        index < annotate::PALETTE_SIZE,
    ensures
        swatch.ink == annotate::palette()[index as int].1,
        swatch.tip@ == annotate::palette()[index as int].0 + "  ("@ + text::decimal(index + 1)
            + ")"@,
        swatch.active == (swatch.ink == overlay@.ink),
{
    let (name, ink) = palette_entry(index);
    let mut tip = name.to_owned();
    tip.append("  (");
    text::push_natural(&mut tip, index as u64 + 1);
    tip.append(")");
    Swatch { ink, tip, active: ink == overlay.ink }
}

/// One button of the action bar. Without a commit it closes the overlay.
pub struct ActionButton {
    pub what: Option<Commit>,
    pub icon: &'static str,
    pub tip: &'static str,
}

/// How many buttons the action bar has.
pub const ACTION_COUNT: usize = 5;

/// The action bar, from left to right: what each button commits to, its icon and
/// its tooltip.
pub open spec fn action_rows() -> Seq<(Option<Commit>, Seq<char>, Seq<char>)> {
    seq![
        (Some(Commit::Copy), "edit-copy-symbolic"@, "Copy  (c)"@),
        (Some(Commit::Save), "document-save-symbolic"@, "Save  (Enter)"@),
        (Some(Commit::Extract), "insert-text-symbolic"@, "Extract text  (e)"@),
        (Some(Commit::Translate), "accessories-dictionary-symbolic"@, "Translate text  (t)"@),
        (None, "window-close-symbolic"@, "Close  (Esc)"@),
    ]
}

/// One button of the action bar.
pub fn action_button(index: usize) -> (button: ActionButton)
    requires
        index < ACTION_COUNT,
    ensures
        (button.what, button.icon@, button.tip@) == action_rows()[index as int],
{
    if index == 0 {
        ActionButton { what: Some(Commit::Copy), icon: "edit-copy-symbolic", tip: "Copy  (c)" }
    } else if index == 1 {
        ActionButton {
            what: Some(Commit::Save),
            icon: "document-save-symbolic",
            tip: "Save  (Enter)",
        }
    } else if index == 2 {
        ActionButton {
            what: Some(Commit::Extract),
            icon: "insert-text-symbolic",
            tip: "Extract text  (e)",
        }
    } else if index == 3 {
        ActionButton {
            what: Some(Commit::Translate),
            icon: "accessories-dictionary-symbolic",
            tip: "Translate text  (t)",
        }
    } else {
        ActionButton { what: None, icon: "window-close-symbolic", tip: "Close  (Esc)" }
    }
}

/// Every tool has a button in the strip and a key that picks it.
pub proof fn law_every_tool_has_a_button_and_a_key(tool: Option<Tool>)
    ensures
        exists|i: int| 0 <= i < TOOL_COUNT && (#[trigger] tool_rows()[i]).0 == tool,
        exists|c: char| #[trigger] overlay::tool_for(c) == Some(tool),
{
    let rows = tool_rows();
    match tool {
        None => {
            assert(rows[0].0 == tool);
            assert(overlay::tool_for('v') == Some(tool));
        },
        Some(Tool::Pen) => {
            assert(rows[1].0 == tool);
            assert(overlay::tool_for('p') == Some(tool));
        },
        Some(Tool::Arrow) => {
            assert(rows[2].0 == tool);
            assert(overlay::tool_for('a') == Some(tool));
        },
        Some(Tool::Rectangle) => {
            assert(rows[3].0 == tool);
            assert(overlay::tool_for('r') == Some(tool));
        },
        Some(Tool::Ellipse) => {
            assert(rows[4].0 == tool);
            assert(overlay::tool_for('o') == Some(tool));
        },
        Some(Tool::Highlight) => {
            assert(rows[5].0 == tool);
            assert(overlay::tool_for('h') == Some(tool));
        },
        Some(Tool::Blur) => {
            assert(rows[6].0 == tool);
            assert(overlay::tool_for('b') == Some(tool));
        },
        Some(Tool::Counter) => {
            assert(rows[7].0 == tool);
            assert(overlay::tool_for('n') == Some(tool));
        },
        Some(Tool::Text) => {
            assert(rows[8].0 == tool);
            assert(overlay::tool_for('x') == Some(tool));
        },
    }
}

/// A kept annotation paints exactly one step, and it is a filled box only for a
/// redaction.
pub proof fn law_every_kept_annotation_shows(annotation: AnnotationView)
    requires
        annotation.usable(),
    ensures
        painted(annotation).len() == 1,
        annotation.tool == Tool::Blur <==> painted(annotation)[0] is Fill,
{
}

/// The picture over the capture shows what will be worked into it: the same shapes,
/// before they are carried over to the pixels of the image.
pub proof fn law_the_picture_shows_what_is_worked_in(
    annotation: AnnotationView,
    origin: Point,
    scale: u16,
)
    requires
        annotation.tool != Tool::Blur,
    ensures
        painted(annotation).len() == 1,
        match (painted(annotation)[0], annotate::mark_of(annotation, origin, scale)) {
            (
                PaintView::Badge { at, index, color, width },
                MarkView::Badge { at: mark_at, index: mark_index, color: mark_color, .. },
            ) => {
                &&& annotation.tool == Tool::Counter
                &&& at == annotation.points[0]
                &&& mark_at == annotate::placed(at, origin, scale)
                &&& index == annotation.index && mark_index == index
                &&& color == annotation.color && mark_color == color
                &&& width == annotation.width
            },
            (
                PaintView::Caption { at, text, color, width },
                MarkView::Caption { at: mark_at, text: mark_text, color: mark_color, .. },
            ) => {
                &&& annotation.tool == Tool::Text
                &&& at == annotation.points[0]
                &&& mark_at == annotate::placed(at, origin, scale)
                &&& text == annotation.text && mark_text == text
                &&& color == annotation.color && mark_color == color
                &&& width == annotation.width
            },
            (
                PaintView::Stroke { paths, color, width },
                MarkView::Stroke { paths: mark_paths, color: mark_color, .. },
            ) => {
                &&& annotation.tool != Tool::Counter && annotation.tool != Tool::Text
                &&& mark_paths.len() == paths.len()
                &&& forall|i: int|
                    0 <= i < paths.len() ==> #[trigger] mark_paths[i] == annotate::placed_path(
                        paths[i],
                        origin,
                        scale,
                    )
                &&& color == annotation.color && mark_color == color
                &&& width == annotation.width
            },
            _ => false,
        },
{
}

/// A redaction shows as a dark box over exactly the rectangle between its two
/// corners, until it is worked in.
pub proof fn law_a_redaction_shows_as_a_box(annotation: AnnotationView)
    requires
        annotation.tool == Tool::Blur,
        annotation.points.len() == 2,
        annotation.points[0].wf(),
        annotation.points[1].wf(),
    ensures
        painted(annotation).len() == 1,
        painted(annotation)[0] matches PaintView::Fill { areas, color } && {
            let (a, b) = (annotation.points[0], annotation.points[1]);
            &&& areas.len() == 1
            &&& overlay::touches(areas[0].x as int, areas[0].x + areas[0].width, a.x as int, b.x as int)
            &&& overlay::touches(areas[0].y as int, areas[0].y + areas[0].height, a.y as int, b.y as int)
            &&& color.alpha > 50 && color.red < 20 && color.green < 20 && color.blue < 20
        },
{
}

/// Everything but the selection is dimmed, the line goes round the selection, and
/// a handle is centred on each of its corners. With nothing selected all is dimmed.
pub proof fn law_the_selection_is_what_is_not_dimmed(selection: Option<Rect>, full: Rect)
    requires
        selection matches Some(rect) ==> overlay::proper(rect),
    ensures
        selection is None ==> {
            &&& backdrop(selection, full).len() == 1
            &&& backdrop(selection, full)[0] matches PaintView::Fill { areas, color } && areas
                == seq![full] && color.red == 0 && color.green == 0 && color.blue == 0 && 0
                < color.alpha < 100
        },
        selection matches Some(rect) ==> {
            let list = backdrop(selection, full);
            &&& list.len() == 3
            &&& list[0] matches PaintView::Fill { areas, color } && {
                &&& areas == geom::surroundings(full, rect)
                &&& color.red == 0 && color.green == 0 && color.blue == 0 && 0 < color.alpha < 100
            }
            &&& list[1] matches PaintView::Frame { area, color, .. } && area == rect && color.alpha
                == 100
            &&& list[2] matches PaintView::Fill { areas, color } && {
                &&& areas.len() == 4
                &&& color.alpha == 100
                &&& centred(areas[0], rect.x as int, rect.y as int)
                &&& centred(areas[1], rect.x + rect.width, rect.y as int)
                &&& centred(areas[2], rect.x as int, rect.y + rect.height)
                &&& centred(areas[3], rect.x + rect.width, rect.y + rect.height)
            }
        },
{
}

/// A square of eight points has its middle here.
pub open spec fn centred(area: Rect, x: int, y: int) -> bool {
    &&& area.width == 8 * 256 && area.height == 8 * 256
    &&& 2 * area.x + area.width == 2 * x
    &&& 2 * area.y + area.height == 2 * y
}

/// What is being drawn shows as it will when it is kept: on top of all the rest, and
/// what is kept shows in the order in which it was drawn, over the backdrop.
pub proof fn law_what_is_drawn_shows_on_top(
    overlay: OverlayView,
    annotation: AnnotationView,
    size: Size,
)
    requires
        overlay.drawing is None,
    ensures
        ({
            let drawing = OverlayView { drawing: Some(annotation), ..overlay };
            let kept = OverlayView {
                annotations: overlay.annotations.push(annotation),
                ..overlay
            };
            &&& scene_of(drawing, size) == scene_of(overlay, size) + painted(annotation)
            &&& scene_of(kept, size) == scene_of(overlay, size) + painted(annotation)
        }),
        overlay.annotations.len() == 0 ==> scene_of(overlay, size) == backdrop(
            overlay.selection,
            (Rect { x: 0, y: 0, width: size.width, height: size.height }),
        ),
{
    let list = overlay.annotations.push(annotation);
    assert(list.drop_last() =~= overlay.annotations);
    assert(all_painted(list) == all_painted(overlay.annotations) + painted(annotation));
    let kept = OverlayView { annotations: list, ..overlay };
    assert(scene_of(kept, size) =~= scene_of(overlay, size) + painted(annotation));
    if overlay.annotations.len() == 0 {
        assert(scene_of(overlay, size) =~= backdrop(overlay.selection, canvas(size)));
    }
}

/// The letter in a tool's tooltip, before the closing bracket, is the key that picks
/// the tool, and the letter in an action's tooltip the key that performs it.
pub proof fn law_the_tooltips_name_the_keys(i: int)
    ensures
        0 <= i < 9 ==> {
            let (tool, _) = tool_rows()[i];
            let tip = tool_tip(tool);
            &&& tip.len() > 2
            &&& tip[tip.len() - 1] == ')'
            &&& tip[tip.len() - 3] == '('
            &&& overlay::tool_for(tip[tip.len() - 2]) == Some(tool)
        },
        0 <= i < 4 && i != 1 ==> {
            let (what, _, tip) = action_rows()[i];
            &&& tip.len() > 2
            &&& tip[tip.len() - 1] == ')'
            &&& tip[tip.len() - 3] == '('
            &&& what is Some
            &&& overlay::commit_for(tip[tip.len() - 2]) == what
        },
        action_rows()[1].0 == Some(Commit::Save),
        action_rows()[4].0 is None,
{
    reveal_strlit("Select and move  (v)");
    reveal_strlit("Pen  (p)");
    reveal_strlit("Arrow  (a)");
    reveal_strlit("Box  (r)");
    reveal_strlit("Ellipse  (o)");
    reveal_strlit("Highlight  (h)");
    reveal_strlit("Blur  (b)");
    reveal_strlit("Step number  (n)");
    reveal_strlit("Text  (x)");
    reveal_strlit("Copy  (c)");
    reveal_strlit("Extract text  (e)");
    reveal_strlit("Translate text  (t)");
}

/// What is not selected is under a little more than half of black, the frame and the
/// handles are in one solid colour, and a redaction is nearly black. The line round the
/// selection is two points wide.
pub proof fn law_the_colours_of_the_picture()
    ensures
        dimming() == (Ink { red: 0, green: 0, blue: 0, alpha: 55 }),
        accent() == (Ink { red: 45, green: 55, blue: 100, alpha: 100 }),
        redaction() == (Ink { red: 8, green: 8, blue: 10, alpha: 85 }),
        FRAME_WIDTH == 2 * 256,
{
}

/// Every tool and every action has an icon of its own kind; only extracting text and
/// writing it share one.
pub proof fn law_every_button_shows_what_it_does()
    ensures
        tool_rows()[0].1 == "find-location-symbolic"@,
        tool_rows()[1].1 == "document-edit-symbolic"@,
        tool_rows()[2].1 == "go-next-symbolic"@,
        tool_rows()[3].1 == "view-grid-symbolic"@,
        tool_rows()[4].1 == "media-record-symbolic"@,
        tool_rows()[5].1 == "format-text-underline-symbolic"@,
        tool_rows()[6].1 == "view-conceal-symbolic"@,
        tool_rows()[7].1 == "list-add-symbolic"@,
        tool_rows()[8].1 == action_rows()[2].1,
        action_rows()[0].1 == "edit-copy-symbolic"@,
        action_rows()[1].1 == "document-save-symbolic"@,
        action_rows()[2].1 == "insert-text-symbolic"@,
        action_rows()[3].1 == "accessories-dictionary-symbolic"@,
        action_rows()[4].1 == "window-close-symbolic"@,
{
}

} // verus!
