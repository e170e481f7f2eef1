use wl_translate::annotate::{Ink, Rasterized, Tool, PALETTE_SIZE};
use wl_translate::canvas::{
    action_button, scene, swatch, tool_button, Paint, ACTION_COUNT, TOOL_COUNT,
};
use wl_translate::geom::{Anchor, Point, Rect, Side, Size, SCALE_ONE, UNITS};
use wl_translate::image::{decode, encode, ImageError, Raster};
use wl_translate::overlay::{
    copied, deliver, saved, Capture, Commit, Committed, Cursor, Delivery, Done, Drag, Key, Overlay,
    Reply,
};

fn point(x: i64, y: i64) -> Point {
    Point::new(x * UNITS, y * UNITS)
}

fn rect(x: i64, y: i64, width: i64, height: i64) -> Rect {
    Rect::new(point(x, y), Size::new(width * UNITS, height * UNITS))
}

fn blank(width: u32, height: u32) -> Vec<u8> {
    let mut data = Vec::new();
    for index in 0..width * height {
        data.extend_from_slice(&[(index % 251) as u8, 7, 9, 255]);
    }
    encode(&Raster { width, height, data }).unwrap()
}

fn open(preset: Option<(u32, u32, u32, u32)>) -> Overlay {
    Overlay::open(Capture { png: blank(400, 300), scale: SCALE_ONE, preset })
}

fn drag(overlay: &mut Overlay, from: Point, to: Point) {
    overlay.drag_begin(from);
    overlay.drag_update(to);
    overlay.drag_end();
}

fn press(overlay: &mut Overlay, c: char) -> Reply {
    overlay.key_pressed(Key::Character(c), false, false)
}

#[test]
fn a_region_is_dragged_and_adjusted() {
    let mut overlay = open(None);
    assert_eq!(overlay.screen, Size::new(400 * UNITS, 300 * UNITS));
    drag(&mut overlay, point(150, 120), point(50, 20));
    assert_eq!(overlay.selection, Some(rect(50, 20, 100, 100)));

    // A corner, an edge, and the inside.
    drag(&mut overlay, point(150, 120), point(160, 140));
    assert_eq!(overlay.selection, Some(rect(50, 20, 110, 120)));
    drag(&mut overlay, point(100, 20), point(300, 30));
    assert_eq!(overlay.selection, Some(rect(50, 30, 110, 110)));
    drag(&mut overlay, point(100, 80), point(110, 90));
    assert_eq!(overlay.selection, Some(rect(60, 40, 110, 110)));

    // It stays on the screen.
    drag(&mut overlay, point(110, 90), point(-900, 5000));
    assert_eq!(overlay.selection, Some(rect(0, 190, 110, 110)));
}

#[test]
fn a_click_leaves_the_selection_alone() {
    let mut overlay = open(Some((10, 20, 100, 100)));
    assert_eq!(overlay.selection, Some(rect(10, 20, 100, 100)));
    overlay.drag_begin(point(300, 250));
    assert_eq!(overlay.drag, Some(Drag::New { origin: point(300, 250) }));
    overlay.drag_end();
    assert_eq!(overlay.selection, Some(rect(10, 20, 100, 100)));
    assert!(overlay.annotations.is_empty());
}

#[test]
fn the_pointer_says_what_a_drag_would_do() {
    let mut overlay = open(Some((100, 100, 200, 100)));
    assert_eq!(overlay.cursor(point(100, 100)), Cursor::DiagonalDown);
    assert_eq!(overlay.cursor(point(300, 100)), Cursor::DiagonalUp);
    assert_eq!(overlay.cursor(point(200, 200)), Cursor::Vertical);
    assert_eq!(overlay.cursor(point(300, 150)), Cursor::Horizontal);
    assert_eq!(overlay.cursor(point(200, 150)), Cursor::Move);
    assert_eq!(overlay.cursor(point(20, 20)), Cursor::Crosshair);
    overlay.set_tool(Some(Tool::Pen));
    assert_eq!(overlay.cursor(point(200, 150)), Cursor::Crosshair);
    assert_eq!(Cursor::DiagonalDown.name(), "nwse-resize");
    assert_eq!(Cursor::DiagonalUp.name(), "nesw-resize");
    assert_eq!(Cursor::Move.name(), "move");
    assert_eq!(Cursor::Vertical.name(), "ns-resize");
    assert_eq!(Cursor::Horizontal.name(), "ew-resize");
    assert_eq!(Cursor::Crosshair.name(), "crosshair");
}

#[test]
fn the_bars_get_out_of_the_way() {
    let placement = open(None).reposition();
    assert_eq!((placement.anchor, placement.side), (Anchor::Bottom, Side::Left));
    assert_eq!((placement.margin_top, placement.margin_bottom), (0, 24));
    assert_eq!((placement.margin_start, placement.margin_end), (16, 0));

    let placement = open(Some((0, 100, 300, 200))).reposition();
    assert_eq!((placement.anchor, placement.side), (Anchor::Top, Side::Right));
    assert_eq!((placement.margin_top, placement.margin_bottom), (24, 0));
    assert_eq!((placement.margin_start, placement.margin_end), (0, 16));
}

#[test]
fn letters_pick_tools_and_digits_colours() {
    let mut overlay = open(None);
    for (letter, tool) in [
        ('p', Some(Tool::Pen)),
        ('a', Some(Tool::Arrow)),
        ('r', Some(Tool::Rectangle)),
        ('o', Some(Tool::Ellipse)),
        ('h', Some(Tool::Highlight)),
        ('b', Some(Tool::Blur)),
        ('n', Some(Tool::Counter)),
        ('x', Some(Tool::Text)),
        ('v', None),
    ] {
        assert_eq!(press(&mut overlay, letter), Reply::Stop);
        assert_eq!(overlay.tool, tool);
    }
    assert_eq!(press(&mut overlay, '5'), Reply::Proceed);
    assert_eq!(overlay.ink, Ink { red: 26, green: 52, blue: 96, alpha: 100 });
    assert_eq!(press(&mut overlay, '7'), Reply::Proceed);
    assert_eq!(press(&mut overlay, '0'), Reply::Proceed);
    assert_eq!(overlay.ink, Ink { red: 26, green: 52, blue: 96, alpha: 100 });
    assert_eq!(overlay.width, 4 * UNITS);
    press(&mut overlay, 'w');
    assert_eq!(overlay.width, 7 * UNITS);
}

#[test]
fn keys_commit() {
    let mut overlay = open(None);
    assert_eq!(press(&mut overlay, 'c'), Reply::Commit(Commit::Copy));
    assert_eq!(
        overlay.key_pressed(Key::Character('c'), true, false),
        Reply::Commit(Commit::Copy)
    );
    assert_eq!(press(&mut overlay, 's'), Reply::Commit(Commit::Save));
    assert_eq!(press(&mut overlay, 'e'), Reply::Commit(Commit::Extract));
    assert_eq!(press(&mut overlay, 't'), Reply::Commit(Commit::Translate));
    assert_eq!(overlay.key_pressed(Key::Return, false, false), Reply::Commit(Commit::Save));
    assert_eq!(overlay.key_pressed(Key::Space, false, false), Reply::Commit(Commit::Save));
    assert_eq!(overlay.key_pressed(Key::Other, false, false), Reply::Proceed);
}

#[test]
fn escape_leaves_the_tool_before_it_closes() {
    let mut overlay = open(None);
    overlay.set_tool(Some(Tool::Arrow));
    assert_eq!(overlay.key_pressed(Key::Escape, false, false), Reply::Stop);
    assert_eq!(overlay.tool, None);
    assert_eq!(overlay.key_pressed(Key::Escape, false, false), Reply::Cancel);
}

#[test]
fn undo_and_redo_undo_each_other() {
    let mut overlay = open(None);
    overlay.set_tool(Some(Tool::Arrow));
    drag(&mut overlay, point(10, 10), point(60, 60));
    drag(&mut overlay, point(10, 10), point(11, 11));
    assert_eq!(overlay.annotations.len(), 1);
    drag(&mut overlay, point(20, 10), point(60, 60));
    assert_eq!(overlay.annotations.len(), 2);

    overlay.key_pressed(Key::Character('z'), true, false);
    assert_eq!((overlay.annotations.len(), overlay.undone.len()), (1, 1));
    overlay.key_pressed(Key::Character('Z'), true, true);
    assert_eq!((overlay.annotations.len(), overlay.undone.len()), (2, 0));
    assert_eq!(overlay.annotations[1].points[0], point(20, 10));
    overlay.undo();
    overlay.undo();
    overlay.undo();
    assert_eq!(overlay.undone.len(), 2);
    overlay.redo();
    assert_eq!(overlay.annotations[0].points[0], point(10, 10));

    // Something new forgets what had been undone.
    drag(&mut overlay, point(30, 10), point(60, 60));
    assert!(overlay.undone.is_empty());
}

#[test]
fn undo_hands_the_step_number_back() {
    let mut overlay = open(None);
    overlay.set_tool(Some(Tool::Counter));
    for x in [10, 20, 30] {
        overlay.drag_begin(point(x, 10));
        overlay.drag_end();
    }
    let numbers: Vec<u32> = overlay.annotations.iter().map(|a| a.index).collect();
    assert_eq!(numbers, [1, 2, 3]);
    overlay.undo();
    overlay.drag_begin(point(40, 10));
    overlay.drag_end();
    let numbers: Vec<u32> = overlay.annotations.iter().map(|a| a.index).collect();
    assert_eq!(numbers, [1, 2, 3]);
}

#[test]
fn a_step_is_numbered_where_it_is_kept() {
    let mut overlay = open(None);
    overlay.set_tool(Some(Tool::Counter));
    for x in [10, 20] {
        overlay.drag_begin(point(x, 10));
        overlay.drag_end();
    }

    // The count goes down while the third is being placed.
    overlay.drag_begin(point(30, 10));
    overlay.undo();
    overlay.drag_end();
    let numbers: Vec<u32> = overlay.annotations.iter().map(|a| a.index).collect();
    assert_eq!(numbers, [1, 2]);
    assert_eq!(overlay.annotations[1].points[0], point(30, 10));

    // And up.
    overlay.undo();
    overlay.drag_begin(point(40, 10));
    overlay.key_pressed(Key::Character('Z'), true, true);
    overlay.drag_end();
    let numbers: Vec<u32> = overlay.annotations.iter().map(|a| a.index).collect();
    assert_eq!(numbers, [1, 2, 3]);
}

#[test]
fn choosing_a_tool_gives_the_keyboard_back() {
    let mut overlay = open(Some((10, 10, 50, 50)));
    overlay.set_tool(Some(Tool::Text));
    overlay.drag_begin(point(20, 20));
    overlay.drag_end();
    press(&mut overlay, 'x');
    assert!(overlay.typing);

    overlay.set_tool(Some(Tool::Pen));
    assert!(!overlay.typing && overlay.drawing.is_none() && overlay.annotations.is_empty());
    press(&mut overlay, 'v');
    assert_eq!(overlay.tool, None);
    assert_eq!(press(&mut overlay, 's'), Reply::Commit(Commit::Save));
}

#[test]
fn a_selection_wider_than_the_screen_keeps_its_size() {
    let mut overlay = open(None);
    drag(&mut overlay, point(-5_000_000_000, 10), point(5_000_000_000, 60));
    drag(&mut overlay, point(100, 30), point(120, 40));
    assert_eq!(overlay.selection, Some(rect(0, 20, 10_000_000_000, 50)));
}

#[test]
fn a_capture_fits_unless_it_is_out_of_all_proportion() {
    // Only the header matters: 2147483648 pixels each way.
    let mut png = blank(4, 4);
    png[16..24].copy_from_slice(&[0x80, 0, 0, 0, 0x80, 0, 0, 0]);
    let huge = |scale| Capture { png: png.clone(), scale, preset: None };
    assert!(huge(SCALE_ONE).fits());
    assert!(huge(60).fits());
    assert!(!huge(1).fits());
    assert_eq!(
        Overlay::open(huge(60)).screen,
        Size::new(4_294_967_296 * UNITS, 4_294_967_296 * UNITS)
    );
    assert!(!Capture { png: Vec::new(), scale: 1, preset: Some((u32::MAX, 0, 1, 1)) }.fits());
}

#[test]
fn typing_copy_only_types() {
    let mut overlay = open(Some((10, 10, 50, 50)));
    overlay.set_tool(Some(Tool::Text));
    overlay.drag_begin(point(20, 20));
    overlay.drag_end();
    assert!(overlay.typing);
    for c in "copy5".chars() {
        assert_eq!(press(&mut overlay, c), Reply::Stop);
    }
    overlay.key_pressed(Key::BackSpace, false, false);
    overlay.key_pressed(Key::Return, false, true);
    overlay.key_pressed(Key::Space, false, false);
    press(&mut overlay, '\u{7}');
    press(&mut overlay, '!');
    assert_eq!(overlay.drawing.as_ref().unwrap().text, "copy\n !");
    assert_eq!(overlay.tool, Some(Tool::Text));
    assert_eq!(overlay.key_pressed(Key::KeypadEnter, false, false), Reply::Stop);
    assert!(!overlay.typing);
    assert_eq!(overlay.annotations[0].text, "copy\n !");

    // Escape discards, and so does Enter on nothing but white space.
    overlay.drag_begin(point(20, 20));
    press(&mut overlay, 'a');
    assert_eq!(overlay.key_pressed(Key::Escape, false, false), Reply::Stop);
    overlay.drag_begin(point(20, 20));
    overlay.key_pressed(Key::Space, false, false);
    overlay.key_pressed(Key::Return, false, false);
    assert_eq!(overlay.annotations.len(), 1);
    assert!(overlay.drawing.is_none());
}

#[test]
fn committing_cuts_the_selection_out() {
    match open(Some((10, 20, 30, 40))).commit() {
        Committed::Ready(Rasterized::Unchanged(png)) => {
            let cut = decode(&png).unwrap();
            assert_eq!((cut.width, cut.height), (30, 40));
            assert_eq!(cut.data[0], ((20 * 400 + 10) % 251) as u8);
        }
        _ => panic!("nothing was cut out"),
    }
}

#[test]
fn committing_works_the_annotations_in() {
    let mut overlay = open(Some((10, 20, 30, 40)));
    overlay.set_tool(Some(Tool::Blur));
    drag(&mut overlay, point(10, 20), point(25, 35));
    overlay.set_tool(Some(Tool::Pen));
    drag(&mut overlay, point(12, 22), point(20, 30));
    match overlay.commit() {
        Committed::Ready(Rasterized::Redrawn { raster, marks }) => {
            assert_eq!((raster.width, raster.height), (30, 40));
            assert_eq!(marks.len(), 1);
            assert_eq!(raster.data[0..4], raster.data[4..8]);
        }
        _ => panic!("nothing was drawn"),
    }
}

#[test]
fn nothing_selected_commits_nothing() {
    assert!(matches!(open(None).commit(), Committed::Cancelled));
    assert!(matches!(open(Some((10, 10, 2, 2))).commit(), Committed::Cancelled));
    let broken = Overlay::open(Capture { png: vec![1, 2], scale: SCALE_ONE, preset: None });
    assert_eq!(broken.screen, Size::new(1920 * UNITS, 1080 * UNITS));
    assert!(matches!(broken.commit(), Committed::Cancelled));

    // A header without a picture.
    let mut png = blank(400, 300);
    png.truncate(40);
    let broken = Overlay::open(Capture {
        png,
        scale: SCALE_ONE,
        preset: Some((0, 0, 100, 100)),
    });
    match broken.commit() {
        Committed::Failed(error) => {
            assert!(matches!(error, ImageError::Decode(_)));
            let message = error.message();
            assert!(message.starts_with("could not decode the capture: "));
            assert!(message.len() > "could not decode the capture: ".len());
        }
        _ => panic!("decoded"),
    }
}

#[test]
fn a_preset_selects_its_own_pixels() {
    for scale in [60, 120, 150, 180, 240, 365] {
        let overlay = Overlay::open(Capture {
            png: blank(400, 300),
            scale,
            preset: Some((7, 11, 123, 45)),
        });
        match overlay.commit() {
            Committed::Ready(Rasterized::Unchanged(png)) => {
                let cut = decode(&png).unwrap();
                assert_eq!((cut.width, cut.height), (123, 45));
                assert_eq!(cut.data[0], ((11 * 400 + 7) % 251) as u8);
            }
            _ => panic!("nothing was cut out at {scale}"),
        }
    }
}

#[test]
fn the_image_goes_where_the_commit_says() {
    assert!(matches!(deliver(Commit::Copy, vec![1]), Delivery::Copy(_)));
    assert!(matches!(deliver(Commit::Save, vec![1]), Delivery::CopyAndSave(_)));
    assert!(matches!(
        deliver(Commit::Extract, vec![1]),
        Delivery::Recognise { raw: true, .. }
    ));
    assert!(matches!(
        deliver(Commit::Translate, vec![1]),
        Delivery::Recognise { raw: false, .. }
    ));
    let said = |done: Done| match done {
        Done::Handled(message) => message,
        _ => panic!("not handled"),
    };
    assert_eq!(said(copied(Ok(()))), "copied");
    assert_eq!(said(copied(Err("no".to_owned()))), "no");
    assert_eq!(said(saved(Ok("/p/x.png".to_owned()))), "saved /p/x.png");
    assert_eq!(said(saved(Err("full".to_owned()))), "full");
}

#[test]
fn the_scene_dims_around_the_selection() {
    let size = Size::new(400 * UNITS, 300 * UNITS);
    let paints = scene(&open(None), size);
    assert_eq!(paints.len(), 1);
    match &paints[0] {
        Paint::Fill { areas, color } => {
            assert_eq!(areas, &vec![rect(0, 0, 400, 300)]);
            assert_eq!(*color, Ink { red: 0, green: 0, blue: 0, alpha: 55 });
        }
        other => panic!("{other:?}"),
    }

    let mut overlay = open(Some((100, 100, 200, 100)));
    overlay.set_tool(Some(Tool::Rectangle));
    drag(&mut overlay, point(10, 10), point(60, 60));
    overlay.set_tool(Some(Tool::Counter));
    drag(&mut overlay, point(10, 10), point(10, 10));
    overlay.set_tool(Some(Tool::Blur));
    overlay.drag_begin(point(10, 10));
    assert_eq!(scene(&overlay, size).len(), 5);
    overlay.drag_update(point(50, 50));
    let paints = scene(&overlay, size);
    assert_eq!(paints.len(), 6);
    match (&paints[0], &paints[1], &paints[2]) {
        (
            Paint::Fill { areas, .. },
            Paint::Frame { area, width, .. },
            Paint::Fill { areas: handles, .. },
        ) => {
            assert_eq!(areas.len(), 4);
            assert_eq!(*area, rect(100, 100, 200, 100));
            assert_eq!(*width, 2 * UNITS);
            assert_eq!(handles[0], rect(96, 96, 8, 8));
        }
        other => panic!("{other:?}"),
    }
    assert!(matches!(&paints[3], Paint::Stroke { paths, .. } if paths.len() == 1));
    assert!(matches!(&paints[4], Paint::Badge { index: 1, .. }));
    assert!(matches!(&paints[5], Paint::Fill { areas, .. } if areas[0] == rect(10, 10, 40, 40)));
}

#[test]
fn the_strip_marks_the_tool_and_the_colour_in_hand() {
    let mut overlay = open(None);
    overlay.set_tool(Some(Tool::Blur));
    overlay.set_ink(2);
    let active: Vec<&str> = (0..TOOL_COUNT)
        .map(|index| tool_button(&overlay, index))
        .filter(|button| button.active)
        .map(|button| button.tip)
        .collect();
    assert_eq!(active, ["Blur  (b)"]);
    assert_eq!(tool_button(&overlay, 0).tip, "Select and move  (v)");
    assert_eq!(tool_button(&overlay, 8).icon, "insert-text-symbolic");

    let active: Vec<String> = (0..PALETTE_SIZE)
        .map(|index| swatch(&overlay, index))
        .filter(|swatch| swatch.active)
        .map(|swatch| swatch.tip)
        .collect();
    assert_eq!(active, ["yellow  (3)"]);
}

#[test]
fn the_action_bar_ends_with_a_way_out() {
    let tips: Vec<&str> = (0..ACTION_COUNT).map(|index| action_button(index).tip).collect();
    assert_eq!(
        tips,
        ["Copy  (c)", "Save  (Enter)", "Extract text  (e)", "Translate text  (t)", "Close  (Esc)"]
    );
    assert_eq!(action_button(3).icon, "accessories-dictionary-symbolic");
    assert!(action_button(4).what.is_none());
}
