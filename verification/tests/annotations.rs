use tiny_skia::{Pixmap, PremultipliedColorU8};
use wl_translate::annotate::{
    outline, palette_entry, rasterize, width_after, Annotation, Ink, Mark, Path, Rasterized, Tool,
    PALETTE_SIZE,
};
use wl_translate::geom::{Point, SUBPIXELS, UNITS};
use wl_translate::image::{crop, decode, encode, png_dimensions, ImageError, Raster};
use wl_translate::redact::pixelate;

fn units(points: f64) -> i64 {
    (points * UNITS as f64).round() as i64
}

fn point(x: f64, y: f64) -> Point {
    Point::new(units(x), units(y))
}

fn red() -> Ink {
    Ink { red: 100, green: 0, blue: 0, alpha: 100 }
}

fn drag(tool: Tool, from: Point, to: Point) -> Annotation {
    let mut annotation = Annotation::new(tool, from, red(), units(3.0));
    annotation.extend(to);
    annotation
}

/// A gradient, so flattening is visible as neighbouring pixels agreeing.
fn gradient(width: u32, height: u32) -> Raster {
    let mut data = Vec::new();
    for index in 0..width * height {
        let value = (index * 3) as u8;
        data.extend_from_slice(&[value, value, value, 255]);
    }
    Raster { width, height, data }
}

#[test]
fn pixelating_flattens_a_region_and_leaves_the_rest_alone() {
    let mut pixmap = Pixmap::new(8, 8).unwrap();

    for (index, pixel) in pixmap.pixels_mut().iter_mut().enumerate() {
        let value = (index * 3) as u8;
        *pixel = PremultipliedColorU8::from_rgba(value, value, value, 255).unwrap();
    }

    let before_outside = pixmap.pixels()[63];
    let mut raster = Raster { width: 8, height: 8, data: pixmap.data().to_vec() };
    pixelate(&mut raster, 0, 0, 4 * SUBPIXELS, 4 * SUBPIXELS, 4 * SUBPIXELS);
    pixmap.data_mut().copy_from_slice(&raster.data);

    let flattened = &pixmap.pixels()[..4];
    assert!(flattened.iter().all(|p| p.red() == flattened[0].red()));

    // The far corner was outside the region and must be untouched.
    assert_eq!(pixmap.pixels()[63].red(), before_outside.red());
}

#[test]
fn the_highlighter_is_translucent_and_fat() {
    let (ink, width) = Tool::Highlight.ink(red(), units(3.0));

    assert!(ink.alpha < 50, "highlighter must not hide what it marks");
    assert!(width > units(3.0));

    // Every other tool leaves ink alone.
    assert_eq!(Tool::Pen.ink(red(), units(3.0)), (red(), units(3.0)));
}

#[test]
fn freehand_accumulates_but_the_others_replace_their_end() {
    let mut pen = Annotation::new(Tool::Pen, Point::origin(), red(), units(3.0));
    pen.extend(point(1.0, 1.0));
    pen.extend(point(2.0, 2.0));
    assert_eq!(pen.points.len(), 3);

    let mut arrow = Annotation::new(Tool::Arrow, Point::origin(), red(), units(3.0));
    arrow.extend(point(1.0, 1.0));
    arrow.extend(point(2.0, 2.0));
    assert_eq!(arrow.points.len(), 2);
    assert_eq!(arrow.points[1], point(2.0, 2.0));
}

#[test]
fn a_click_that_drew_nothing_is_discarded() {
    let click = drag(Tool::Arrow, Point::origin(), point(1.0, 1.0));
    assert!(!click.is_usable());

    let real = drag(Tool::Arrow, Point::origin(), point(90.0, 40.0));
    assert!(real.is_usable());
}

fn line(path: &Path) -> &Vec<Point> {
    match path {
        Path::Line(points) => points,
        other => panic!("not a line: {other:?}"),
    }
}

#[test]
fn a_box_closes_back_on_itself() {
    let outline = outline(&drag(Tool::Rectangle, point(10.0, 10.0), point(50.0, 30.0)));

    let line = line(&outline[0]);
    assert_eq!(line.len(), 5);
    assert_eq!(line.first(), line.last());
}

#[test]
fn a_box_is_the_same_whichever_corner_it_is_dragged_from() {
    let downhill = outline(&drag(Tool::Rectangle, point(10.0, 10.0), point(50.0, 30.0)));
    let uphill = outline(&drag(Tool::Rectangle, point(50.0, 30.0), point(10.0, 10.0)));

    assert_eq!(downhill.len(), uphill.len());
    assert_eq!(line(&downhill[0]), line(&uphill[0]));
}

#[test]
fn an_arrow_has_a_shaft_and_a_head_at_its_end() {
    let arrow = drag(Tool::Arrow, point(0.0, 0.0), point(100.0, 0.0));
    let paths = outline(&arrow);

    assert_eq!(paths.len(), 2);
    assert_eq!(line(&paths[0]), &vec![point(0.0, 0.0), point(100.0, 0.0)]);
    assert!(matches!(
        paths[1],
        Path::ArrowHead { from, to } if from == point(0.0, 0.0) && to == point(100.0, 0.0)
    ));
}

#[test]
fn an_ellipse_fills_the_box_it_was_dragged_over() {
    let paths = outline(&drag(Tool::Ellipse, point(0.0, 0.0), point(100.0, 50.0)));

    assert_eq!(paths.len(), 1);
    assert!(matches!(
        paths[0],
        Path::Ellipse { a, b } if a == point(0.0, 0.0) && b == point(100.0, 50.0)
    ));
}

#[test]
fn an_ellipse_is_the_same_whichever_corner_it_is_dragged_from() {
    let corners = [
        (point(10.0, 10.0), point(50.0, 30.0)),
        (point(50.0, 30.0), point(10.0, 10.0)),
        (point(10.0, 30.0), point(50.0, 10.0)),
        (point(50.0, 10.0), point(10.0, 30.0)),
    ];
    for (from, to) in corners {
        let paths = outline(&drag(Tool::Ellipse, from, to));

        assert_eq!(paths.len(), 1);
        assert!(matches!(
            paths[0],
            Path::Ellipse { a, b } if a == point(10.0, 10.0) && b == point(50.0, 30.0)
        ));
    }
}

#[test]
fn a_blur_has_no_outline() {
    assert!(outline(&drag(Tool::Blur, point(0.0, 0.0), point(100.0, 50.0))).is_empty());
    assert_eq!(
        drag(Tool::Blur, point(100.0, 50.0), point(0.0, 0.0)).bounds().unwrap().width,
        units(100.0)
    );
}

#[test]
fn a_text_is_kept_only_once_something_was_typed() {
    let mut text = Annotation::new(Tool::Text, point(5.0, 5.0), red(), units(4.0));
    assert!(!text.is_usable());
    text.text = " \n".to_owned();
    assert!(!text.is_usable());
    text.text = "here".to_owned();
    assert!(text.is_usable());
}

#[test]
fn a_step_number_is_placed_with_a_click() {
    assert!(Annotation::new(Tool::Counter, point(5.0, 5.0), red(), units(4.0)).is_usable());
    assert!(!Annotation::new(Tool::Highlight, point(5.0, 5.0), red(), units(4.0)).is_usable());
}

#[test]
fn the_palette_is_numbered_from_red_to_white() {
    assert_eq!(palette_entry(0).0, "red");
    assert_eq!(palette_entry(0).1, Ink { red: 92, green: 19, blue: 21, alpha: 100 });
    assert_eq!(palette_entry(PALETTE_SIZE - 1).0, "white");
}

#[test]
fn widths_cycle() {
    assert_eq!(width_after(units(2.0)), units(4.0));
    assert_eq!(width_after(units(4.0)), units(7.0));
    assert_eq!(width_after(units(7.0)), units(12.0));
    assert_eq!(width_after(units(12.0)), units(2.0));
    assert_eq!(width_after(1), units(2.0));
}

#[test]
fn a_block_comes_out_as_its_average() {
    let mut raster = gradient(8, 8);
    pixelate(&mut raster, 0, 0, 2 * SUBPIXELS, 2 * SUBPIXELS, 2 * SUBPIXELS);

    // 0, 3, 24 and 27.
    assert_eq!(&raster.data[0..4], &[13, 13, 13, 255]);
    assert_eq!(&raster.data[4..8], &[13, 13, 13, 255]);
    assert_eq!(&raster.data[8..12], &[6, 6, 6, 255]);
}

#[test]
fn redacting_twice_is_redacting_once() {
    let mut once = gradient(9, 7);
    pixelate(&mut once, SUBPIXELS, 0, 7 * SUBPIXELS, 7 * SUBPIXELS, 3 * SUBPIXELS);
    let mut twice = Raster { width: 9, height: 7, data: once.data.clone() };
    pixelate(&mut twice, SUBPIXELS, 0, 7 * SUBPIXELS, 7 * SUBPIXELS, 3 * SUBPIXELS);

    assert_eq!(once.data, twice.data);
}

#[test]
fn redaction_outside_the_image_does_nothing() {
    let mut raster = gradient(4, 4);
    let before = raster.data.clone();
    pixelate(&mut raster, 40 * SUBPIXELS, 0, 4 * SUBPIXELS, 4 * SUBPIXELS, 2 * SUBPIXELS);
    pixelate(&mut raster, -9 * SUBPIXELS, 0, 4 * SUBPIXELS, 4 * SUBPIXELS, 2 * SUBPIXELS);

    assert_eq!(raster.data, before);
}

#[test]
fn an_image_survives_being_written_and_read() {
    let raster = gradient(5, 3);
    let png = encode(&raster).unwrap();

    assert_eq!(png_dimensions(&png), Some((5, 3)));
    let read = decode(&png).unwrap();
    assert_eq!((read.width, read.height), (5, 3));
    assert_eq!(read.data, raster.data);
    assert_ne!(png, raster.data);
}

#[test]
fn cropping_keeps_exactly_the_selected_pixels() {
    let raster = gradient(6, 6);
    let png = encode(&raster).unwrap();
    let cut = decode(&crop(&png, (2, 1, 3, 2)).unwrap()).unwrap();

    assert_eq!((cut.width, cut.height), (3, 2));
    assert_eq!(&cut.data[0..12], &raster.data[(6 + 2) * 4..(6 + 5) * 4]);
    assert_eq!(&cut.data[12..24], &raster.data[(12 + 2) * 4..(12 + 5) * 4]);
}

#[test]
fn what_cannot_be_cropped_says_why() {
    let png = encode(&gradient(6, 6)).unwrap();

    assert_eq!(crop(&png, (4, 0, 3, 2)).unwrap_err(), ImageError::Outside);
    assert_eq!(crop(&png, (0, 0, 0, 2)).unwrap_err(), ImageError::Outside);
    assert_eq!(
        crop(&vec![0; 40], (0, 0, 1, 1)).unwrap_err().message(),
        "could not decode the capture: Invalid PNG signature."
    );
    assert_eq!(
        ImageError::Encode("no room".to_owned()).message(),
        "could not encode the annotated capture: no room"
    );
    assert_eq!(ImageError::Outside.message(), "the region lies outside the capture");
}

#[test]
fn something_that_is_no_image_has_no_size() {
    assert_eq!(png_dimensions(&Vec::new()), None);
    assert_eq!(png_dimensions(&b"GIF89a, which is not a PNG file at all".to_vec()), None);
}

#[test]
fn nothing_annotated_leaves_the_capture_as_it_is() {
    let png = encode(&gradient(4, 4)).unwrap();

    match rasterize(&Vec::new(), &png, Point::origin(), 120) {
        Ok(Rasterized::Unchanged(same)) => assert_eq!(same, png),
        _ => panic!("something changed"),
    }
}

#[test]
fn annotations_land_where_they_were_drawn() {
    let png = encode(&gradient(20, 20)).unwrap();
    let list = vec![
        drag(Tool::Arrow, point(10.0, 10.0), point(18.0, 10.0)),
        drag(Tool::Blur, point(10.0, 10.0), point(14.0, 14.0)),
    ];

    match rasterize(&list, &png, point(10.0, 10.0), 240) {
        Ok(Rasterized::Redrawn { raster, marks }) => {
            assert_eq!(marks.len(), 1);
            match &marks[0] {
                Mark::Stroke { paths, color, width } => {
                    assert_eq!(*color, red());
                    assert_eq!(*width, 6 * SUBPIXELS);
                    assert_eq!(
                        line(&paths[0]),
                        &vec![Point::new(0, 0), Point::new(16 * SUBPIXELS, 0)]
                    );
                }
                other => panic!("not a stroke: {other:?}"),
            }
            // The blur covers eight by eight pixels, in blocks of fifteen.
            assert_eq!(raster.data[0..4], raster.data[28..32]);
            assert_ne!(raster.data[0..4], raster.data[32..36]);
        }
        _ => panic!("nothing was drawn"),
    }
}

#[test]
fn a_broken_capture_cannot_be_annotated() {
    let list = vec![drag(Tool::Pen, point(0.0, 0.0), point(9.0, 9.0))];

    match rasterize(&list, &vec![0; 40], Point::origin(), 120) {
        Err(error) => assert_eq!(error, ImageError::Decode("Invalid PNG signature.".to_owned())),
        Ok(_) => panic!("decoded"),
    }
}

fn redrawn(list: &Vec<Annotation>, png: &Vec<u8>) -> (Raster, usize) {
    match rasterize(list, png, Point::origin(), 120) {
        Ok(Rasterized::Redrawn { raster, marks }) => (raster, marks.len()),
        _ => panic!("nothing was drawn"),
    }
}

#[test]
fn redacting_in_two_goes_is_redacting_in_one() {
    let first = || drag(Tool::Blur, point(0.0, 0.0), point(9.0, 9.0));
    let second = || drag(Tool::Blur, point(4.0, 4.0), point(16.0, 12.0));
    let png = encode(&gradient(20, 20)).unwrap();

    let (once, _) = redrawn(&vec![first(), second()], &png);
    let (half, _) = redrawn(&vec![first()], &png);
    let (whole, _) = redrawn(&vec![second()], &encode(&half).unwrap());
    assert_eq!(once.data, whole.data);
}

#[test]
fn only_blurs_change_pixels_before_anything_is_painted() {
    let png = encode(&gradient(20, 20)).unwrap();
    let blur = || drag(Tool::Blur, point(2.0, 2.0), point(12.0, 12.0));
    let pen = || drag(Tool::Pen, point(0.0, 0.0), point(15.0, 15.0));

    let (alone, marks) = redrawn(&vec![blur()], &png);
    assert_eq!(marks, 0);
    let (among, marks) = redrawn(&vec![pen(), blur(), pen()], &png);
    assert_eq!(marks, 2);
    assert_eq!(alone.data, among.data);
}

#[test]
fn where_the_blurs_stand_among_the_rest_does_not_matter() {
    let png = encode(&gradient(20, 20)).unwrap();
    let first = || drag(Tool::Blur, point(0.0, 0.0), point(9.0, 9.0));
    let second = || drag(Tool::Blur, point(4.0, 4.0), point(16.0, 12.0));
    let pen = || drag(Tool::Pen, point(0.0, 0.0), point(15.0, 15.0));
    let arrow = || drag(Tool::Arrow, point(2.0, 3.0), point(15.0, 12.0));
    let drawn = |list: Vec<Annotation>| match rasterize(&list, &png, Point::origin(), 120) {
        Ok(Rasterized::Redrawn { raster, marks }) => (raster.data, format!("{marks:?}")),
        _ => panic!("nothing was drawn"),
    };

    let apart = drawn(vec![first(), second(), pen(), arrow()]);
    assert_eq!(drawn(vec![pen(), first(), arrow(), second()]), apart);
    assert_eq!(drawn(vec![pen(), arrow(), first(), second()]), apart);
    assert_ne!(drawn(vec![arrow(), pen(), first(), second()]), apart);
}

#[test]
fn nothing_but_averages_is_left_of_a_redacted_area() {
    let mut one = gradient(4, 4);
    let mut other = gradient(4, 4);
    // The same average out of other pixels.
    for (index, value) in [(0, 10u8), (1, 30), (4, 20), (5, 40)] {
        one.data[index * 4] = value;
    }
    for (index, value) in [(0, 40u8), (1, 20), (4, 30), (5, 10)] {
        other.data[index * 4] = value;
    }
    assert_ne!(one.data, other.data);
    for raster in [&mut one, &mut other] {
        pixelate(raster, 0, 0, 2 * SUBPIXELS, 2 * SUBPIXELS, 2 * SUBPIXELS);
    }
    assert_eq!(one.data, other.data);
    assert_eq!(one.data[0], 25);
}
