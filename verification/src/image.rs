//! Captured images: the size a PNG file declares, its pixels, and cropping.
use crate::command;
use crate::text;
use vstd::prelude::*;

verus! {

/// Four bytes, the first one highest.
pub open spec fn big_endian(bytes: Seq<u8>) -> int {
    bytes[0] * 0x100_0000 + bytes[1] * 0x1_0000 + bytes[2] * 0x100 + bytes[3]
}

/// The eight bytes every PNG file starts with.
pub open spec fn png_signature() -> Seq<u8> {
    seq![0x89, 0x50, 0x4e, 0x47, 0x0d, 0x0a, 0x1a, 0x0a]
}

/// The name of the chunk that comes first: `IHDR`.
pub open spec fn header_name() -> Seq<u8> {
    seq![0x49, 0x48, 0x44, 0x52]
}

/// Width and height as a PNG file's header states them.
pub open spec fn header(png: Seq<u8>) -> Option<(u32, u32)> {
    if png.len() >= 24 && png.take(8) == png_signature() && png.subrange(12, 16) == header_name() {
        Some((big_endian(png.subrange(16, 20)) as u32, big_endian(png.subrange(20, 24)) as u32))
    } else {
        None
    }
}

fn read_big_endian(bytes: &Vec<u8>, at: usize) -> (value: u32)
    requires
        at + 4 <= bytes.len(),
    ensures
        value == big_endian(bytes@.subrange(at as int, at + 4)),
{
    proof {
        let four = bytes@.subrange(at as int, at + 4);
        assert(four[0] == bytes@[at as int]);
        assert(four[1] == bytes@[at + 1]);
        assert(four[2] == bytes@[at + 2]);
        assert(four[3] == bytes@[at + 3]);
    }
    bytes[at] as u32 * 0x100_0000 + bytes[at + 1] as u32 * 0x1_0000 + bytes[at + 2] as u32 * 0x100
        + bytes[at + 3] as u32
}

/// The size of a captured image, as its header states it.
pub fn png_dimensions(png: &Vec<u8>) -> (size: Option<(u32, u32)>)
    ensures
        size == header(png@),
{
    if png.len() < 24 {
        return None;
    }
    let marked: bool = png[0] == 0x89 && png[1] == 0x50 && png[2] == 0x4e && png[3] == 0x47
        && png[4] == 0x0d && png[5] == 0x0a && png[6] == 0x1a && png[7] == 0x0a;
    let named: bool = png[12] == 0x49 && png[13] == 0x48 && png[14] == 0x44 && png[15] == 0x52;
    proof {
        let start = png@.take(8);
        let name = png@.subrange(12, 16);
        if marked {
            assert(start =~= png_signature());
        } else {
            assert(start[0] == png@[0] && start[1] == png@[1] && start[2] == png@[2] && start[3]
                == png@[3] && start[4] == png@[4] && start[5] == png@[5] && start[6] == png@[6]
                && start[7] == png@[7]);
        }
        if named {
            assert(name =~= header_name());
        } else {
            assert(name[0] == png@[12] && name[1] == png@[13] && name[2] == png@[14] && name[3]
                == png@[15]);
        }
    }
    if marked && named {
        Some((read_big_endian(png, 16), read_big_endian(png, 20)))
    } else {
        None
    }
}

/// Why an image could not be worked on.
#[derive(Debug, Clone, PartialEq, Eq)]
pub enum ImageError {
    /// The capture is not an image that can be decoded, and why.
    Decode(String),
    /// The image could not be encoded, and why.
    Encode(String),
    /// The region to crop does not lie inside the image.
    Outside,
}

pub enum ImageErrorView {
    Decode(Seq<char>),
    Encode(Seq<char>),
    Outside,
}

impl View for ImageError {
    type V = ImageErrorView;

    open spec fn view(&self) -> ImageErrorView {
        match self {
            ImageError::Decode(cause) => ImageErrorView::Decode(cause@),
            ImageError::Encode(cause) => ImageErrorView::Encode(cause@),
            ImageError::Outside => ImageErrorView::Outside,
        }
    }
}

impl ImageErrorView {
    pub open spec fn says(self) -> Seq<char> {
        match self {
            ImageErrorView::Decode(cause) => command::because(
                "could not decode the capture"@,
                cause,
            ),
            ImageErrorView::Encode(cause) => command::because(
                "could not encode the annotated capture"@,
                cause,
            ),
            ImageErrorView::Outside => "the region lies outside the capture"@,
        }
    }
}

impl ImageError {
    pub fn message(&self) -> (text: String)
        ensures
            text@ == self@.says(),
    {
        match self {
            ImageError::Decode(cause) => command::Failure::caused(
                "could not decode the capture",
                cause.as_str(),
            ).message,
            ImageError::Encode(cause) => command::Failure::caused(
                "could not encode the annotated capture",
                cause.as_str(),
            ).message,
            ImageError::Outside => "the region lies outside the capture".to_owned(),
        }
    }
}

/// Premultiplied RGBA pixels, four bytes each, row by row.
pub struct Raster {
    pub width: u32,
    pub height: u32,
    pub data: Vec<u8>,
}

impl View for Raster {
    type V = (u32, u32, Seq<u8>);

    open spec fn view(&self) -> (u32, u32, Seq<u8>) {
        (self.width, self.height, self.data@)
    }
}

/// The widest an image may be: its rows count their bytes in 31 bits.
pub const WIDEST: u32 = 0x1fff_ffff;

/// A size that is not empty and not too wide, with four bytes for each pixel.
pub open spec fn well_sized(pixels: (u32, u32, Seq<u8>)) -> bool {
    &&& 0 < pixels.0 <= WIDEST
    &&& pixels.1 > 0
    &&& pixels.2.len() == pixels.0 * pixels.1 * 4
}

impl Raster {
    pub open spec fn wf(self) -> bool {
        well_sized(self@)
    }
}

/// The pixels of a PNG file: width, height and premultiplied RGBA bytes; or why
/// it is not a PNG file of a supported kind.
pub uninterp spec fn png_pixels(png: Seq<u8>) -> Result<(u32, u32, Seq<u8>), Seq<char>>;

/// The PNG file that stands for these pixels, or why there is none.
pub uninterp spec fn png_file(width: u32, height: u32, data: Seq<u8>) -> Result<
    Seq<u8>,
    Seq<char>,
>;

/// Whether the declared size is one that memory can be asked for.
pub open spec fn addressable(png: Seq<u8>) -> bool {
    header(png) matches Some((width, height)) ==> width * height * 8 <= isize::MAX
}

/// `tiny_skia::Pixmap::decode_png`, and `to_string` on its error: the file's
/// pixels, or why it cannot be decoded. What decodes has a size that is not too
/// wide, with four bytes for each pixel, and it is the size in the file's header.
/// Asking for a buffer of more bytes than the address space holds would panic, so
/// such headers are left out.
#[verifier::external_body]
fn decode_pixmap(png: &Vec<u8>) -> (result: Result<Raster, String>)
    requires
        addressable(png@),
    ensures
        match result {
            Ok(raster) => {
                &&& png_pixels(png@) == Ok::<(u32, u32, Seq<u8>), Seq<char>>(raster@)
                &&& raster.wf()
                &&& header(png@) == Some((raster.width, raster.height))
            },
            Err(cause) => png_pixels(png@) == Err::<(u32, u32, Seq<u8>), Seq<char>>(cause@),
        },
{
    let pixmap = tiny_skia::Pixmap::decode_png(png).map_err(|error| error.to_string())?;
    Ok(Raster { width: pixmap.width(), height: pixmap.height(), data: pixmap.take() })
}

/// Whether every pixel covers what is below it.
pub open spec fn opaque(data: Seq<u8>) -> bool {
    forall|i: int| 0 <= i < data.len() && i % 4 == 3 ==> #[trigger] data[i] == 255
}

/// `tiny_skia::PixmapRef::encode_png`, and `to_string` on its error: the PNG file
/// for these pixels, or why they cannot be encoded. The file's header states
/// their size. Opaque pixels are written as they are, so that they come back from
/// the file wherever it decodes; others are divided by their alpha, which rounds.
/// `PixmapRef::from_bytes`, which the pixels are handed over through, takes every
/// size that is not empty and not too wide with its bytes, so the `unwrap` does
/// not panic.
#[verifier::external_body]
fn encode_pixmap(raster: &Raster) -> (result: Result<Vec<u8>, String>)
    requires
        raster.wf(),
    ensures
        match result {
            Ok(png) => {
                &&& png_file(raster.width, raster.height, raster.data@) == Ok::<
                    Seq<u8>,
                    Seq<char>,
                >(png@)
                &&& header(png@) == Some((raster.width, raster.height))
                &&& opaque(raster.data@) && png_pixels(png@) is Ok ==> png_pixels(png@) == Ok::<
                    (u32, u32, Seq<u8>),
                    Seq<char>,
                >(raster@)
            },
            Err(cause) => png_file(raster.width, raster.height, raster.data@) == Err::<
                Seq<u8>,
                Seq<char>,
            >(cause@),
        },
{
    tiny_skia::PixmapRef::from_bytes(&raster.data, raster.width, raster.height)
        .unwrap()
        .encode_png()
        .map_err(|error| error.to_string())
}

/// The pixels of a capture, or why there are none: it declares a size that cannot
/// be held, or does not decode.
pub open spec fn decoded(png: Seq<u8>) -> Result<(u32, u32, Seq<u8>), Seq<char>> {
    if addressable(png) {
        png_pixels(png)
    } else {
        Err("image is too big"@)
    }
}

/// The pixels of a capture, if it has any.
pub open spec fn pixels(png: Seq<u8>) -> Option<(u32, u32, Seq<u8>)> {
    match decoded(png) {
        Ok(pixels) => Some(pixels),
        Err(_) => None,
    }
}

/// Decode a capture.
pub fn decode(png: &Vec<u8>) -> (result: Result<Raster, ImageError>)
    ensures
        match decoded(png@) {
            Ok(pixels) => result matches Ok(raster) && {
                &&& raster@ == pixels
                &&& raster.wf()
                &&& header(png@) == Some((raster.width, raster.height))
            },
            Err(cause) => result matches Err(error) && error@ == ImageErrorView::Decode(cause),
        },
{
    if let Some((width, height)) = png_dimensions(png) {
        proof {
            assert(width * height <= 0xffff_ffff * 0xffff_ffff) by (nonlinear_arith)
                requires
                    0 <= width <= 0xffff_ffff,
                    0 <= height <= 0xffff_ffff,
            ;
        }
        if width as u128 * height as u128 * 8 > isize::MAX as u128 {
            return Err(ImageError::Decode("image is too big".to_owned()));
        }
    }
    match decode_pixmap(png) {
        Ok(raster) => Ok(raster),
        Err(cause) => Err(ImageError::Decode(cause)),
    }
}

/// Encode pixels as a PNG file.
pub fn encode(raster: &Raster) -> (result: Result<Vec<u8>, ImageError>)
    requires
        raster.wf(),
    ensures
        match png_file(raster.width, raster.height, raster.data@) {
            Ok(file) => result matches Ok(png) && {
                &&& png@ == file
                &&& header(png@) == Some((raster.width, raster.height))
                &&& opaque(raster.data@) && pixels(png@) is Some ==> pixels(png@) == Some(raster@)
            },
            Err(cause) => result matches Err(error) && error@ == ImageErrorView::Encode(cause),
        },
{
    match encode_pixmap(raster) {
        Ok(png) => Ok(png),
        Err(cause) => Err(ImageError::Encode(cause)),
    }
}

/// Whether a region is not empty and lies inside an image of that size.
pub open spec fn inside(width: u32, height: u32, region: (u32, u32, u32, u32)) -> bool {
    &&& region.2 > 0
    &&& region.3 > 0
    &&& region.0 + region.2 <= width
    &&& region.1 + region.3 <= height
}

/// The bytes of the pixels in a region, row by row.
pub open spec fn region_bytes(
    pixels: (u32, u32, Seq<u8>),
    region: (u32, u32, u32, u32),
) -> Seq<u8> {
    let row_bytes = region.2 * 4;
    Seq::new(
        (row_bytes * region.3) as nat,
        |i: int|
            pixels.2[((region.1 + i / row_bytes) * pixels.0 + region.0) * 4 + i % row_bytes],
    )
}

/// Cut a region out of an image.
pub fn crop_raster(raster: &Raster, region: (u32, u32, u32, u32)) -> (result: Raster)
    requires
        raster.wf(),
        inside(raster.width, raster.height, region),
    ensures
        result@ == (region.2, region.3, region_bytes(raster@, region)),
        result.wf(),
{
    let (x, y, width, height) = region;
    let ghost w = raster.width as int;
    let ghost row_bytes = width * 4;
    let total: usize = raster.data.len();
    let mut data: Vec<u8> = Vec::new();
    let mut row: u32 = 0;
    while row < height
        invariant
            raster.wf(),
            inside(raster.width, raster.height, region),
            region == (x, y, width, height),
            w == raster.width,
            row_bytes == width * 4,
            row <= height,
            total == raster.data@.len(),
            data@.len() == row * row_bytes,
            data@ == region_bytes(raster@, region).take(row * row_bytes),
        decreases height - row,
    {
        proof {
            lemma_row_in_image(w, raster.height as int, y + row, x as int, width as int);
            assert((row + 1) * row_bytes == row * row_bytes + row_bytes) by (nonlinear_arith);
            assert((row + 1) * row_bytes <= height * row_bytes) by (nonlinear_arith)
                requires
                    row + 1 <= height,
                    row_bytes >= 0,
            ;
            assert(height * row_bytes == row_bytes * height) by (nonlinear_arith);
        }
        let line: usize = (y as usize + row as usize) * raster.width as usize;
        let start: usize = (line + x as usize) * 4;
        let mut k: usize = 0;
        let count: usize = width as usize * 4;
        while k < count
            invariant
                raster.wf(),
                region == (x, y, width, height),
                w == raster.width,
                row_bytes == width * 4 == count,
                row < height,
                k <= count,
                start == ((y + row) * w + x) * 4,
                start + count <= total == raster.data@.len(),
                (row + 1) * row_bytes == row * row_bytes + row_bytes,
                (row + 1) * row_bytes <= row_bytes * height,
                data@.len() == row * row_bytes + k,
                data@ == region_bytes(raster@, region).take(row * row_bytes + k),
            decreases count - k,
        {
            let byte: u8 = raster.data[start + k];
            let ghost before = data@;
            data.push(byte);
            proof {
                let all = region_bytes(raster@, region);
                let i = row * row_bytes + k;
                assert(0 <= row * row_bytes) by (nonlinear_arith)
                    requires
                        row >= 0,
                        row_bytes >= 0,
                ;
                vstd::arithmetic::div_mod::lemma_fundamental_div_mod_converse(
                    i,
                    row_bytes as int,
                    row as int,
                    k as int,
                );
                assert(all[i] == raster.data@[((y + row) * w + x) * 4 + k]);
                assert(data@ =~= all.take(i + 1)) by {
                    assert(all.take(i + 1).drop_last() =~= all.take(i));
                    assert(data@.drop_last() =~= before);
                    assert(data@.last() == byte);
                }
            }
            k += 1;
        }
        row += 1;
    }
    proof {
        let all = region_bytes(raster@, region);
        assert(height * row_bytes == row_bytes * height) by (nonlinear_arith);
        assert(all.take(row * row_bytes) =~= all);
        assert(row_bytes * height == width * height * 4) by (nonlinear_arith)
            requires
                row_bytes == width * 4,
        ;
    }
    Raster { width, height, data }
}

/// A row segment inside an image lies inside its bytes.
proof fn lemma_row_in_image(width: int, height: int, row: int, column: int, count: int)
    requires
        0 < width <= u32::MAX,
        0 < height <= u32::MAX,
        0 <= row < height,
        0 <= column,
        0 <= count,
        column + count <= width,
    ensures
        0 <= row * width,
        row * width + width <= width * height,
        0 <= (row * width + column) * 4,
        (row * width + column) * 4 + count * 4 <= width * height * 4,
{
    assert(0 <= row * width) by (nonlinear_arith)
        requires
            0 <= row,
            0 < width,
    ;
    assert(row * width + width <= width * height) by (nonlinear_arith)
        requires
            row + 1 <= height,
            0 < width,
    ;
}

/// The file with a region of a capture, or why there is none.
pub open spec fn cropped(png: Seq<u8>, region: (u32, u32, u32, u32)) -> Result<
    Seq<u8>,
    ImageErrorView,
> {
    match decoded(png) {
        Err(cause) => Err(ImageErrorView::Decode(cause)),
        Ok(image) => if !inside(image.0, image.1, region) {
            Err(ImageErrorView::Outside)
        } else {
            match png_file(region.2, region.3, region_bytes(image, region)) {
                Err(cause) => Err(ImageErrorView::Encode(cause)),
                Ok(file) => Ok(file),
            }
        },
    }
}

/// Cut a region out of a capture. The file states the region's size, and where
/// the region is opaque, as screens are, it holds exactly the pixels selected.
pub fn crop(png: &Vec<u8>, region: (u32, u32, u32, u32)) -> (result: Result<Vec<u8>, ImageError>)
    ensures
        match result {
            Ok(file) => {
                &&& cropped(png@, region) == Ok::<Seq<u8>, ImageErrorView>(file@)
                &&& header(file@) == Some((region.2, region.3))
                &&& opaque(region_bytes(pixels(png@)->0, region)) && pixels(file@) is Some
                    ==> pixels(file@) == Some(
                    (region.2, region.3, region_bytes(pixels(png@)->0, region)),
                )
            },
            Err(error) => cropped(png@, region) == Err::<Seq<u8>, ImageErrorView>(error@),
        },
{
    let raster = match decode(png) {
        Ok(raster) => raster,
        Err(error) => {
            return Err(error);
        },
    };
    let (x, y, width, height) = region;
    if width == 0 || height == 0 || x as u64 + width as u64 > raster.width as u64 || y as u64
        + height as u64 > raster.height as u64 {
        return Err(ImageError::Outside);
    }
    encode(&crop_raster(&raster, region))
}

/// A PNG file's size is read from its header: the width from the four bytes at
/// sixteen, the height from the four bytes at twenty, the first byte highest. A file
/// without the signature or without the header chunk has none.
pub proof fn law_the_size_is_read_from_the_header(png: Seq<u8>)
    ensures
        header(png) matches Some((width, height)) ==> {
            &&& png.len() >= 24
            &&& width == ((png[16] * 256 + png[17]) * 256 + png[18]) * 256 + png[19]
            &&& height == ((png[20] * 256 + png[21]) * 256 + png[22]) * 256 + png[23]
            &&& png[0] == 0x89 && png[1] == 'P' as u8 && png[2] == 'N' as u8 && png[3] == 'G' as u8
            &&& png[12] == 'I' as u8 && png[13] == 'H' as u8 && png[14] == 'D' as u8 && png[15]
                == 'R' as u8
        },
        png.len() >= 24 && png.take(8) == seq![
            0x89u8,
            0x50,
            0x4e,
            0x47,
            0x0d,
            0x0a,
            0x1a,
            0x0a,
        ] && png.subrange(12, 16) == seq![0x49u8, 0x48, 0x44, 0x52] ==> header(png) is Some,
{
    if header(png) is Some {
        let start = png.take(8);
        let name = png.subrange(12, 16);
        assert(start[0] == png[0] && start[1] == png[1] && start[2] == png[2] && start[3]
            == png[3]);
        assert(name[0] == png[12] && name[1] == png[13] && name[2] == png[14] && name[3]
            == png[15]);
    }
}

/// A region cut out of an image holds the pixels that were there: its pixel in a
/// row and a column is the image's, as many rows further down and as many columns
/// further right as the region lies.
pub proof fn law_a_cut_out_pixel_is_the_one_that_was_there(
    image: (u32, u32, Seq<u8>),
    region: (u32, u32, u32, u32),
    row: int,
    column: int,
    channel: int,
)
    requires
        region.0 + region.2 <= image.0,
        region.1 + region.3 <= image.1,
        0 <= row < region.3,
        0 <= column < region.2,
        0 <= channel < 4,
    ensures
        region_bytes(image, region).len() == region.2 * region.3 * 4,
        region_bytes(image, region)[(row * region.2 + column) * 4 + channel] == image.2[((region.1
            + row) * image.0 + region.0 + column) * 4 + channel],
{
    let row_bytes = region.2 * 4;
    let k = column * 4 + channel;
    let i = row * row_bytes + k;
    assert((row * region.2 + column) * 4 + channel == i) by (nonlinear_arith)
        requires
            row_bytes == region.2 * 4,
            k == column * 4 + channel,
            i == row * row_bytes + k,
    ;
    vstd::arithmetic::div_mod::lemma_fundamental_div_mod_converse(i, row_bytes, row, k);
    assert(0 <= row * row_bytes && row * row_bytes + row_bytes <= row_bytes * region.3)
        by (nonlinear_arith)
        requires
            0 <= row,
            row + 1 <= region.3,
            0 <= row_bytes,
    ;
    assert(row_bytes * region.3 == region.2 * region.3 * 4) by (nonlinear_arith)
        requires
            row_bytes == region.2 * 4,
    ;
}

/// Cropping fails where the capture does not decode, where the region is empty or
/// reaches past the image, and where the cut does not encode; and nowhere else.
pub proof fn law_cropping_stays_inside_the_image(png: Seq<u8>, region: (u32, u32, u32, u32))
    ensures
        pixels(png) is None ==> (cropped(png, region) matches Err(ImageErrorView::Decode(_))),
        pixels(png) matches Some(image) ==> {
            let fits = region.2 > 0 && region.3 > 0 && region.0 + region.2 <= image.0 && region.1
                + region.3 <= image.1;
            &&& !fits <==> (cropped(png, region) matches Err(ImageErrorView::Outside))
            &&& fits ==> match png_file(region.2, region.3, region_bytes(image, region)) {
                Ok(file) => cropped(png, region) == Ok::<Seq<u8>, ImageErrorView>(file),
                Err(cause) => cropped(png, region) == Err::<Seq<u8>, ImageErrorView>(
                    ImageErrorView::Encode(cause),
                ),
            }
        },
{
}

/// What is said of an image that could not be worked on ends with why.
pub proof fn law_an_image_error_says_why(cause: Seq<char>)
    ensures
        text::ends_with(ImageErrorView::Decode(cause).says(), cause),
        text::ends_with(ImageErrorView::Encode(cause).says(), cause),
        ImageErrorView::Decode(cause).says() != ImageErrorView::Encode(cause).says(),
{
    let decoding = "could not decode the capture"@ + ": "@;
    let encoding = "could not encode the annotated capture"@ + ": "@;
    text::lemma_ends_with(decoding, cause);
    text::lemma_ends_with(encoding, cause);
    reveal_strlit("could not decode the capture");
    reveal_strlit("could not encode the annotated capture");
    assert(decoding.len() != encoding.len());
}

/// An image is decoded unless its header asks for more bytes than can be addressed, at
/// eight for each pixel; then it is refused without being looked at.
pub proof fn law_only_what_can_be_addressed_is_decoded(png: Seq<u8>)
    ensures
        header(png) matches Some((width, height)) ==> (width * height * 8 > isize::MAX
            ==> decoded(png) == Err::<(u32, u32, Seq<u8>), Seq<char>>("image is too big"@)),
        header(png) matches Some((width, height)) ==> (width * height * 8 <= isize::MAX
            ==> decoded(png) == png_pixels(png)),
        header(png) is None ==> decoded(png) == png_pixels(png),
{
}

} // verus!
