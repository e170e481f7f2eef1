//! Redaction: averaging square blocks of pixels in place.
//!
//! Deliberately destructive. The pixels that were there are gone from the
//! result, so unlike a drawn-on black box there is nothing underneath to
//! recover.
use crate::geom;
use crate::image::Raster;
use vstd::prelude::*;

verus! {

/// One byte of one pixel of an image `width` pixels wide.
pub open spec fn sample(data: Seq<u8>, width: int, row: int, column: int, channel: int) -> u8 {
    data[(row * width + column) * 4 + channel]
}

/// A rectangle of whole pixels, its far edges left out.
#[derive(Clone, Copy)]
pub struct Block {
    pub left: usize,
    pub top: usize,
    pub right: usize,
    pub bottom: usize,
}

impl Block {
    pub open spec fn holds(self, row: int, column: int) -> bool {
        self.top <= row < self.bottom && self.left <= column < self.right
    }

    pub open spec fn fits(self, width: int, height: int) -> bool {
        self.left <= self.right <= width && self.top <= self.bottom <= height
    }

    /// How many pixels it holds.
    pub open spec fn count(self) -> int {
        (self.bottom - self.top) * (self.right - self.left)
    }
}

/// The sum of one channel over columns `left..right` of a row.
pub open spec fn row_sum(
    data: Seq<u8>,
    width: int,
    channel: int,
    row: int,
    left: int,
    right: int,
) -> int
    decreases right - left,
{
    if right <= left {
        0
    } else {
        row_sum(data, width, channel, row, left, right - 1) + sample(
            data,
            width,
            row,
            right - 1,
            channel,
        )
    }
}

/// The sum of one channel over rows `top..bottom`, columns `left..right`.
pub open spec fn rows_sum(
    data: Seq<u8>,
    width: int,
    channel: int,
    top: int,
    bottom: int,
    left: int,
    right: int,
) -> int
    decreases bottom - top,
{
    if bottom <= top {
        0
    } else {
        rows_sum(data, width, channel, top, bottom - 1, left, right) + row_sum(
            data,
            width,
            channel,
            bottom - 1,
            left,
            right,
        )
    }
}

/// One channel's average over a block, rounded down.
pub open spec fn average(data: Seq<u8>, width: int, channel: int, block: Block) -> int {
    rows_sum(
        data,
        width,
        channel,
        block.top as int,
        block.bottom as int,
        block.left as int,
        block.right as int,
    ) / block.count()
}

/// Where the step of `size` that holds `at` begins, counting steps from `start`.
pub open spec fn step_start(start: int, size: int, at: int) -> int {
    start + (at - start) / size * size
}

/// The block that a pixel of `area` belongs to: a square of side `size`, laid
/// out from the top left of the area and cut off at its other edges.
pub open spec fn block_of(area: Block, size: int, row: int, column: int) -> Block {
    let top = step_start(area.top as int, size, row);
    let left = step_start(area.left as int, size, column);
    Block {
        top: top as usize,
        left: left as usize,
        bottom: geom::lesser(top + size, area.bottom as int) as usize,
        right: geom::lesser(left + size, area.right as int) as usize,
    }
}

/// One byte of the image after its pixels in `area` were averaged.
pub open spec fn sample_after(
    data: Seq<u8>,
    width: int,
    area: Block,
    size: int,
    row: int,
    column: int,
    channel: int,
) -> u8 {
    if area.holds(row, column) {
        average(data, width, channel, block_of(area, size, row, column)) as u8
    } else {
        sample(data, width, row, column, channel)
    }
}

/// The bytes of an image after its pixels in `area` were averaged.
pub open spec fn averaged(data: Seq<u8>, width: int, area: Block, size: int) -> Seq<u8> {
    Seq::new(
        data.len(),
        |i: int| sample_after(data, width, area, size, i / 4 / width, i / 4 % width, i % 4),
    )
}

/// A pixel of an image has its four bytes in the data.
proof fn lemma_pixel_in_data(width: int, height: int, row: int, column: int)
    requires
        0 <= column < width,
        0 <= row < height,
    ensures
        0 <= row * width,
        0 <= row * width + column < width * height,
        (row * width + column) * 4 + 4 <= width * height * 4,
{
    assert(0 <= row * width) by (nonlinear_arith)
        requires
            0 <= row,
            0 <= width,
    ;
    assert(row * width + width <= width * height) by (nonlinear_arith)
        requires
            row + 1 <= height,
            0 <= width,
    ;
}

/// Two pixels share a byte only when they are the same pixel.
proof fn lemma_index_parts(width: int, row: int, column: int, channel: int)
    requires
        0 <= column < width,
        0 <= row,
        0 <= channel < 4,
    ensures
        ({
            let i = (row * width + column) * 4 + channel;
            i / 4 == row * width + column && i % 4 == channel && i / 4 / width == row && i / 4
                % width == column
        }),
{
    let p = row * width + column;
    let i = p * 4 + channel;
    assert(0 <= row * width) by (nonlinear_arith)
        requires
            0 <= row,
            0 <= width,
    ;
    vstd::arithmetic::div_mod::lemma_fundamental_div_mod_converse(i, 4, p, channel);
    vstd::arithmetic::div_mod::lemma_fundamental_div_mod_converse(p, width, row, column);
}

/// Every byte of an image is a byte of one of its pixels.
proof fn lemma_index_is_a_pixel(width: int, height: int, i: int)
    requires
        0 < width,
        0 <= height,
        0 <= i < width * height * 4,
    ensures
        ({
            let (row, column, channel) = (i / 4 / width, i / 4 % width, i % 4);
            &&& 0 <= row < height
            &&& 0 <= column < width
            &&& 0 <= channel < 4
            &&& i == (row * width + column) * 4 + channel
        }),
{
    let p = i / 4;
    vstd::arithmetic::div_mod::lemma_fundamental_div_mod(p, width);
    vstd::arithmetic::div_mod::lemma_mod_bound(p, width);
    assert(p < width * height);
    let row = p / width;
    assert(width * row == row * width) by (nonlinear_arith);
    assert(0 <= row) by {
        vstd::arithmetic::div_mod::lemma_div_pos_is_pos(p, width);
    }
    assert(row < height) by (nonlinear_arith)
        requires
            width * row <= p < width * height,
            0 < width,
    ;
}

/// Data that agrees with `sample_after` at every pixel is the averaged image.
proof fn lemma_averaged(
    data: Seq<u8>,
    result: Seq<u8>,
    width: int,
    height: int,
    area: Block,
    size: int,
)
    requires
        0 < width,
        0 <= height,
        data.len() == width * height * 4,
        result.len() == data.len(),
        forall|row: int, column: int, channel: int|
            0 <= row < height && 0 <= column < width && 0 <= channel < 4 ==> #[trigger] sample(
                result,
                width,
                row,
                column,
                channel,
            ) == sample_after(data, width, area, size, row, column, channel),
    ensures
        result == averaged(data, width, area, size),
{
    assert forall|i: int| 0 <= i < data.len() implies result[i] == averaged(
        data,
        width,
        area,
        size,
    )[i] by {
        lemma_index_is_a_pixel(width, height, i);
        assert(result[i] == sample(result, width, i / 4 / width, i / 4 % width, i % 4));
    }
    assert(result =~= averaged(data, width, area, size));
}

/// A byte of the averaged image, by its pixel.
proof fn lemma_sample_of_averaged(
    data: Seq<u8>,
    width: int,
    height: int,
    area: Block,
    size: int,
    row: int,
    column: int,
    channel: int,
)
    requires
        0 < width,
        data.len() == width * height * 4,
        0 <= row < height,
        0 <= column < width,
        0 <= channel < 4,
    ensures
        sample(averaged(data, width, area, size), width, row, column, channel) == sample_after(
            data,
            width,
            area,
            size,
            row,
            column,
            channel,
        ),
{
    lemma_pixel_in_data(width, height, row, column);
    lemma_index_parts(width, row, column, channel);
}

/// The sum of `n` bytes is between nothing and 255 each.
proof fn lemma_row_sum_bound(
    data: Seq<u8>,
    width: int,
    channel: int,
    row: int,
    left: int,
    right: int,
)
    requires
        left <= right,
    ensures
        0 <= row_sum(data, width, channel, row, left, right) <= 255 * (right - left),
    decreases right - left,
{
    if left < right {
        lemma_row_sum_bound(data, width, channel, row, left, right - 1);
    }
}

proof fn lemma_rows_sum_bound(
    data: Seq<u8>,
    width: int,
    channel: int,
    top: int,
    bottom: int,
    left: int,
    right: int,
)
    requires
        top <= bottom,
        left <= right,
    ensures
        0 <= rows_sum(data, width, channel, top, bottom, left, right) <= 255 * ((bottom - top) * (
        right - left)),
    decreases bottom - top,
{
    if top < bottom {
        lemma_rows_sum_bound(data, width, channel, top, bottom - 1, left, right);
        lemma_row_sum_bound(data, width, channel, bottom - 1, left, right);
        let w = right - left;
        assert((bottom - top) * w == (bottom - 1 - top) * w + w) by (nonlinear_arith);
    } else {
        assert((bottom - top) * (right - left) == 0) by (nonlinear_arith)
            requires
                bottom == top,
        ;
    }
}

/// An average of bytes is a byte.
proof fn lemma_average_is_a_byte(data: Seq<u8>, width: int, channel: int, block: Block)
    requires
        block.top < block.bottom,
        block.left < block.right,
    ensures
        block.count() > 0,
        0 <= average(data, width, channel, block) <= 255,
{
    let n = block.count();
    assert(n > 0) by (nonlinear_arith)
        requires
            n == (block.bottom - block.top) * (block.right - block.left),
            block.top < block.bottom,
            block.left < block.right,
    ;
    lemma_rows_sum_bound(
        data,
        width,
        channel,
        block.top as int,
        block.bottom as int,
        block.left as int,
        block.right as int,
    );
    let sum = rows_sum(
        data,
        width,
        channel,
        block.top as int,
        block.bottom as int,
        block.left as int,
        block.right as int,
    );
    assert(0 <= sum / n <= 255) by (nonlinear_arith)
        requires
            0 <= sum <= 255 * n,
            n > 0,
    ;
}

/// Sums over pixels that two images have in common are the same.
proof fn lemma_rows_sum_same(
    a: Seq<u8>,
    b: Seq<u8>,
    width: int,
    channel: int,
    top: int,
    bottom: int,
    left: int,
    right: int,
)
    requires
        forall|row: int, column: int|
            top <= row < bottom && left <= column < right ==> #[trigger] sample(
                a,
                width,
                row,
                column,
                channel,
            ) == sample(b, width, row, column, channel),
    ensures
        rows_sum(a, width, channel, top, bottom, left, right) == rows_sum(
            b,
            width,
            channel,
            top,
            bottom,
            left,
            right,
        ),
    decreases bottom - top,
{
    if top < bottom {
        lemma_rows_sum_same(a, b, width, channel, top, bottom - 1, left, right);
        lemma_row_sum_same(a, b, width, channel, bottom - 1, left, right);
    }
}

proof fn lemma_row_sum_same(
    a: Seq<u8>,
    b: Seq<u8>,
    width: int,
    channel: int,
    row: int,
    left: int,
    right: int,
)
    requires
        forall|column: int|
            left <= column < right ==> #[trigger] sample(a, width, row, column, channel) == sample(
                b,
                width,
                row,
                column,
                channel,
            ),
    ensures
        row_sum(a, width, channel, row, left, right) == row_sum(
            b,
            width,
            channel,
            row,
            left,
            right,
        ),
    decreases right - left,
{
    if left < right {
        assert(sample(a, width, row, right - 1, channel) == sample(
            b,
            width,
            row,
            right - 1,
            channel,
        ));
        lemma_row_sum_same(a, b, width, channel, row, left, right - 1);
    }
}

/// Every pixel from the start of a step to its end belongs to that step.
proof fn lemma_step(start: int, size: int, begin: int, at: int)
    requires
        size > 0,
        start <= begin,
        (begin - start) % size == 0,
        begin <= at < begin + size,
    ensures
        step_start(start, size, at) == begin,
{
    let k = (begin - start) / size;
    vstd::arithmetic::div_mod::lemma_fundamental_div_mod(begin - start, size);
    assert(size * k == k * size) by (nonlinear_arith);
    vstd::arithmetic::div_mod::lemma_fundamental_div_mod_converse(
        at - start,
        size,
        k,
        at - begin,
    );
}

/// One channel's average over a block, rounded down.
fn block_average(data: &Vec<u8>, width: usize, height: usize, channel: usize, block: Block) -> (
    result: u8)
    requires
        data@.len() == width * height * 4,
        width <= u32::MAX,
        height <= u32::MAX,
        block.fits(width as int, height as int),
        block.top < block.bottom,
        block.left < block.right,
        channel < 4,
    ensures
        result == average(data@, width as int, channel as int, block),
{
    let total: usize = data.len();
    let ghost (w, ch) = (width as int, channel as int);
    let ghost (l, r) = (block.left as int, block.right as int);
    let mut sum: u128 = 0;
    let mut row: usize = block.top;
    while row < block.bottom
        invariant
            total == data@.len() == width * height * 4,
            width <= u32::MAX,
            height <= u32::MAX,
            block.fits(width as int, height as int),
            block.left < block.right,
            channel < 4,
            w == width,
            ch == channel,
            l == block.left,
            r == block.right,
            block.top <= row <= block.bottom,
            sum == rows_sum(data@, w, ch, block.top as int, row as int, l, r),
        decreases block.bottom - row,
    {
        proof {
            lemma_rows_sum_bound(data@, w, ch, block.top as int, row as int, l, r);
            assert((row - block.top) * (r - l) <= 0xffff_ffff * 0xffff_ffff) by (nonlinear_arith)
                requires
                    0 <= row - block.top <= 0xffff_ffff,
                    0 <= r - l <= 0xffff_ffff,
            ;
        }
        let ghost rows = sum as int;
        let mut column: usize = block.left;
        while column < block.right
            invariant
                total == data@.len() == width * height * 4,
                width <= u32::MAX,
                height <= u32::MAX,
                block.fits(width as int, height as int),
                channel < 4,
                w == width,
                ch == channel,
                l == block.left,
                r == block.right,
                row < block.bottom,
                block.left <= column <= block.right,
                0 <= rows <= 255 * (0xffff_ffff * 0xffff_ffff),
                sum == rows + row_sum(data@, w, ch, row as int, l, column as int),
            decreases block.right - column,
        {
            proof {
                lemma_row_sum_bound(data@, w, ch, row as int, l, column as int);
                lemma_pixel_in_data(w, height as int, row as int, column as int);
            }
            let index: usize = (row * width + column) * 4 + channel;
            sum = sum + data[index] as u128;
            column += 1;
        }
        row += 1;
    }
    proof {
        lemma_average_is_a_byte(data@, w, ch, block);
        assert(block.count() <= 0xffff_ffff * 0xffff_ffff) by (nonlinear_arith)
            requires
                block.count() == (block.bottom - block.top) * (block.right - block.left),
                0 <= block.bottom - block.top <= 0xffff_ffff,
                0 <= block.right - block.left <= 0xffff_ffff,
        ;
    }
    let count: u128 = (block.bottom - block.top) as u128 * (block.right - block.left) as u128;
    (sum / count) as u8
}

/// Set every pixel of a block to one colour.
fn fill_block(data: &mut Vec<u8>, width: usize, height: usize, block: Block, color: [u8; 4])
    requires
        old(data)@.len() == width * height * 4,
        block.fits(width as int, height as int),
    ensures
        final(data)@.len() == old(data)@.len(),
        forall|row: int, column: int, channel: int|
            0 <= row < height && 0 <= column < width && 0 <= channel < 4 ==> #[trigger] sample(
                final(data)@,
                width as int,
                row,
                column,
                channel,
            ) == if block.holds(row, column) {
                color@[channel]
            } else {
                sample(old(data)@, width as int, row, column, channel)
            },
{
    let total: usize = data.len();
    let ghost before = data@;
    let ghost w = width as int;
    let mut row: usize = block.top;
    while row < block.bottom
        invariant
            total == data@.len() == before.len() == width * height * 4,
            block.fits(width as int, height as int),
            w == width,
            block.top <= row <= block.bottom,
            forall|r: int, c: int, ch: int|
                0 <= r < height && 0 <= c < width && 0 <= ch < 4 ==> #[trigger] sample(
                    data@,
                    w,
                    r,
                    c,
                    ch,
                ) == if block.holds(r, c) && r < row {
                    color@[ch]
                } else {
                    sample(before, w, r, c, ch)
                },
        decreases block.bottom - row,
    {
        let mut column: usize = block.left;
        while column < block.right
            invariant
                total == data@.len() == before.len() == width * height * 4,
                block.fits(width as int, height as int),
                w == width,
                block.top <= row < block.bottom,
                block.left <= column <= block.right,
                forall|r: int, c: int, ch: int|
                    0 <= r < height && 0 <= c < width && 0 <= ch < 4 ==> #[trigger] sample(
                        data@,
                        w,
                        r,
                        c,
                        ch,
                    ) == if block.holds(r, c) && (r < row || r == row && c < column) {
                        color@[ch]
                    } else {
                        sample(before, w, r, c, ch)
                    },
            decreases block.right - column,
        {
            proof {
                lemma_pixel_in_data(w, height as int, row as int, column as int);
            }
            let ghost last = data@;
            let index: usize = (row * width + column) * 4;
            data.set(index, color[0]);
            data.set(index + 1, color[1]);
            data.set(index + 2, color[2]);
            data.set(index + 3, color[3]);
            proof {
                assert forall|r: int, c: int, ch: int|
                    0 <= r < height && 0 <= c < width && 0 <= ch < 4 implies #[trigger] sample(
                    data@,
                    w,
                    r,
                    c,
                    ch,
                ) == if block.holds(r, c) && (r < row || r == row && c < column + 1) {
                    color@[ch]
                } else {
                    sample(before, w, r, c, ch)
                } by {
                    lemma_pixel_in_data(w, height as int, r, c);
                    lemma_index_parts(w, r, c, ch);
                    lemma_index_parts(w, row as int, column as int, 0);
                    let i = (r * w + c) * 4 + ch;
                    if r == row && c == column {
                        assert(data@[i] == color@[ch]);
                    } else {
                        assert(r * w + c != row * w + column);
                        assert(data@[i] == last[i]);
                        assert(sample(last, w, r, c, ch) == data@[i]);
                    }
                }
            }
            column += 1;
        }
        row += 1;
    }
}

/// The block that begins at `top`, `left`, cut off at the edges of the area.
fn block_from(area: Block, size: u64, top: usize, left: usize) -> (block: Block)
    requires
        size > 0,
        top < area.bottom,
        left < area.right,
    ensures
        block.top == top,
        block.left == left,
        block.bottom == geom::lesser(top + size, area.bottom as int),
        block.right == geom::lesser(left + size, area.right as int),
{
    let bottom: usize = if (area.bottom - top) as u64 <= size {
        area.bottom
    } else {
        top + size as usize
    };
    let right: usize = if (area.right - left) as u64 <= size {
        area.right
    } else {
        left + size as usize
    };
    Block { left, top, right, bottom }
}

/// Whether a pixel of the area comes before the block at `top`, `left` when
/// blocks are worked through row by row.
spec fn done(area: Block, top: int, bottom: int, left: int, row: int, column: int) -> bool {
    area.holds(row, column) && (row < top || row < bottom && column < left)
}

/// Average one block; the pixels done so far are then those before the next.
fn average_block(
    data: &mut Vec<u8>,
    width: usize,
    height: usize,
    area: Block,
    size: u64,
    top: usize,
    left: usize,
    Ghost(before): Ghost<Seq<u8>>,
) -> (right: usize)
    requires
        old(data)@.len() == before.len() == width * height * 4,
        0 < width <= u32::MAX,
        height <= u32::MAX,
        area.right <= width,
        area.bottom <= height,
        size > 0,
        area.top <= top < area.bottom,
        area.left <= left < area.right,
        (top - area.top) % size as int == 0,
        (left - area.left) % size as int == 0,
        forall|row: int, column: int, channel: int|
            0 <= row < height && 0 <= column < width && 0 <= channel < 4 ==> #[trigger] sample(
                old(data)@,
                width as int,
                row,
                column,
                channel,
            ) == if done(
                area,
                top as int,
                geom::lesser(top + size, area.bottom as int),
                left as int,
                row,
                column,
            ) {
                sample_after(before, width as int, area, size as int, row, column, channel)
            } else {
                sample(before, width as int, row, column, channel)
            },
    ensures
        final(data)@.len() == old(data)@.len(),
        right == geom::lesser(left + size, area.right as int),
        forall|row: int, column: int, channel: int|
            0 <= row < height && 0 <= column < width && 0 <= channel < 4 ==> #[trigger] sample(
                final(data)@,
                width as int,
                row,
                column,
                channel,
            ) == if done(
                area,
                top as int,
                geom::lesser(top + size, area.bottom as int),
                right as int,
                row,
                column,
            ) {
                sample_after(before, width as int, area, size as int, row, column, channel)
            } else {
                sample(before, width as int, row, column, channel)
            },
{
    let block = block_from(area, size, top, left);
    let ghost w = width as int;
    let red: u8 = block_average(data, width, height, 0, block);
    let green: u8 = block_average(data, width, height, 1, block);
    let blue: u8 = block_average(data, width, height, 2, block);
    let alpha: u8 = block_average(data, width, height, 3, block);
    let color: [u8; 4] = [red, green, blue, alpha];
    let ghost current = data@;
    proof {
        assert forall|channel: int| 0 <= channel < 4 implies #[trigger] color@[channel] == average(
            before,
            w,
            channel,
            block,
        ) by {
            assert forall|row: int, column: int|
                block.top <= row < block.bottom && block.left <= column
                    < block.right implies #[trigger] sample(
                current,
                w,
                row,
                column,
                channel,
            ) == sample(before, w, row, column, channel) by {}
            lemma_rows_sum_same(
                current,
                before,
                w,
                channel,
                block.top as int,
                block.bottom as int,
                block.left as int,
                block.right as int,
            );
        }
    }
    fill_block(data, width, height, block, color);
    proof {
        assert forall|row: int, column: int, channel: int|
            0 <= row < height && 0 <= column < width && 0 <= channel < 4 implies #[trigger] sample(
            data@,
            w,
            row,
            column,
            channel,
        ) == if done(
            area,
            top as int,
            geom::lesser(top + size, area.bottom as int),
            block.right as int,
            row,
            column,
        ) {
            sample_after(before, w, area, size as int, row, column, channel)
        } else {
            sample(before, w, row, column, channel)
        } by {
            if block.holds(row, column) {
                lemma_step(area.top as int, size as int, top as int, row);
                lemma_step(area.left as int, size as int, left as int, column);
                assert(block_of(area, size as int, row, column) == block);
                assert(color@[channel] == average(before, w, channel, block));
            } else {
                assert(sample(current, w, row, column, channel) == sample(
                    data@,
                    w,
                    row,
                    column,
                    channel,
                ));
            }
        }
    }
    block.right
}

/// The next step begins a whole number of steps from the start, unless the
/// steps have reached the end.
proof fn lemma_next_step(start: int, size: int, begin: int)
    requires
        size > 0,
        start <= begin,
        (begin - start) % size == 0,
    ensures
        (begin + size - start) % size == 0,
{
    vstd::arithmetic::div_mod::lemma_mod_add_multiples_vanish(begin - start, size);
}

/// Average the pixels of an area in square blocks.
pub fn average_area(data: &mut Vec<u8>, width: usize, height: usize, area: Block, size: u64)
    requires
        old(data)@.len() == width * height * 4,
        0 < width <= u32::MAX,
        height <= u32::MAX,
        area.right <= width,
        area.bottom <= height,
        size > 0,
    ensures
        final(data)@ == averaged(old(data)@, width as int, area, size as int),
{
    let ghost before = data@;
    let ghost w = width as int;
    let mut top: usize = area.top;
    proof {
        assert(0int % size as int == 0) by (nonlinear_arith)
            requires
                size > 0,
        ;
    }
    while top < area.bottom
        invariant
            data@.len() == before.len() == width * height * 4,
            0 < width <= u32::MAX,
            height <= u32::MAX,
            area.right <= width,
            area.bottom <= height,
            size > 0,
            w == width,
            area.top <= top,
            top < area.bottom ==> (top - area.top) % size as int == 0,
            0int % size as int == 0,
            forall|row: int, column: int, channel: int|
                0 <= row < height && 0 <= column < width && 0 <= channel < 4 ==> #[trigger] sample(
                    data@,
                    w,
                    row,
                    column,
                    channel,
                ) == if area.holds(row, column) && row < top {
                    sample_after(before, w, area, size as int, row, column, channel)
                } else {
                    sample(before, w, row, column, channel)
                },
        decreases area.bottom - top,
    {
        let bottom: usize = if (area.bottom - top) as u64 <= size {
            area.bottom
        } else {
            top + size as usize
        };
        let mut left: usize = area.left;
        while left < area.right
            invariant
                data@.len() == before.len() == width * height * 4,
                0 < width <= u32::MAX,
                height <= u32::MAX,
                area.right <= width,
                area.bottom <= height,
                size > 0,
                w == width,
                area.top <= top < area.bottom,
                bottom == geom::lesser(top + size, area.bottom as int),
                (top - area.top) % size as int == 0,
                area.left <= left,
                left < area.right ==> (left - area.left) % size as int == 0,
                forall|row: int, column: int, channel: int|
                    0 <= row < height && 0 <= column < width && 0 <= channel < 4
                        ==> #[trigger] sample(data@, w, row, column, channel) == if done(
                        area,
                        top as int,
                        bottom as int,
                        left as int,
                        row,
                        column,
                    ) {
                        sample_after(before, w, area, size as int, row, column, channel)
                    } else {
                        sample(before, w, row, column, channel)
                    },
            decreases area.right - left,
        {
            let right: usize = average_block(
                data,
                width,
                height,
                area,
                size,
                top,
                left,
                Ghost(before),
            );
            proof {
                lemma_next_step(area.left as int, size as int, left as int);
            }
            left = right;
        }
        proof {
            lemma_next_step(area.top as int, size as int, top as int);
        }
        top = bottom;
    }
    proof {
        lemma_averaged(before, data@, w, height as int, area, size as int);
    }
}

/// A coordinate brought between zero and `limit`.
pub open spec fn clamped(value: int, limit: int) -> int {
    geom::lesser(geom::greater(value, 0), limit)
}

fn clamp(value: i64, limit: u32) -> (result: usize)
    ensures
        result == clamped(value as int, limit as int),
{
    if value < 0 {
        0
    } else if value > limit as i64 {
        limit as usize
    } else {
        value as usize
    }
}

/// The whole pixels of an image that an area in subpixels covers.
pub open spec fn pixel_area(
    image: (u32, u32, Seq<u8>),
    x: int,
    y: int,
    width: int,
    height: int,
) -> Block {
    Block {
        left: clamped(geom::rounded(x), image.0 as int) as usize,
        top: clamped(geom::rounded(y), image.1 as int) as usize,
        right: clamped(geom::rounded(x + width), image.0 as int) as usize,
        bottom: clamped(geom::rounded(y + height), image.1 as int) as usize,
    }
}

/// An image after an area of it was averaged in blocks; the area and the side
/// of a block are in subpixels, and no block is smaller than two pixels.
pub open spec fn pixelated(
    image: (u32, u32, Seq<u8>),
    x: int,
    y: int,
    width: int,
    height: int,
    block: int,
) -> (u32, u32, Seq<u8>) {
    (
        image.0,
        image.1,
        averaged(
            image.2,
            image.0 as int,
            pixel_area(image, x, y, width, height),
            geom::greater(geom::rounded(block), 2),
        ),
    )
}

/// Small enough to be rounded to pixels.
pub open spec fn roundable(value: int) -> bool {
    -0x4000_0000_0000_0000 <= value <= 0x4000_0000_0000_0000
}

/// Average square blocks of pixels in place. The area and the side of a block
/// are in subpixels.
pub fn pixelate(raster: &mut Raster, x: i64, y: i64, width: i64, height: i64, block: i64)
    requires
        old(raster).wf(),
        roundable(x as int),
        roundable(y as int),
        roundable(x + width),
        roundable(y + height),
        roundable(block as int),
    ensures
        final(raster)@ == pixelated(
            old(raster)@,
            x as int,
            y as int,
            width as int,
            height as int,
            block as int,
        ),
        final(raster).wf(),
{
    let area = Block {
        left: clamp(geom::round(x), raster.width),
        top: clamp(geom::round(y), raster.height),
        right: clamp(geom::round(x + width), raster.width),
        bottom: clamp(geom::round(y + height), raster.height),
    };
    let size: i64 = geom::max(geom::round(block), 2);
    average_area(
        &mut raster.data,
        raster.width as usize,
        raster.height as usize,
        area,
        size as u64,
    );
}

/// The step that holds a position begins at or before it, less than a step
/// away, and a whole number of steps from the start.
proof fn lemma_step_start(start: int, size: int, at: int)
    requires
        size > 0,
        start <= at,
    ensures
        start <= step_start(start, size, at) <= at < step_start(start, size, at) + size,
        (step_start(start, size, at) - start) % size == 0,
{
    let k = (at - start) / size;
    vstd::arithmetic::div_mod::lemma_fundamental_div_mod(at - start, size);
    vstd::arithmetic::div_mod::lemma_mod_bound(at - start, size);
    vstd::arithmetic::div_mod::lemma_div_pos_is_pos(at - start, size);
    assert(size * k == k * size) by (nonlinear_arith);
    assert(0 <= k * size) by (nonlinear_arith)
        requires
            k >= 0,
            size > 0,
    ;
    vstd::arithmetic::div_mod::lemma_mod_multiples_basic(k, size);
}

/// The block of a pixel holds that pixel and lies in the area, and every pixel
/// it holds belongs to it.
proof fn lemma_block_of(area: Block, size: int, row: int, column: int)
    requires
        size > 0,
        area.holds(row, column),
    ensures
        ({
            let block = block_of(area, size, row, column);
            &&& block.holds(row, column)
            &&& area.top <= block.top < block.bottom <= area.bottom
            &&& area.left <= block.left < block.right <= area.right
            &&& forall|r: int, c: int| #[trigger]
                block.holds(r, c) ==> area.holds(r, c) && block_of(area, size, r, c) == block
        }),
{
    let block = block_of(area, size, row, column);
    lemma_step_start(area.top as int, size, row);
    lemma_step_start(area.left as int, size, column);
    assert forall|r: int, c: int| #[trigger] block.holds(r, c) implies area.holds(r, c)
        && block_of(area, size, r, c) == block by {
        lemma_step(area.top as int, size, block.top as int, r);
        lemma_step(area.left as int, size, block.left as int, c);
    }
}

proof fn lemma_row_sum_constant(
    data: Seq<u8>,
    width: int,
    channel: int,
    row: int,
    left: int,
    right: int,
    value: int,
)
    requires
        left <= right,
        forall|column: int|
            left <= column < right ==> #[trigger] sample(data, width, row, column, channel)
                == value,
    ensures
        row_sum(data, width, channel, row, left, right) == value * (right - left),
    decreases right - left,
{
    if left < right {
        lemma_row_sum_constant(data, width, channel, row, left, right - 1, value);
        assert(sample(data, width, row, right - 1, channel) == value);
        assert(value * (right - left) == value * (right - 1 - left) + value) by (nonlinear_arith);
    } else {
        assert(value * (right - left) == 0) by (nonlinear_arith)
            requires
                right == left,
        ;
    }
}

proof fn lemma_rows_sum_constant(
    data: Seq<u8>,
    width: int,
    channel: int,
    top: int,
    bottom: int,
    left: int,
    right: int,
    value: int,
)
    requires
        top <= bottom,
        left <= right,
        forall|row: int, column: int|
            top <= row < bottom && left <= column < right ==> #[trigger] sample(
                data,
                width,
                row,
                column,
                channel,
            ) == value,
    ensures
        rows_sum(data, width, channel, top, bottom, left, right) == value * ((bottom - top) * (right
            - left)),
    decreases bottom - top,
{
    let w = right - left;
    if top < bottom {
        lemma_rows_sum_constant(data, width, channel, top, bottom - 1, left, right, value);
        lemma_row_sum_constant(data, width, channel, bottom - 1, left, right, value);
        assert(value * ((bottom - top) * w) == value * ((bottom - 1 - top) * w) + value * w)
            by (nonlinear_arith);
    } else {
        assert(value * ((bottom - top) * w) == 0) by (nonlinear_arith)
            requires
                bottom == top,
        ;
    }
}

/// Pixels outside the area keep their bytes.
pub proof fn law_pixels_outside_are_left_alone(
    data: Seq<u8>,
    width: int,
    height: int,
    area: Block,
    size: int,
    row: int,
    column: int,
    channel: int,
)
    requires
        0 < width,
        data.len() == width * height * 4,
        0 <= row < height,
        0 <= column < width,
        0 <= channel < 4,
        !area.holds(row, column),
    ensures
        sample(averaged(data, width, area, size), width, row, column, channel) == sample(
            data,
            width,
            row,
            column,
            channel,
        ),
{
    lemma_sample_of_averaged(data, width, height, area, size, row, column, channel);
}

/// The pixels of one block all come out the same.
pub proof fn law_a_block_comes_out_flat(
    data: Seq<u8>,
    width: int,
    height: int,
    area: Block,
    size: int,
    a: (int, int),
    b: (int, int),
    channel: int,
)
    requires
        0 < width,
        data.len() == width * height * 4,
        area.fits(width, height),
        0 <= channel < 4,
        area.holds(a.0, a.1),
        area.holds(b.0, b.1),
        block_of(area, size, a.0, a.1) == block_of(area, size, b.0, b.1),
    ensures
        sample(averaged(data, width, area, size), width, a.0, a.1, channel) == sample(
            averaged(data, width, area, size),
            width,
            b.0,
            b.1,
            channel,
        ),
{
    lemma_sample_of_averaged(data, width, height, area, size, a.0, a.1, channel);
    lemma_sample_of_averaged(data, width, height, area, size, b.0, b.1, channel);
}

/// Redaction cannot be undone: the result keeps nothing of the area but the
/// averages of its blocks. Two images that agree outside the area and in those
/// averages come out as the same image.
pub proof fn law_redaction_keeps_only_averages(
    a: Seq<u8>,
    b: Seq<u8>,
    width: int,
    height: int,
    area: Block,
    size: int,
)
    requires
        0 < width,
        0 <= height,
        a.len() == width * height * 4,
        b.len() == a.len(),
        forall|row: int, column: int, channel: int|
            0 <= row < height && 0 <= column < width && 0 <= channel < 4 && !area.holds(row, column)
                ==> #[trigger] sample(a, width, row, column, channel) == sample(
                b,
                width,
                row,
                column,
                channel,
            ),
        forall|row: int, column: int, channel: int|
            area.holds(row, column) && 0 <= channel < 4 ==> #[trigger] average(
                a,
                width,
                channel,
                block_of(area, size, row, column),
            ) == average(b, width, channel, block_of(area, size, row, column)),
    ensures
        averaged(a, width, area, size) == averaged(b, width, area, size),
{
    let x = averaged(a, width, area, size);
    let y = averaged(b, width, area, size);
    assert forall|i: int| 0 <= i < a.len() implies x[i] == y[i] by {
        lemma_index_is_a_pixel(width, height, i);
        let (row, column, channel) = (i / 4 / width, i / 4 % width, i % 4);
        if area.holds(row, column) {
            assert(average(a, width, channel, block_of(area, size, row, column)) == average(
                b,
                width,
                channel,
                block_of(area, size, row, column),
            ));
        } else {
            assert(sample(a, width, row, column, channel) == sample(
                b,
                width,
                row,
                column,
                channel,
            ));
        }
    }
    assert(x =~= y);
}

/// Redacting what has been redacted already changes nothing.
pub proof fn law_redacting_twice_is_redacting_once(
    data: Seq<u8>,
    width: int,
    height: int,
    area: Block,
    size: int,
)
    requires
        0 < width,
        0 <= height,
        data.len() == width * height * 4,
        area.right <= width,
        area.bottom <= height,
        size > 0,
    ensures
        averaged(averaged(data, width, area, size), width, area, size) == averaged(
            data,
            width,
            area,
            size,
        ),
{
    let once = averaged(data, width, area, size);
    assert forall|row: int, column: int, channel: int|
        0 <= row < height && 0 <= column < width && 0 <= channel < 4 implies #[trigger] sample(
        once,
        width,
        row,
        column,
        channel,
    ) == sample_after(once, width, area, size, row, column, channel) by {
        if area.holds(row, column) {
            let block = block_of(area, size, row, column);
            lemma_block_of(area, size, row, column);
            lemma_average_is_a_byte(data, width, channel, block);
            let value = average(data, width, channel, block);
            assert forall|r: int, c: int|
                block.top <= r < block.bottom && block.left <= c < block.right implies #[trigger]
            sample(once, width, r, c, channel) == value by {
                assert(block.holds(r, c));
                lemma_sample_of_averaged(data, width, height, area, size, r, c, channel);
            }
            lemma_rows_sum_constant(
                once,
                width,
                channel,
                block.top as int,
                block.bottom as int,
                block.left as int,
                block.right as int,
                value,
            );
            let n = block.count();
            assert(value * n / n == value) by {
                vstd::arithmetic::div_mod::lemma_div_by_multiple(value, n);
            }
            assert(sample(once, width, row, column, channel) == value);
        }
    }
    lemma_averaged(once, once, width, height, area, size);
}

/// A sum counts every pixel of its rows and columns once, and no other: changing
/// one byte changes the sum by as much if its pixel is among them, and not at all
/// otherwise.
pub proof fn law_a_sum_counts_every_pixel_once(
    data: Seq<u8>,
    width: int,
    height: int,
    pixel: (int, int),
    channel: int,
    value: u8,
    rows: (int, int),
    columns: (int, int),
)
    requires
        0 < width,
        data.len() == width * height * 4,
        0 <= pixel.0 < height,
        0 <= pixel.1 < width,
        0 <= channel < 4,
        0 <= rows.0 <= rows.1 <= height,
        0 <= columns.0 <= columns.1 <= width,
    ensures
        ({
            let i = (pixel.0 * width + pixel.1) * 4 + channel;
            let change = rows_sum(
                data.update(i, value),
                width,
                channel,
                rows.0,
                rows.1,
                columns.0,
                columns.1,
            ) - rows_sum(data, width, channel, rows.0, rows.1, columns.0, columns.1);
            if rows.0 <= pixel.0 < rows.1 && columns.0 <= pixel.1 < columns.1 {
                change == value - data[i]
            } else {
                change == 0
            }
        }),
        (forall|i: int| 0 <= i < data.len() ==> #[trigger] data[i] == 0) ==> rows_sum(
            data,
            width,
            channel,
            rows.0,
            rows.1,
            columns.0,
            columns.1,
        ) == 0,
    decreases rows.1 - rows.0,
{
    let i = (pixel.0 * width + pixel.1) * 4 + channel;
    lemma_pixel_in_data(width, height, pixel.0, pixel.1);
    if rows.0 < rows.1 {
        law_a_sum_counts_every_pixel_once(
            data,
            width,
            height,
            pixel,
            channel,
            value,
            (rows.0, rows.1 - 1),
            columns,
        );
        lemma_a_row_counts_every_pixel_once(
            data,
            width,
            height,
            pixel,
            channel,
            value,
            rows.1 - 1,
            columns,
        );
    }
}

proof fn lemma_a_row_counts_every_pixel_once(
    data: Seq<u8>,
    width: int,
    height: int,
    pixel: (int, int),
    channel: int,
    value: u8,
    row: int,
    columns: (int, int),
)
    requires
        0 < width,
        data.len() == width * height * 4,
        0 <= pixel.0 < height,
        0 <= pixel.1 < width,
        0 <= channel < 4,
        0 <= row < height,
        0 <= columns.0 <= columns.1 <= width,
    ensures
        ({
            let i = (pixel.0 * width + pixel.1) * 4 + channel;
            let change = row_sum(
                data.update(i, value),
                width,
                channel,
                row,
                columns.0,
                columns.1,
            ) - row_sum(data, width, channel, row, columns.0, columns.1);
            if row == pixel.0 && columns.0 <= pixel.1 < columns.1 {
                change == value - data[i]
            } else {
                change == 0
            }
        }),
        (forall|i: int| 0 <= i < data.len() ==> #[trigger] data[i] == 0) ==> row_sum(
            data,
            width,
            channel,
            row,
            columns.0,
            columns.1,
        ) == 0,
    decreases columns.1 - columns.0,
{
    let i = (pixel.0 * width + pixel.1) * 4 + channel;
    lemma_pixel_in_data(width, height, pixel.0, pixel.1);
    if columns.0 < columns.1 {
        let last = columns.1 - 1;
        lemma_a_row_counts_every_pixel_once(
            data,
            width,
            height,
            pixel,
            channel,
            value,
            row,
            (columns.0, last),
        );
        lemma_pixel_in_data(width, height, row, last);
        lemma_index_parts(width, row, last, channel);
        lemma_index_parts(width, pixel.0, pixel.1, channel);
        let k = (row * width + last) * 4 + channel;
        assert(k == i ==> row == pixel.0 && last == pixel.1);
        assert(sample(data.update(i, value), width, row, last, channel) == if k == i {
            value
        } else {
            data[k]
        });
    }
}

/// The first whole pixel, or the end of the last, along one axis.
proof fn lemma_pixel_bound(value: int, limit: int, pixel: int)
    requires
        0 <= pixel <= limit,
        pixel < limit ==> value < pixel * 30720 + 15360,
        pixel > 0 ==> value >= (pixel - 1) * 30720 + 15360,
    ensures
        clamped(geom::rounded(value), limit) == pixel,
{
    geom::law_rounding_goes_to_the_nearest_pixel(value);
    geom::law_rounding_goes_to_the_nearest_pixel(-value);
}

/// Redacting an area averages exactly the pixels whose centres lie in it, in square
/// blocks laid out from the first of them, and leaves every other byte as it was.
///
/// `rows` and `columns` are the pixels whose centres lie in the area: from the
/// first one past its near edge up to the last one not past its far edge. `side`
/// is the side of a block in whole pixels, two at least.
pub proof fn law_redacting_averages_exactly_the_area(
    image: (u32, u32, Seq<u8>),
    x: int,
    y: int,
    width: int,
    height: int,
    block: int,
    rows: (int, int),
    columns: (int, int),
    side: int,
    pixel: (int, int),
    channel: int,
)
    requires
        0 < image.0,
        image.2.len() == image.0 * image.1 * 4,
        0 <= rows.0 <= rows.1 <= image.1,
        rows.0 < image.1 ==> y < rows.0 * 30720 + 15360,
        rows.0 > 0 ==> y >= (rows.0 - 1) * 30720 + 15360,
        rows.1 < image.1 ==> y + height < rows.1 * 30720 + 15360,
        rows.1 > 0 ==> y + height >= (rows.1 - 1) * 30720 + 15360,
        0 <= columns.0 <= columns.1 <= image.0,
        columns.0 < image.0 ==> x < columns.0 * 30720 + 15360,
        columns.0 > 0 ==> x >= (columns.0 - 1) * 30720 + 15360,
        columns.1 < image.0 ==> x + width < columns.1 * 30720 + 15360,
        columns.1 > 0 ==> x + width >= (columns.1 - 1) * 30720 + 15360,
        side >= 2,
        block < side * 30720 + 15360,
        side > 2 ==> block >= side * 30720 - 15360,
        0 <= pixel.0 < image.1,
        0 <= pixel.1 < image.0,
        0 <= channel < 4,
    ensures
        ({
            let after = pixelated(image, x, y, width, height, block);
            let i = (pixel.0 * image.0 + pixel.1) * 4 + channel;
            &&& after.0 == image.0
            &&& after.1 == image.1
            &&& after.2.len() == image.2.len()
            &&& if rows.0 <= pixel.0 < rows.1 && columns.0 <= pixel.1 < columns.1 {
                let top = rows.0 + (pixel.0 - rows.0) / side * side;
                let left = columns.0 + (pixel.1 - columns.0) / side * side;
                let bottom = if top + side < rows.1 {
                    top + side
                } else {
                    rows.1
                };
                let right = if left + side < columns.1 {
                    left + side
                } else {
                    columns.1
                };
                &&& rows.0 <= top <= pixel.0 < bottom <= rows.1
                &&& columns.0 <= left <= pixel.1 < right <= columns.1
                &&& after.2[i] == rows_sum(
                    image.2,
                    image.0 as int,
                    channel,
                    top,
                    bottom,
                    left,
                    right,
                ) / ((bottom - top) * (right - left))
            } else {
                after.2[i] == image.2[i]
            }
        }),
{
    let area = pixel_area(image, x, y, width, height);
    lemma_pixel_bound(y, image.1 as int, rows.0);
    lemma_pixel_bound(y + height, image.1 as int, rows.1);
    lemma_pixel_bound(x, image.0 as int, columns.0);
    lemma_pixel_bound(x + width, image.0 as int, columns.1);
    geom::law_rounding_goes_to_the_nearest_pixel(block);
    geom::law_rounding_goes_to_the_nearest_pixel(-block);
    assert(geom::greater(geom::rounded(block), 2) == side);
    lemma_sample_of_averaged(
        image.2,
        image.0 as int,
        image.1 as int,
        area,
        side,
        pixel.0,
        pixel.1,
        channel,
    );
    lemma_pixel_in_data(image.0 as int, image.1 as int, pixel.0, pixel.1);
    assert(area.top == rows.0 && area.bottom == rows.1);
    assert(area.left == columns.0 && area.right == columns.1);
    let i = (pixel.0 * image.0 + pixel.1) * 4 + channel;
    let after = pixelated(image, x, y, width, height, block);
    assert(after.2[i] == sample(after.2, image.0 as int, pixel.0, pixel.1, channel));
    assert(image.2[i] == sample(image.2, image.0 as int, pixel.0, pixel.1, channel));
    if area.holds(pixel.0, pixel.1) {
        let part = block_of(area, side, pixel.0, pixel.1);
        lemma_block_of(area, side, pixel.0, pixel.1);
        lemma_average_is_a_byte(image.2, image.0 as int, channel, part);
        let top = rows.0 + (pixel.0 - rows.0) / side * side;
        let left = columns.0 + (pixel.1 - columns.0) / side * side;
        lemma_step_start(rows.0, side, pixel.0);
        lemma_step_start(columns.0, side, pixel.1);
        assert(top == step_start(rows.0, side, pixel.0));
        assert(left == step_start(columns.0, side, pixel.1));
        assert(part.top == top && part.left == left);
    }
}

} // verus!
