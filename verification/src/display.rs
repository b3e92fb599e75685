//! The display as a grid of pixels: its shape, a blank grid, and the colours
//! that a grid shows in.

use vstd::prelude::*;
use crate::machine::{blank_screen, screen_shaped, DISPLAY_HEIGHT, DISPLAY_WIDTH};

verus! {

/// A pixel grid as a sequence of rows.
pub open spec fn grid(rows: &Vec<Vec<bool>>) -> Seq<Seq<bool>> {
    Seq::new(rows@.len(), |y: int| rows@[y]@)
}

/// Whether `rows` has the dimensions of the display.
pub open spec fn rows_shaped(rows: &Vec<Vec<bool>>) -> bool {
    &&& rows@.len() == DISPLAY_HEIGHT
    &&& forall|y: int| 0 <= y < DISPLAY_HEIGHT ==> (#[trigger] rows@[y])@.len() == DISPLAY_WIDTH
}

/// The two ways of stating the display's dimensions agree.
pub proof fn lemma_rows_shaped(rows: &Vec<Vec<bool>>)
    ensures
        rows_shaped(rows) <==> screen_shaped(grid(rows)),
{
    if screen_shaped(grid(rows)) {
        assert forall|y: int| 0 <= y < DISPLAY_HEIGHT implies (#[trigger] rows@[y])@.len()
            == DISPLAY_WIDTH by {
            assert(grid(rows)[y].len() == DISPLAY_WIDTH);
        }
    }
}

/// A display-sized grid with every pixel off.
pub fn blank_framebuffer() -> (rows: Vec<Vec<bool>>)
    ensures
        grid(&rows) == blank_screen(),
{
    let mut rows: Vec<Vec<bool>> = Vec::new();
    let mut y: usize = 0;
    while y < DISPLAY_HEIGHT
        invariant
            y <= DISPLAY_HEIGHT,
            rows@.len() == y,
            forall|r: int| 0 <= r < y ==> (#[trigger] rows@[r])@ == blank_screen()[r],
        decreases DISPLAY_HEIGHT - y,
    {
        let mut row: Vec<bool> = Vec::new();
        let mut x: usize = 0;
        while x < DISPLAY_WIDTH
            invariant
                x <= DISPLAY_WIDTH,
                row@.len() == x,
                forall|c: int| 0 <= c < x ==> !(#[trigger] row@[c]),
            decreases DISPLAY_WIDTH - x,
        {
            row.push(false);
            x += 1;
        }
        rows.push(row);
        y += 1;
    }
    rows
}

/// The colour of a pixel.
pub open spec fn pixel_color(lit: bool, on_color: u32, off_color: u32) -> u32 {
    if lit {
        on_color
    } else {
        off_color
    }
}

/// The colours of the pixels of all rows, row after row.
pub open spec fn rendered(pixels: Seq<Seq<bool>>, on_color: u32, off_color: u32) -> Seq<u32>
    decreases pixels.len(),
{
    if pixels.len() == 0 {
        Seq::empty()
    } else {
        rendered(pixels.drop_last(), on_color, off_color) + pixels.last().map_values(
            |lit: bool| pixel_color(lit, on_color, off_color),
        )
    }
}

/// On a grid of the display's size, the colour of the pixel in column `x`
/// of row `y` stands at position `y * DISPLAY_WIDTH + x`.
pub proof fn lemma_rendered_index(pixels: Seq<Seq<bool>>, on_color: u32, off_color: u32)
    requires
        screen_shaped(pixels),
    ensures
        rendered(pixels, on_color, off_color).len() == DISPLAY_WIDTH * DISPLAY_HEIGHT,
        forall|x: int, y: int|
            0 <= x < DISPLAY_WIDTH && 0 <= y < DISPLAY_HEIGHT ==> #[trigger] rendered(
                pixels,
                on_color,
                off_color,
            )[y * DISPLAY_WIDTH + x] == pixel_color(pixels[y][x], on_color, off_color),
{
    lemma_rendered_rows(pixels, on_color, off_color, DISPLAY_HEIGHT as int);
    assert(pixels.take(DISPLAY_HEIGHT as int) =~= pixels);
}

/// The same, for the first `count` rows of a grid whose rows have the
/// display's width.
proof fn lemma_rendered_rows(pixels: Seq<Seq<bool>>, on_color: u32, off_color: u32, count: int)
    requires
        0 <= count <= pixels.len(),
        forall|y: int| 0 <= y < pixels.len() ==> (#[trigger] pixels[y]).len() == DISPLAY_WIDTH,
    ensures
        rendered(pixels.take(count), on_color, off_color).len() == DISPLAY_WIDTH * count,
        forall|x: int, y: int|
            0 <= x < DISPLAY_WIDTH && 0 <= y < count ==> #[trigger] rendered(
                pixels.take(count),
                on_color,
                off_color,
            )[y * DISPLAY_WIDTH + x] == pixel_color(pixels[y][x], on_color, off_color),
    decreases count,
{
    if count > 0 {
        lemma_rendered_rows(pixels, on_color, off_color, count - 1);
        assert(pixels.take(count).drop_last() =~= pixels.take(count - 1));
    }
}

/// The colours of all pixels of `frame_buffer`, row after row: `on_color`
/// for a lit pixel and `off_color` for a dark one.
pub fn render(frame_buffer: &Vec<Vec<bool>>, on_color: u32, off_color: u32) -> (buffer: Vec<u32>)
    ensures
        buffer@ == rendered(grid(frame_buffer), on_color, off_color),
{
    let mut buffer: Vec<u32> = Vec::new();
    let ghost pixels = grid(frame_buffer);
    let mut y: usize = 0;
    while y < frame_buffer.len()
        invariant
            y <= frame_buffer@.len(),
            pixels == grid(frame_buffer),
            buffer@ == rendered(pixels.take(y as int), on_color, off_color),
        decreases frame_buffer@.len() - y,
    {
        let ghost done = buffer@;
        let ghost row = pixels[y as int].map_values(
            |lit: bool| pixel_color(lit, on_color, off_color),
        );
        let mut x: usize = 0;
        while x < frame_buffer[y].len()
            invariant
                y < frame_buffer@.len(),
                x <= frame_buffer@[y as int]@.len(),
                pixels == grid(frame_buffer),
                row == pixels[y as int].map_values(
                    |lit: bool| pixel_color(lit, on_color, off_color),
                ),
                buffer@ == done + row.take(x as int),
            decreases frame_buffer@[y as int]@.len() - x,
        {
            if frame_buffer[y][x] {
                buffer.push(on_color);
            } else {
                buffer.push(off_color);
            }
            x += 1;
        }
        assert(pixels.take(y + 1).drop_last() =~= pixels.take(y as int));
        y += 1;
    }
    assert(pixels.take(y as int) =~= pixels);
    buffer
}

/// The red, green and blue parts of a colour, as a window background takes
/// them: the three low bytes, most significant first.
pub fn color_channels(color: u32) -> (channels: (u8, u8, u8))
    ensures
        channels.0 == color / 0x10000 % 0x100,
        channels.1 == color / 0x100 % 0x100,
        channels.2 == color % 0x100,
{
    assert((color >> 16) & 0xFF == color / 0x10000 % 0x100 && (color >> 8) & 0xFF == color / 0x100
        % 0x100 && color & 0xFF == color % 0x100) by (bit_vector);
    (((color >> 16) & 0xFF) as u8, ((color >> 8) & 0xFF) as u8, (color & 0xFF) as u8)
}

} // verus!
