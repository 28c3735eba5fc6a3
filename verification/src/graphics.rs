//! Pixel graphics for the instrument's window: sprite blitting, filled
//! and bordered rectangles, bitmap glyphs, and the line primitive of the
//! waveform display.
//!
//! A buffer is a row-major vector of packed ARGB pixels with a fixed row
//! stride.  The blitter's contract pins every pixel of the result: a
//! covered position takes the sprite's pixel when its alpha is set, and
//! every other position keeps its old value.

use vstd::prelude::*;

verus! {

/// Width of the instrument window, in pixels.
pub const WINDOW_WIDTH: usize = 575;

/// Height of the instrument window, in pixels.
pub const WINDOW_HEIGHT: usize = 496;

/// Sprite index of an idle white key.
pub const KEY_IDLE: usize = 0;

/// Sprite index of a pressed white key.
pub const KEY_PRESSED: usize = 1;

/// Sprite index of an idle tangent.
pub const TANGENT_IDLE: usize = 0;

/// Sprite index of a pressed tangent.
pub const TANGENT_PRESSED: usize = 1;

/// One bitmap: its size and its packed ARGB pixels, row-major.
#[derive(Debug, Clone)]
pub struct Sprite {
    pub width: u32,
    pub height: u32,
    pub data: Vec<u32>,
}

impl Sprite {
    /// The pixel data covers exactly the sprite's area, and the sprite
    /// fits comfortably within any window.
    pub open spec fn wf(&self) -> bool {
        &&& self.data@.len() == self.width * self.height
        &&& self.width <= 4096
        &&& self.height <= 4096
    }

    /// A sprite over the given pixels.
    pub fn new(width: u32, height: u32, data: Vec<u32>) -> (r: Sprite)
        requires
            data@.len() == width * height,
            width <= 4096,
            height <= 4096,
        ensures
            r.wf(),
            r.width == width,
            r.height == height,
            r.data == data,
    {
        Sprite { width, height, data }
    }
}

/// The sprite sheets of the instrument's face.
#[derive(Debug, Clone)]
pub struct Sprites {
    pub rack: Vec<Sprite>,
    pub keys: Vec<Sprite>,
    pub tangents: Vec<Sprite>,
    pub notes: Vec<Sprite>,
    pub octave_fader: Vec<Sprite>,
    pub knob: Vec<Sprite>,
    pub numbers: Vec<Sprite>,
}

impl Sprites {
    /// Every sheet holds sound sprites, and each sheet that is indexed
    /// by a fixed layout has at least the entries the layout uses.
    pub open spec fn wf(&self) -> bool {
        &&& forall|i: int| 0 <= i < self.rack@.len() ==> (#[trigger] self.rack@[i]).wf()
        &&& forall|i: int| 0 <= i < self.keys@.len() ==> (#[trigger] self.keys@[i]).wf()
        &&& forall|i: int| 0 <= i < self.tangents@.len() ==> (#[trigger] self.tangents@[i]).wf()
        &&& forall|i: int| 0 <= i < self.notes@.len() ==> (#[trigger] self.notes@[i]).wf()
        &&& forall|i: int|
            0 <= i < self.octave_fader@.len() ==> (#[trigger] self.octave_fader@[i]).wf()
        &&& forall|i: int| 0 <= i < self.knob@.len() ==> (#[trigger] self.knob@[i]).wf()
        &&& forall|i: int| 0 <= i < self.numbers@.len() ==> (#[trigger] self.numbers@[i]).wf()
        &&& self.rack@.len() >= 2
        &&& self.keys@.len() >= 2
        &&& self.tangents@.len() >= 2
        &&& self.notes@.len() >= 12
        &&& self.octave_fader@.len() >= 9
        &&& self.knob@.len() >= 1
        &&& self.numbers@.len() >= 10
    }
}

/// The pixel a blit leaves at buffer index `i`: the sprite's pixel where
/// the sprite covers the index and that pixel's alpha is set, the old
/// pixel everywhere else.  The sprite covers index `i` when the index's
/// column lies within the sprite's width right of `x` and its row within
/// the sprite's height below `y`.
pub open spec fn spec_blit_pixel(
    old_buf: Seq<u32>,
    x: int,
    y: int,
    sprite: Sprite,
    stride: int,
    i: int,
) -> u32 {
    let px = i % stride;
    let py = i / stride;
    if x <= px < x + sprite.width && y <= py < y + sprite.height && (py - y) * sprite.width + (px
        - x) < sprite.data@.len() && (sprite.data@[(py - y) * sprite.width + (px - x)]
        & 0xFF00_0000u32) != 0 {
        sprite.data@[(py - y) * sprite.width + (px - x)]
    } else {
        old_buf[i]
    }
}

/// The whole buffer a blit leaves behind.
pub open spec fn spec_blit(old_buf: Seq<u32>, x: int, y: int, sprite: Sprite, stride: int) -> Seq<
    u32,
> {
    Seq::new(old_buf.len(), |i: int| spec_blit_pixel(old_buf, x, y, sprite, stride, i))
}

/// Draws a sprite at `(x, y)`: every covered position whose sprite pixel
/// is not transparent takes that pixel; every other position keeps its
/// value.  Positions outside the window or past the row's end are left
/// alone.
#[verifier::rlimit(60)]
pub fn draw_sprite(x: usize, y: usize, sprite: &Sprite, buffer: &mut Vec<u32>, stride: usize)
    requires
        sprite.wf(),
        1 <= stride <= 4096,
        x <= 0x10000,
        y <= 0x10000,
        old(buffer)@.len() <= stride * 0x20000,
    ensures
        final(buffer)@ == spec_blit(old(buffer)@, x as int, y as int, *sprite, stride as int),
{
    let ghost orig = old(buffer)@;
    let h = sprite.height as usize;
    let w = sprite.width as usize;
    let mut dy: usize = 0;
    while dy < h
        invariant
            sprite.wf(),
            1 <= stride <= 4096,
            x <= 0x10000,
            y <= 0x10000,
            w == sprite.width,
            h == sprite.height,
            dy <= h,
            buffer@.len() == orig.len(),
            orig.len() <= stride * 0x20000,
            forall|i: int|
                0 <= i < orig.len() ==> #[trigger] buffer@[i] == spec_partial_blit_pixel(
                    orig,
                    x as int,
                    y as int,
                    *sprite,
                    stride as int,
                    i,
                    dy as int,
                    0,
                ),
        decreases h - dy,
    {
        let mut dx: usize = 0;
        while dx < w
            invariant
                sprite.wf(),
                1 <= stride <= 4096,
                x <= 0x10000,
                y <= 0x10000,
                w == sprite.width,
                h == sprite.height,
                dy < h,
                dx <= w,
                buffer@.len() == orig.len(),
                orig.len() <= stride * 0x20000,
                forall|i: int|
                    0 <= i < orig.len() ==> #[trigger] buffer@[i] == spec_partial_blit_pixel(
                        orig,
                        x as int,
                        y as int,
                        *sprite,
                        stride as int,
                        i,
                        dy as int,
                        dx as int,
                    ),
            decreases w - dx,
        {
            proof {
                assert(dy * w <= 4096 * 4096) by (nonlinear_arith)
                    requires
                        0 <= dy < 4096,
                        w <= 4096,
                ;
                assert((y + dy) * stride <= (0x10000 + 4096) * 4096) by (nonlinear_arith)
                    requires
                        0 <= y <= 0x10000,
                        0 <= dy < 4096,
                        stride <= 4096,
                ;
            }
            let src_idx = dy * w + dx;
            proof {
                assert(dy * w + dx < sprite.data@.len()) by (nonlinear_arith)
                    requires
                        dy < h,
                        dx < w,
                        sprite.data@.len() == w * h,
                ;
            }
            let dst_x = x + dx;
            let dst_y = y + dy;
            let ghost pre = buffer@;
            if dst_x < stride {
                let dst_idx = dst_y * stride + dst_x;
                if dst_idx < buffer.len() {
                    let pixel = sprite.data[src_idx];
                    if (pixel & 0xFF00_0000u32) != 0 {
                        buffer[dst_idx] = pixel;
                    }
                }
            }
            proof {
                let xi = x as int;
                let yi = y as int;
                let st = stride as int;
                let di = (yi + dy) * st + (xi + dx);
                if xi + dx < st {
                    assert(di % st == xi + dx && di / st == yi + dy) by (nonlinear_arith)
                        requires
                            di == (yi + dy) * st + (xi + dx),
                            0 <= xi + dx < st,
                            st >= 1,
                            yi + dy >= 0,
                    ;
                }
                assert forall|i: int|
                    0 <= i < orig.len() implies #[trigger] buffer@[i] == spec_partial_blit_pixel(
                    orig,
                    xi,
                    yi,
                    *sprite,
                    st,
                    i,
                    dy as int,
                    dx + 1,
                ) by {
                    if xi + dx < st && di == i {
                        assert(i % st == xi + dx && i / st == yi + dy);
                    } else {
                        assert(buffer@[i] == pre[i]);
                        if !(xi + dx < st) {
                            assert(i % st < st) by (nonlinear_arith)
                                requires
                                    st >= 1,
                                    i >= 0,
                            ;
                        } else {
                            if i % st == xi + dx && i / st == yi + dy {
                                assert(i == (i / st) * st + (i % st)) by (nonlinear_arith)
                                    requires
                                        st >= 1,
                                        i >= 0,
                                ;
                            }
                        }
                    }
                }
            }
            dx = dx + 1;
        }
        proof {
            assert forall|i: int|
                0 <= i < orig.len() implies spec_partial_blit_pixel(
                orig,
                x as int,
                y as int,
                *sprite,
                stride as int,
                i,
                dy as int,
                w as int,
            ) == spec_partial_blit_pixel(
                orig,
                x as int,
                y as int,
                *sprite,
                stride as int,
                i,
                dy + 1,
                0,
            ) by {}
        }
        dy = dy + 1;
    }
    proof {
        assert(final(buffer)@ =~= spec_blit(orig, x as int, y as int, *sprite, stride as int));
    }
}

/// The pixel mid-blit, with the rows above `dy` done and `dx` columns of
/// row `dy` done.
pub open spec fn spec_partial_blit_pixel(
    old_buf: Seq<u32>,
    x: int,
    y: int,
    sprite: Sprite,
    stride: int,
    i: int,
    dy: int,
    dx: int,
) -> u32 {
    let px = i % stride;
    let py = i / stride;
    let ry = py - y;
    let rx = px - x;
    if 0 <= rx < sprite.width && 0 <= ry < sprite.height && (ry < dy || (ry == dy && rx < dx))
        && ry * sprite.width + rx < sprite.data@.len() && (sprite.data@[ry * sprite.width + rx]
        & 0xFF00_0000u32) != 0 {
        sprite.data@[ry * sprite.width + rx]
    } else {
        old_buf[i]
    }
}

/// The pixel a rectangle fill leaves at index `i`: the fill colour where
/// the rectangle covers the index, the old pixel everywhere else.
pub open spec fn spec_fill_pixel(
    old_buf: Seq<u32>,
    x: int,
    y: int,
    w: int,
    h: int,
    stride: int,
    color: u32,
    i: int,
) -> u32 {
    let px = i % stride;
    let py = i / stride;
    if x <= px < x + w && y <= py < y + h {
        color
    } else {
        old_buf[i]
    }
}

/// The whole buffer a rectangle fill leaves behind.
pub open spec fn spec_fill(
    old_buf: Seq<u32>,
    x: int,
    y: int,
    w: int,
    h: int,
    stride: int,
    color: u32,
) -> Seq<u32> {
    Seq::new(old_buf.len(), |i: int| spec_fill_pixel(old_buf, x, y, w, h, stride, color, i))
}

/// Fills a `w` by `h` rectangle at `(x, y)` with one colour, leaving
/// every position outside it alone.
#[verifier::rlimit(60)]
pub fn fill_rect(x: usize, y: usize, w: usize, h: usize, color: u32, buffer: &mut Vec<u32>)
    requires
        x + w <= WINDOW_WIDTH,
        y <= 0x10000,
        h <= 0x10000,
        old(buffer)@.len() <= WINDOW_WIDTH * 0x20000,
    ensures
        final(buffer)@ == spec_fill(
            old(buffer)@,
            x as int,
            y as int,
            w as int,
            h as int,
            WINDOW_WIDTH as int,
            color,
        ),
{
    let ghost orig = old(buffer)@;
    let mut dy: usize = 0;
    while dy < h
        invariant
            x + w <= WINDOW_WIDTH,
            y <= 0x10000,
            h <= 0x10000,
            dy <= h,
            buffer@.len() == orig.len(),
            orig.len() <= WINDOW_WIDTH * 0x20000,
            forall|i: int|
                0 <= i < orig.len() ==> #[trigger] buffer@[i] == spec_fill_pixel(
                    orig,
                    x as int,
                    y as int,
                    w as int,
                    dy as int,
                    WINDOW_WIDTH as int,
                    color,
                    i,
                ),
        decreases h - dy,
    {
        let mut dx: usize = 0;
        while dx < w
            invariant
                x + w <= WINDOW_WIDTH,
                y <= 0x10000,
                h <= 0x10000,
                dy < h,
                dx <= w,
                buffer@.len() == orig.len(),
                orig.len() <= WINDOW_WIDTH * 0x20000,
                forall|i: int|
                    0 <= i < orig.len() ==> #[trigger] buffer@[i] == spec_row_fill_pixel(
                        orig,
                        x as int,
                        y as int,
                        w as int,
                        dy as int,
                        dx as int,
                        WINDOW_WIDTH as int,
                        color,
                        i,
                    ),
            decreases w - dx,
        {
            let pixel_x = x + dx;
            let pixel_y = y + dy;
            proof {
                assert((y + dy) * WINDOW_WIDTH <= (0x10000 + 0x10000) * WINDOW_WIDTH)
                    by (nonlinear_arith)
                    requires
                        0 <= y <= 0x10000,
                        0 <= dy < 0x10000,
                ;
            }
            let index = pixel_y * WINDOW_WIDTH + pixel_x;
            let ghost pre = buffer@;
            if index < buffer.len() {
                buffer[index] = color;
            }
            proof {
                let st = WINDOW_WIDTH as int;
                let di = (y + dy) * st + (x + dx);
                assert(di % st == x + dx && di / st == y + dy) by (nonlinear_arith)
                    requires
                        di == (y as int + dy) * st + (x + dx),
                        0 <= x + dx < st,
                        st >= 1,
                        y + dy >= 0,
                ;
                assert forall|i: int|
                    0 <= i < orig.len() implies #[trigger] buffer@[i] == spec_row_fill_pixel(
                    orig,
                    x as int,
                    y as int,
                    w as int,
                    dy as int,
                    dx + 1,
                    st,
                    color,
                    i,
                ) by {
                    if i == di {
                    } else {
                        assert(buffer@[i] == pre[i]);
                        if i % st == x + dx && i / st == y + dy {
                            assert(i == (i / st) * st + (i % st)) by (nonlinear_arith)
                                requires
                                    st >= 1,
                                    i >= 0,
                            ;
                        }
                    }
                }
            }
            dx = dx + 1;
        }
        proof {
            assert forall|i: int|
                0 <= i < orig.len() implies spec_row_fill_pixel(
                orig,
                x as int,
                y as int,
                w as int,
                dy as int,
                w as int,
                WINDOW_WIDTH as int,
                color,
                i,
            ) == spec_fill_pixel(
                orig,
                x as int,
                y as int,
                w as int,
                dy + 1,
                WINDOW_WIDTH as int,
                color,
                i,
            ) by {}
        }
        dy = dy + 1;
    }
    proof {
        assert(final(buffer)@ =~= spec_fill(
            orig,
            x as int,
            y as int,
            w as int,
            h as int,
            WINDOW_WIDTH as int,
            color,
        ));
    }
}

/// The pixel mid-fill: rows above `dy` filled, `dx` columns of row `dy`
/// filled.
pub open spec fn spec_row_fill_pixel(
    old_buf: Seq<u32>,
    x: int,
    y: int,
    w: int,
    dy: int,
    dx: int,
    stride: int,
    color: u32,
    i: int,
) -> u32 {
    let px = i % stride;
    let py = i / stride;
    if x <= px < x + w && y <= py && (py - y < dy || (py - y == dy && px - x < dx)) {
        color
    } else {
        old_buf[i]
    }
}

/// Draws the rack background sprite at the window origin.
pub fn draw_rack_sprite(sprites: &Sprites, buffer: &mut Vec<u32>, rack_index: usize)
    requires
        sprites.wf(),
        rack_index < sprites.rack@.len(),
        old(buffer)@.len() <= WINDOW_WIDTH * 0x20000,
    ensures
        final(buffer)@ == spec_blit(
            old(buffer)@,
            0,
            0,
            sprites.rack@[rack_index as int],
            WINDOW_WIDTH as int,
        ),
{
    draw_sprite(0, 0, &sprites.rack[rack_index], buffer, WINDOW_WIDTH);
}

/// Draws one waveform display sprite at the display position.
pub fn draw_display_sprite(sprite: &Vec<Sprite>, buffer: &mut Vec<u32>, display_index: usize)
    requires
        display_index < sprite@.len(),
        forall|i: int| 0 <= i < sprite@.len() ==> (#[trigger] sprite@[i]).wf(),
        sprite@.len() >= 1,
        old(buffer)@.len() <= WINDOW_WIDTH * 0x20000,
    ensures
        final(buffer)@ == spec_blit(
            old(buffer)@,
            sprite@[0].width as int,
            4 * sprite@[0].height + 17,
            sprite@[display_index as int],
            WINDOW_WIDTH as int,
        ),
{
    let x = sprite[0].width as usize;
    let y = 4 * (sprite[0].height as usize) + 17;
    draw_sprite(x, y, &sprite[display_index], buffer, WINDOW_WIDTH);
}

/// Draws a single waveform display sprite at the display position.
pub fn draw_display_sprite_single(sprite: &Sprite, buffer: &mut Vec<u32>)
    requires
        sprite.wf(),
        old(buffer)@.len() <= WINDOW_WIDTH * 0x20000,
    ensures
        final(buffer)@ == spec_blit(
            old(buffer)@,
            sprite.width as int,
            4 * sprite.height + 17,
            *sprite,
            WINDOW_WIDTH as int,
        ),
{
    let x = sprite.width as usize;
    let y = 4 * (sprite.height as usize) + 17;
    draw_sprite(x, y, sprite, buffer, WINDOW_WIDTH);
}

/// Draws the pressed key sprite at a key position on the keyboard row.
pub fn draw_pressed_key_sprite(sprites: &Sprites, window_buffer: &mut Vec<u32>, key_position: usize)
    requires
        sprites.wf(),
        key_position <= 8,
        old(window_buffer)@.len() <= WINDOW_WIDTH * 0x20000,
    ensures
        final(window_buffer)@ == spec_blit(
            old(window_buffer)@,
            key_position * sprites.keys@[KEY_PRESSED as int].width,
            2 * sprites.keys@[KEY_PRESSED as int].height,
            sprites.keys@[KEY_PRESSED as int],
            WINDOW_WIDTH as int,
        ),
{
    proof {
        assert(key_position * sprites.keys@[KEY_PRESSED as int].width <= 8 * 4096)
            by (nonlinear_arith)
            requires
                key_position <= 8,
                sprites.keys@[KEY_PRESSED as int].width <= 4096,
        ;
    }
    let x = key_position * (sprites.keys[KEY_PRESSED].width as usize);
    let y = 2 * (sprites.keys[KEY_PRESSED].height as usize);
    draw_sprite(x, y, &sprites.keys[KEY_PRESSED], window_buffer, WINDOW_WIDTH);
}

/// Draws the octave fader sprite showing the current octave.
pub fn draw_octave_fader_sprite(octave: i32, sprites: &Sprites, window_buffer: &mut Vec<u32>)
    requires
        sprites.wf(),
        0 <= octave <= 8,
        old(window_buffer)@.len() <= WINDOW_WIDTH * 0x20000,
    ensures
        final(window_buffer)@ == spec_blit(
            old(window_buffer)@,
            8 * sprites.keys@[0].width + 5,
            2 * sprites.keys@[0].height,
            sprites.octave_fader@[octave as int],
            WINDOW_WIDTH as int,
        ),
{
    let x = 8 * (sprites.keys[0].width as usize) + 5;
    let y = 2 * (sprites.keys[0].height as usize);
    draw_sprite(x, y, &sprites.octave_fader[octave as usize], window_buffer, WINDOW_WIDTH);
}

/// Draws the idle knob beside the filter cutoff knob.
pub fn draw_idle_knob_sprite(sprites: &Sprites, window_buffer: &mut Vec<u32>)
    requires
        sprites.wf(),
        5 * sprites.knob@[0].height >= 10,
        old(window_buffer)@.len() <= WINDOW_WIDTH * 0x20000,
    ensures
        final(window_buffer)@ == spec_blit(
            old(window_buffer)@,
            7 * sprites.knob@[0].width,
            5 * sprites.knob@[0].height - 10,
            sprites.knob@[0],
            WINDOW_WIDTH as int,
        ),
{
    let x = 7 * (sprites.knob[0].width as usize);
    let y = 5 * (sprites.knob[0].height as usize) - 10;
    draw_sprite(x, y, &sprites.knob[0], window_buffer, WINDOW_WIDTH);
}

/// Draws the note-name sprite in the note display.
pub fn draw_note_sprite(sprites: &Sprites, window_buffer: &mut Vec<u32>, note_sprite_index: usize)
    requires
        sprites.wf(),
        note_sprite_index < 12,
        5 * sprites.notes@[0].height >= 15,
        old(window_buffer)@.len() <= WINDOW_WIDTH * 0x20000,
    ensures
        final(window_buffer)@ == spec_blit(
            old(window_buffer)@,
            sprites.notes@[0].width as int,
            5 * sprites.notes@[0].height - 15,
            sprites.notes@[note_sprite_index as int],
            WINDOW_WIDTH as int,
        ),
{
    let x = sprites.notes[0].width as usize;
    let y = 5 * (sprites.notes[0].height as usize) - 15;
    draw_sprite(x, y, &sprites.notes[note_sprite_index], window_buffer, WINDOW_WIDTH);
}

/// Draws the seven idle white keys along the keyboard row.
pub fn draw_idle_key_sprites(sprites: &Sprites, window_buffer: &mut Vec<u32>)
    requires
        sprites.wf(),
        old(window_buffer)@.len() <= WINDOW_WIDTH * 0x20000,
    ensures
        final(window_buffer)@.len() == old(window_buffer)@.len(),
{
    let mut i: usize = 1;
    while i < 8
        invariant
            sprites.wf(),
            1 <= i <= 8,
            window_buffer@.len() == old(window_buffer)@.len(),
            window_buffer@.len() <= WINDOW_WIDTH * 0x20000,
        decreases 8 - i,
    {
        proof {
            assert(i * sprites.keys@[KEY_IDLE as int].width <= 8 * 4096) by (nonlinear_arith)
                requires
                    i <= 8,
                    sprites.keys@[KEY_IDLE as int].width <= 4096,
            ;
        }
        let x = i * (sprites.keys[KEY_IDLE].width as usize);
        let y = 2 * (sprites.keys[KEY_IDLE].height as usize);
        draw_sprite(x, y, &sprites.keys[KEY_IDLE], window_buffer, WINDOW_WIDTH);
        i = i + 1;
    }
}

/// The keyboard position of each tangent, at the boundary left of the
/// white key with the same position number.
pub open spec fn spec_tangent_positions() -> Seq<i32> {
    seq![2, 3, 5, 6, 7]
}

/// Draws the five idle tangents over the key row, each centred on its
/// key boundary.
pub fn draw_idle_tangent_sprites(sprites: &Sprites, window_buffer: &mut Vec<u32>)
    requires
        sprites.wf(),
        old(window_buffer)@.len() <= WINDOW_WIDTH * 0x20000,
    ensures
        final(window_buffer)@.len() == old(window_buffer)@.len(),
{
    let positions: [i32; 5] = [2, 3, 5, 6, 7];
    let mut k: usize = 0;
    while k < 5
        invariant
            sprites.wf(),
            k <= 5,
            positions@ == spec_tangent_positions(),
            window_buffer@.len() == old(window_buffer)@.len(),
            window_buffer@.len() <= WINDOW_WIDTH * 0x20000,
        decreases 5 - k,
    {
        let pos = positions[k] as usize;
        let key_width = sprites.keys[KEY_IDLE].width as usize;
        let key_height = sprites.keys[KEY_IDLE].height as usize;
        let tangent_width = sprites.tangents[TANGENT_IDLE].width as usize;
        proof {
            assert(pos * key_width <= 7 * 4096) by (nonlinear_arith)
                requires
                    pos <= 7,
                    key_width <= 4096,
            ;
        }
        let centered = pos * key_width;
        let x = if centered >= tangent_width / 2 {
            centered - tangent_width / 2
        } else {
            0
        };
        draw_sprite(x, 2 * key_height, &sprites.tangents[TANGENT_IDLE], window_buffer, WINDOW_WIDTH);
        k = k + 1;
    }
}

/// Draws the five tangents, the one matching the sounding note pressed
/// and the rest idle.
pub fn draw_tangent_sprites(
    note_sprite_index: usize,
    sprites: &Sprites,
    window_buffer: &mut Vec<u32>,
)
    requires
        sprites.wf(),
        old(window_buffer)@.len() <= WINDOW_WIDTH * 0x20000,
    ensures
        final(window_buffer)@.len() == old(window_buffer)@.len(),
{
    let positions: [i32; 5] = [2, 3, 5, 6, 7];
    let tangent_notes: [usize; 5] = [4, 6, 9, 11, 1];
    let mut k: usize = 0;
    while k < 5
        invariant
            sprites.wf(),
            k <= 5,
            positions@ == spec_tangent_positions(),
            window_buffer@.len() == old(window_buffer)@.len(),
            window_buffer@.len() <= WINDOW_WIDTH * 0x20000,
        decreases 5 - k,
    {
        let pos = positions[k] as usize;
        let sprite_index = if note_sprite_index == tangent_notes[k] {
            TANGENT_PRESSED
        } else {
            TANGENT_IDLE
        };
        let key_width = sprites.keys[KEY_IDLE].width as usize;
        let key_height = sprites.keys[KEY_IDLE].height as usize;
        let tangent_width = sprites.tangents[sprite_index].width as usize;
        proof {
            assert(pos * key_width <= 7 * 4096) by (nonlinear_arith)
                requires
                    pos <= 7,
                    key_width <= 4096,
            ;
        }
        let centered = pos * key_width;
        let x = if centered >= tangent_width / 2 {
            centered - tangent_width / 2
        } else {
            0
        };
        draw_sprite(
            x,
            2 * key_height,
            &sprites.tangents[sprite_index],
            window_buffer,
            WINDOW_WIDTH,
        );
        k = k + 1;
    }
}

/// Draws a fader's border and dark background: the one-pixel edge takes
/// the border colour and the inside the background colour.
pub fn draw_fader_background(x: usize, y: usize, width: usize, height: usize, buffer: &mut Vec<u32>)
    requires
        x + width <= WINDOW_WIDTH,
        width >= 2,
        height >= 2,
        y <= 0x8000,
        height <= 0x8000,
        old(buffer)@.len() <= WINDOW_WIDTH * 0x20000,
    ensures
        final(buffer)@.len() == old(buffer)@.len(),
        spec_only_recolored(
            old(buffer)@,
            final(buffer)@,
            seq![0xFF40_4040u32, 0xFF20_2020u32],
        ),
{
    let ghost orig = old(buffer)@;
    fill_rect(x, y, width, height, 0xFF40_4040, buffer);
    fill_rect(x + 1, y + 1, width - 2, height - 2, 0xFF20_2020, buffer);
    proof {
        assert forall|i: int|
            0 <= i < buffer@.len() implies #[trigger] buffer@[i] == orig[i] || seq![
            0xFF40_4040u32,
            0xFF20_2020u32,
        ].contains(buffer@[i]) by {
            if buffer@[i] == 0xFF40_4040u32 {
                assert(seq![0xFF40_4040u32, 0xFF20_2020u32][0] == 0xFF40_4040u32);
            } else if buffer@[i] == 0xFF20_2020u32 {
                assert(seq![0xFF40_4040u32, 0xFF20_2020u32][1] == 0xFF20_2020u32);
            }
        }
    }
}

/// Draws the green fill of a fader, from its base up to its level.
pub fn draw_fader_fill(x: usize, y: usize, width: usize, height: usize, buffer: &mut Vec<u32>)
    requires
        x + width <= WINDOW_WIDTH,
        y <= 0x8000,
        height <= 0x8000,
        old(buffer)@.len() <= WINDOW_WIDTH * 0x20000,
    ensures
        final(buffer)@ == spec_fill(
            old(buffer)@,
            x as int,
            y as int,
            width as int,
            height as int,
            WINDOW_WIDTH as int,
            0xFF00_AA00u32,
        ),
{
    fill_rect(x, y, width, height, 0xFF00_AA00, buffer);
}

/// Draws a track's background bar.
pub fn draw_track_bar(
    x: usize,
    y: usize,
    width: usize,
    height: usize,
    color: u32,
    buffer: &mut Vec<u32>,
)
    requires
        x + width <= WINDOW_WIDTH,
        y <= 0x8000,
        height <= 0x8000,
        old(buffer)@.len() <= WINDOW_WIDTH * 0x20000,
    ensures
        final(buffer)@ == spec_fill(
            old(buffer)@,
            x as int,
            y as int,
            width as int,
            height as int,
            WINDOW_WIDTH as int,
            color,
        ),
{
    fill_rect(x, y, width, height, color, buffer);
}

/// Draws a track's volume level bar.
pub fn draw_volume_bar(
    x: usize,
    y: usize,
    width: usize,
    height: usize,
    color: u32,
    buffer: &mut Vec<u32>,
)
    requires
        x + width <= WINDOW_WIDTH,
        y <= 0x8000,
        height <= 0x8000,
        old(buffer)@.len() <= WINDOW_WIDTH * 0x20000,
    ensures
        final(buffer)@ == spec_fill(
            old(buffer)@,
            x as int,
            y as int,
            width as int,
            height as int,
            WINDOW_WIDTH as int,
            color,
        ),
{
    fill_rect(x, y, width, height, color, buffer);
}

/// Blends two packed colours channel by channel: each channel moves from
/// the first colour toward the second by the factor in thousandths.
pub fn blend_colors(color1: u32, color2: u32, factor: u32) -> (r: u32)
    requires
        factor <= 1000,
    ensures
        r == spec_blend_colors(color1, color2, factor as int),
{
    let r1 = (color1 / 0x10000) % 256;
    let g1 = (color1 / 0x100) % 256;
    let b1 = color1 % 256;
    let r2 = (color2 / 0x10000) % 256;
    let g2 = (color2 / 0x100) % 256;
    let b2 = color2 % 256;
    proof {
        lemma_blend_channel(r1 as int, r2 as int, factor as int);
        lemma_blend_channel(g1 as int, g2 as int, factor as int);
        lemma_blend_channel(b1 as int, b2 as int, factor as int);
    }
    let rr = (r1 * (1000 - factor) + r2 * factor) / 1000;
    let gg = (g1 * (1000 - factor) + g2 * factor) / 1000;
    let bb = (b1 * (1000 - factor) + b2 * factor) / 1000;
    proof {
        assert(rr * 0x10000 <= 255 * 0x10000) by (nonlinear_arith)
            requires
                rr <= 255,
        ;
        assert(gg * 0x100 <= 255 * 0x100) by (nonlinear_arith)
            requires
                gg <= 255,
        ;
    }
    0xFF00_0000u32 + rr * 0x10000 + gg * 0x100 + bb
}

proof fn lemma_blend_channel(c1: int, c2: int, factor: int)
    requires
        0 <= c1 <= 255,
        0 <= c2 <= 255,
        0 <= factor <= 1000,
    ensures
        0 <= c1 * (1000 - factor) + c2 * factor <= 255_000,
        0 <= (c1 * (1000 - factor) + c2 * factor) / 1000 <= 255,
{
    assert(0 <= c1 * (1000 - factor) + c2 * factor <= 255_000) by (nonlinear_arith)
        requires
            0 <= c1 <= 255,
            0 <= c2 <= 255,
            0 <= factor <= 1000,
    ;
}

/// The channel-wise blend of two packed colours, as a spec value.
pub open spec fn spec_blend_colors(color1: u32, color2: u32, factor: int) -> u32 {
    let r1 = (color1 / 0x10000) % 256;
    let g1 = (color1 / 0x100) % 256;
    let b1 = color1 % 256;
    let r2 = (color2 / 0x10000) % 256;
    let g2 = (color2 / 0x100) % 256;
    let b2 = color2 % 256;
    let rr = (r1 * (1000 - factor) + r2 * factor) / 1000;
    let gg = (g1 * (1000 - factor) + g2 * factor) / 1000;
    let bb = (b1 * (1000 - factor) + b2 * factor) / 1000;
    (0xFF00_0000 + rr * 0x10000 + gg * 0x100 + bb) as u32
}

/// Width of the waveform display, in pixels.
pub const DISPLAY_WIDTH: u32 = 164;

/// Height of the waveform display, in pixels.
pub const DISPLAY_HEIGHT: u32 = 51;

/// Sets one pixel of the waveform display; positions outside the display
/// are left alone.
pub fn draw_pixel(pixel_data: &mut Vec<u32>, x: u32, y: u32, color: u32)
    ensures
        final(pixel_data)@ == if x < DISPLAY_WIDTH && y < DISPLAY_HEIGHT && y * DISPLAY_WIDTH + x
            < old(pixel_data)@.len() {
            old(pixel_data)@.update((y * DISPLAY_WIDTH + x) as int, color)
        } else {
            old(pixel_data)@
        },
{
    if x < DISPLAY_WIDTH && y < DISPLAY_HEIGHT {
        let index = (y * DISPLAY_WIDTH + x) as usize;
        if index < pixel_data.len() {
            pixel_data[index] = color;
        }
    }
}

/// Draws a line across the waveform display, stepping pixel by pixel
/// from one point toward the other.  Only the line colour is written;
/// every other pixel keeps its value.
pub fn draw_line(pixel_data: &mut Vec<u32>, x0: u32, y0: u32, x1: u32, y1: u32, color: u32)
    requires
        x0 < DISPLAY_WIDTH,
        y0 < DISPLAY_HEIGHT,
        x1 < DISPLAY_WIDTH,
        y1 < DISPLAY_HEIGHT,
    ensures
        final(pixel_data)@.len() == old(pixel_data)@.len(),
        spec_only_recolored(old(pixel_data)@, final(pixel_data)@, seq![color]),
{
    let dx: i32 = if x1 >= x0 {
        (x1 - x0) as i32
    } else {
        (x0 - x1) as i32
    };
    let dy: i32 = if y1 >= y0 {
        (y1 - y0) as i32
    } else {
        (y0 - y1) as i32
    };
    let sx: i32 = if x0 < x1 {
        1
    } else {
        -1
    };
    let sy: i32 = if y0 < y1 {
        1
    } else {
        -1
    };
    let mut err: i32 = dx - dy;
    let mut x: i32 = x0 as i32;
    let mut y: i32 = y0 as i32;
    let mut fuel: i32 = dx + dy + 1;
    let ghost orig = old(pixel_data)@;
    while fuel > 0
        invariant
            pixel_data@.len() == orig.len(),
            spec_only_recolored(orig, pixel_data@, seq![color]),
            0 <= dx <= 164,
            0 <= dy <= 51,
            0 <= fuel <= 216,
            -(216 - fuel) <= x <= 164 + (216 - fuel),
            -(216 - fuel) <= y <= 51 + (216 - fuel),
            -215 * (217 - fuel) <= err <= 215 * (217 - fuel),
            sx == 1 || sx == -1,
            sy == 1 || sy == -1,
        decreases fuel,
    {
        fuel = fuel - 1;
        if x >= 0 && y >= 0 {
            let ghost pre = pixel_data@;
            draw_pixel(pixel_data, x as u32, y as u32, color);
            proof {
                assert forall|i: int|
                    0 <= i < pixel_data@.len() implies #[trigger] pixel_data@[i] == orig[i]
                    || seq![color].contains(pixel_data@[i]) by {
                    if pixel_data@[i] != pre[i] {
                        assert(pixel_data@[i] == color);
                        assert(seq![color][0] == color);
                    }
                }
            }
        }
        if x == x1 as i32 && y == y1 as i32 {
            break ;
        }
        let e2 = 2 * err;
        if e2 > -dy {
            err = err - dy;
            x = x + sx;
        }
        if e2 < dx {
            err = err + dx;
            y = y + sy;
        }
    }
}

/// The frame colour of a display pixel: the light border on the one-pixel
/// edge, the dark background inside.
pub open spec fn spec_frame_pixel(i: int) -> u32 {
    let x = i % (DISPLAY_WIDTH as int);
    let y = i / (DISPLAY_WIDTH as int);
    if x == 0 || x == DISPLAY_WIDTH - 1 || y == 0 || y == DISPLAY_HEIGHT - 1 {
        0xFFC7_C7C7u32
    } else {
        0xFF14_1515u32
    }
}

/// Paints the waveform display's frame: a one-pixel light border around a
/// dark background, covering the whole display area.
pub fn draw_display_frame(pixel_data: &mut Vec<u32>)
    requires
        old(pixel_data)@.len() == DISPLAY_WIDTH * DISPLAY_HEIGHT,
    ensures
        final(pixel_data)@.len() == old(pixel_data)@.len(),
        forall|i: int|
            0 <= i < final(pixel_data)@.len() ==> #[trigger] final(pixel_data)@[i]
                == spec_frame_pixel(i),
{
    let mut y: u32 = 0;
    while y < DISPLAY_HEIGHT
        invariant
            pixel_data@.len() == DISPLAY_WIDTH * DISPLAY_HEIGHT,
            y <= DISPLAY_HEIGHT,
            forall|i: int|
                0 <= i < y * DISPLAY_WIDTH ==> #[trigger] pixel_data@[i] == spec_frame_pixel(i),
        decreases DISPLAY_HEIGHT - y,
    {
        let mut x: u32 = 0;
        while x < DISPLAY_WIDTH
            invariant
                pixel_data@.len() == DISPLAY_WIDTH * DISPLAY_HEIGHT,
                y < DISPLAY_HEIGHT,
                x <= DISPLAY_WIDTH,
                forall|i: int|
                    0 <= i < y * DISPLAY_WIDTH + x ==> #[trigger] pixel_data@[i]
                        == spec_frame_pixel(i),
            decreases DISPLAY_WIDTH - x,
        {
            let color = if x == 0 || x == DISPLAY_WIDTH - 1 || y == 0 || y == DISPLAY_HEIGHT - 1 {
                0xFFC7_C7C7u32
            } else {
                0xFF14_1515u32
            };
            let index = (y * DISPLAY_WIDTH + x) as usize;
            proof {
                assert(y * DISPLAY_WIDTH + x < DISPLAY_WIDTH * DISPLAY_HEIGHT) by (nonlinear_arith)
                    requires
                        y < DISPLAY_HEIGHT,
                        x < DISPLAY_WIDTH,
                ;
                let ii = (y * DISPLAY_WIDTH + x) as int;
                assert(ii % (DISPLAY_WIDTH as int) == x && ii / (DISPLAY_WIDTH as int) == y)
                    by (nonlinear_arith)
                    requires
                        ii == y * DISPLAY_WIDTH + x,
                        0 <= x < DISPLAY_WIDTH,
                        0 <= y,
                ;
            }
            pixel_data[index] = color;
            x = x + 1;
        }
        proof {
            assert((y + 1) * DISPLAY_WIDTH == y * DISPLAY_WIDTH + DISPLAY_WIDTH) by (nonlinear_arith);
        }
        y = y + 1;
    }
    proof {
        assert(DISPLAY_HEIGHT * DISPLAY_WIDTH == DISPLAY_WIDTH * DISPLAY_HEIGHT)
            by (nonlinear_arith);
    }
}

/// Writes one window pixel if its index lies within the buffer.
fn put_window_pixel(x: usize, y: usize, color: u32, buffer: &mut Vec<u32>)
    requires
        x <= 0x10000,
        y <= 0x10000,
    ensures
        final(buffer)@.len() == old(buffer)@.len(),
        spec_only_recolored(old(buffer)@, final(buffer)@, seq![color]),
{
    proof {
        assert(y * WINDOW_WIDTH <= 0x10000 * WINDOW_WIDTH) by (nonlinear_arith)
            requires
                y <= 0x10000,
        ;
    }
    let index = y * WINDOW_WIDTH + x;
    if index < buffer.len() {
        let ghost pre = buffer@;
        buffer[index] = color;
        proof {
            assert forall|i: int|
                0 <= i < buffer@.len() implies #[trigger] buffer@[i] == old(buffer)@[i] || seq![
                color,
            ].contains(buffer@[i]) by {
                if i == index {
                    assert(seq![color][0] == color);
                }
            }
        }
    }
}

/// Draws a rectangle with a one-pixel border in one colour and a filled
/// body in another; only those two colours are written.
pub fn draw_button_shape(
    x: usize,
    y: usize,
    width: usize,
    height: usize,
    body: u32,
    border: u32,
    buffer: &mut Vec<u32>,
)
    requires
        x + width <= 0x10000,
        y + height <= 0x10000,
    ensures
        final(buffer)@.len() == old(buffer)@.len(),
        spec_only_recolored(old(buffer)@, final(buffer)@, seq![body, border]),
{
    let ghost orig = old(buffer)@;
    let mut dy: usize = 0;
    while dy < height
        invariant
            x + width <= 0x10000,
            y + height <= 0x10000,
            dy <= height,
            buffer@.len() == orig.len(),
            spec_only_recolored(orig, buffer@, seq![body, border]),
        decreases height - dy,
    {
        let mut dx: usize = 0;
        while dx < width
            invariant
                x + width <= 0x10000,
                y + height <= 0x10000,
                dy < height,
                dx <= width,
                buffer@.len() == orig.len(),
                spec_only_recolored(orig, buffer@, seq![body, border]),
            decreases width - dx,
        {
            let edge = dx == 0 || dx == width - 1 || dy == 0 || dy == height - 1;
            let color = if edge {
                border
            } else {
                body
            };
            let ghost pre = buffer@;
            put_window_pixel(x + dx, y + dy, color, buffer);
            proof {
                assert forall|i: int|
                    0 <= i < buffer@.len() implies #[trigger] buffer@[i] == orig[i] || seq![
                    body,
                    border,
                ].contains(buffer@[i]) by {
                    if buffer@[i] != pre[i] {
                        assert(buffer@[i] == color);
                        assert(seq![body, border][0] == body && seq![body, border][1] == border);
                    }
                }
            }
            dx = dx + 1;
        }
        dy = dy + 1;
    }
}

/// The five-row, three-column glyph of a character in the small face
/// font, one bit per pixel; a blank for characters outside it.
pub open spec fn spec_glyph_rows(c: char) -> Seq<u8> {
    if c == 'R' {
        seq![0b111u8, 0b101u8, 0b111u8, 0b110u8, 0b101u8]
    } else if c == 'E' {
        seq![0b111u8, 0b100u8, 0b111u8, 0b100u8, 0b111u8]
    } else if c == 'C' {
        seq![0b111u8, 0b100u8, 0b100u8, 0b100u8, 0b111u8]
    } else if c == 'P' {
        seq![0b111u8, 0b101u8, 0b111u8, 0b100u8, 0b100u8]
    } else if c == 'L' {
        seq![0b100u8, 0b100u8, 0b100u8, 0b100u8, 0b111u8]
    } else if c == 'A' {
        seq![0b111u8, 0b101u8, 0b111u8, 0b101u8, 0b101u8]
    } else if c == 'Y' {
        seq![0b101u8, 0b101u8, 0b111u8, 0b010u8, 0b010u8]
    } else if c == 'S' {
        seq![0b111u8, 0b100u8, 0b111u8, 0b001u8, 0b111u8]
    } else if c == 'T' {
        seq![0b111u8, 0b010u8, 0b010u8, 0b010u8, 0b010u8]
    } else if c == 'O' {
        seq![0b111u8, 0b101u8, 0b101u8, 0b101u8, 0b111u8]
    } else if c == 'D' {
        seq![0b111u8, 0b101u8, 0b101u8, 0b101u8, 0b111u8]
    } else if c == 'V' {
        seq![0b101u8, 0b101u8, 0b101u8, 0b101u8, 0b010u8]
    } else if c == 'F' {
        seq![0b111u8, 0b100u8, 0b111u8, 0b100u8, 0b100u8]
    } else if c == 'G' {
        seq![0b111u8, 0b100u8, 0b101u8, 0b101u8, 0b111u8]
    } else if c == 'M' {
        seq![0b101u8, 0b111u8, 0b101u8, 0b101u8, 0b101u8]
    } else if c == 'I' {
        seq![0b111u8, 0b010u8, 0b010u8, 0b010u8, 0b111u8]
    } else if c == 'X' {
        seq![0b101u8, 0b101u8, 0b010u8, 0b101u8, 0b101u8]
    } else {
        seq![0u8, 0u8, 0u8, 0u8, 0u8]
    }
}

fn glyph_rows(c: char) -> (r: [u8; 5])
    ensures
        r@ == spec_glyph_rows(c),
{
    let rows: [u8; 5] = match c {
        'R' => [0b111, 0b101, 0b111, 0b110, 0b101],
        'E' => [0b111, 0b100, 0b111, 0b100, 0b111],
        'C' => [0b111, 0b100, 0b100, 0b100, 0b111],
        'P' => [0b111, 0b101, 0b111, 0b100, 0b100],
        'L' => [0b100, 0b100, 0b100, 0b100, 0b111],
        'A' => [0b111, 0b101, 0b111, 0b101, 0b101],
        'Y' => [0b101, 0b101, 0b111, 0b010, 0b010],
        'S' => [0b111, 0b100, 0b111, 0b001, 0b111],
        'T' => [0b111, 0b010, 0b010, 0b010, 0b010],
        'O' => [0b111, 0b101, 0b101, 0b101, 0b111],
        'D' => [0b111, 0b101, 0b101, 0b101, 0b111],
        'V' => [0b101, 0b101, 0b101, 0b101, 0b010],
        'F' => [0b111, 0b100, 0b111, 0b100, 0b100],
        'G' => [0b111, 0b100, 0b101, 0b101, 0b111],
        'M' => [0b101, 0b111, 0b101, 0b101, 0b101],
        'I' => [0b111, 0b010, 0b010, 0b010, 0b111],
        'X' => [0b101, 0b101, 0b010, 0b101, 0b101],
        _ => [0, 0, 0, 0, 0],
    };
    proof {
        assert(rows@ =~= spec_glyph_rows(c));
    }
    rows
}

/// Draws a short label in the small bitmap face font; only the text
/// colour is written.
pub fn draw_simple_text(x: usize, y: usize, text: &str, color: u32, buffer: &mut Vec<u32>)
    requires
        x <= 0xF000,
        y <= 0xF000,
        text@.len() <= 16,
    ensures
        final(buffer)@.len() == old(buffer)@.len(),
        spec_only_recolored(old(buffer)@, final(buffer)@, seq![color]),
{
    let ghost orig = old(buffer)@;
    let bytes = text.as_bytes();
    let n = bytes.len();
    let mut k: usize = 0;
    while k < n && k < 16
        invariant
            x <= 0xF000,
            y <= 0xF000,
            k <= 16,
            bytes@.len() == n,
            buffer@.len() == orig.len(),
            spec_only_recolored(orig, buffer@, seq![color]),
        decreases n - k,
    {
        let c = bytes[k] as char;
        let rows = glyph_rows(c);
        let mut row: usize = 0;
        while row < 5
            invariant
                x <= 0xF000,
                y <= 0xF000,
                k <= 16,
                row <= 5,
                buffer@.len() == orig.len(),
                spec_only_recolored(orig, buffer@, seq![color]),
            decreases 5 - row,
        {
            let bits = rows[row];
            let mut col: usize = 0;
            while col < 3
                invariant
                    x <= 0xF000,
                    y <= 0xF000,
                    k <= 16,
                    row < 5,
                    col <= 3,
                    buffer@.len() == orig.len(),
                    spec_only_recolored(orig, buffer@, seq![color]),
                decreases 3 - col,
            {
                if (bits >> (2 - col) as u8) & 1 == 1 {
                    put_window_pixel(x + k * 4 + col, y + row, color, buffer);
                }
                col = col + 1;
            }
            row = row + 1;
        }
        k = k + 1;
    }
}

/// Draws a labelled button: a bordered body with its text centred; only
/// the body, border and text colours are written.
pub fn draw_button(
    x: usize,
    y: usize,
    width: usize,
    height: usize,
    color: u32,
    text: &str,
    buffer: &mut Vec<u32>,
)
    requires
        x + width <= 0x8000,
        y + height <= 0x8000,
        text@.len() <= 8,
        width >= 2,
        height >= 8,
    ensures
        final(buffer)@.len() == old(buffer)@.len(),
        spec_only_recolored(
            old(buffer)@,
            final(buffer)@,
            seq![color, 0xFFFF_FFFFu32],
        ),
{
    let ghost orig = old(buffer)@;
    draw_button_shape(x, y, width, height, color, 0xFFFF_FFFF, buffer);
    let ghost mid = buffer@;
    let text_len = {
        let l = text.as_bytes().len();
        if l > 8 {
            8
        } else {
            l
        }
    };
    let text_x = if x + width / 2 >= text_len * 3 {
        x + width / 2 - text_len * 3
    } else {
        x
    };
    let text_y = y + height / 2 - 3;
    if text.as_bytes().len() <= 16 {
        draw_simple_text(text_x, text_y, text, 0xFFFF_FFFF, buffer);
    }
    proof {
        assert forall|i: int|
            0 <= i < buffer@.len() implies #[trigger] buffer@[i] == orig[i] || seq![
            color,
            0xFFFF_FFFFu32,
        ].contains(buffer@[i]) by {
            assert(seq![color, 0xFFFF_FFFFu32][0] == color);
            assert(seq![color, 0xFFFF_FFFFu32][1] == 0xFFFF_FFFFu32);
            if buffer@[i] != orig[i] {
                if buffer@[i] == mid[i] {
                    assert(mid[i] == orig[i] || seq![color, 0xFFFF_FFFFu32].contains(mid[i]));
                } else {
                    assert(buffer@[i] == 0xFFFF_FFFFu32);
                }
            }
        }
    }
}

/// Draws one of the transport buttons: a filled rounded square; only the
/// button colour is written.
pub fn draw_transport_button(
    x: usize,
    y: usize,
    width: usize,
    height: usize,
    color: u32,
    buffer: &mut Vec<u32>,
)
    requires
        x + width <= 0x8000,
        y + height <= 0x8000,
        width >= 4,
        height >= 4,
    ensures
        final(buffer)@.len() == old(buffer)@.len(),
        spec_only_recolored(old(buffer)@, final(buffer)@, seq![color]),
{
    let ghost orig = old(buffer)@;
    let mut dy: usize = 0;
    while dy < height
        invariant
            x + width <= 0x8000,
            y + height <= 0x8000,
            dy <= height,
            width >= 4,
            height >= 4,
            buffer@.len() == orig.len(),
            spec_only_recolored(orig, buffer@, seq![color]),
        decreases height - dy,
    {
        let mut dx: usize = 0;
        while dx < width
            invariant
                x + width <= 0x8000,
                y + height <= 0x8000,
                dy < height,
                dx <= width,
                width >= 4,
                height >= 4,
                buffer@.len() == orig.len(),
                spec_only_recolored(orig, buffer@, seq![color]),
            decreases width - dx,
        {
            let corner = (dx <= 1 || dx >= width - 2) && (dy <= 1 || dy >= height - 2);
            if !corner {
                put_window_pixel(x + dx, y + dy, color, buffer);
            }
            dx = dx + 1;
        }
        dy = dy + 1;
    }
}

/// Draws the record symbol, a small filled circle.
pub fn draw_record_symbol(x: usize, y: usize, color: u32, buffer: &mut Vec<u32>)
    requires
        x <= 0x8000,
        y <= 0x8000,
    ensures
        final(buffer)@.len() == old(buffer)@.len(),
        spec_only_recolored(old(buffer)@, final(buffer)@, seq![color]),
{
    let circle: [u8; 6] = [0b011110, 0b111111, 0b111111, 0b111111, 0b111111, 0b011110];
    draw_bitmap_symbol(x, y, &circle, color, buffer);
}

/// Draws the play symbol, a triangle pointing right.
pub fn draw_play_symbol(x: usize, y: usize, color: u32, buffer: &mut Vec<u32>)
    requires
        x <= 0x8000,
        y <= 0x8000,
    ensures
        final(buffer)@.len() == old(buffer)@.len(),
        spec_only_recolored(old(buffer)@, final(buffer)@, seq![color]),
{
    let triangle: [u8; 9] = [
        0b100000,
        0b110000,
        0b111000,
        0b111100,
        0b111110,
        0b111100,
        0b111000,
        0b110000,
        0b100000,
    ];
    let mut row: usize = 0;
    let ghost orig = old(buffer)@;
    while row < 9
        invariant
            x <= 0x8000,
            y <= 0x8000,
            row <= 9,
            buffer@.len() == orig.len(),
            spec_only_recolored(orig, buffer@, seq![color]),
        decreases 9 - row,
    {
        let bits = triangle[row];
        let mut col: usize = 0;
        while col < 6
            invariant
                x <= 0x8000,
                y <= 0x8000,
                row < 9,
                col <= 6,
                buffer@.len() == orig.len(),
                spec_only_recolored(orig, buffer@, seq![color]),
            decreases 6 - col,
        {
            if (bits >> (5 - col) as u8) & 1 == 1 {
                put_window_pixel(x + col, y + row, color, buffer);
            }
            col = col + 1;
        }
        row = row + 1;
    }
}

/// Draws the stop symbol, a filled square.
pub fn draw_stop_symbol(x: usize, y: usize, color: u32, buffer: &mut Vec<u32>)
    requires
        x <= 0x8000,
        y <= 0x8000,
    ensures
        final(buffer)@.len() == old(buffer)@.len(),
        spec_only_recolored(old(buffer)@, final(buffer)@, seq![color]),
{
    let ghost orig = old(buffer)@;
    let mut dy: usize = 0;
    while dy < 8
        invariant
            x <= 0x8000,
            y <= 0x8000,
            dy <= 8,
            buffer@.len() == orig.len(),
            spec_only_recolored(orig, buffer@, seq![color]),
        decreases 8 - dy,
    {
        let mut dx: usize = 0;
        while dx < 8
            invariant
                x <= 0x8000,
                y <= 0x8000,
                dy < 8,
                dx <= 8,
                buffer@.len() == orig.len(),
                spec_only_recolored(orig, buffer@, seq![color]),
            decreases 8 - dx,
        {
            put_window_pixel(x + dx, y + dy, color, buffer);
            dx = dx + 1;
        }
        dy = dy + 1;
    }
}

/// Draws a six-column bitmap symbol; only the symbol colour is written.
fn draw_bitmap_symbol(x: usize, y: usize, rows: &[u8; 6], color: u32, buffer: &mut Vec<u32>)
    requires
        x <= 0x8000,
        y <= 0x8000,
    ensures
        final(buffer)@.len() == old(buffer)@.len(),
        spec_only_recolored(old(buffer)@, final(buffer)@, seq![color]),
{
    let ghost orig = old(buffer)@;
    let mut row: usize = 0;
    while row < 6
        invariant
            x <= 0x8000,
            y <= 0x8000,
            row <= 6,
            buffer@.len() == orig.len(),
            spec_only_recolored(orig, buffer@, seq![color]),
        decreases 6 - row,
    {
        let bits = rows[row];
        let mut col: usize = 0;
        while col < 6
            invariant
                x <= 0x8000,
                y <= 0x8000,
                row < 6,
                col <= 6,
                buffer@.len() == orig.len(),
                spec_only_recolored(orig, buffer@, seq![color]),
            decreases 6 - col,
        {
            if (bits >> (5 - col) as u8) & 1 == 1 {
                put_window_pixel(x + col, y + row, color, buffer);
            }
            col = col + 1;
        }
        row = row + 1;
    }
}

/// Chains two recolour steps: what the first may paint and what the
/// second may paint together bound the whole change.
pub proof fn lemma_recolored_chain(
    a: Seq<u32>,
    b: Seq<u32>,
    c: Seq<u32>,
    s1: Seq<u32>,
    s2: Seq<u32>,
    s: Seq<u32>,
)
    requires
        spec_only_recolored(a, b, s1),
        spec_only_recolored(b, c, s2),
        forall|x: u32| s1.contains(x) ==> s.contains(x),
        forall|x: u32| s2.contains(x) ==> s.contains(x),
    ensures
        spec_only_recolored(a, c, s),
{
    assert forall|i: int| 0 <= i < c.len() implies #[trigger] c[i] == a[i] || s.contains(c[i]) by {
        if c[i] != a[i] {
            if c[i] == b[i] {
                assert(s1.contains(b[i]));
            } else {
                assert(s2.contains(c[i]));
            }
        }
    }
}

/// The palette of the envelope fader panel.
pub open spec fn spec_fader_palette() -> Seq<u32> {
    seq![0xFF40_4040u32, 0xFF20_2020u32, 0xFF00_AA00u32]
}

/// Draws the four envelope faders of the current track: each a bordered
/// well filled to its parameter's height; only the panel's palette is
/// painted.
pub fn draw_adsr_faders(state: &crate::state::State, window_buffer: &mut Vec<u32>)
    requires
        state.wf(),
        old(window_buffer)@.len() <= WINDOW_WIDTH * 0x20000,
    ensures
        final(window_buffer)@.len() == old(window_buffer)@.len(),
        spec_only_recolored(old(window_buffer)@, final(window_buffer)@, spec_fader_palette()),
{
    let ghost orig = old(window_buffer)@;
    let values: [u8; 4] = {
        let track = state.current_track();
        [track.attack, track.decay, track.sustain, track.release]
    };
    let mut i: usize = 0;
    while i < 4
        invariant
            i <= 4,
            window_buffer@.len() == orig.len(),
            orig.len() <= WINDOW_WIDTH * 0x20000,
            spec_only_recolored(orig, window_buffer@, spec_fader_palette()),
            forall|k: int| 0 <= k < 4 ==> values@[k] <= 99,
        decreases 4 - i,
    {
        let x: usize = 432 + i * 30;
        let y: usize = 221;
        let ghost before = window_buffer@;
        draw_fader_background(x, y, 25, 50, window_buffer);
        proof {
            lemma_recolored_chain(
                orig,
                before,
                window_buffer@,
                spec_fader_palette(),
                seq![0xFF40_4040u32, 0xFF20_2020u32],
                spec_fader_palette(),
            );
        }
        let fill = (values[i] as usize) * 46 / 99;
        let ghost mid = window_buffer@;
        draw_fader_fill(x + 2, y + 48 - fill, 21, fill, window_buffer);
        proof {
            assert(spec_only_recolored(mid, window_buffer@, seq![0xFF00_AA00u32])) by {
                assert forall|k: int|
                    0 <= k < window_buffer@.len() implies #[trigger] window_buffer@[k] == mid[k]
                    || seq![0xFF00_AA00u32].contains(window_buffer@[k]) by {
                    if window_buffer@[k] != mid[k] {
                        assert(window_buffer@[k] == 0xFF00_AA00u32);
                        assert(seq![0xFF00_AA00u32][0] == 0xFF00_AA00u32);
                    }
                }
            }
            lemma_recolored_chain(
                orig,
                mid,
                window_buffer@,
                spec_fader_palette(),
                seq![0xFF00_AA00u32],
                spec_fader_palette(),
            );
        }
        i = i + 1;
    }
}

/// Draws the transport buttons — record, play and stop — coloured for
/// the transport mode, the stop button glowing for half a second after
/// it was pressed.
pub fn draw_control_buttons(state: &crate::state::State, now_ms: u64, buffer: &mut Vec<u32>)
    requires
        state.wf(),
    ensures
        final(buffer)@.len() == old(buffer)@.len(),
{
    proof {
        reveal_strlit("REC");
        reveal_strlit("PLAY");
        reveal_strlit("STOP");
    }
    let record_color: u32 = match state.recording_state {
        crate::state::RecordingState::Recording => 0xFFFF_0000,
        _ => 0xFF66_6666,
    };
    draw_button(66, 180, 60, 30, record_color, "REC", buffer);
    let play_color: u32 = match state.recording_state {
        crate::state::RecordingState::Playing => 0xFF00_FF00,
        _ => 0xFF66_6666,
    };
    draw_button(136, 180, 60, 30, play_color, "PLAY", buffer);
    let armed = matches!(
        state.recording_state,
        crate::state::RecordingState::Recording | crate::state::RecordingState::Playing
    );
    let stop_color: u32 = match state.stop_button_glow_time {
        Some(glow_start) if now_ms < glow_start.saturating_add(500) => 0xFFFF_0000,
        _ => if armed {
            0xFFFF_4444
        } else {
            0xFF66_6666
        },
    };
    draw_button(206, 180, 60, 30, stop_color, "STOP", buffer);
}

/// Draws the effect buttons — delay, reverb, flanger — lit when enabled
/// on the current track.
pub fn draw_effects_buttons(state: &crate::state::State, buffer: &mut Vec<u32>)
    requires
        state.wf(),
    ensures
        final(buffer)@.len() == old(buffer)@.len(),
{
    let track = state.current_track();
    let settings: [(bool, u32); 3] = [
        (track.delay_enabled, 0xFF44_44FF),
        (track.reverb_enabled, 0xFF44_FF44),
        (track.flanger_enabled, 0xFFFF_4444),
    ];
    proof {
        reveal_strlit("DLY");
        reveal_strlit("REV");
        reveal_strlit("FLG");
    }
    let labels: [&str; 3] = ["DLY", "REV", "FLG"];
    proof {
        assert(labels@[0]@.len() == 3 && labels@[1]@.len() == 3 && labels@[2]@.len() == 3);
    }
    let mut i: usize = 0;
    while i < 3
        invariant
            i <= 3,
            buffer@.len() == old(buffer)@.len(),
            labels@[0]@.len() == 3 && labels@[1]@.len() == 3 && labels@[2]@.len() == 3,
        decreases 3 - i,
    {
        let (enabled, bright) = settings[i];
        let color = if enabled {
            bright
        } else {
            0xFF33_3333
        };
        draw_button(331 + i * 33, 236, 30, 20, color, labels[i], buffer);
        i = i + 1;
    }
}

/// Draws the file-transfer buttons.
pub fn draw_midi_buttons(buffer: &mut Vec<u32>)
    ensures
        final(buffer)@.len() == old(buffer)@.len(),
{
    proof {
        reveal_strlit("EXP");
        reveal_strlit("IMP");
    }
    draw_button(552, 236, 40, 20, 0xFF22_66AA, "EXP", buffer);
    draw_button(602, 236, 40, 20, 0xFF22_AA66, "IMP", buffer);
}

/// Draws the four track rows: name bar, transport buttons and volume
/// bar, the current row highlighted.
pub fn draw_track_info(state: &crate::state::State, now_ms: u64, buffer: &mut Vec<u32>)
    requires
        state.wf(),
        old(buffer)@.len() <= WINDOW_WIDTH * 0x20000,
    ensures
        final(buffer)@.len() == old(buffer)@.len(),
{
    let mut i: usize = 0;
    while i < 4
        invariant
            state.wf(),
            i <= 4,
            buffer@.len() == old(buffer)@.len(),
            buffer@.len() <= WINDOW_WIDTH * 0x20000,
        decreases 4 - i,
    {
        let y = 10 + i * 25;
        let is_current = i == state.current_track_id;
        let is_recording = matches!(
            state.recording_state,
            crate::state::RecordingState::Recording
        ) && is_current;
        let bg_color: u32 = if is_current {
            0xFF44_4444
        } else {
            0xFF22_2222
        };
        draw_track_bar(10, y, 75, 20, bg_color, buffer);
        let rec_color: u32 = if is_recording {
            0xFFFF_0000
        } else {
            0xFF66_0000
        };
        draw_transport_button(90, y + 2, 16, 16, rec_color, buffer);
        draw_record_symbol(95, y + 7, 0xFF88_8888, buffer);
        let track = &state.tracks[i];
        let has_content = track.recorded_notes.len() > 0;
        let play_color: u32 = if track.playing && has_content {
            0xFF00_AA00
        } else {
            0xFF00_6600
        };
        draw_transport_button(110, y + 2, 16, 16, play_color, buffer);
        draw_play_symbol(114, y + 5, 0xFF88_8888, buffer);
        draw_transport_button(130, y + 2, 16, 16, 0xFF66_6666, buffer);
        draw_stop_symbol(134, y + 6, 0xFF88_8888, buffer);
        let vol_width = (track.volume as usize) * 25 / 1000;
        proof {
            assert(track.volume * 25 / 1000 <= 25) by (nonlinear_arith)
                requires
                    0 <= track.volume <= 1000,
            ;
        }
        draw_volume_bar(155, y + 8, vol_width, 4, 0xFF00_88FF, buffer);
        let _ = now_ms;
        i = i + 1;
    }
}

/// Whether a buffer changed only by taking the given colours at some
/// positions: every pixel either kept its value or holds one of them.
pub open spec fn spec_only_recolored(old_buf: Seq<u32>, new_buf: Seq<u32>, colors: Seq<u32>) -> bool {
    &&& new_buf.len() == old_buf.len()
    &&& forall|i: int|
        0 <= i < new_buf.len() ==> #[trigger] new_buf[i] == old_buf[i] || colors.contains(
            new_buf[i],
        )
}

} // verus!
