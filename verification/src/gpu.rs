//! The picture processing unit: its timing state machine (OAM search,
//! pixel transfer, horizontal and vertical blank), the LCD registers, and
//! the drawing of one scanline (background, window and sprites) into an
//! RGB frame buffer.
use vstd::prelude::*;

verus! {

pub const SCREEN_W: usize = 160;

pub const SCREEN_H: usize = 144;

/// Size of video RAM in bytes.
pub const VRAM_SIZE: usize = 0x2000;

/// Size of the sprite attribute table in bytes (40 sprites of 4 bytes).
pub const OAM_SIZE: usize = 0xA0;

#[derive(Debug, PartialEq, Eq, Structural, Clone, Copy)]
pub enum GPUMode {
    HBlank,
    VBlank,
    OAM,
    Transfer,
}

pub struct Scanline {
    pub data: Vec<u8>,
    pub width: usize,
}

pub struct FrameBuffer {
    pub data: Vec<u8>,
    pub width: usize,
    pub height: usize,
}

#[derive(Debug, Copy, Clone, PartialEq, Eq, Structural)]
pub struct Color(pub u8, pub u8, pub u8);

#[derive(Debug)]
pub struct Palette(pub [Color; 4]);

pub struct GPURegisters {
    pub lcdc: u8,
    pub stat: u8,
    pub scy: u8,
    pub scx: u8,
    pub ly: u8,
    pub lyc: u8,
    pub bgp: u8,
    pub obp0: u8,
    pub obp1: u8,
    pub wy: u8,
    pub wx: u8,
}

pub struct GPU {
    pub framebuffer: FrameBuffer,
    pub vram: [u8; 0x2000],
    pub oam: [u8; 0xA0],
    pub current_line: u8,
    pub mode: GPUMode,
    pub mode_clock: u32,
    pub registers: GPURegisters,
    pub palette: Palette,
}

// ---------------------------------------------------------------------
// The frame buffer as a sequence of bytes, three per pixel (R, G, B).
// ---------------------------------------------------------------------
/// Byte `j` (0 red, 1 green, 2 blue) of a color.
pub open spec fn color_byte(c: Color, j: int) -> u8 {
    if j == 0 {
        c.0
    } else if j == 1 {
        c.1
    } else {
        c.2
    }
}

/// `data` after pixel number `p` (counted row by row) is set to `c`; a pixel
/// whose three bytes do not all lie inside `data` is not written.
pub open spec fn pixel_write(data: Seq<u8>, p: int, c: Color) -> Seq<u8> {
    Seq::new(
        data.len(),
        |k: int|
            if k / 3 == p && p * 3 + 2 < data.len() {
                color_byte(c, k % 3)
            } else {
                data[k]
            },
    )
}

/// `data` after each pixel `x` of the row that starts at pixel number `row`
/// is painted with `colors[x]`, where that is a color; positions that hold
/// `None` keep their bytes.
pub open spec fn paint(data: Seq<u8>, row: int, colors: Seq<Option<Color>>) -> Seq<u8> {
    Seq::new(
        data.len(),
        |k: int|
            {
                let x = k / 3 - row;
                if 0 <= x < SCREEN_W && (k / 3) * 3 + 2 < data.len() && colors[x] is Some {
                    color_byte(colors[x]->0, k % 3)
                } else {
                    data[k]
                }
            },
    )
}

/// The row of colors where `top` is drawn over `bottom`.
pub open spec fn merge(bottom: Seq<Option<Color>>, top: Seq<Option<Color>>) -> Seq<Option<Color>> {
    Seq::new(SCREEN_W as nat, |x: int| if top[x] is Some { top[x] } else { bottom[x] })
}

/// A row in which only pixel `x` is drawn.
pub open spec fn single(x: int, c: Option<Color>) -> Seq<Option<Color>> {
    Seq::new(SCREEN_W as nat, |j: int| if j == x { c } else { None })
}

/// A row in which nothing is drawn.
pub open spec fn blank_row() -> Seq<Option<Color>> {
    Seq::new(SCREEN_W as nat, |j: int| None)
}

/// The pixel indices of row `y` of the screen, and the pixels right after
/// them, fit in `usize` together with their three bytes.
pub open spec fn row_fits(width: usize, y: int) -> bool {
    (y * width + SCREEN_W) * 3 <= usize::MAX
}

pub proof fn lemma_pixel_write_is_paint(data: Seq<u8>, row: int, x: int, c: Color)
    requires
        0 <= x < SCREEN_W,
    ensures
        pixel_write(data, row + x, c) == paint(data, row, single(x, Some(c))),
{
    assert(pixel_write(data, row + x, c) =~= paint(data, row, single(x, Some(c))));
}

/// Painting one row over another is painting their merge.
pub proof fn lemma_paint_merge(
    data: Seq<u8>,
    row: int,
    bottom: Seq<Option<Color>>,
    top: Seq<Option<Color>>,
)
    requires
        bottom.len() == SCREEN_W,
        top.len() == SCREEN_W,
    ensures
        paint(paint(data, row, bottom), row, top) == paint(data, row, merge(bottom, top)),
{
    assert(paint(paint(data, row, bottom), row, top) =~= paint(data, row, merge(bottom, top)));
}

pub proof fn lemma_paint_blank(data: Seq<u8>, row: int)
    ensures
        paint(data, row, blank_row()) == data,
{
    assert(paint(data, row, blank_row()) =~= data);
}

impl FrameBuffer {
    pub fn new(width: usize, height: usize) -> (fb: Self)
        requires
            width * height * 3 <= usize::MAX,
        ensures
            fb.data@ == Seq::new((width * height * 3) as nat, |i: int| 0u8),
            fb.width == width,
            fb.height == height,
    {
        proof {
            assert(0 <= width * height) by (nonlinear_arith);
        }
        let fb = FrameBuffer { data: vec![0u8; width * height * 3], width, height };
        assert(fb.data@ =~= Seq::new((width * height * 3) as nat, |i: int| 0u8));
        fb
    }

    /// Writes the three bytes of pixel `(x, y)` when they lie inside the buffer.
    pub fn set_pixel(&mut self, x: usize, y: usize, color: Color)
        requires
            (y * old(self).width + x) * 3 + 2 <= usize::MAX,
        ensures
            final(self).data@ == pixel_write(old(self).data@, y * old(self).width + x, color),
            final(self).width == old(self).width,
            final(self).height == old(self).height,
    {
        let index: usize = (y * self.width + x) * 3;
        let ghost p: int = y * self.width + x;
        if index + 2 < self.data.len() {
            self.data.set(index, color.0);
            self.data.set(index + 1, color.1);
            self.data.set(index + 2, color.2);
        }
        assert(self.data@ =~= pixel_write(old(self).data@, p, color));
    }
}

impl Scanline {
    pub fn new(width: usize) -> (s: Self)
        requires
            width * 3 <= usize::MAX,
        ensures
            s.data@ == Seq::new((width * 3) as nat, |i: int| 0u8),
            s.width == width,
    {
        let s = Scanline { data: vec![0u8; width * 3], width };
        assert(s.data@ =~= Seq::new((width * 3) as nat, |i: int| 0u8));
        s
    }
}

/// The two-bit shade that the palette register `palette` gives color number `index`.
pub open spec fn shade(index: u8, palette: u8) -> u8 {
    (palette >> ((index * 2) as u8)) & 3
}

/// The color of color number `index` under the palette register `palette`.
pub open spec fn palette_color(index: u8, palette: u8, gpu_palette: Palette) -> Color {
    gpu_palette.0@[shade(index, palette) as int]
}

/// Bit `b` of `x`.
pub open spec fn bit_of(x: u8, b: u8) -> u8 {
    (x >> b) & 1
}

/// The color number of the pixel at bit `b` of a tile row given by its two
/// bit planes.
pub open spec fn pixel_code(low: u8, high: u8, b: u8) -> u8 {
    (2 * bit_of(high, b) + bit_of(low, b)) as u8
}

proof fn lemma_pixel_code(low: u8, high: u8, b: u8)
    requires
        b < 8,
    ensures
        ((high >> b) & 1) << 1u8 | ((low >> b) & 1) == pixel_code(low, high, b),
        pixel_code(low, high, b) < 4,
{
    assert(((high >> b) & 1) << 1u8 | ((low >> b) & 1) == 2 * ((high >> b) & 1) + ((low >> b) & 1)
        && ((high >> b) & 1) <= 1 && ((low >> b) & 1) <= 1) by (bit_vector)
        requires
            b < 8,
    ;
}

pub fn get_color_from_palette(index: u8, palette: u8, gpu_palette: &Palette) -> (c: Color)
    requires
        index < 4,
    ensures
        c == palette_color(index, palette, *gpu_palette),
{
    let shade: u8 = (palette >> (index * 2)) & 0b11;
    assert(shade < 4) by (bit_vector)
        requires
            shade == (palette >> (index * 2)) & 0b11,
    ;
    gpu_palette.0[shade as usize]
}

// ---------------------------------------------------------------------
// Timing.
// ---------------------------------------------------------------------
/// The number that the STAT register shows for a mode.
pub open spec fn mode_number(mode: GPUMode) -> u8 {
    match mode {
        GPUMode::HBlank => 0,
        GPUMode::VBlank => 1,
        GPUMode::OAM => 2,
        GPUMode::Transfer => 3,
    }
}

/// STAT with its mode bits (0 and 1) set to `mode` and its coincidence bit
/// (2) set exactly when `ly == lyc`; bits 3 to 7 are kept.
pub open spec fn stat_value(stat: u8, mode: GPUMode, ly: u8, lyc: u8) -> u8 {
    ((stat - stat % 8) + (if ly == lyc { 4int } else { 0 }) + mode_number(mode)) as u8
}

/// The interrupt bits raised by a state: bit 0 for vertical blank with its
/// STAT source enabled, bit 1 for an enabled LCD STAT source (LY = LYC,
/// horizontal blank or OAM search).
pub open spec fn interrupt_bits(mode: GPUMode, stat: u8, ly: u8, lyc: u8) -> u8 {
    let vblank = mode == GPUMode::VBlank && stat & 0x10 != 0;
    let lcd = (ly == lyc && stat & 0x40 != 0) || (mode == GPUMode::HBlank && stat & 0x08 != 0) || (
    mode == GPUMode::OAM && stat & 0x20 != 0);
    ((if vblank { 1int } else { 0 }) + (if lcd { 2int } else { 0 })) as u8
}

/// The number of dots a mode lasts.
pub open spec fn mode_length(mode: GPUMode) -> int {
    match mode {
        GPUMode::OAM => 80,
        GPUMode::Transfer => 172,
        GPUMode::HBlank => 204,
        GPUMode::VBlank => 456,
    }
}

/// Mode, dot counter and line after the counter has reached `clock` in
/// `mode` on line `line`: a mode that has run its length moves on, with the
/// counter back at zero (what lies beyond the length is dropped).
pub open spec fn timing_step(mode: GPUMode, clock: int, line: int) -> (GPUMode, int, int) {
    if clock < mode_length(mode) {
        (mode, clock, line)
    } else {
        match mode {
            GPUMode::OAM => (GPUMode::Transfer, 0, line),
            GPUMode::Transfer => (GPUMode::HBlank, 0, line),
            GPUMode::HBlank => if line + 1 == SCREEN_H {
                (GPUMode::VBlank, 0, line + 1)
            } else {
                (GPUMode::OAM, 0, line + 1)
            },
            GPUMode::VBlank => if line + 1 > 153 {
                (GPUMode::OAM, 0, 0)
            } else {
                (GPUMode::VBlank, 0, line + 1)
            },
        }
    }
}

/// The timing states that the unit passes through from power-on: lines 0 to
/// 143 are drawn, lines 144 to 153 are the vertical blank, and the dot
/// counter stays below the length of the mode.
pub open spec fn timing_ok(mode: GPUMode, clock: int, line: int) -> bool {
    &&& 0 <= clock < mode_length(mode)
    &&& (mode == GPUMode::VBlank ==> SCREEN_H <= line <= 153)
    &&& (mode != GPUMode::VBlank ==> 0 <= line < SCREEN_H)
}

/// The timing of the unit cycles through the drawn lines and the vertical
/// blank and never leaves them.
pub proof fn lemma_timing_step_keeps_timing_ok(mode: GPUMode, clock: int, line: int, cycles: int)
    requires
        timing_ok(mode, clock, line),
        cycles >= 0,
    ensures
        ({
            let (m, c, l) = timing_step(mode, clock + cycles, line);
            timing_ok(m, c, l)
        }),
{
}

/// The signed value of a tile number used in the signed addressing mode.
pub open spec fn signed_tile(t: u8) -> int {
    if t < 128 {
        t as int
    } else {
        t - 256
    }
}

/// Base of the tile map selected by `select` (the LCDC bit for that map).
pub open spec fn tile_map_base(select: bool) -> int {
    if select {
        0x1C00
    } else {
        0x1800
    }
}

impl GPU {
    /// Every field but the frame buffer's bytes is as in `other`.
    pub open spec fn same_but_pixels(self, other: GPU) -> bool {
        &&& self.vram == other.vram
        &&& self.oam == other.oam
        &&& self.current_line == other.current_line
        &&& self.mode == other.mode
        &&& self.mode_clock == other.mode_clock
        &&& self.registers == other.registers
        &&& self.palette == other.palette
        &&& self.framebuffer.width == other.framebuffer.width
        &&& self.framebuffer.height == other.framebuffer.height
    }

    /// What the drawing of a line reads is as in `other`.
    pub open spec fn same_picture_inputs(self, other: GPU) -> bool {
        &&& self.vram == other.vram
        &&& self.oam == other.oam
        &&& self.registers == other.registers
        &&& self.palette == other.palette
        &&& self.framebuffer.width == other.framebuffer.width
    }

    /// Pixel number of the first pixel of the current line in the frame buffer.
    pub open spec fn row_start(self) -> int {
        self.registers.ly * self.framebuffer.width
    }

    /// The two bit planes of row `y` of tile `tile_index`, as read while the
    /// unit is in `mode`: nothing can be read during pixel transfer, and a row
    /// outside video RAM reads as zero.
    pub open spec fn tile_line(self, mode: GPUMode, tile_index: u8, y: u8, signed_index: bool) -> (
        u8,
        u8,
    ) {
        let base: int = if signed_index {
            0x1000 + signed_tile(tile_index) * 16
        } else {
            tile_index * 16
        };
        let address: int = base + y * 2;
        if mode == GPUMode::Transfer || address + 1 >= VRAM_SIZE {
            (0, 0)
        } else {
            (self.vram@[address], self.vram@[address + 1])
        }
    }

    /// The background color of pixel `x` of the current line, `None` when the
    /// background is off.
    pub open spec fn bg_pixel(self, mode: GPUMode, x: int) -> Option<Color> {
        let r = self.registers;
        if r.lcdc & 0x01 == 0 {
            None
        } else {
            let tile_x = x / 8;
            let pixel_x = (tile_x * 8 + r.scx) % 256;
            let pixel_y = (r.ly + r.scy) % 256;
            let addr = tile_map_base(r.lcdc & 0x08 != 0) + (pixel_y / 8) * 32 + pixel_x / 8;
            let tile = self.vram@[addr];
            let (low, high) = self.tile_line(mode, tile, (r.ly % 8) as u8, r.lcdc & 0x10 == 0);
            Some(palette_color(pixel_code(low, high, (7 - x % 8) as u8), r.bgp, self.palette))
        }
    }

    pub open spec fn bg_row(self, mode: GPUMode) -> Seq<Option<Color>> {
        Seq::new(SCREEN_W as nat, |x: int| self.bg_pixel(mode, x))
    }

    /// The window color of pixel `x` of the current line, `None` when the
    /// window is off or does not cover the pixel.
    pub open spec fn window_pixel(self, mode: GPUMode, x: int) -> Option<Color> {
        let r = self.registers;
        if r.lcdc & 0x20 == 0 || r.ly < r.wy || r.wx >= SCREEN_W + 7 || x + 7 < r.wx {
            None
        } else {
            let pixel_x = x + 7 - r.wx;
            let pixel_y = r.ly - r.wy;
            let addr = tile_map_base(r.lcdc & 0x40 != 0) + (pixel_y / 8) * 32 + pixel_x / 8;
            let tile = self.vram@[addr];
            let (low, high) = self.tile_line(mode, tile, (pixel_y % 8) as u8, r.lcdc & 0x10 == 0);
            Some(palette_color(pixel_code(low, high, (7 - pixel_x % 8) as u8), r.bgp, self.palette))
        }
    }

    pub open spec fn window_row(self, mode: GPUMode) -> Seq<Option<Color>> {
        Seq::new(SCREEN_W as nat, |x: int| self.window_pixel(mode, x))
    }

    /// Sprites are 8 or 16 lines tall.
    pub open spec fn sprite_height(self) -> int {
        if self.registers.lcdc & 0x04 != 0 {
            16
        } else {
            8
        }
    }

    /// Top line of sprite `s` on the screen.
    pub open spec fn sprite_top(self, s: int) -> int {
        self.oam@[4 * s] - 16
    }

    /// Left column of sprite `s` on the screen.
    pub open spec fn sprite_left(self, s: int) -> int {
        self.oam@[4 * s + 1] - 8
    }

    /// Sprite `s` covers the current line.
    pub open spec fn on_line(self, s: int) -> bool {
        self.sprite_top(s) <= self.registers.ly < self.sprite_top(s) + self.sprite_height()
    }

    /// How many of the sprites before sprite `n` cover the current line.
    pub open spec fn sprites_before(self, n: int) -> int
        decreases n,
    {
        if n <= 0 {
            0
        } else if self.on_line(n - 1) {
            self.sprites_before(n - 1) + 1
        } else {
            self.sprites_before(n - 1)
        }
    }

    /// Sprite `s` is drawn: it covers the line and is among the first ten
    /// that do.
    pub open spec fn drawn(self, s: int) -> bool {
        self.on_line(s) && self.sprites_before(s) < 10
    }

    /// The color that sprite `s` gives pixel `x` of the current line; `None`
    /// where it does not cover the pixel or its pixel is transparent.
    pub open spec fn sprite_pixel(self, mode: GPUMode, s: int, x: int) -> Option<Color> {
        let attributes = self.oam@[4 * s + 3];
        let off = x - self.sprite_left(s);
        if !(0 <= off < 8) {
            None
        } else {
            let bit = if attributes & 0x20 != 0 {
                7 - off
            } else {
                off
            };
            let line = if attributes & 0x40 != 0 {
                self.sprite_height() - 1 - (self.registers.ly - self.sprite_top(s))
            } else {
                self.registers.ly - self.sprite_top(s)
            };
            let (low, high) = self.tile_line(mode, self.oam@[4 * s + 2], line as u8, false);
            let code = pixel_code(low, high, (7 - bit) as u8);
            let palette = if attributes & 0x10 != 0 {
                self.registers.obp1
            } else {
                self.registers.obp0
            };
            if code != 0 {
                Some(palette_color(code, palette, self.palette))
            } else {
                None
            }
        }
    }

    pub open spec fn sprite_cells(self, mode: GPUMode, s: int) -> Seq<Option<Color>> {
        Seq::new(SCREEN_W as nat, |x: int| self.sprite_pixel(mode, s, x))
    }

    /// The color of pixel `x` from the drawn sprites among the first `n`: a
    /// later sprite is drawn over an earlier one.
    pub open spec fn sprite_layer(self, mode: GPUMode, n: int, x: int) -> Option<Color>
        decreases n,
    {
        if n <= 0 {
            None
        } else if self.drawn(n - 1) && self.sprite_pixel(mode, n - 1, x) is Some {
            self.sprite_pixel(mode, n - 1, x)
        } else {
            self.sprite_layer(mode, n - 1, x)
        }
    }

    pub open spec fn sprite_row(self, mode: GPUMode, n: int) -> Seq<Option<Color>> {
        Seq::new(SCREEN_W as nat, |x: int| self.sprite_layer(mode, n, x))
    }

    /// The sprite colors of the current line, `None` everywhere when sprites are off.
    pub open spec fn sprites_row(self, mode: GPUMode) -> Seq<Option<Color>> {
        if self.registers.lcdc & 0x02 == 0 {
            blank_row()
        } else {
            self.sprite_row(mode, 40)
        }
    }

    /// The colors drawn on the current line: sprites over the window over
    /// the background.
    pub open spec fn scanline_colors(self, mode: GPUMode) -> Seq<Option<Color>> {
        merge(merge(self.bg_row(mode), self.window_row(mode)), self.sprites_row(mode))
    }

    /// The frame buffer's bytes after the current line is drawn.
    pub open spec fn rendered(self, mode: GPUMode) -> Seq<u8> {
        if self.registers.lcdc & 0x80 == 0 {
            self.framebuffer.data@
        } else {
            paint(self.framebuffer.data@, self.row_start(), self.scanline_colors(mode))
        }
    }
}

proof fn lemma_signed_tile(t: u8)
    ensures
        (t as i8) as i16 == signed_tile(t),
{
    assert(t < 128 ==> (t as i8) as i16 == t as i16) by (bit_vector);
    assert(t >= 128 ==> (t as i8) as i16 == (t as i16) - 256) by (bit_vector);
}

impl GPU {
    fn read_tile_line(&self, tile_index: u8, y: u8, signed_index: bool) -> (r: (u8, u8))
        ensures
            r == self.tile_line(self.mode, tile_index, y, signed_index),
    {
        if self.mode == GPUMode::Transfer {
            return (0, 0);
        }
        let base_address: usize = if signed_index {
            let signed: i16 = tile_index as i8 as i16;
            proof {
                lemma_signed_tile(tile_index);
            }
            (0x1000i16 + signed * 16) as usize
        } else {
            (tile_index as usize) * 16
        };
        let line_offset: usize = (y as usize) * 2;
        let address: usize = base_address + line_offset;
        if address + 1 >= self.vram.len() {
            return (0, 0);
        }
        let byte1: u8 = self.vram[address];
        let byte2: u8 = self.vram[address + 1];
        (byte1, byte2)
    }

    /// The colors that tile `tile_index`, placed at tile column `tile_x`,
    /// gives the current line.
    pub open spec fn tile_cells(self, tile_index: u8, tile_x: int, signed: bool) -> Seq<
        Option<Color>,
    > {
        let (low, high) = self.tile_line(
            self.mode,
            tile_index,
            (self.registers.ly % 8) as u8,
            signed,
        );
        Seq::new(
            SCREEN_W as nat,
            |x: int|
                if tile_x * 8 <= x < tile_x * 8 + 8 {
                    Some(
                        palette_color(
                            pixel_code(low, high, (7 - (x - tile_x * 8)) as u8),
                            self.registers.bgp,
                            self.palette,
                        ),
                    )
                } else {
                    None
                },
        )
    }

    fn render_tile(&mut self, tile_index: u8, tile_x: usize, tile_y: usize, signed: bool)
        requires
            tile_x <= SCREEN_W / 8,
            row_fits(old(self).framebuffer.width, old(self).registers.ly as int),
        ensures
            final(self).same_but_pixels(*old(self)),
            final(self).framebuffer.data@ == paint(
                old(self).framebuffer.data@,
                old(self).row_start(),
                old(self).tile_cells(tile_index, tile_x as int, signed),
            ),
    {
        let ghost cells = self.tile_cells(tile_index, tile_x as int, signed);
        let ghost data0 = self.framebuffer.data@;
        let ghost row = self.row_start();
        let ly: usize = self.registers.ly as usize;
        let line: usize = ly % 8;
        let (low, high) = self.read_tile_line(tile_index, line as u8, signed);
        let mut bit: usize = 0;
        while bit < 8
            invariant
                bit <= 8,
                tile_x <= SCREEN_W / 8,
                ly == self.registers.ly,
                row == ly * self.framebuffer.width,
                row_fits(self.framebuffer.width, ly as int),
                self.same_but_pixels(*old(self)),
                cells == old(self).tile_cells(tile_index, tile_x as int, signed),
                (low, high) == old(self).tile_line(
                    old(self).mode,
                    tile_index,
                    (ly % 8) as u8,
                    signed,
                ),
                self.framebuffer.data@ == paint(
                    data0,
                    row,
                    Seq::new(
                        SCREEN_W as nat,
                        |x: int| if x < tile_x * 8 + bit { cells[x] } else { None },
                    ),
                ),
            decreases 8 - bit,
        {
            let ghost before = self.framebuffer.data@;
            let x: usize = tile_x * 8 + bit;
            let b: u8 = (7 - bit) as u8;
            if x < SCREEN_W {
                proof {
                    lemma_pixel_code(low, high, b);
                }
                let color_index: u8 = ((high >> b) & 1) << 1 | ((low >> b) & 1);
                let color = get_color_from_palette(color_index, self.registers.bgp, &self.palette);
                self.framebuffer.set_pixel(x, ly, color);
                proof {
                    lemma_pixel_write_is_paint(before, row, x as int, color);
                    lemma_paint_merge(
                        data0,
                        row,
                        Seq::new(
                            SCREEN_W as nat,
                            |j: int| if j < tile_x * 8 + bit { cells[j] } else { None },
                        ),
                        single(x as int, Some(color)),
                    );
                }
            }
            bit += 1;
            assert(Seq::new(
                SCREEN_W as nat,
                |j: int| if j < tile_x * 8 + bit { cells[j] } else { None },
            ) =~= if x < SCREEN_W {
                merge(
                    Seq::new(
                        SCREEN_W as nat,
                        |j: int| if j < tile_x * 8 + (bit - 1) { cells[j] } else { None },
                    ),
                    single(x as int, cells[x as int]),
                )
            } else {
                Seq::new(
                    SCREEN_W as nat,
                    |j: int| if j < tile_x * 8 + (bit - 1) { cells[j] } else { None },
                )
            });
        }
        assert(Seq::new(
            SCREEN_W as nat,
            |x: int| if x < tile_x * 8 + bit { cells[x] } else { None },
        ) =~= Seq::new(
            SCREEN_W as nat,
            |x: int| if x < tile_x * 8 + 8 { cells[x] } else { None },
        ));
    }
}

impl GPU {
    /// The count of sprites covering the line never falls.
    pub proof fn lemma_sprites_before_mono(self, a: int, b: int)
        requires
            0 <= a <= b,
        ensures
            self.sprites_before(a) <= self.sprites_before(b),
        decreases b - a,
    {
        if a < b {
            self.lemma_sprites_before_mono(a, b - 1);
        }
    }

    /// Each drawn sprite is painted over those before it; a sprite that is
    /// not drawn leaves the row as it was.
    pub proof fn lemma_sprite_row_step(self, mode: GPUMode, s: int)
        requires
            0 <= s,
        ensures
            self.drawn(s) ==> self.sprite_row(mode, s + 1) == merge(
                self.sprite_row(mode, s),
                self.sprite_cells(mode, s),
            ),
            !self.drawn(s) ==> self.sprite_row(mode, s + 1) == self.sprite_row(mode, s),
    {
        if self.drawn(s) {
            assert(self.sprite_row(mode, s + 1) =~= merge(
                self.sprite_row(mode, s),
                self.sprite_cells(mode, s),
            ));
        } else {
            assert(self.sprite_row(mode, s + 1) =~= self.sprite_row(mode, s));
        }
    }

    /// At most ten sprites are drawn on a line: once ten sprites before `s`
    /// cover it, the sprites from `s` on change nothing.
    pub proof fn lemma_sprite_row_saturated(self, mode: GPUMode, s: int, n: int)
        requires
            0 <= s <= n,
            self.sprites_before(s) >= 10,
        ensures
            self.sprite_row(mode, n) == self.sprite_row(mode, s),
        decreases n - s,
    {
        if s < n {
            self.lemma_sprite_row_saturated(mode, s, n - 1);
            self.lemma_sprites_before_mono(s, n - 1);
            self.lemma_sprite_row_step(mode, n - 1);
        }
    }

    fn render_window(&mut self)
        requires
            row_fits(old(self).framebuffer.width, old(self).registers.ly as int),
        ensures
            final(self).same_but_pixels(*old(self)),
            final(self).framebuffer.data@ == paint(
                old(self).framebuffer.data@,
                old(self).row_start(),
                old(self).window_row(old(self).mode),
            ),
    {
        let ghost data0 = self.framebuffer.data@;
        let ghost row = self.row_start();
        let ghost cells = self.window_row(self.mode);
        if self.registers.lcdc & 0x20 == 0 {
            proof {
                assert(cells =~= blank_row());
                lemma_paint_blank(data0, row);
            }
            return ;  // window disabled
        }
        let wy: usize = self.registers.wy as usize;
        let wx: usize = self.registers.wx as usize;
        if (self.registers.ly as usize) < wy || wx >= SCREEN_W + 7 {
            proof {
                assert(cells =~= blank_row());
                lemma_paint_blank(data0, row);
            }
            return ;  // window not visible on this line
        }
        let tile_map_base: usize = if self.registers.lcdc & 0x40 != 0 {
            0x1C00
        } else {
            0x1800
        };
        let signed: bool = self.registers.lcdc & 0x10 == 0;
        let ly: usize = self.registers.ly as usize;
        let line: usize = ly - wy;
        let mut x: usize = 0;
        while x < SCREEN_W
            invariant
                x <= SCREEN_W,
                ly == self.registers.ly,
                wy == self.registers.wy,
                wx == self.registers.wx,
                ly >= wy,
                wx < SCREEN_W + 7,
                line == ly - wy,
                tile_map_base == self::tile_map_base(self.registers.lcdc & 0x40 != 0),
                signed == (self.registers.lcdc & 0x10 == 0),
                self.registers.lcdc & 0x20 != 0,
                row == ly * self.framebuffer.width,
                row_fits(self.framebuffer.width, ly as int),
                self.same_but_pixels(*old(self)),
                cells == old(self).window_row(old(self).mode),
                self.framebuffer.data@ == paint(
                    data0,
                    row,
                    Seq::new(SCREEN_W as nat, |j: int| if j < x { cells[j] } else { None }),
                ),
            decreases SCREEN_W - x,
        {
            let ghost before = self.framebuffer.data@;
            if x + 7 >= wx {
                let pixel_x: usize = x + 7 - wx;
                let pixel_y: usize = line;
                let tile_x: usize = pixel_x / 8;
                let tile_y: usize = pixel_y / 8;
                let tile_index_addr: usize = tile_map_base + tile_y * 32 + tile_x;
                if tile_index_addr < self.vram.len() {
                    let tile_index: u8 = self.vram[tile_index_addr];
                    let line_offset: usize = pixel_y % 8;
                    let (low, high) = self.read_tile_line(tile_index, line_offset as u8, signed);
                    let bit: u8 = (7 - (pixel_x % 8)) as u8;
                    proof {
                        lemma_pixel_code(low, high, bit);
                    }
                    let color_index: u8 = ((high >> bit) & 1) << 1 | ((low >> bit) & 1);
                    let color = get_color_from_palette(
                        color_index,
                        self.registers.bgp,
                        &self.palette,
                    );
                    self.framebuffer.set_pixel(x, ly, color);
                    proof {
                        assert(cells[x as int] == Some(color));
                        lemma_pixel_write_is_paint(before, row, x as int, color);
                        lemma_paint_merge(
                            data0,
                            row,
                            Seq::new(
                                SCREEN_W as nat,
                                |j: int| if j < x { cells[j] } else { None },
                            ),
                            single(x as int, Some(color)),
                        );
                        assert(Seq::new(
                            SCREEN_W as nat,
                            |j: int| if j < x + 1 { cells[j] } else { None },
                        ) =~= merge(
                            Seq::new(
                                SCREEN_W as nat,
                                |j: int| if j < x { cells[j] } else { None },
                            ),
                            single(x as int, Some(color)),
                        ));
                    }
                } else {
                    assert(false);
                }
            } else {
                assert(Seq::new(
                    SCREEN_W as nat,
                    |j: int| if j < x + 1 { cells[j] } else { None },
                ) =~= Seq::new(SCREEN_W as nat, |j: int| if j < x { cells[j] } else { None }));
            }
            x += 1;
        }
        assert(Seq::new(SCREEN_W as nat, |j: int| if j < x { cells[j] } else { None }) =~= cells);
    }
}

/// The part of a sprite's row of pixels that the first `bit` steps of its
/// drawing loop have covered.
pub open spec fn sprite_part(
    cells: Seq<Option<Color>>,
    left: int,
    flip: bool,
    bit: int,
) -> Seq<Option<Color>> {
    Seq::new(
        SCREEN_W as nat,
        |x: int|
            {
                let off = x - left;
                if (flip && 8 - bit <= off < 8) || (!flip && 0 <= off < bit) {
                    cells[x]
                } else {
                    None
                }
            },
    )
}

impl GPU {
    fn render_sprites(&mut self)
        requires
            row_fits(old(self).framebuffer.width, old(self).registers.ly as int),
        ensures
            final(self).same_but_pixels(*old(self)),
            final(self).framebuffer.data@ == paint(
                old(self).framebuffer.data@,
                old(self).row_start(),
                old(self).sprites_row(old(self).mode),
            ),
    {
        let ghost data0 = self.framebuffer.data@;
        let ghost row = self.row_start();
        let ghost mode = self.mode;
        let ghost g: GPU = *self;
        if self.registers.lcdc & 0x02 == 0 {
            proof {
                lemma_paint_blank(data0, row);
            }
            return ;  // sprites disabled
        }
        let sprite_height: usize = if self.registers.lcdc & 0x04 != 0 {
            16
        } else {
            8
        };
        let mut sprites_drawn: usize = 0;
        let mut i: usize = 0;
        proof {
            assert(g.sprite_row(mode, 0) =~= blank_row());
            lemma_paint_blank(data0, row);
        }
        while i < 160
            invariant_except_break
                i % 4 == 0,
                sprites_drawn == g.sprites_before(i as int / 4),
                sprites_drawn < 10,
                self.framebuffer.data@ == paint(data0, row, g.sprite_row(mode, i as int / 4)),
            invariant
                i <= 160,
                sprite_height == g.sprite_height(),
                mode == self.mode,
                self.registers.lcdc & 0x02 != 0,
                row == self.row_start(),
                row_fits(self.framebuffer.width, self.registers.ly as int),
                self.same_but_pixels(*old(self)),
                g == *old(self),
            ensures
                self.framebuffer.data@ == paint(data0, row, g.sprite_row(mode, 40)),
            decreases 160 - i,
        {
            let ghost s: int = i as int / 4;
            let ghost before = self.framebuffer.data@;
            let y_pos: i32 = self.oam[i] as i32 - 16;
            let x_pos: i32 = self.oam[i + 1] as i32 - 8;
            let tile_index: u8 = self.oam[i + 2];
            let attributes: u8 = self.oam[i + 3];
            let ly: i32 = self.registers.ly as i32;
            assert(4 * s == i);
            if ly >= y_pos && ly < y_pos + sprite_height as i32 {
                let line: u8 = if attributes & 0x40 != 0 {
                    (sprite_height - 1 - (ly - y_pos) as usize) as u8  // vertical flip
                } else {
                    (ly - y_pos) as usize as u8
                };
                // sprites use unsigned tile numbers
                let (low, high) = self.read_tile_line(tile_index, line, false);
                let palette: u8 = if attributes & 0x10 != 0 {
                    self.registers.obp1
                } else {
                    self.registers.obp0
                };
                let flip: bool = attributes & 0x20 != 0;
                let ghost cells = g.sprite_cells(mode, s);
                let mut bit: i32 = 0;
                proof {
                    assert(sprite_part(cells, x_pos as int, flip, 0) =~= blank_row());
                    lemma_paint_blank(before, row);
                }
                while bit < 8
                    invariant
                        0 <= bit <= 8,
                        sprites_drawn < 10,
                        4 * s == i,
                        0 <= s < 40,
                        y_pos == g.sprite_top(s),
                        x_pos == g.sprite_left(s),
                        g.on_line(s),
                        flip == (g.oam@[4 * s + 3] & 0x20 != 0),
                        palette == (if g.oam@[4 * s + 3] & 0x10 != 0 {
                            g.registers.obp1
                        } else {
                            g.registers.obp0
                        }),
                        ly == self.registers.ly,
                        (low, high) == g.tile_line(
                            mode,
                            g.oam@[4 * s + 2],
                            line,
                            false,
                        ),
                        line == (if g.oam@[4 * s + 3] & 0x40 != 0 {
                            g.sprite_height() - 1 - (g.registers.ly - g.sprite_top(s))
                        } else {
                            g.registers.ly - g.sprite_top(s)
                        }) as u8,
                        cells == g.sprite_cells(mode, s),
                        mode == self.mode,
                        row == self.row_start(),
                        row_fits(self.framebuffer.width, self.registers.ly as int),
                        self.same_but_pixels(*old(self)),
                g == *old(self),
                        self.framebuffer.data@ == paint(
                            before,
                            row,
                            sprite_part(cells, x_pos as int, flip, bit as int),
                        ),
                    decreases 8 - bit,
                {
                    let ghost mid = self.framebuffer.data@;
                    let x: i32 = x_pos + (if flip {
                        7 - bit
                    } else {
                        bit
                    });
                    let b: u8 = (7 - bit) as u8;
                    proof {
                        lemma_pixel_code(low, high, b);
                    }
                    if x >= 0 && x < SCREEN_W as i32 && sprites_drawn < 10 {
                        let color_index: u8 = ((high >> b) & 1) << 1 | ((low >> b) & 1);
                        if color_index != 0 {  // colour 0 is transparent
                            let color = get_color_from_palette(color_index, palette, &self.palette);
                            self.framebuffer.set_pixel(x as usize, ly as usize, color);
                            proof {
                                assert(cells[x as int] == Some(color));
                                lemma_pixel_write_is_paint(mid, row, x as int, color);
                                lemma_paint_merge(
                                    before,
                                    row,
                                    sprite_part(cells, x_pos as int, flip, bit as int),
                                    single(x as int, Some(color)),
                                );
                                assert(sprite_part(cells, x_pos as int, flip, bit + 1) =~= merge(
                                    sprite_part(cells, x_pos as int, flip, bit as int),
                                    single(x as int, Some(color)),
                                ));
                            }
                        } else {
                            assert(cells[x as int] is None);
                            assert(sprite_part(cells, x_pos as int, flip, bit + 1) =~= sprite_part(
                                cells,
                                x_pos as int,
                                flip,
                                bit as int,
                            ));
                        }
                    } else {
                        assert(sprite_part(cells, x_pos as int, flip, bit + 1) =~= sprite_part(
                            cells,
                            x_pos as int,
                            flip,
                            bit as int,
                        ));
                    }
                    bit += 1;
                }
                proof {
                    assert(sprite_part(cells, x_pos as int, flip, 8) =~= cells);
                    assert(g.drawn(s));
                    g.lemma_sprite_row_step(mode, s);
                    lemma_paint_merge(data0, row, g.sprite_row(mode, s), cells);
                }
                sprites_drawn += 1;
            } else {
                proof {
                    assert(!g.on_line(s));
                    g.lemma_sprite_row_step(mode, s);
                }
            }
            assert((i + 4) as int / 4 == s + 1);
            if sprites_drawn >= 10 {
                proof {
                    g.lemma_sprite_row_saturated(mode, s + 1, 40);
                }
                break ;  // at most ten sprites on a line
            }
            i += 4;
        }
    }
}

impl GPU {
    proof fn lemma_same_sprites(self, other: GPU, mode: GPUMode, n: int)
        requires
            self.same_picture_inputs(other),
        ensures
            self.sprites_before(n) == other.sprites_before(n),
            self.sprite_row(mode, n) == other.sprite_row(mode, n),
        decreases n,
    {
        if n > 0 {
            self.lemma_same_sprites(other, mode, n - 1);
            assert forall|x: int| 0 <= x < SCREEN_W implies self.sprite_layer(mode, n, x)
                == other.sprite_layer(mode, n, x) by {
                assert(self.sprite_row(mode, n - 1)[x] == other.sprite_row(mode, n - 1)[x]);
                assert(self.sprite_pixel(mode, n - 1, x) == other.sprite_pixel(mode, n - 1, x));
            }
        }
        assert(self.sprite_row(mode, n) =~= other.sprite_row(mode, n));
    }

    /// The rendering of a line reads no pixel of the frame buffer, nor the
    /// timing state (the mode it reads in is given).
    proof fn lemma_same_colors(self, other: GPU, mode: GPUMode)
        requires
            self.same_picture_inputs(other),
        ensures
            self.scanline_colors(mode) == other.scanline_colors(mode),
            self.bg_row(mode) == other.bg_row(mode),
            self.window_row(mode) == other.window_row(mode),
            self.sprites_row(mode) == other.sprites_row(mode),
    {
        self.lemma_same_sprites(other, mode, 40);
        assert(self.bg_row(mode) =~= other.bg_row(mode));
        assert(self.window_row(mode) =~= other.window_row(mode));
    }

    fn render_scanline(&mut self)
        requires
            row_fits(old(self).framebuffer.width, old(self).registers.ly as int),
        ensures
            final(self).same_but_pixels(*old(self)),
            final(self).framebuffer.data@ == old(self).rendered(old(self).mode),
    {
        let ghost g: GPU = *self;
        let ghost mode = self.mode;
        let ghost data0 = self.framebuffer.data@;
        let ghost row = self.row_start();
        let ghost bg = g.bg_row(mode);
        let ly: usize = self.registers.ly as usize;
        let scy: usize = self.registers.scy as usize;
        let scx: usize = self.registers.scx as usize;
        let lcdc: u8 = self.registers.lcdc;
        if lcdc & 0x80 == 0 {
            return ;  // LCD disabled
        }
        if lcdc & 0x01 != 0 {  // background enabled
            let tile_map_base: usize = if lcdc & 0x08 != 0 {
                0x1C00
            } else {
                0x1800
            };
            let signed: bool = lcdc & 0x10 == 0;
            let mut tile_x: usize = 0;
            proof {
                assert(Seq::new(
                    SCREEN_W as nat,
                    |x: int| if x < 0 { bg[x] } else { None },
                ) =~= blank_row());
                lemma_paint_blank(data0, row);
            }
            while tile_x < SCREEN_W / 8 + 1
                invariant
                    tile_x <= SCREEN_W / 8 + 1,
                    ly == self.registers.ly,
                    scy == self.registers.scy,
                    scx == self.registers.scx,
                    lcdc == self.registers.lcdc,
                    lcdc & 0x01 != 0,
                    tile_map_base == self::tile_map_base(lcdc & 0x08 != 0),
                    signed == (lcdc & 0x10 == 0),
                    mode == self.mode,
                    row == self.row_start(),
                    row_fits(self.framebuffer.width, ly as int),
                    self.same_but_pixels(g),
                    g == *old(self),
                    bg == g.bg_row(mode),
                    self.framebuffer.data@ == paint(
                        data0,
                        row,
                        Seq::new(SCREEN_W as nat, |x: int| if x < tile_x * 8 { bg[x] } else { None }),
                    ),
                decreases SCREEN_W / 8 + 1 - tile_x,
            {
                let pixel_x: usize = (tile_x * 8 + scx) % 256;
                let pixel_y: usize = (ly + scy) % 256;
                let tile_y: usize = pixel_y / 8;
                let tile_index_addr: usize = tile_map_base + tile_y * 32 + (pixel_x / 8);
                if tile_index_addr < self.vram.len() {
                    let tile_index: u8 = self.vram[tile_index_addr];
                    let ghost before = self.framebuffer.data@;
                    let ghost cells = self.tile_cells(tile_index, tile_x as int, signed);
                    self.render_tile(tile_index, tile_x, tile_y, signed);
                    proof {
                        let upto = Seq::new(
                            SCREEN_W as nat,
                            |x: int| if x < tile_x * 8 { bg[x] } else { None },
                        );
                        lemma_paint_merge(data0, row, upto, cells);
                        assert forall|x: int| tile_x * 8 <= x < tile_x * 8 + 8 && x < SCREEN_W implies #[trigger] cells[x]
                            == bg[x] by {
                            assert(x / 8 == tile_x);
                            assert(x % 8 == x - tile_x * 8);
                        }
                        assert(Seq::new(
                            SCREEN_W as nat,
                            |x: int| if x < (tile_x + 1) * 8 { bg[x] } else { None },
                        ) =~= merge(upto, cells));
                    }
                } else {
                    assert(false);
                }
                tile_x += 1;
            }
            assert(Seq::new(
                SCREEN_W as nat,
                |x: int| if x < tile_x * 8 { bg[x] } else { None },
            ) =~= bg);
        } else {
            proof {
                assert(bg =~= blank_row());
                lemma_paint_blank(data0, row);
            }
        }
        let ghost after_bg = *self;
        self.render_window();
        let ghost after_window = *self;
        self.render_sprites();
        proof {
            after_bg.lemma_same_colors(g, mode);
            after_window.lemma_same_colors(g, mode);
            lemma_paint_merge(data0, row, bg, g.window_row(mode));
            lemma_paint_merge(
                data0,
                row,
                merge(bg, g.window_row(mode)),
                g.sprites_row(mode),
            );
        }
    }
}

impl GPU {
    /// The dot counter reaches the end of the current mode.
    pub open spec fn reaches_end(self, cycles: u32) -> bool {
        self.mode_clock + cycles >= mode_length(self.mode)
    }

    /// The step ends pixel transfer, and so draws the current line.
    pub open spec fn renders(self, cycles: u32) -> bool {
        self.mode == GPUMode::Transfer && self.reaches_end(cycles)
    }

    /// The step moves on to the next line.
    pub open spec fn advances_line(self, cycles: u32) -> bool {
        (self.mode == GPUMode::HBlank || self.mode == GPUMode::VBlank) && self.reaches_end(cycles)
    }

    /// The inputs on which a step does its work without overflow.
    pub open spec fn can_step(self, cycles: u32) -> bool {
        &&& self.mode_clock + cycles <= u32::MAX
        &&& self.advances_line(cycles) ==> self.current_line < 255
        &&& self.renders(cycles) ==> row_fits(self.framebuffer.width, self.registers.ly as int)
    }

    /// `next` is the unit after `self` has run `cycles` dots.
    pub open spec fn stepped(self, next: GPU, cycles: u32) -> bool {
        let (m, c, l) = timing_step(
            self.mode,
            self.mode_clock + cycles,
            self.current_line as int,
        );
        let ly: u8 = if self.advances_line(cycles) {
            l as u8
        } else {
            self.registers.ly
        };
        &&& next.mode == m
        &&& next.mode_clock == c
        &&& next.current_line == l
        &&& next.registers == GPURegisters {
            ly: ly,
            stat: stat_value(self.registers.stat, m, ly, self.registers.lyc),
            ..self.registers
        }
        &&& next.vram == self.vram
        &&& next.oam == self.oam
        &&& next.palette == self.palette
        &&& next.framebuffer.width == self.framebuffer.width
        &&& next.framebuffer.height == self.framebuffer.height
        &&& next.framebuffer.data@ == if self.renders(cycles) {
            self.rendered(GPUMode::HBlank)
        } else {
            self.framebuffer.data@
        }
    }

    /// The interrupt bits that the unit raises in its present state.
    pub open spec fn interrupts(self) -> u8 {
        interrupt_bits(self.mode, self.registers.stat, self.registers.ly, self.registers.lyc)
    }

    /// A state the unit reaches from power-on: its timing is in order, LY
    /// shows the current line, and every line's pixels fit the index type.
    pub open spec fn wf(self) -> bool {
        &&& timing_ok(self.mode, self.mode_clock as int, self.current_line as int)
        &&& self.registers.ly == self.current_line
        &&& row_fits(self.framebuffer.width, 153)
    }

    pub fn new() -> (gpu: Self)
        ensures
            gpu.framebuffer.width == SCREEN_W,
            gpu.framebuffer.height == SCREEN_H,
            gpu.framebuffer.data@ == Seq::new((SCREEN_W * SCREEN_H * 3) as nat, |i: int| 0u8),
            gpu.vram@ == Seq::new(VRAM_SIZE as nat, |i: int| 0u8),
            gpu.oam@ == Seq::new(OAM_SIZE as nat, |i: int| 0u8),
            gpu.current_line == 0,
            gpu.mode == GPUMode::OAM,
            gpu.mode_clock == 0,
            gpu.registers == (GPURegisters {
                lcdc: 0x91,
                stat: 0x00,
                scy: 0,
                scx: 0,
                ly: 0,
                lyc: 0,
                bgp: 0xFC,
                obp0: 0xFF,
                obp1: 0xFF,
                wy: 0,
                wx: 0,
            }),
            gpu.palette.0@ == seq![
                Color(255, 255, 255),
                Color(192, 192, 192),
                Color(96, 96, 96),
                Color(0, 0, 0),
            ],
            gpu.wf(),
    {
        let gpu = GPU {
            framebuffer: FrameBuffer::new(160, 144),
            vram: [0u8; 0x2000],
            oam: [0u8; 0xA0],
            current_line: 0,
            mode: GPUMode::OAM,
            mode_clock: 0,
            registers: GPURegisters {
                lcdc: 0x91,
                stat: 0x00,
                scy: 0,
                scx: 0,
                ly: 0,
                lyc: 0,
                bgp: 0xFC,
                obp0: 0xFF,
                obp1: 0xFF,
                wy: 0,
                wx: 0,
            },
            palette: Palette(
                [
                    Color(255, 255, 255),  // white
                    Color(192, 192, 192),  // light grey
                    Color(96, 96, 96),  // dark grey
                    Color(0, 0, 0),  // black
                ],
            ),
        };
        assert(gpu.vram@ =~= Seq::new(VRAM_SIZE as nat, |i: int| 0u8));
        assert(gpu.oam@ =~= Seq::new(OAM_SIZE as nat, |i: int| 0u8));
        assert(gpu.palette.0@ =~= seq![
            Color(255, 255, 255),
            Color(192, 192, 192),
            Color(96, 96, 96),
            Color(0, 0, 0),
        ]);
        gpu
    }

    pub fn step(&mut self, cycles: u32) -> (interrupts: u8)
        requires
            old(self).can_step(cycles),
        ensures
            old(self).stepped(*final(self), cycles),
            interrupts == final(self).interrupts(),
    {
        let ghost g: GPU = *self;
        self.mode_clock += cycles;
        match self.mode {
            GPUMode::OAM => {
                if self.mode_clock >= 80 {
                    self.mode_clock = 0;
                    self.mode = GPUMode::Transfer;
                }
            },
            GPUMode::Transfer => {
                if self.mode_clock >= 172 {
                    self.mode_clock = 0;
                    self.mode = GPUMode::HBlank;
                    let ghost mid: GPU = *self;
                    self.render_scanline();
                    proof {
                        mid.lemma_same_colors(g, GPUMode::HBlank);
                    }
                }
            },
            GPUMode::HBlank => {
                if self.mode_clock >= 204 {
                    self.mode_clock = 0;
                    self.current_line += 1;
                    self.registers.ly = self.current_line;
                    if self.current_line == 144 {
                        self.mode = GPUMode::VBlank;
                    } else {
                        self.mode = GPUMode::OAM;
                    }
                }
            },
            GPUMode::VBlank => {
                if self.mode_clock >= 456 {
                    self.mode_clock = 0;
                    self.current_line += 1;
                    self.registers.ly = self.current_line;
                    if self.current_line > 153 {
                        self.mode = GPUMode::OAM;
                        self.current_line = 0;
                        self.registers.ly = 0;
                    }
                }
            },
        }
        self.update_stat();
        self.check_interrupts()
    }

    pub fn set_palette(&mut self, colors: [Color; 4])
        ensures
            final(self).palette == Palette(colors),
            final(self).same_but_palette(*old(self)),
    {
        self.palette = Palette(colors);
    }

    /// Every field but the palette is as in `other`.
    pub open spec fn same_but_palette(self, other: GPU) -> bool {
        &&& self.vram == other.vram
        &&& self.oam == other.oam
        &&& self.current_line == other.current_line
        &&& self.mode == other.mode
        &&& self.mode_clock == other.mode_clock
        &&& self.registers == other.registers
        &&& self.framebuffer == other.framebuffer
    }

    pub fn write_oam(&mut self, address: usize, value: u8)
        ensures
            final(self).oam@ == oam_write(old(self).oam@, old(self).mode, address, value),
            final(self).vram == old(self).vram,
            final(self).current_line == old(self).current_line,
            final(self).mode == old(self).mode,
            final(self).mode_clock == old(self).mode_clock,
            final(self).registers == old(self).registers,
            final(self).palette == old(self).palette,
            final(self).framebuffer == old(self).framebuffer,
    {
        if address < 0xA0 && self.mode != GPUMode::Transfer {
            self.oam[address] = value;
        }
    }

    pub fn read_oam(&self, address: usize) -> (r: Option<u8>)
        ensures
            r == oam_read(self.oam@, self.mode, address),
    {
        if address < 0xA0 && self.mode != GPUMode::Transfer {
            Some(self.oam[address])
        } else {
            None
        }
    }

    fn update_stat(&mut self)
        ensures
            final(self).registers == (GPURegisters {
                stat: stat_value(
                    old(self).registers.stat,
                    old(self).mode,
                    old(self).registers.ly,
                    old(self).registers.lyc,
                ),
                ..old(self).registers
            }),
            final(self).vram == old(self).vram,
            final(self).oam == old(self).oam,
            final(self).current_line == old(self).current_line,
            final(self).mode == old(self).mode,
            final(self).mode_clock == old(self).mode_clock,
            final(self).palette == old(self).palette,
            final(self).framebuffer == old(self).framebuffer,
    {
        let stat0: u8 = self.registers.stat;
        let m: u8 = match self.mode {
            GPUMode::HBlank => 0,
            GPUMode::VBlank => 1,
            GPUMode::OAM => 2,
            GPUMode::Transfer => 3,
        };
        self.registers.stat = (self.registers.stat & 0xFC) | m;
        if self.registers.ly == self.registers.lyc {
            self.registers.stat |= 0x04;
        } else {
            self.registers.stat &= !0x04u8;
        }
        proof {
            assert(((stat0 & 0xFC) | m) | 4u8 == (stat0 - stat0 % 8) + 4 + m) by (bit_vector)
                requires
                    m <= 3,
            ;
            assert(((stat0 & 0xFC) | m) & !4u8 == (stat0 - stat0 % 8) + m) by (bit_vector)
                requires
                    m <= 3,
            ;
        }
    }

    pub fn check_interrupts(&self) -> (interrupts: u8)
        ensures
            interrupts == self.interrupts(),
    {
        let mut interrupts: u8 = 0;
        if self.mode == GPUMode::VBlank && self.registers.stat & 0x10 != 0 {
            interrupts |= 0x01;  // vertical blank
        }
        proof {
            assert(0u8 | 1u8 == 1u8) by (bit_vector);
            assert(forall|v: u8| v <= 1 ==> #[trigger] (v | 2u8) == v + 2) by (bit_vector);
            assert(forall|v: u8| v == 2 || v == 3 ==> #[trigger] (v | 2u8) == v) by (bit_vector);
        }
        if self.registers.ly == self.registers.lyc && self.registers.stat & 0x40 != 0 {
            interrupts |= 0x02;  // LY = LYC
        }
        if self.mode == GPUMode::HBlank && self.registers.stat & 0x08 != 0 {
            interrupts |= 0x02;  // horizontal blank
        }
        if self.mode == GPUMode::OAM && self.registers.stat & 0x20 != 0 {
            interrupts |= 0x02;  // OAM search
        }
        interrupts
    }
}

proof fn lemma_row_fits_mono(width: usize, y: int, z: int)
    requires
        0 <= y <= z,
        row_fits(width, z),
    ensures
        row_fits(width, y),
{
    assert(y * width <= z * width) by (nonlinear_arith)
        requires
            0 <= y <= z,
            width >= 0,
    ;
}

/// A unit in a state reached from power-on can take any step that does not
/// overflow its dot counter, and is in such a state again afterwards.
pub proof fn lemma_step_keeps_wf(gpu: GPU, next: GPU, cycles: u32)
    requires
        gpu.wf(),
        gpu.mode_clock + cycles <= u32::MAX,
    ensures
        gpu.can_step(cycles),
        gpu.stepped(next, cycles) ==> next.wf(),
{
    lemma_row_fits_mono(gpu.framebuffer.width, gpu.registers.ly as int, 153);
    lemma_timing_step_keeps_timing_ok(
        gpu.mode,
        gpu.mode_clock as int,
        gpu.current_line as int,
        cycles as int,
    );
}

/// Sprite attribute memory is open to the CPU except during pixel transfer.
pub open spec fn oam_open(mode: GPUMode, address: usize) -> bool {
    address < OAM_SIZE && mode != GPUMode::Transfer
}

/// What the CPU reads from sprite attribute memory `oam` at `address`.
pub open spec fn oam_read(oam: Seq<u8>, mode: GPUMode, address: usize) -> Option<u8> {
    if oam_open(mode, address) {
        Some(oam[address as int])
    } else {
        None
    }
}

/// Sprite attribute memory after the CPU writes `value` at `address`.
pub open spec fn oam_write(oam: Seq<u8>, mode: GPUMode, address: usize, value: u8) -> Seq<u8> {
    if oam_open(mode, address) {
        oam.update(address as int, value)
    } else {
        oam
    }
}

/// Sprite attribute memory is closed only during pixel transfer: in OAM
/// search, horizontal blank and vertical blank a byte written at an address
/// below 0xA0 is read back and no other byte changes; during pixel transfer
/// writes are lost and reads fail; addresses from 0xA0 on are never open.
pub proof fn lemma_oam_roundtrip(
    oam: Seq<u8>,
    mode: GPUMode,
    address: usize,
    other: usize,
    value: u8,
)
    requires
        oam.len() == OAM_SIZE,
    ensures
        (mode == GPUMode::OAM || mode == GPUMode::HBlank || mode == GPUMode::VBlank) && address
            < 0xA0 ==> oam_read(oam_write(oam, mode, address, value), mode, address) == Some(
            value,
        ),
        (mode == GPUMode::OAM || mode == GPUMode::HBlank || mode == GPUMode::VBlank) && other
            < 0xA0 && other != address ==> oam_read(oam_write(oam, mode, address, value), mode, other)
            == Some(oam[other as int]),
        mode == GPUMode::Transfer ==> oam_read(oam, mode, address) is None && oam_write(
            oam,
            mode,
            address,
            value,
        ) == oam,
        address >= 0xA0 ==> oam_read(oam, mode, address) is None && oam_write(
            oam,
            mode,
            address,
            value,
        ) == oam,
{
}

/// Drawing a line touches only the bytes of that line's pixels.
pub proof fn lemma_paint_stays_in_row(data: Seq<u8>, row: int, colors: Seq<Option<Color>>, k: int)
    requires
        0 <= k < data.len(),
        !(row <= k / 3 < row + SCREEN_W),
    ensures
        paint(data, row, colors)[k] == data[k],
        paint(data, row, colors).len() == data.len(),
{
}

/// The red, green and blue bytes of pixel `(x, y)` of an RGB buffer that is
/// `width` pixels wide.
pub fn pixel_rgb(buffer: &Vec<u8>, width: usize, x: usize, y: usize) -> (rgb: (u8, u8, u8))
    requires
        (y * width + x) * 3 + 2 < buffer.len(),
    ensures
        rgb == (
            buffer@[(y * width + x) * 3],
            buffer@[(y * width + x) * 3 + 1],
            buffer@[(y * width + x) * 3 + 2],
        ),
{
    let i: usize = (y * width + x) * 3;
    (buffer[i], buffer[i + 1], buffer[i + 2])
}


/// The address in video RAM of the first byte of tile `tile`: tile data at
/// 0x0000 for unsigned numbers; for signed ones tiles 0 to 127 at 0x1000 on,
/// and 0x80 to 0xFF (-128 to -1) at 0x0800 to 0x0FF0, just below 0x1000.
pub open spec fn tile_address(tile: u8, unsigned_tiles: bool) -> int {
    if unsigned_tiles || tile >= 128 {
        tile * 16
    } else {
        0x1000 + tile * 16
    }
}

proof fn lemma_plane_bits(low: u8, high: u8, b: u8)
    ensures
        (high >> b) & 1u8 <= 1,
        (low >> b) & 1u8 <= 1,
{
    assert((high >> b) & 1u8 <= 1 && (low >> b) & 1u8 <= 1) by (bit_vector);
}

/// The background pixel `x` of line LY comes from the tile that the selected
/// map holds at row ((LY + SCY) mod 256) / 8 and column
/// (((x / 8) * 8 + SCX) mod 256) / 8; it shows row LY mod 8 of that tile,
/// bit 7 - x mod 8 of its two planes giving the colour number, which BGP
/// turns into a shade of the palette.
pub proof fn lemma_background_pixel(g: GPU, mode: GPUMode, x: int)
    requires
        0 <= x < SCREEN_W,
        g.registers.lcdc & 0x01 != 0,
        mode != GPUMode::Transfer,
    ensures
        ({
            let r = g.registers;
            let map_row = ((r.ly + r.scy) % 256) / 8;
            let map_col = (((x / 8) * 8 + r.scx) % 256) / 8;
            let map = if r.lcdc & 0x08 != 0 {
                0x1C00int
            } else {
                0x1800int
            };
            let tile = g.vram@[map + map_row * 32 + map_col];
            let at = tile_address(tile, r.lcdc & 0x10 != 0) + (r.ly % 8) * 2;
            let low = g.vram@[at];
            let high = g.vram@[at + 1];
            let b = (7 - x % 8) as u8;
            let code = 2 * ((high >> b) & 1u8) + ((low >> b) & 1u8);
            let shade = (r.bgp >> ((2 * code) as u8)) & 3u8;
            g.bg_pixel(mode, x) == Some(g.palette.0@[shade as int])
        }),
{
    let t = g.vram@[tile_map_base(g.registers.lcdc & 0x08 != 0) + (((g.registers.ly
        + g.registers.scy) % 256) / 8) * 32 + ((((x / 8) * 8 + g.registers.scx) % 256) / 8)];
    lemma_signed_tile_address(t);
    let at = tile_address(t, g.registers.lcdc & 0x10 != 0) + (g.registers.ly % 8) * 2;
    assert(at + 1 < VRAM_SIZE);
    lemma_plane_bits(g.vram@[at], g.vram@[at + 1], (7 - x % 8) as u8);
}

proof fn lemma_signed_tile_address(t: u8)
    ensures
        0x1000 + signed_tile(t) * 16 == tile_address(t, false),
        tile_address(t, false) <= 0x17F0,
        tile_address(t, true) <= 0x0FF0,
{
}

/// Scrolling the background down by eight lines (SCY + 8) shows on line L
/// what line L + 8 showed before.
pub proof fn lemma_background_scroll(g1: GPU, g2: GPU, mode: GPUMode, x: int)
    requires
        0 <= x < SCREEN_W,
        g1.vram == g2.vram,
        g1.palette == g2.palette,
        g1.registers.lcdc == g2.registers.lcdc,
        g1.registers.scx == g2.registers.scx,
        g1.registers.bgp == g2.registers.bgp,
        g2.registers.scy == (g1.registers.scy + 8) % 256,
        g1.registers.ly == g2.registers.ly + 8,
    ensures
        g2.bg_pixel(mode, x) == g1.bg_pixel(mode, x),
{
    assert((g2.registers.ly + g2.registers.scy) % 256 == (g1.registers.ly + g1.registers.scy)
        % 256);
    assert(g2.registers.ly % 8 == g1.registers.ly % 8);
}

/// With the window and sprites off, the drawn line shows the background:
/// each of the three bytes of pixel `x` of line LY is that of the
/// background colour, or is kept where the background is off.
pub proof fn lemma_line_shows_background(g: GPU, mode: GPUMode, x: int, j: int)
    requires
        0 <= x < SCREEN_W,
        0 <= j < 3,
        g.registers.lcdc & 0x80 != 0,
        g.registers.lcdc & 0x20 == 0,
        g.registers.lcdc & 0x02 == 0,
        (g.row_start() + x) * 3 + 2 < g.framebuffer.data@.len(),
    ensures
        g.rendered(mode)[(g.row_start() + x) * 3 + j] == match g.bg_pixel(mode, x) {
            Some(c) => color_byte(c, j),
            None => g.framebuffer.data@[(g.row_start() + x) * 3 + j],
        },
{
    let k = (g.row_start() + x) * 3 + j;
    assert(k / 3 == g.row_start() + x);
    assert(k % 3 == j);
    assert(g.window_row(mode)[x] is None);
}

/// Where sprite `s` covers pixel `x` of line LY, which is line `k` of the
/// sprite: it shows tile row `k`, or row `height - 1 - k` when attribute bit
/// 6 flips it vertically; column `x - left`, or `7 - (x - left)` when bit 5
/// flips it horizontally; colour 0 is transparent, and OBP0 or OBP1 (bit 4)
/// gives the shade of the others.
pub proof fn lemma_sprite_pixel(g: GPU, mode: GPUMode, s: int, x: int)
    requires
        0 <= s < 40,
        mode != GPUMode::Transfer,
        g.on_line(s),
        0 <= x - (g.oam@[4 * s + 1] - 8) < 8,
    ensures
        ({
            let attributes = g.oam@[4 * s + 3];
            let height = if g.registers.lcdc & 0x04 != 0 {
                16int
            } else {
                8
            };
            let k = g.registers.ly - (g.oam@[4 * s] - 16);
            let row = if attributes & 0x40 != 0 {
                height - 1 - k
            } else {
                k
            };
            let off = x - (g.oam@[4 * s + 1] - 8);
            let col = if attributes & 0x20 != 0 {
                7 - off
            } else {
                off
            };
            let at = g.oam@[4 * s + 2] * 16 + row * 2;
            let b = (7 - col) as u8;
            let code = 2 * ((g.vram@[at + 1] >> b) & 1u8) + ((g.vram@[at] >> b) & 1u8);
            let palette = if attributes & 0x10 != 0 {
                g.registers.obp1
            } else {
                g.registers.obp0
            };
            g.sprite_pixel(mode, s, x) == if code == 0 {
                None
            } else {
                Some(g.palette.0@[((palette >> ((2 * code) as u8)) & 3u8) as int])
            }
        }),
{
    let attributes = g.oam@[4 * s + 3];
    let k = g.registers.ly - g.sprite_top(s);
    let row = if attributes & 0x40 != 0 {
        g.sprite_height() - 1 - k
    } else {
        k
    };
    let off = x - g.sprite_left(s);
    let col = if attributes & 0x20 != 0 {
        7 - off
    } else {
        off
    };
    let at = g.oam@[4 * s + 2] * 16 + row * 2;
    assert(0 <= row < 16);
    assert(at + 1 < VRAM_SIZE);
    lemma_plane_bits(g.vram@[at], g.vram@[at + 1], (7 - col) as u8);
}

/// Attribute bit 6 mirrors a sprite vertically: with the bit set, line `k`
/// of the sprite looks as line `height - 1 - k` of the same sprite without it.
pub proof fn lemma_sprite_vertical_flip(g1: GPU, g2: GPU, mode: GPUMode, s: int, x: int, k: int)
    requires
        0 <= s < 40,
        g1.vram == g2.vram,
        g1.palette == g2.palette,
        g1.registers.lcdc == g2.registers.lcdc,
        g1.registers.obp0 == g2.registers.obp0,
        g1.registers.obp1 == g2.registers.obp1,
        g1.oam@[4 * s] == g2.oam@[4 * s],
        g1.oam@[4 * s + 1] == g2.oam@[4 * s + 1],
        g1.oam@[4 * s + 2] == g2.oam@[4 * s + 2],
        g1.oam@[4 * s + 3] == g2.oam@[4 * s + 3] | 0x40,
        g2.oam@[4 * s + 3] & 0x40 == 0,
        0 <= k < g1.sprite_height(),
        g1.registers.ly == g1.sprite_top(s) + k,
        g2.registers.ly == g2.sprite_top(s) + g2.sprite_height() - 1 - k,
    ensures
        g1.sprite_pixel(mode, s, x) == g2.sprite_pixel(mode, s, x),
{
    let a2: u8 = g2.oam@[4 * s + 3];
    assert((a2 | 0x40) & 0x40 != 0 && ((a2 | 0x40) & 0x20 == 0) == (a2 & 0x20 == 0) && ((a2
        | 0x40) & 0x10 == 0) == (a2 & 0x10 == 0)) by (bit_vector);
}


/// The palette register holds four two-bit shades: colour 0 in bits 0-1,
/// colour 1 in bits 2-3, colour 2 in bits 4-5, colour 3 in bits 6-7.
pub proof fn lemma_palette_shades(palette: u8, gpu_palette: Palette)
    ensures
        palette_color(0, palette, gpu_palette) == gpu_palette.0@[(palette % 4) as int],
        palette_color(1, palette, gpu_palette) == gpu_palette.0@[((palette / 4) % 4) as int],
        palette_color(2, palette, gpu_palette) == gpu_palette.0@[((palette / 16) % 4) as int],
        palette_color(3, palette, gpu_palette) == gpu_palette.0@[(palette / 64) as int],
{
    assert((palette >> 0u8) & 3 == palette % 4 && (palette >> 2u8) & 3 == (palette / 4) % 4 && (
    palette >> 4u8) & 3 == (palette / 16) % 4 && (palette >> 6u8) & 3 == palette / 64)
        by (bit_vector);
}

/// The window covers pixel `x` of line LY exactly when it is on, LY >= WY,
/// WX < 167 and x >= WX - 7; it then shows window pixel (x + 7 - WX, LY - WY)
/// from the window's tile map (LCDC bit 6), in the BGP palette.
pub proof fn lemma_window_pixel(g: GPU, mode: GPUMode, x: int)
    requires
        0 <= x < SCREEN_W,
        mode != GPUMode::Transfer,
    ensures
        ({
            let r = g.registers;
            let covered = r.lcdc & 0x20 != 0 && r.ly >= r.wy && r.wx < 167 && x + 7 >= r.wx;
            let wxp = x + 7 - r.wx;
            let wyp = r.ly - r.wy;
            let map = if r.lcdc & 0x40 != 0 {
                0x1C00int
            } else {
                0x1800int
            };
            let tile = g.vram@[map + (wyp / 8) * 32 + wxp / 8];
            let at = tile_address(tile, r.lcdc & 0x10 != 0) + (wyp % 8) * 2;
            let b = (7 - wxp % 8) as u8;
            let code = 2 * ((g.vram@[at + 1] >> b) & 1u8) + ((g.vram@[at] >> b) & 1u8);
            &&& (g.window_pixel(mode, x) is Some) == covered
            &&& covered ==> g.window_pixel(mode, x) == Some(
                g.palette.0@[((r.bgp >> ((2 * code) as u8)) & 3u8) as int],
            )
        }),
{
    let r = g.registers;
    if r.lcdc & 0x20 != 0 && r.ly >= r.wy && r.wx < 167 && x + 7 >= r.wx {
        let wxp = x + 7 - r.wx;
        let wyp = r.ly - r.wy;
        let t = g.vram@[tile_map_base(r.lcdc & 0x40 != 0) + (wyp / 8) * 32 + wxp / 8];
        lemma_signed_tile_address(t);
        let at = tile_address(t, r.lcdc & 0x10 != 0) + (wyp % 8) * 2;
        lemma_plane_bits(g.vram@[at], g.vram@[at + 1], (7 - wxp % 8) as u8);
    }
}

/// A sprite's count of earlier sprites on the line is at most its number.
proof fn lemma_sprites_before_bound(g: GPU, n: int)
    requires
        0 <= n,
    ensures
        0 <= g.sprites_before(n) <= n,
    decreases n,
{
    if n > 0 {
        lemma_sprites_before_bound(g, n - 1);
    }
}

/// Sprites are taken in OAM order, ten per line: each of sprites 0 to 9 that
/// covers the line is drawn, and when sprites 0 to 9 all cover it no later
/// sprite is.
pub proof fn lemma_ten_sprites_per_line(g: GPU, s: int)
    requires
        0 <= s < 40,
    ensures
        s < 10 && g.on_line(s) ==> g.drawn(s),
        (forall|t: int| 0 <= t < 10 ==> #[trigger] g.on_line(t)) && s >= 10 ==> !g.drawn(s),
{
    lemma_sprites_before_bound(g, s);
    if (forall|t: int| 0 <= t < 10 ==> #[trigger] g.on_line(t)) && s >= 10 {
        lemma_ten_covering(g, 10);
        g.lemma_sprites_before_mono(10, s);
    }
}

proof fn lemma_ten_covering(g: GPU, n: int)
    requires
        0 <= n <= 10,
        forall|t: int| 0 <= t < 10 ==> #[trigger] g.on_line(t),
    ensures
        g.sprites_before(n) == n,
    decreases n,
{
    if n > 0 {
        lemma_ten_covering(g, n - 1);
        assert(g.on_line(n - 1));
    }
}

/// Among the drawn sprites the one later in OAM wins: if sprite `s` is drawn
/// with an opaque pixel at `x` and no later drawn sprite has one there, the
/// line shows sprite `s`'s colour at `x`; if no drawn sprite has one, no
/// sprite colour shows.
pub proof fn lemma_sprite_priority(g: GPU, mode: GPUMode, s: int, x: int, n: int)
    requires
        0 <= s < n <= 40,
        g.drawn(s),
        g.sprite_pixel(mode, s, x) is Some,
        forall|t: int| s < t < n && #[trigger] g.drawn(t) ==> g.sprite_pixel(mode, t, x) is None,
    ensures
        g.sprite_layer(mode, n, x) == g.sprite_pixel(mode, s, x),
    decreases n,
{
    if n - 1 > s {
        assert(g.drawn(n - 1) ==> g.sprite_pixel(mode, n - 1, x) is None);
        lemma_sprite_priority(g, mode, s, x, n - 1);
    }
}

/// Where no drawn sprite has an opaque pixel, no sprite colour shows.
pub proof fn lemma_no_sprite_pixel(g: GPU, mode: GPUMode, x: int, n: int)
    requires
        0 <= n <= 40,
        forall|t: int| 0 <= t < n && #[trigger] g.drawn(t) ==> g.sprite_pixel(mode, t, x) is None,
    ensures
        g.sprite_layer(mode, n, x) is None,
    decreases n,
{
    if n > 0 {
        assert(g.drawn(n - 1) ==> g.sprite_pixel(mode, n - 1, x) is None);
        lemma_no_sprite_pixel(g, mode, x, n - 1);
    }
}

/// A drawn line lasts 456 dots: 80 of OAM search, 172 of pixel transfer
/// and 204 of horizontal blank, after which the next line starts (vertical
/// blank after line 143); a line of vertical blank also lasts 456 dots, and
/// after line 153 the frame starts again at line 0.
pub proof fn lemma_line_timing(line: int)
    requires
        0 <= line <= 153,
    ensures
        timing_step(GPUMode::OAM, 79, line) == (GPUMode::OAM, 79int, line),
        timing_step(GPUMode::OAM, 80, line) == (GPUMode::Transfer, 0int, line),
        timing_step(GPUMode::Transfer, 171, line) == (GPUMode::Transfer, 171int, line),
        timing_step(GPUMode::Transfer, 172, line) == (GPUMode::HBlank, 0int, line),
        timing_step(GPUMode::HBlank, 203, line) == (GPUMode::HBlank, 203int, line),
        line < 143 ==> timing_step(GPUMode::HBlank, 204, line) == (GPUMode::OAM, 0int, line + 1),
        timing_step(GPUMode::HBlank, 204, 143) == (GPUMode::VBlank, 0int, 144int),
        timing_step(GPUMode::VBlank, 455, line) == (GPUMode::VBlank, 455int, line),
        line < 153 ==> timing_step(GPUMode::VBlank, 456, line) == (GPUMode::VBlank, 0int, line
            + 1),
        timing_step(GPUMode::VBlank, 456, 153) == (GPUMode::OAM, 0int, 0int),
{
}

/// STAT after a step: bits 0-1 give the mode (0 horizontal blank, 1
/// vertical blank, 2 OAM search, 3 transfer), bit 2 is set exactly when
/// LY = LYC, and bits 3-7 are kept.
pub proof fn lemma_stat_bits(stat: u8, mode: GPUMode, ly: u8, lyc: u8)
    ensures
        stat_value(stat, mode, ly, lyc) & 0x03 == match mode {
            GPUMode::HBlank => 0u8,
            GPUMode::VBlank => 1u8,
            GPUMode::OAM => 2u8,
            GPUMode::Transfer => 3u8,
        },
        (stat_value(stat, mode, ly, lyc) & 0x04 != 0) == (ly == lyc),
        stat_value(stat, mode, ly, lyc) & 0xF8 == stat & 0xF8,
{
    let m: u8 = mode_number(mode);
    let e: u8 = if ly == lyc { 4u8 } else { 0u8 };
    let v: u8 = stat_value(stat, mode, ly, lyc);
    assert(v == (stat - stat % 8) + e + m);
    assert(v & 0x03 == m && (v & 0x04 != 0) == (e == 4) && v & 0xF8 == stat & 0xF8) by (bit_vector)
        requires
            m <= 3,
            e == 4 || e == 0,
            v == (stat - stat % 8) + e + m,
    ;
}

/// The interrupt request: bit 0 (vertical blank) when in vertical blank
/// with STAT bit 4 set; bit 1 (LCD status) when LY = LYC with STAT bit 6,
/// in horizontal blank with STAT bit 3, or in OAM search with STAT bit 5;
/// no other bit.
pub proof fn lemma_interrupt_bits(mode: GPUMode, stat: u8, ly: u8, lyc: u8)
    ensures
        (interrupt_bits(mode, stat, ly, lyc) & 0x01 != 0) == (mode == GPUMode::VBlank && stat
            & 0x10 != 0),
        (interrupt_bits(mode, stat, ly, lyc) & 0x02 != 0) == ((ly == lyc && stat & 0x40 != 0) || (
        mode == GPUMode::HBlank && stat & 0x08 != 0) || (mode == GPUMode::OAM && stat & 0x20 != 0)),
        interrupt_bits(mode, stat, ly, lyc) < 4,
{
    let v: u8 = interrupt_bits(mode, stat, ly, lyc);
    let a: u8 = if mode == GPUMode::VBlank && stat & 0x10 != 0 { 1u8 } else { 0u8 };
    let b: u8 = if (ly == lyc && stat & 0x40 != 0) || (mode == GPUMode::HBlank && stat & 0x08 != 0)
        || (mode == GPUMode::OAM && stat & 0x20 != 0) {
        2u8
    } else {
        0u8
    };
    assert(v == a + b);
    assert((v & 1 != 0) == (a == 1) && (v & 2 != 0) == (b == 2)) by (bit_vector)
        requires
            a == 1 || a == 0,
            b == 2 || b == 0,
            v == a + b,
    ;
}


/// Setting pixel `(x, y)` of a buffer `width` pixels wide writes red, green
/// and blue to bytes 3·(y·width + x) to 3·(y·width + x) + 2 when they lie
/// in the buffer, and leaves every other byte.
pub proof fn lemma_pixel_write_bytes(data: Seq<u8>, width: int, x: int, y: int, c: Color, k: int)
    requires
        0 <= k < data.len(),
        0 <= x,
        0 <= y,
        0 <= width,
    ensures
        ({
            let i = (y * width + x) * 3;
            &&& pixel_write(data, y * width + x, c).len() == data.len()
            &&& pixel_write(data, y * width + x, c)[k] == if i + 2 < data.len() && k == i {
                c.0
            } else if i + 2 < data.len() && k == i + 1 {
                c.1
            } else if i + 2 < data.len() && k == i + 2 {
                c.2
            } else {
                data[k]
            }
        }),
{
    let p = y * width + x;
    assert(p >= 0) by (nonlinear_arith)
        requires
            0 <= x,
            0 <= y,
            0 <= width,
            p == y * width + x,
    ;
    assert(k / 3 == p <==> (p * 3 <= k < p * 3 + 3));
}


/// A step draws into the frame buffer only when it ends pixel transfer (the
/// dot counter of the transfer reaching 172); it then draws line LY, with
/// video RAM read as in horizontal blank, and changes no byte outside that
/// line. Every other step leaves the frame buffer as it was.
pub proof fn lemma_step_drawing(g: GPU, next: GPU, cycles: u32, k: int)
    requires
        g.stepped(next, cycles),
        0 <= k < g.framebuffer.data@.len(),
    ensures
        !(g.mode == GPUMode::Transfer && g.mode_clock + cycles >= 172) ==> next.framebuffer.data@
            == g.framebuffer.data@,
        g.mode == GPUMode::Transfer && g.mode_clock + cycles >= 172 ==> next.framebuffer.data@
            == g.rendered(GPUMode::HBlank),
        !(g.registers.ly * g.framebuffer.width <= k / 3 < g.registers.ly * g.framebuffer.width
            + SCREEN_W) ==> next.framebuffer.data@[k] == g.framebuffer.data@[k],
{
}

} // verus!
