//! The graphics coprocessor: a four-mode scanline clock and a compositor
//! that paints background, window and sprites into a frame buffer.
use vstd::prelude::*;

use crate::timing::{
    enters_vblank, next_timing, LAST_LINE, MODE_DRAWING, MODE_HBLANK, MODE_OAM_SCAN, MODE_VBLANK,
    VBLANK_START_LINE,
};

verus! {

pub const SCREEN_WIDTH: usize = 160;
pub const SCREEN_HEIGHT: usize = 144;
pub const FRAME_SIZE: usize = 23040;
pub const VRAM_SIZE: usize = 0x2000;
pub const OAM_SIZE: usize = 0xA0;

/// The renderer's state: mode clock, scanline, video and object-attribute
/// memory, the frame buffer of two-bit colors (row-major, 160 by 144) and
/// the display registers.
pub struct Ppu {
    pub mode: u8,
    pub mode_clock: u32,
    pub line: u8,
    pub vram: Vec<u8>,
    pub oam: Vec<u8>,
    pub frame_buffer: Vec<u8>,
    pub lcdc: u8,
    pub scx: u8,
    pub scy: u8,
    pub bgp: u8,
    pub stat: u8,
    pub vblank_interrupt: bool,
    pub wx: u8,
    pub wy: u8,
    pub obp0: u8,
    pub obp1: u8,
}

/// Mathematical model of the renderer: the same fields, with the byte
/// buffers seen as sequences.
pub struct PpuView {
    pub mode: u8,
    pub mode_clock: u32,
    pub line: u8,
    pub vram: Seq<u8>,
    pub oam: Seq<u8>,
    pub frame_buffer: Seq<u8>,
    pub lcdc: u8,
    pub scx: u8,
    pub scy: u8,
    pub bgp: u8,
    pub stat: u8,
    pub vblank_interrupt: bool,
    pub wx: u8,
    pub wy: u8,
    pub obp0: u8,
    pub obp1: u8,
}

impl View for Ppu {
    type V = PpuView;

    open spec fn view(&self) -> PpuView {
        PpuView {
            mode: self.mode,
            mode_clock: self.mode_clock,
            line: self.line,
            vram: self.vram@,
            oam: self.oam@,
            frame_buffer: self.frame_buffer@,
            lcdc: self.lcdc,
            scx: self.scx,
            scy: self.scy,
            bgp: self.bgp,
            stat: self.stat,
            vblank_interrupt: self.vblank_interrupt,
            wx: self.wx,
            wy: self.wy,
            obp0: self.obp0,
            obp1: self.obp1,
        }
    }
}

impl PpuView {
    /// Buffers have their fixed sizes, the mode is one of the four, the
    /// scanline lies in the range that belongs to the mode, and every pixel
    /// is a two-bit color.
    pub open spec fn wf(self) -> bool {
        &&& self.vram.len() == VRAM_SIZE
        &&& self.oam.len() == OAM_SIZE
        &&& self.frame_buffer.len() == FRAME_SIZE
        &&& self.mode <= MODE_DRAWING
        &&& self.mode == MODE_VBLANK ==> VBLANK_START_LINE <= self.line <= LAST_LINE
        &&& self.mode != MODE_VBLANK ==> self.line < VBLANK_START_LINE
        &&& forall|i: int| 0 <= i < FRAME_SIZE ==> #[trigger] self.frame_buffer[i] < 4
    }
}


/// Byte offset in video RAM of a tile's data, in unsigned addressing
/// (`index * 16` from the start) or in signed addressing (the index read as
/// a signed byte, counted from tile 128 of the upper tile block).
pub open spec fn tile_data_addr_spec(tile_idx: u8, use_signed: bool) -> int {
    if use_signed {
        0x1000 + signed_tile_slot(tile_idx) * 16
    } else {
        tile_idx * 16
    }
}

/// `tile_idx` read as a signed byte, plus 128.
pub open spec fn signed_tile_slot(tile_idx: u8) -> int {
    if tile_idx < 128 {
        tile_idx + 128
    } else {
        tile_idx - 128
    }
}

/// Two-bit color index of the pixel at bit `bit` of a tile row, from its
/// low and high bitplane bytes.
pub open spec fn color_index(lo: u8, hi: u8, bit: u8) -> u8 {
    (((hi >> bit) & 1) << 1) | ((lo >> bit) & 1)
}

/// The shade that `palette` gives color index `ci`.
pub open spec fn shade(palette: u8, ci: u8) -> u8 {
    (palette >> ((ci * 2) as u8)) & 3
}

impl PpuView {
    pub open spec fn bg_map_base(self) -> int {
        if self.lcdc & 0x08 == 0 {
            0x1800
        } else {
            0x1C00
        }
    }

    pub open spec fn window_map_base(self) -> int {
        if self.lcdc & 0x40 == 0 {
            0x1800
        } else {
            0x1C00
        }
    }

    pub open spec fn signed_tiles(self) -> bool {
        self.lcdc & 0x10 == 0
    }

    /// Color index of pixel (`px`, `py`) of the plane that the tile map at
    /// `map_base` lays out.
    pub open spec fn plane_color_index(self, map_base: int, px: int, py: int) -> u8 {
        let tile = self.vram[map_base + (py / 8) * 32 + px / 8];
        let addr = tile_data_addr_spec(tile, self.signed_tiles()) + (py % 8) * 2;
        color_index(self.vram[addr], self.vram[addr + 1], (7 - px % 8) as u8)
    }

    /// Shade of the background at screen column `x` of the current scanline.
    pub open spec fn bg_pixel(self, x: int) -> u8 {
        shade(
            self.bgp,
            self.plane_color_index(
                self.bg_map_base(),
                (x + self.scx) % 256,
                (self.line + self.scy) % 256,
            ),
        )
    }

    /// Screen column of the window's left edge: the register holds it plus
    /// 7, so values below 7 put the edge left of the screen.
    pub open spec fn window_left(self) -> int {
        self.wx - 7
    }

    pub open spec fn window_color_index(self, x: int) -> u8 {
        self.plane_color_index(self.window_map_base(), x - self.window_left(), self.line - self.wy)
    }

    /// Pixel at column `x` once the window is drawn over `under`: the window
    /// covers it from its left edge on, except where its color index is 0.
    pub open spec fn window_over(self, under: u8, x: int) -> u8 {
        if x >= self.window_left() && self.window_color_index(x) != 0 {
            shade(self.bgp, self.window_color_index(x))
        } else {
            under
        }
    }

    pub open spec fn row_start(self) -> int {
        self.line * SCREEN_WIDTH
    }

    pub open spec fn in_row(self, i: int) -> bool {
        self.row_start() <= i < self.row_start() + SCREEN_WIDTH
    }

    /// `fb` with the current scanline set to color 0.
    pub open spec fn with_cleared_row(self, fb: Seq<u8>) -> Seq<u8> {
        Seq::new(fb.len(), |i: int| if self.in_row(i) { 0u8 } else { fb[i] })
    }

    /// `fb` with the background painted over the current scanline.
    pub open spec fn with_background(self, fb: Seq<u8>) -> Seq<u8> {
        Seq::new(
            fb.len(),
            |i: int|
                if self.in_row(i) {
                    self.bg_pixel(i - self.row_start())
                } else {
                    fb[i]
                },
        )
    }

    /// `fb` with the window painted over the current scanline, when the
    /// scanline is at or below the window's top.
    pub open spec fn with_window(self, fb: Seq<u8>) -> Seq<u8> {
        if self.line < self.wy {
            fb
        } else {
            Seq::new(
                fb.len(),
                |i: int|
                    if self.in_row(i) {
                        self.window_over(fb[i], i - self.row_start())
                    } else {
                        fb[i]
                    },
            )
        }
    }

    pub open spec fn sprite_height(self) -> int {
        if self.lcdc & 0x04 == 0 {
            8
        } else {
            16
        }
    }

    pub open spec fn sprite_top(self, s: usize) -> int {
        self.oam[4 * s] - 16
    }

    pub open spec fn sprite_left(self, s: usize) -> int {
        self.oam[4 * s + 1] - 8
    }

    pub open spec fn sprite_tile(self, s: usize) -> u8 {
        self.oam[4 * s + 2]
    }

    pub open spec fn sprite_attrs(self, s: usize) -> u8 {
        self.oam[4 * s + 3]
    }

    pub open spec fn sprite_on_line(self, s: usize) -> bool {
        self.sprite_top(s) <= self.line < self.sprite_top(s) + self.sprite_height()
    }

    /// The first ten entries among the first `n` of object-attribute memory
    /// whose vertical extent covers the current scanline, in memory order.
    pub open spec fn sprites_on_line(self, n: nat) -> Seq<usize>
        decreases n,
    {
        if n == 0 {
            Seq::empty()
        } else {
            let prev = self.sprites_on_line((n - 1) as nat);
            if prev.len() < 10 && self.sprite_on_line((n - 1) as usize) {
                prev.push((n - 1) as usize)
            } else {
                prev
            }
        }
    }

    /// Row of sprite `s` drawn on the current scanline, after vertical flip.
    pub open spec fn sprite_row(self, s: usize) -> int {
        let r = self.line - self.sprite_top(s);
        if self.sprite_attrs(s) & 0x40 != 0 {
            self.sprite_height() - 1 - r
        } else {
            r
        }
    }

    /// Byte offset in video RAM of the bitplanes of that row; tall sprites
    /// take their lower half from the tile after the even one.
    pub open spec fn sprite_row_addr(self, s: usize) -> int {
        let r = self.sprite_row(s);
        if self.sprite_height() == 16 {
            let t = self.sprite_tile(s) & 0xFE;
            if r >= 8 {
                (t + 1) * 16 + (r - 8) * 2
            } else {
                t * 16 + r * 2
            }
        } else {
            self.sprite_tile(s) * 16 + r * 2
        }
    }

    /// Color index of pixel `p` (0 is leftmost on screen) of that row, after
    /// horizontal flip.
    pub open spec fn sprite_color_index(self, s: usize, p: int) -> u8 {
        let a = self.sprite_row_addr(s);
        let bit = if self.sprite_attrs(s) & 0x20 != 0 {
            p
        } else {
            7 - p
        };
        color_index(self.vram[a], self.vram[a + 1], bit as u8)
    }

    pub open spec fn sprite_palette(self, s: usize) -> u8 {
        if self.sprite_attrs(s) & 0x10 != 0 {
            self.obp1
        } else {
            self.obp0
        }
    }

    /// Pixel at column `x` once sprite `s` is drawn over `under`: color index
    /// 0 is transparent, and a sprite behind the background yields to any
    /// non-zero pixel already there.
    pub open spec fn sprite_over(self, under: u8, s: usize, x: int) -> u8 {
        let p = x - self.sprite_left(s);
        if 0 <= p < 8 && self.sprite_color_index(s, p) != 0 && !(self.sprite_attrs(s) & 0x80
            != 0 && under & 3 != 0) {
            shade(self.sprite_palette(s), self.sprite_color_index(s, p))
        } else {
            under
        }
    }

    pub open spec fn with_sprite(self, fb: Seq<u8>, s: usize) -> Seq<u8> {
        Seq::new(
            fb.len(),
            |i: int|
                if self.in_row(i) {
                    self.sprite_over(fb[i], s, i - self.row_start())
                } else {
                    fb[i]
                },
        )
    }

    /// Position in `sel` of the sprite with the lowest priority: the largest
    /// X, and among equal X the last one.
    pub open spec fn lowest_priority_pos(self, sel: Seq<usize>) -> int
        decreases sel.len(),
    {
        if sel.len() <= 1 {
            0
        } else {
            let k = self.lowest_priority_pos(sel.drop_last());
            if self.oam[4 * sel.last() + 1] >= self.oam[4 * sel[k] + 1] {
                sel.len() - 1
            } else {
                k
            }
        }
    }

    /// Sprite `s` shows a non-transparent pixel at screen column `x`.
    pub open spec fn sprite_opaque_at(self, s: usize, x: int) -> bool {
        &&& 0 <= x - self.sprite_left(s) < 8
        &&& self.sprite_color_index(s, x - self.sprite_left(s)) != 0
    }

    /// Entry `p` of `sel` is opaque at column `x` and outranks every other
    /// entry that is: its X is smaller, or equal with an earlier position.
    pub open spec fn wins_column(self, sel: Seq<usize>, p: int, x: int) -> bool {
        &&& 0 <= p < sel.len()
        &&& self.sprite_opaque_at(sel[p], x)
        &&& forall|q: int|
            0 <= q < sel.len() && q != p && self.sprite_opaque_at(#[trigger] sel[q], x) ==> {
                let xq = self.oam[4 * sel[q] + 1];
                let xp = self.oam[4 * sel[p] + 1];
                xq > xp || (xq == xp && q > p)
            }
    }

    /// `fb` with the sprites of `sel` drawn from the lowest priority to the
    /// highest, so that the leftmost sprite, and among equal X the one
    /// earliest in memory, is drawn last.
    pub open spec fn with_sprites(self, fb: Seq<u8>, sel: Seq<usize>) -> Seq<u8>
        decreases sel.len(),
    {
        let k = self.lowest_priority_pos(sel);
        if sel.len() == 0 || !(0 <= k < sel.len()) {
            fb
        } else {
            self.with_sprites(self.with_sprite(fb, sel[k]), sel.remove(k))
        }
    }

    /// The frame buffer once the current scanline has been composited.
    pub open spec fn rendered(self) -> Seq<u8> {
        let cleared = self.with_cleared_row(self.frame_buffer);
        if self.lcdc & 0x80 == 0 {
            cleared
        } else {
            let bg = if self.lcdc & 0x01 != 0 {
                self.with_background(cleared)
            } else {
                cleared
            };
            let win = if self.lcdc & 0x20 != 0 {
                self.with_window(bg)
            } else {
                bg
            };
            if self.lcdc & 0x02 != 0 {
                self.with_sprites(win, self.sprites_on_line(40))
            } else {
                win
            }
        }
    }

    /// The renderer after `cycles` more cycles.
    pub open spec fn step_spec(self, cycles: u32) -> PpuView {
        let t = next_timing(self.mode, self.mode_clock, self.line, cycles);
        PpuView {
            mode: t.0,
            mode_clock: t.1,
            line: t.2,
            frame_buffer: if self.mode == MODE_DRAWING && t.0 == MODE_HBLANK {
                self.rendered()
            } else {
                self.frame_buffer
            },
            vblank_interrupt: self.vblank_interrupt || enters_vblank(self.mode, t.0),
            stat: (self.stat & 0xFC) | (t.0 & 3),
            ..self
        }
    }
}


/// Every entry picked for a scanline comes from the first `n`, covers the
/// scanline, and at most ten are picked.
proof fn lemma_sprites_on_line(v: PpuView, n: nat)
    ensures
        v.sprites_on_line(n).len() <= 10,
        forall|j: int|
            0 <= j < v.sprites_on_line(n).len() ==> {
                let s = #[trigger] v.sprites_on_line(n)[j];
                s < n && v.sprite_on_line(s)
            },
    decreases n,
{
    if n > 0 {
        lemma_sprites_on_line(v, (n - 1) as nat);
    }
}

proof fn lemma_lowest_priority_pos(v: PpuView, sel: Seq<usize>)
    requires
        sel.len() > 0,
    ensures
        0 <= v.lowest_priority_pos(sel) < sel.len(),
    decreases sel.len(),
{
    if sel.len() > 1 {
        lemma_lowest_priority_pos(v, sel.drop_last());
    }
}


proof fn lemma_priority_pos_reads_oam(a: PpuView, b: PpuView, sel: Seq<usize>)
    requires
        a.oam == b.oam,
    ensures
        a.lowest_priority_pos(sel) == b.lowest_priority_pos(sel),
    decreases sel.len(),
{
    if sel.len() > 1 {
        lemma_priority_pos_reads_oam(a, b, sel.drop_last());
    }
}

proof fn lemma_sprites_on_line_reads(a: PpuView, b: PpuView, n: nat)
    requires
        a.oam == b.oam,
        a.line == b.line,
        a.lcdc == b.lcdc,
    ensures
        a.sprites_on_line(n) == b.sprites_on_line(n),
    decreases n,
{
    if n > 0 {
        lemma_sprites_on_line_reads(a, b, (n - 1) as nat);
    }
}


proof fn lemma_with_sprites_reads(a: PpuView, b: PpuView, fb: Seq<u8>, sel: Seq<usize>)
    requires
        a == (PpuView { frame_buffer: a.frame_buffer, ..b }),
    ensures
        a.with_sprites(fb, sel) == b.with_sprites(fb, sel),
    decreases sel.len(),
{
    lemma_priority_pos_reads_oam(a, b, sel);
    let k = b.lowest_priority_pos(sel);
    if sel.len() > 0 && 0 <= k < sel.len() {
        assert(a.with_sprite(fb, sel[k]) =~= b.with_sprite(fb, sel[k]));
        lemma_with_sprites_reads(a, b, b.with_sprite(fb, sel[k]), sel.remove(k));
    }
}

/// The position that `lowest_priority_pos` picks outranks no other entry.
proof fn lemma_lowest_priority_is_last(v: PpuView, sel: Seq<usize>)
    requires
        sel.len() > 0,
    ensures
        forall|q: int|
            0 <= q < sel.len() ==> {
                let xq = v.oam[4 * #[trigger] sel[q] + 1];
                let xk = v.oam[4 * sel[v.lowest_priority_pos(sel)] + 1];
                xq < xk || (xq == xk && q <= v.lowest_priority_pos(sel))
            },
    decreases sel.len(),
{
    if sel.len() > 1 {
        let init = sel.drop_last();
        lemma_lowest_priority_is_last(v, init);
        lemma_lowest_priority_pos(v, init);
        let k0 = v.lowest_priority_pos(init);
        assert(sel[k0] == init[k0]);
        assert forall|q: int| 0 <= q < sel.len() implies {
            let xq = v.oam[4 * #[trigger] sel[q] + 1];
            let xk = v.oam[4 * sel[v.lowest_priority_pos(sel)] + 1];
            xq < xk || (xq == xk && q <= v.lowest_priority_pos(sel))
        } by {
            if q < sel.len() - 1 {
                assert(sel[q] == init[q]);
            }
        }
    }
}

/// Sprites that are transparent at column `x` leave that pixel as it was.
proof fn lemma_transparent_sprites_keep(v: PpuView, fb: Seq<u8>, sel: Seq<usize>, x: int)
    requires
        fb.len() == FRAME_SIZE,
        v.line < VBLANK_START_LINE,
        0 <= x < SCREEN_WIDTH,
        forall|q: int| 0 <= q < sel.len() ==> !v.sprite_opaque_at(#[trigger] sel[q], x),
    ensures
        v.with_sprites(fb, sel)[v.row_start() + x] == fb[v.row_start() + x],
    decreases sel.len(),
{
    lemma_row_fits(v.line);
    if sel.len() > 0 {
        lemma_lowest_priority_pos(v, sel);
        let k = v.lowest_priority_pos(sel);
        let f1 = v.with_sprite(fb, sel[k]);
        let rest = sel.remove(k);
        assert(!v.sprite_opaque_at(sel[k], x));
        assert(f1[v.row_start() + x] == fb[v.row_start() + x]);
        assert forall|q2: int| 0 <= q2 < rest.len() implies !v.sprite_opaque_at(
            #[trigger] rest[q2],
            x,
        ) by {
            let q = if q2 < k {
                q2
            } else {
                q2 + 1
            };
            assert(rest[q2] == sel[q]);
        }
        lemma_transparent_sprites_keep(v, f1, rest, x);
    }
}

/// Hardware sprite priority: among the sprites of `sel` that show a
/// non-transparent pixel at column `x`, the one with the lowest X (and
/// among equal X the earliest; for the sprites picked for a scanline,
/// `sprites_on_line`, that is the earliest in object-attribute memory)
/// decides that pixel when it is not behind the background, whatever the
/// other sprites draw there.
pub proof fn lemma_leftmost_opaque_sprite_wins(
    v: PpuView,
    fb: Seq<u8>,
    sel: Seq<usize>,
    p: int,
    x: int,
)
    requires
        fb.len() == FRAME_SIZE,
        v.line < VBLANK_START_LINE,
        0 <= x < SCREEN_WIDTH,
        v.wins_column(sel, p, x),
        v.sprite_attrs(sel[p]) & 0x80 == 0,
    ensures
        v.with_sprites(fb, sel)[v.row_start() + x] == shade(
            v.sprite_palette(sel[p]),
            v.sprite_color_index(sel[p], x - v.sprite_left(sel[p])),
        ),
    decreases sel.len(),
{
    lemma_row_fits(v.line);
    lemma_lowest_priority_pos(v, sel);
    lemma_lowest_priority_is_last(v, sel);
    let k = v.lowest_priority_pos(sel);
    let f1 = v.with_sprite(fb, sel[k]);
    let rest = sel.remove(k);
    if k == p {
        assert forall|q2: int| 0 <= q2 < rest.len() implies !v.sprite_opaque_at(
            #[trigger] rest[q2],
            x,
        ) by {
            let q = if q2 < k {
                q2
            } else {
                q2 + 1
            };
            assert(rest[q2] == sel[q]);
            if v.sprite_opaque_at(sel[q], x) {
                let xq = v.oam[4 * sel[q] + 1];
                let xp = v.oam[4 * sel[p] + 1];
                assert(xq > xp || (xq == xp && q > p));
                assert(xq < xp || (xq == xp && q <= p));
            }
        }
        lemma_transparent_sprites_keep(v, f1, rest, x);
    } else {
        let p2 = if p < k {
            p
        } else {
            p - 1
        };
        assert(rest[p2] == sel[p]);
        assert forall|q2: int|
            0 <= q2 < rest.len() && q2 != p2 && v.sprite_opaque_at(
                #[trigger] rest[q2],
                x,
            ) implies {
            let xq = v.oam[4 * rest[q2] + 1];
            let xp = v.oam[4 * rest[p2] + 1];
            xq > xp || (xq == xp && q2 > p2)
        } by {
            let q = if q2 < k {
                q2
            } else {
                q2 + 1
            };
            assert(rest[q2] == sel[q]);
        }
        lemma_leftmost_opaque_sprite_wins(v, f1, rest, p2, x);
    }
}

proof fn lemma_color_index_bound(lo: u8, hi: u8, bit: u8)
    ensures
        color_index(lo, hi, bit) <= 3,
{
    assert((((hi >> bit) & 1) << 1) | ((lo >> bit) & 1) <= 3) by (bit_vector);
}

proof fn lemma_shade_bound(palette: u8, ci: u8)
    ensures
        shade(palette, ci) < 4,
{
    let sh = (ci * 2) as u8;
    assert((palette >> sh) & 3 < 4) by (bit_vector);
}

proof fn lemma_row_fits(line: u8)
    requires
        line < VBLANK_START_LINE,
    ensures
        line * SCREEN_WIDTH + SCREEN_WIDTH <= FRAME_SIZE,
{
    assert(line * 160 + 160 <= 23040) by (nonlinear_arith)
        requires
            line < 144,
    ;
}

proof fn lemma_mode_bits(stat: u8, mode: u8)
    requires
        mode <= 3,
    ensures
        ((stat & 0xFC) | (mode & 3)) & 3 == mode,
        ((stat & 0xFC) | (mode & 3)) & 0xFC == stat & 0xFC,
{
    assert(mode <= 3 ==> ((stat & 0xFC) | (mode & 3)) & 3 == mode) by (bit_vector);
    assert(((stat & 0xFC) | (mode & 3)) & 0xFC == stat & 0xFC) by (bit_vector);
}

/// Color index of bit `bit` of a tile row.
pub(crate) fn tile_color_index(lo: u8, hi: u8, bit: u8) -> (r: u8)
    requires
        bit < 8,
    ensures
        r == color_index(lo, hi, bit),
        r <= 3,
{
    proof {
        lemma_color_index_bound(lo, hi, bit);
    }
    (((hi >> bit) & 1) << 1) | ((lo >> bit) & 1)
}

/// The shade that `palette` gives color index `ci`.
fn palette_shade(palette: u8, ci: u8) -> (r: u8)
    requires
        ci <= 3,
    ensures
        r == shade(palette, ci),
        r < 4,
{
    proof {
        lemma_shade_bound(palette, ci);
    }
    (palette >> (ci * 2)) & 3
}

/// Video RAM offset of a tile's data in either addressing mode.
pub(crate) fn tile_data_addr(tile_idx: u8, use_signed: bool) -> (r: usize)
    ensures
        r == tile_data_addr_spec(tile_idx, use_signed),
        r <= 0x1FF0,
{
    if use_signed {
        let slot: usize = if tile_idx < 128 {
            tile_idx as usize + 128
        } else {
            tile_idx as usize - 128
        };
        0x1000 + slot * 16
    } else {
        (tile_idx as usize) * 16
    }
}

impl Ppu {
    pub open spec fn wf(&self) -> bool {
        self@.wf()
    }

    /// The renderer as it starts: OAM scan at the top of the frame, blank
    /// memories and frame buffer, and the post-boot display registers.
    pub open spec fn new_spec() -> PpuView {
        PpuView {
            mode: MODE_OAM_SCAN,
            mode_clock: 0,
            line: 0,
            vram: Seq::new(VRAM_SIZE as nat, |i: int| 0u8),
            oam: Seq::new(OAM_SIZE as nat, |i: int| 0u8),
            frame_buffer: Seq::new(FRAME_SIZE as nat, |i: int| 0u8),
            lcdc: 0x91,
            scx: 0,
            scy: 0,
            bgp: 0xFC,
            stat: 0x85,
            vblank_interrupt: false,
            wx: 0,
            wy: 0,
            obp0: 0xFF,
            obp1: 0xFF,
        }
    }

    /// A renderer in OAM scan at the top of the frame, with blank memories and
    /// the post-boot display registers.
    pub fn new() -> (ppu: Self)
        ensures
            ppu.wf(),
            ppu@ == Ppu::new_spec(),
    {
        let ppu = Ppu {
            mode: MODE_OAM_SCAN,
            mode_clock: 0,
            line: 0,
            vram: vec![0u8; VRAM_SIZE],
            oam: vec![0u8; OAM_SIZE],
            frame_buffer: vec![0u8; FRAME_SIZE],
            lcdc: 0x91,
            scx: 0,
            scy: 0,
            bgp: 0xFC,
            stat: 0x85,
            vblank_interrupt: false,
            wx: 0,
            wy: 0,
            obp0: 0xFF,
            obp1: 0xFF,
        };
        assert(ppu.vram@ =~= Seq::new(VRAM_SIZE as nat, |i: int| 0u8));
        assert(ppu.oam@ =~= Seq::new(OAM_SIZE as nat, |i: int| 0u8));
        assert(ppu.frame_buffer@ =~= Seq::new(FRAME_SIZE as nat, |i: int| 0u8));
        ppu
    }


    /// Sets the current scanline to color 0.
    fn clear_row(&mut self)
        requires
            old(self).wf(),
            old(self).line < VBLANK_START_LINE,
        ensures
            final(self).wf(),
            final(self)@ == (PpuView {
                frame_buffer: old(self)@.with_cleared_row(old(self).frame_buffer@),
                ..old(self)@
            }),
    {
        let ghost v0 = self@;
        let start = self.line as usize * SCREEN_WIDTH;
        proof {
            lemma_row_fits(self.line);
        }
        let mut x: usize = 0;
        while x < SCREEN_WIDTH
            invariant
                v0.wf(),
                start == v0.row_start(),
                start + SCREEN_WIDTH <= FRAME_SIZE,
                0 <= x <= SCREEN_WIDTH,
                self@ == (PpuView { frame_buffer: self.frame_buffer@, ..v0 }),
                self.frame_buffer@.len() == FRAME_SIZE,
                forall|i: int|
                    0 <= i < FRAME_SIZE ==> #[trigger] self.frame_buffer@[i] == if start <= i
                        < start + x {
                        0u8
                    } else {
                        v0.frame_buffer[i]
                    },
            decreases SCREEN_WIDTH - x,
        {
            self.frame_buffer.set(start + x, 0);
            x += 1;
        }
        assert(self.frame_buffer@ =~= v0.with_cleared_row(v0.frame_buffer));
    }

    /// Paints the background over the current scanline.
    fn render_background(&mut self)
        requires
            old(self).wf(),
            old(self).line < VBLANK_START_LINE,
        ensures
            final(self).wf(),
            final(self)@ == (PpuView {
                frame_buffer: old(self)@.with_background(old(self).frame_buffer@),
                ..old(self)@
            }),
    {
        let ghost v0 = self@;
        let map_base: usize = if self.lcdc & 0x08 == 0 {
            0x1800
        } else {
            0x1C00
        };
        let use_signed = self.lcdc & 0x10 == 0;
        let y = (self.line as usize + self.scy as usize) % 256;
        let tile_y = y / 8;
        let tile_line = y % 8;
        let start = self.line as usize * SCREEN_WIDTH;
        proof {
            lemma_row_fits(self.line);
        }
        let mut x: usize = 0;
        while x < SCREEN_WIDTH
            invariant
                v0.wf(),
                map_base == v0.bg_map_base(),
                use_signed == v0.signed_tiles(),
                y == (v0.line + v0.scy) % 256,
                tile_y == y / 8,
                tile_line == y % 8,
                start == v0.row_start(),
                start + SCREEN_WIDTH <= FRAME_SIZE,
                0 <= x <= SCREEN_WIDTH,
                self@ == (PpuView { frame_buffer: self.frame_buffer@, ..v0 }),
                self.frame_buffer@.len() == FRAME_SIZE,
                forall|i: int|
                    0 <= i < FRAME_SIZE ==> #[trigger] self.frame_buffer@[i] == if start <= i
                        < start + x {
                        v0.bg_pixel(i - start)
                    } else {
                        v0.frame_buffer[i]
                    },
                forall|i: int| 0 <= i < FRAME_SIZE ==> #[trigger] self.frame_buffer@[i] < 4,
            decreases SCREEN_WIDTH - x,
        {
            let bg_x = (x + self.scx as usize) % 256;
            let tile_x = bg_x / 8;
            let pixel_x = (7 - bg_x % 8) as u8;
            let tile_idx = self.vram[map_base + tile_y * 32 + tile_x];
            let tile_addr = tile_data_addr(tile_idx, use_signed);
            let lo = self.vram[tile_addr + tile_line * 2];
            let hi = self.vram[tile_addr + tile_line * 2 + 1];
            let ci = tile_color_index(lo, hi, pixel_x);
            let color = palette_shade(self.bgp, ci);
            assert(color == v0.bg_pixel(x as int));
            self.frame_buffer.set(start + x, color);
            x += 1;
        }
        assert(self.frame_buffer@ =~= v0.with_background(v0.frame_buffer));
    }

    /// Paints the window over the current scanline, when the scanline is at
    /// or below the window's top edge.
    fn render_window(&mut self)
        requires
            old(self).wf(),
            old(self).line < VBLANK_START_LINE,
        ensures
            final(self).wf(),
            final(self)@ == (PpuView {
                frame_buffer: old(self)@.with_window(old(self).frame_buffer@),
                ..old(self)@
            }),
    {
        let ghost v0 = self@;
        if self.line < self.wy {
            return;
        }
        let map_base: usize = if self.lcdc & 0x40 == 0 {
            0x1800
        } else {
            0x1C00
        };
        let use_signed = self.lcdc & 0x10 == 0;
        let window_y = self.line as usize - self.wy as usize;
        let tile_y = window_y / 8;
        let tile_line = window_y % 8;
        let wx = self.wx as usize;
        let start = self.line as usize * SCREEN_WIDTH;
        proof {
            lemma_row_fits(self.line);
        }
        let mut x: usize = 0;
        while x < SCREEN_WIDTH
            invariant
                v0.wf(),
                v0.line >= v0.wy,
                map_base == v0.window_map_base(),
                use_signed == v0.signed_tiles(),
                window_y == v0.line - v0.wy,
                tile_y == window_y / 8,
                tile_line == window_y % 8,
                wx == v0.wx,
                start == v0.row_start(),
                start + SCREEN_WIDTH <= FRAME_SIZE,
                0 <= x <= SCREEN_WIDTH,
                self@ == (PpuView { frame_buffer: self.frame_buffer@, ..v0 }),
                self.frame_buffer@.len() == FRAME_SIZE,
                forall|i: int|
                    0 <= i < FRAME_SIZE ==> #[trigger] self.frame_buffer@[i] == if start <= i
                        < start + x {
                        v0.window_over(v0.frame_buffer[i], i - start)
                    } else {
                        v0.frame_buffer[i]
                    },
                forall|i: int| 0 <= i < FRAME_SIZE ==> #[trigger] self.frame_buffer@[i] < 4,
            decreases SCREEN_WIDTH - x,
        {
            if x + 7 >= wx {
                let win_x = x + 7 - wx;
                let tile_x = win_x / 8;
                let pixel_x = (7 - win_x % 8) as u8;
                let tile_idx = self.vram[map_base + tile_y * 32 + tile_x];
                let tile_addr = tile_data_addr(tile_idx, use_signed);
                let lo = self.vram[tile_addr + tile_line * 2];
                let hi = self.vram[tile_addr + tile_line * 2 + 1];
                let ci = tile_color_index(lo, hi, pixel_x);
                assert(ci == v0.window_color_index(x as int));
                if ci != 0 {
                    let color = palette_shade(self.bgp, ci);
                    self.frame_buffer.set(start + x, color);
                }
            }
            x += 1;
        }
        assert(self.frame_buffer@ =~= v0.with_window(v0.frame_buffer));
    }


    /// The entries of object-attribute memory that cover the current
    /// scanline, at most ten, in memory order.
    fn select_sprites(&self) -> (sel: Vec<usize>)
        requires
            self.wf(),
        ensures
            sel@ == self@.sprites_on_line(40),
    {
        let height: i32 = if self.lcdc & 0x04 == 0 {
            8
        } else {
            16
        };
        let line = self.line as i32;
        let mut sel: Vec<usize> = Vec::with_capacity(10);
        let mut i: usize = 0;
        while i < 40
            invariant
                self.wf(),
                0 <= i <= 40,
                height == self@.sprite_height(),
                line == self.line,
                sel@ == self@.sprites_on_line(i as nat),
            decreases 40 - i,
        {
            let top = self.oam[4 * i] as i32 - 16;
            if sel.len() < 10 && line >= top && line < top + height {
                sel.push(i);
            }
            i += 1;
        }
        sel
    }

    /// Position in `sel` of the sprite to draw first: the largest X, and
    /// among equal X the last one.
    fn lowest_priority_pos(&self, sel: &Vec<usize>) -> (k: usize)
        requires
            self.wf(),
            sel.len() > 0,
            forall|j: int| 0 <= j < sel.len() ==> #[trigger] sel[j] < 40,
        ensures
            k == self@.lowest_priority_pos(sel@),
            k < sel.len(),
    {
        let mut best: usize = 0;
        let mut j: usize = 1;
        while j < sel.len()
            invariant
                self.wf(),
                1 <= j <= sel.len(),
                forall|j: int| 0 <= j < sel.len() ==> #[trigger] sel[j] < 40,
                best < j,
                best == self@.lowest_priority_pos(sel@.take(j as int)),
            decreases sel.len() - j,
        {
            let ghost prefix = sel@.take(j as int + 1);
            assert(prefix.drop_last() =~= sel@.take(j as int));
            if self.oam[4 * sel[j] + 1] >= self.oam[4 * sel[best] + 1] {
                best = j;
            }
            j += 1;
        }
        assert(sel@.take(sel.len() as int) =~= sel@);
        best
    }

    /// Draws the current scanline's row of sprite `s`.
    fn paint_sprite(&mut self, s: usize)
        requires
            old(self).wf(),
            old(self).line < VBLANK_START_LINE,
            s < 40,
            old(self)@.sprite_on_line(s),
        ensures
            final(self).wf(),
            final(self)@ == (PpuView {
                frame_buffer: old(self)@.with_sprite(old(self).frame_buffer@, s),
                ..old(self)@
            }),
    {
        let ghost v0 = self@;
        let height: i32 = if self.lcdc & 0x04 == 0 {
            8
        } else {
            16
        };
        let top = self.oam[4 * s] as i32 - 16;
        let left = self.oam[4 * s + 1] as i32 - 8;
        let tile = self.oam[4 * s + 2];
        let attrs = self.oam[4 * s + 3];
        let r = self.line as i32 - top;
        let row: i32 = if attrs & 0x40 != 0 {
            height - 1 - r
        } else {
            r
        };
        let addr: usize = if height == 16 {
            let t = (tile & 0xFE) as usize;
            if row >= 8 {
                (t + 1) * 16 + (row as usize - 8) * 2
            } else {
                t * 16 + row as usize * 2
            }
        } else {
            tile as usize * 16 + row as usize * 2
        };
        assert(addr == v0.sprite_row_addr(s));
        let lo = self.vram[addr];
        let hi = self.vram[addr + 1];
        let palette = if attrs & 0x10 != 0 {
            self.obp1
        } else {
            self.obp0
        };
        let start = self.line as usize * SCREEN_WIDTH;
        proof {
            lemma_row_fits(self.line);
        }
        let mut p: i32 = 0;
        while p < 8
            invariant
                v0.wf(),
                0 <= p <= 8,
                left == v0.sprite_left(s),
                attrs == v0.sprite_attrs(s),
                palette == v0.sprite_palette(s),
                lo == v0.vram[v0.sprite_row_addr(s)],
                hi == v0.vram[v0.sprite_row_addr(s) + 1],
                start == v0.row_start(),
                start + SCREEN_WIDTH <= FRAME_SIZE,
                self@ == (PpuView { frame_buffer: self.frame_buffer@, ..v0 }),
                self.frame_buffer@.len() == FRAME_SIZE,
                forall|i: int|
                    0 <= i < FRAME_SIZE ==> #[trigger] self.frame_buffer@[i] == if start <= i
                        < start + SCREEN_WIDTH && left <= i - start < left + p {
                        v0.sprite_over(v0.frame_buffer[i], s, i - start)
                    } else {
                        v0.frame_buffer[i]
                    },
                forall|i: int| 0 <= i < FRAME_SIZE ==> #[trigger] self.frame_buffer@[i] < 4,
            decreases 8 - p,
        {
            let x = left + p;
            if x >= 0 && x < SCREEN_WIDTH as i32 {
                let bit: u8 = if attrs & 0x20 != 0 {
                    p as u8
                } else {
                    (7 - p) as u8
                };
                let ci = tile_color_index(lo, hi, bit);
                assert(ci == v0.sprite_color_index(s, p as int));
                if ci != 0 {
                    let idx = start + x as usize;
                    let under = self.frame_buffer[idx] & 3;
                    if !(attrs & 0x80 != 0 && under != 0) {
                        let color = palette_shade(palette, ci);
                        self.frame_buffer.set(idx, color);
                    }
                }
            }
            p += 1;
        }
        assert(self.frame_buffer@ =~= v0.with_sprite(v0.frame_buffer, s));
    }

    /// Draws the sprites that cover the current scanline, when sprites are
    /// enabled.
    fn render_sprites(&mut self)
        requires
            old(self).wf(),
            old(self).line < VBLANK_START_LINE,
        ensures
            final(self).wf(),
            final(self)@ == (PpuView {
                frame_buffer: if old(self).lcdc & 0x02 != 0 {
                    old(self)@.with_sprites(
                        old(self).frame_buffer@,
                        old(self)@.sprites_on_line(40),
                    )
                } else {
                    old(self).frame_buffer@
                },
                ..old(self)@
            }),
    {
        let ghost v0 = self@;
        if self.lcdc & 0x02 == 0 {
            return;
        }
        let mut sel = self.select_sprites();
        proof {
            lemma_sprites_on_line(v0, 40);
        }
        while sel.len() > 0
            invariant
                v0.wf(),
                v0.line < VBLANK_START_LINE,
                self.wf(),
                self@ == (PpuView { frame_buffer: self.frame_buffer@, ..v0 }),
                forall|j: int|
                    0 <= j < sel.len() ==> #[trigger] sel[j] < 40 && v0.sprite_on_line(sel[j]),
                v0.with_sprites(self.frame_buffer@, sel@) == v0.with_sprites(
                    v0.frame_buffer,
                    v0.sprites_on_line(40),
                ),
            decreases sel.len(),
        {
            let k = self.lowest_priority_pos(&sel);
            proof {
                lemma_priority_pos_reads_oam(self@, v0, sel@);
                lemma_lowest_priority_pos(v0, sel@);
            }
            let s = sel[k];
            let ghost fb = self.frame_buffer@;
            let ghost before = sel@;
            self.paint_sprite(s);
            assert(self.frame_buffer@ =~= v0.with_sprite(fb, s));
            sel.remove(k);
            assert(v0.with_sprites(fb, before) == v0.with_sprites(self.frame_buffer@, sel@));
            assert forall|j: int| 0 <= j < sel.len() implies #[trigger] sel[j] < 40
                && v0.sprite_on_line(sel[j]) by {
                if j >= k {
                    assert(sel@[j] == before[j + 1]);
                } else {
                    assert(sel@[j] == before[j]);
                }
            }
        }
    }

    /// Composites the current scanline into the frame buffer: cleared to
    /// color 0, then, while the display is on, background, window and
    /// sprites as the control register enables them.
    pub fn render_scanline(&mut self)
        requires
            old(self).wf(),
            old(self).line < VBLANK_START_LINE,
        ensures
            final(self).wf(),
            final(self)@ == (PpuView { frame_buffer: old(self)@.rendered(), ..old(self)@ }),
    {
        let ghost v0 = self@;
        self.clear_row();
        let ghost f1 = self.frame_buffer@;
        if self.lcdc & 0x80 == 0 {
            return;
        }
        if self.lcdc & 0x01 != 0 {
            self.render_background();
            assert(self.frame_buffer@ =~= v0.with_background(f1));
        }
        let ghost f2 = self.frame_buffer@;
        if self.lcdc & 0x20 != 0 {
            self.render_window();
            assert(self.frame_buffer@ =~= v0.with_window(f2));
        }
        let ghost v3 = self@;
        self.render_sprites();
        proof {
            lemma_sprites_on_line_reads(v3, v0, 40);
            lemma_with_sprites_reads(v3, v0, v3.frame_buffer, v0.sprites_on_line(40));
        }
        assert(v3.with_sprites(v3.frame_buffer, v0.sprites_on_line(40)) == v0.with_sprites(
            v3.frame_buffer,
            v0.sprites_on_line(40),
        ));
    }


    /// Advances the mode clock by `cycles`; the scanline is composited when
    /// Drawing ends, and entering VBlank raises the frame-complete flag. The
    /// status register's low two bits are then overwritten with the mode.
    pub fn step(&mut self, cycles: u32)
        requires
            old(self).wf(),
        ensures
            final(self).wf(),
            final(self)@ == old(self)@.step_spec(cycles),
            final(self).stat & 3 == final(self).mode,
            final(self).stat & 0xFC == old(self).stat & 0xFC,
    {
        let ghost v0 = self@;
        let total: u64 = self.mode_clock as u64 + cycles as u64;
        if self.mode == MODE_OAM_SCAN {
            if total >= 80 {
                self.mode_clock = 0;
                self.mode = MODE_DRAWING;
            } else {
                self.mode_clock = total as u32;
            }
        } else if self.mode == MODE_DRAWING {
            if total >= 172 {
                self.render_scanline();
                self.mode_clock = 0;
                self.mode = MODE_HBLANK;
            } else {
                self.mode_clock = total as u32;
            }
        } else if self.mode == MODE_HBLANK {
            if total >= 204 {
                self.mode_clock = 0;
                self.line += 1;
                if self.line == VBLANK_START_LINE {
                    self.mode = MODE_VBLANK;
                    self.vblank_interrupt = true;
                } else {
                    self.mode = MODE_OAM_SCAN;
                }
            } else {
                self.mode_clock = total as u32;
            }
        } else {
            if total >= 456 {
                self.mode_clock = 0;
                self.line += 1;
                if self.line > LAST_LINE {
                    self.mode = MODE_OAM_SCAN;
                    self.line = 0;
                }
            } else {
                self.mode_clock = total as u32;
            }
        }
        proof {
            lemma_mode_bits(self.stat, self.mode);
        }
        self.stat = (self.stat & 0xFC) | (self.mode & 3);
        assert(self@ == v0.step_spec(cycles));
    }

    /// The current mode, as the two-bit value the status register reports.
    pub fn get_status(&self) -> (r: u8)
        ensures
            r == self.mode & 3,
    {
        self.mode & 3
    }
}


} // verus!
