//! A diagnostic picture of video RAM: raw tiles from both tile blocks and
//! both tile maps, drawn straight into the frame buffer.
use vstd::prelude::*;

use crate::ppu::{
    color_index, tile_color_index, tile_data_addr, tile_data_addr_spec, Ppu, PpuView, FRAME_SIZE,
    SCREEN_HEIGHT, SCREEN_WIDTH, VRAM_SIZE,
};

verus! {

/// Raw color index of pixel (`x`, `y`) of the 8x8 tile whose data starts at
/// byte `addr` of `vram`.
pub open spec fn tile_pixel(vram: Seq<u8>, addr: int, x: int, y: int) -> u8 {
    color_index(vram[addr + y * 2], vram[addr + y * 2 + 1], (7 - x) as u8)
}

/// Screen pixel (`sx`, `sy`) lies in the block of `width` by `height` tiles
/// whose top-left pixel is (`start_x`, `start_y`).
pub open spec fn in_tile_block(
    sx: int,
    sy: int,
    start_x: int,
    start_y: int,
    width: int,
    height: int,
) -> bool {
    start_x <= sx < start_x + width * 8 && start_y <= sy < start_y + height * 8
}

/// Pixel `i` of the frame buffer once the debug view's dividing row and
/// column are drawn over `under` in color 3.
pub open spec fn debug_border_over(under: u8, i: int) -> u8 {
    if i / SCREEN_WIDTH as int == SCREEN_HEIGHT as int / 2 || i % SCREEN_WIDTH as int
        == SCREEN_WIDTH as int / 2 {
        3
    } else {
        under
    }
}

impl PpuView {
    /// Pixel (`sx`, `sy`) once consecutive tiles, read from video RAM from
    /// `base` on, are drawn raw (no palette) in a block of `width` by
    /// `height` tiles at (`start_x`, `start_y`); tiles that would run past
    /// the end of video RAM are skipped.
    pub open spec fn tile_block_over(
        self,
        under: u8,
        sx: int,
        sy: int,
        start_x: int,
        start_y: int,
        base: int,
        width: int,
        height: int,
    ) -> u8 {
        if in_tile_block(sx, sy, start_x, start_y, width, height) {
            let tx = (sx - start_x) / 8;
            let ty = (sy - start_y) / 8;
            let addr = base + (ty * width + tx) * 16;
            if addr + 16 <= VRAM_SIZE {
                tile_pixel(self.vram, addr, (sx - start_x) % 8, (sy - start_y) % 8)
            } else {
                under
            }
        } else {
            under
        }
    }

    /// Pixel (`sx`, `sy`) once the tiles that a tile map at `map_addr` names
    /// are drawn raw in a block of `width` by `height` tiles at
    /// (`start_x`, `start_y`).
    pub open spec fn map_block_over(
        self,
        under: u8,
        sx: int,
        sy: int,
        start_x: int,
        start_y: int,
        map_addr: int,
        width: int,
        height: int,
        use_signed: bool,
    ) -> u8 {
        if in_tile_block(sx, sy, start_x, start_y, width, height) {
            let entry = map_addr + ((sy - start_y) / 8) * 32 + (sx - start_x) / 8;
            if entry < VRAM_SIZE {
                let addr = tile_data_addr_spec(self.vram[entry], use_signed);
                if addr + 16 <= VRAM_SIZE {
                    tile_pixel(self.vram, addr, (sx - start_x) % 8, (sy - start_y) % 8)
                } else {
                    under
                }
            } else {
                under
            }
        } else {
            under
        }
    }

    pub open spec fn with_tile_block(
        self,
        fb: Seq<u8>,
        start_x: int,
        start_y: int,
        base: int,
        width: int,
        height: int,
    ) -> Seq<u8> {
        Seq::new(
            fb.len(),
            |i: int|
                self.tile_block_over(
                    fb[i],
                    i % SCREEN_WIDTH as int,
                    i / SCREEN_WIDTH as int,
                    start_x,
                    start_y,
                    base,
                    width,
                    height,
                ),
        )
    }

    pub open spec fn with_map_block(
        self,
        fb: Seq<u8>,
        start_x: int,
        start_y: int,
        map_addr: int,
        width: int,
        height: int,
        use_signed: bool,
    ) -> Seq<u8> {
        Seq::new(
            fb.len(),
            |i: int|
                self.map_block_over(
                    fb[i],
                    i % SCREEN_WIDTH as int,
                    i / SCREEN_WIDTH as int,
                    start_x,
                    start_y,
                    map_addr,
                    width,
                    height,
                    use_signed,
                ),
        )
    }

    /// The frame buffer as the debug view leaves it: the first 128 tiles of
    /// each tile block top left and top right, the two tile maps (the second
    /// read with signed addressing) bottom left and bottom right, and a
    /// dividing row and column in color 3.
    pub open spec fn debug_view(self) -> Seq<u8> {
        let half_w = SCREEN_WIDTH as int / 2;
        let half_h = SCREEN_HEIGHT as int / 2;
        let f1 = self.with_tile_block(self.frame_buffer, 0, 0, 0, 16, 8);
        let f2 = self.with_tile_block(f1, half_w, 0, 0x1000, 16, 8);
        let f3 = self.with_map_block(f2, 0, half_h, 0x1800, 16, 16, false);
        let f4 = self.with_map_block(f3, half_w, half_h, 0x1C00, 16, 16, true);
        Seq::new(f4.len(), |i: int| debug_border_over(f4[i], i))
    }
}

/// Raw color index of a tile pixel.
fn tile_pixel_exec(vram: &Vec<u8>, addr: usize, x: usize, y: usize) -> (r: u8)
    requires
        vram.len() == VRAM_SIZE,
        addr + 16 <= VRAM_SIZE,
        x < 8,
        y < 8,
    ensures
        r == tile_pixel(vram@, addr as int, x as int, y as int),
        r <= 3,
{
    tile_color_index(vram[addr + y * 2], vram[addr + y * 2 + 1], (7 - x) as u8)
}

proof fn lemma_block_offset(ty: usize, tx: usize, width: usize)
    requires
        ty < SCREEN_HEIGHT,
        tx < width,
    ensures
        ty * width + tx < 144 * 0x1_0000_0000_0000_0000,
{
    assert(ty * width + tx < 144 * 0x1_0000_0000_0000_0000) by (nonlinear_arith)
        requires
            ty < 144,
            tx < width,
            width < 0x1_0000_0000_0000_0000,
    ;
}

/// Draws `width` by `height` consecutive tiles from video RAM offset
/// `base_addr` raw into the frame buffer, top-left at (`start_x`, `start_y`).
fn render_tile_region(
    ppu: &mut Ppu,
    start_x: usize,
    start_y: usize,
    base_addr: usize,
    width: usize,
    height: usize,
)
    requires
        old(ppu).wf(),
    ensures
        final(ppu).wf(),
        final(ppu)@ == (PpuView {
            frame_buffer: old(ppu)@.with_tile_block(
                old(ppu).frame_buffer@,
                start_x as int,
                start_y as int,
                base_addr as int,
                width as int,
                height as int,
            ),
            ..old(ppu)@
        }),
{
    let ghost v0 = ppu@;
    let mut i: usize = 0;
    while i < FRAME_SIZE
        invariant
            v0.wf(),
            0 <= i <= FRAME_SIZE,
            ppu@ == (PpuView { frame_buffer: ppu.frame_buffer@, ..v0 }),
            ppu.frame_buffer@.len() == FRAME_SIZE,
            forall|j: int|
                0 <= j < FRAME_SIZE ==> #[trigger] ppu.frame_buffer@[j] == if j < i {
                    v0.tile_block_over(
                        v0.frame_buffer[j],
                        j % SCREEN_WIDTH as int,
                        j / SCREEN_WIDTH as int,
                        start_x as int,
                        start_y as int,
                        base_addr as int,
                        width as int,
                        height as int,
                    )
                } else {
                    v0.frame_buffer[j]
                },
            forall|j: int| 0 <= j < FRAME_SIZE ==> #[trigger] ppu.frame_buffer@[j] < 4,
        decreases FRAME_SIZE - i,
    {
        let sx = i % SCREEN_WIDTH;
        let sy = i / SCREEN_WIDTH;
        if sx >= start_x && (sx - start_x) / 8 < width && sy >= start_y && (sy - start_y) / 8
            < height {
            let tx = (sx - start_x) / 8;
            let ty = (sy - start_y) / 8;
            proof {
                lemma_block_offset(ty, tx, width);
            }
            let addr: u128 = base_addr as u128 + (ty as u128 * width as u128 + tx as u128) * 16;
            if addr + 16 <= VRAM_SIZE as u128 {
                let color = tile_pixel_exec(
                    &ppu.vram,
                    addr as usize,
                    (sx - start_x) % 8,
                    (sy - start_y) % 8,
                );
                ppu.frame_buffer.set(i, color);
            }
        }
        i += 1;
    }
    assert(ppu.frame_buffer@ =~= v0.with_tile_block(
        v0.frame_buffer,
        start_x as int,
        start_y as int,
        base_addr as int,
        width as int,
        height as int,
    ));
}

/// Draws the tiles that the `width` by `height` corner of the tile map at
/// video RAM offset `map_addr` names, raw, top-left at (`start_x`, `start_y`).
fn render_bg_map_region(
    ppu: &mut Ppu,
    start_x: usize,
    start_y: usize,
    map_addr: usize,
    width: usize,
    height: usize,
    use_signed: bool,
)
    requires
        old(ppu).wf(),
    ensures
        final(ppu).wf(),
        final(ppu)@ == (PpuView {
            frame_buffer: old(ppu)@.with_map_block(
                old(ppu).frame_buffer@,
                start_x as int,
                start_y as int,
                map_addr as int,
                width as int,
                height as int,
                use_signed,
            ),
            ..old(ppu)@
        }),
{
    let ghost v0 = ppu@;
    let mut i: usize = 0;
    while i < FRAME_SIZE
        invariant
            v0.wf(),
            0 <= i <= FRAME_SIZE,
            ppu@ == (PpuView { frame_buffer: ppu.frame_buffer@, ..v0 }),
            ppu.frame_buffer@.len() == FRAME_SIZE,
            forall|j: int|
                0 <= j < FRAME_SIZE ==> #[trigger] ppu.frame_buffer@[j] == if j < i {
                    v0.map_block_over(
                        v0.frame_buffer[j],
                        j % SCREEN_WIDTH as int,
                        j / SCREEN_WIDTH as int,
                        start_x as int,
                        start_y as int,
                        map_addr as int,
                        width as int,
                        height as int,
                        use_signed,
                    )
                } else {
                    v0.frame_buffer[j]
                },
            forall|j: int| 0 <= j < FRAME_SIZE ==> #[trigger] ppu.frame_buffer@[j] < 4,
        decreases FRAME_SIZE - i,
    {
        let sx = i % SCREEN_WIDTH;
        let sy = i / SCREEN_WIDTH;
        if sx >= start_x && (sx - start_x) / 8 < width && sy >= start_y && (sy - start_y) / 8
            < height {
            let entry: u128 = map_addr as u128 + (((sy - start_y) / 8) * 32 + (sx - start_x) / 8) as u128;
            if entry < VRAM_SIZE as u128 {
                let tile_addr = tile_data_addr(ppu.vram[entry as usize], use_signed);
                if tile_addr + 16 <= ppu.vram.len() {
                    let color = tile_pixel_exec(
                        &ppu.vram,
                        tile_addr,
                        (sx - start_x) % 8,
                        (sy - start_y) % 8,
                    );
                    ppu.frame_buffer.set(i, color);
                }
            }
        }
        i += 1;
    }
    assert(ppu.frame_buffer@ =~= v0.with_map_block(
        v0.frame_buffer,
        start_x as int,
        start_y as int,
        map_addr as int,
        width as int,
        height as int,
        use_signed,
    ));
}

proof fn lemma_pixel_coords(y: int, x: int)
    requires
        0 <= y,
        0 <= x < SCREEN_WIDTH,
    ensures
        (y * SCREEN_WIDTH + x) / SCREEN_WIDTH as int == y,
        (y * SCREEN_WIDTH + x) % SCREEN_WIDTH as int == x,
{
    assert((y * 160 + x) / 160 == y && (y * 160 + x) % 160 == x) by (nonlinear_arith)
        requires
            0 <= y,
            0 <= x < 160,
    ;
}

/// Replaces the frame buffer with a view of video RAM: raw tiles from both
/// tile blocks in the top half, both tile maps in the bottom half, divided
/// by a row and a column in color 3.
pub fn render_vram_debug_view(ppu: &mut Ppu)
    requires
        old(ppu).wf(),
    ensures
        final(ppu).wf(),
        final(ppu)@ == (PpuView { frame_buffer: old(ppu)@.debug_view(), ..old(ppu)@ }),
{
    let ghost v0 = ppu@;
    render_tile_region(ppu, 0, 0, 0, 16, 8);
    let ghost f1 = ppu.frame_buffer@;
    render_tile_region(ppu, SCREEN_WIDTH / 2, 0, 0x1000, 16, 8);
    let ghost f2 = ppu.frame_buffer@;
    assert(f2 =~= v0.with_tile_block(f1, 80, 0, 0x1000, 16, 8));
    render_bg_map_region(ppu, 0, SCREEN_HEIGHT / 2, 0x1800, 16, 16, false);
    let ghost f3 = ppu.frame_buffer@;
    assert(f3 =~= v0.with_map_block(f2, 0, 72, 0x1800, 16, 16, false));
    render_bg_map_region(ppu, SCREEN_WIDTH / 2, SCREEN_HEIGHT / 2, 0x1C00, 16, 16, true);
    let ghost f4 = ppu.frame_buffer@;
    assert(f4 =~= v0.with_map_block(f3, 80, 72, 0x1C00, 16, 16, true));
    let mut k: usize = 0;
    while k < SCREEN_WIDTH
        invariant
            0 <= k <= SCREEN_WIDTH,
            ppu@ == (PpuView { frame_buffer: ppu.frame_buffer@, ..v0 }),
            ppu.frame_buffer@.len() == FRAME_SIZE,
            forall|j: int|
                0 <= j < FRAME_SIZE ==> #[trigger] ppu.frame_buffer@[j] == if j / 160 == 72 && j
                    % 160 < k {
                    3u8
                } else {
                    f4[j]
                },
        decreases SCREEN_WIDTH - k,
    {
        proof {
            lemma_pixel_coords(72, k as int);
        }
        ppu.frame_buffer.set(SCREEN_HEIGHT / 2 * SCREEN_WIDTH + k, 3);
        k += 1;
    }
    let ghost f5 = ppu.frame_buffer@;
    let mut k: usize = 0;
    while k < SCREEN_HEIGHT
        invariant
            0 <= k <= SCREEN_HEIGHT,
            ppu@ == (PpuView { frame_buffer: ppu.frame_buffer@, ..v0 }),
            ppu.frame_buffer@.len() == FRAME_SIZE,
            forall|j: int|
                0 <= j < FRAME_SIZE ==> #[trigger] ppu.frame_buffer@[j] == if j % 160 == 80 && j
                    / 160 < k {
                    3u8
                } else {
                    f5[j]
                },
        decreases SCREEN_HEIGHT - k,
    {
        proof {
            lemma_pixel_coords(k as int, 80);
        }
        ppu.frame_buffer.set(k * SCREEN_WIDTH + SCREEN_WIDTH / 2, 3);
        k += 1;
    }
    assert(ppu.frame_buffer@ =~= v0.debug_view());
}

} // verus!
