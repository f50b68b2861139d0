use gb_emu::{render_vram_debug_view, Ppu, SCREEN_HEIGHT, SCREEN_WIDTH};

fn pixel(ppu: &Ppu, x: usize, y: usize) -> u8 {
    ppu.frame_buffer[y * SCREEN_WIDTH + x]
}

#[test]
fn new_renderer_state() {
    let ppu = Ppu::new();
    assert_eq!((ppu.mode, ppu.mode_clock, ppu.line), (2, 0, 0));
    assert_eq!(ppu.vram.len(), 0x2000);
    assert_eq!(ppu.oam.len(), 0xA0);
    assert_eq!(ppu.frame_buffer.len(), SCREEN_WIDTH * SCREEN_HEIGHT);
    assert!(ppu.frame_buffer.iter().all(|&p| p == 0));
    assert_eq!(ppu.get_status(), 2);
}

#[test]
fn mode_durations_one_cycle_at_a_time() {
    let mut ppu = Ppu::new();
    let mut transitions = Vec::new();
    let mut previous = ppu.mode;
    for cycle in 1..=(456 * 144 + 456 * 10) {
        ppu.step(1);
        assert_eq!(ppu.stat & 3, ppu.mode);
        assert_eq!(ppu.get_status(), ppu.mode);
        if ppu.mode != previous {
            transitions.push((cycle, ppu.mode, ppu.line));
            previous = ppu.mode;
        }
    }
    assert_eq!(transitions[0], (80, 3, 0));
    assert_eq!(transitions[1], (252, 0, 0));
    assert_eq!(transitions[2], (456, 2, 1));
    let vblank = transitions.iter().position(|t| t.1 == 1).unwrap();
    assert_eq!(transitions[vblank], (456 * 144, 1, 144));
    assert_eq!(transitions[vblank + 1], (456 * 154, 2, 0));
    assert_eq!(transitions.len(), vblank + 2);
}

#[test]
fn one_vblank_per_frame() {
    let mut ppu = Ppu::new();
    let mut events = 0;
    for _ in 0..70224 {
        ppu.step(1);
        if ppu.vblank_interrupt {
            events += 1;
            ppu.vblank_interrupt = false;
        }
    }
    assert_eq!(events, 1);
    assert_eq!((ppu.mode, ppu.mode_clock, ppu.line), (2, 0, 0));
}

#[test]
fn vblank_lines_advance_and_wrap() {
    let mut ppu = Ppu::new();
    ppu.mode = 1;
    ppu.line = 152;
    ppu.mode_clock = 400;
    ppu.step(100);
    assert_eq!((ppu.mode, ppu.line, ppu.mode_clock), (1, 153, 0));
    ppu.step(456);
    assert_eq!((ppu.mode, ppu.line, ppu.mode_clock), (2, 0, 0));
}

#[test]
fn large_cycle_counts_do_not_overflow() {
    let mut ppu = Ppu::new();
    ppu.mode_clock = 79;
    ppu.step(u32::MAX);
    assert_eq!((ppu.mode, ppu.mode_clock), (3, 0));
}

#[test]
fn status_overwrites_only_mode_bits() {
    let mut ppu = Ppu::new();
    assert_eq!(ppu.stat, 0x85);
    ppu.step(1);
    assert_eq!(ppu.stat, 0x86);
    ppu.step(79);
    assert_eq!(ppu.stat, 0x87);
}

#[test]
fn status_keeps_upper_bits() {
    let mut ppu = Ppu::new();
    ppu.stat = 0xF8;
    ppu.step(1);
    assert_eq!(ppu.stat, 0xFA);
}

fn ready_for_line(line: u8) -> Ppu {
    let mut ppu = Ppu::new();
    ppu.line = line;
    ppu
}

#[test]
fn background_through_palette() {
    let mut ppu = ready_for_line(0);
    ppu.lcdc = 0x91;
    ppu.vram[0] = 0xFF;
    ppu.vram[1] = 0x00;
    ppu.render_scanline();
    assert!((0..SCREEN_WIDTH).all(|x| pixel(&ppu, x, 0) == 3));
    assert_eq!(pixel(&ppu, 0, 1), 0);
}

#[test]
fn background_color_indices_and_scroll() {
    let mut ppu = ready_for_line(3);
    ppu.lcdc = 0x91;
    ppu.bgp = 0xE4;
    // Tile 1, row 3: pixels 0..7 take color indices 3,2,1,0,3,2,1,0.
    ppu.vram[16 + 6] = 0b1010_1010;
    ppu.vram[16 + 7] = 0b1100_1100;
    ppu.vram[0x1800 + 1] = 1;
    ppu.render_scanline();
    assert_eq!(pixel(&ppu, 8, 3), 3);
    assert_eq!(pixel(&ppu, 9, 3), 2);
    assert_eq!(pixel(&ppu, 10, 3), 1);
    assert_eq!(pixel(&ppu, 11, 3), 0);
    assert_eq!(pixel(&ppu, 7, 3), 0);
    ppu.scx = 8;
    ppu.render_scanline();
    assert_eq!(pixel(&ppu, 0, 3), 3);
    assert_eq!(pixel(&ppu, 1, 3), 2);
}

#[test]
fn signed_tile_addressing() {
    let mut ppu = ready_for_line(0);
    ppu.lcdc = 0x81;
    ppu.vram[0x1800] = 0x80;
    ppu.vram[0x1000] = 0x80;
    ppu.render_scanline();
    assert_eq!(pixel(&ppu, 0, 0), 3);
    assert_eq!(pixel(&ppu, 1, 0), 0);
}

#[test]
fn display_off_clears_line() {
    let mut ppu = ready_for_line(10);
    ppu.vram[0] = 0xFF;
    ppu.frame_buffer[10 * SCREEN_WIDTH + 5] = 2;
    ppu.frame_buffer[11 * SCREEN_WIDTH] = 2;
    ppu.lcdc = 0x11;
    ppu.render_scanline();
    assert!((0..SCREEN_WIDTH).all(|x| pixel(&ppu, x, 10) == 0));
    assert_eq!(pixel(&ppu, 0, 11), 2);
}

#[test]
fn window_over_background() {
    let mut ppu = ready_for_line(0);
    ppu.lcdc = 0x80 | 0x20 | 0x10 | 0x40;
    ppu.wx = 7 + 16;
    ppu.wy = 0;
    ppu.vram[0x1C00] = 1;
    ppu.vram[16] = 0xFF;
    ppu.render_scanline();
    assert_eq!(pixel(&ppu, 15, 0), 0);
    assert!((16..24).all(|x| pixel(&ppu, x, 0) == 3));
    assert_eq!(pixel(&ppu, 24, 0), 0);
    ppu.line = 0;
    ppu.wy = 1;
    ppu.render_scanline();
    assert_eq!(pixel(&ppu, 16, 0), 0);
}

#[test]
fn window_left_of_screen() {
    let mut ppu = ready_for_line(0);
    ppu.lcdc = 0x80 | 0x20 | 0x10;
    ppu.wx = 3;
    ppu.wy = 0;
    // Window column 4 onwards is tile 0's pixels 4..7, then tile 1.
    ppu.vram[0] = 0x0F;
    ppu.vram[0x1801] = 1;
    ppu.vram[16] = 0x80;
    ppu.render_scanline();
    assert!((0..4).all(|x| pixel(&ppu, x, 0) == 3));
    assert_eq!(pixel(&ppu, 4, 0), 3);
    assert_eq!(pixel(&ppu, 5, 0), 0);
}

fn place_sprite(ppu: &mut Ppu, index: usize, x: u8, y: u8, tile: u8, attrs: u8) {
    ppu.oam[index * 4] = y + 16;
    ppu.oam[index * 4 + 1] = x + 8;
    ppu.oam[index * 4 + 2] = tile;
    ppu.oam[index * 4 + 3] = attrs;
}

fn sprite_scene() -> Ppu {
    let mut ppu = ready_for_line(4);
    ppu.lcdc = 0x82;
    // Tile 1, row 4: color index 1 everywhere.
    ppu.vram[16 + 8] = 0xFF;
    ppu.obp0 = 0xFF;
    ppu.obp1 = 0x04;
    ppu
}

#[test]
fn leftmost_sprite_wins_same_tile() {
    let mut ppu = sprite_scene();
    place_sprite(&mut ppu, 0, 5, 0, 1, 0);
    place_sprite(&mut ppu, 1, 0, 0, 1, 0);
    ppu.render_scanline();
    assert_eq!(pixel(&ppu, 4, 4), 3);
    assert_eq!(pixel(&ppu, 5, 4), 3);
}

#[test]
fn leftmost_sprite_wins_overlap() {
    let mut ppu = sprite_scene();
    place_sprite(&mut ppu, 0, 5, 0, 1, 0x10);
    place_sprite(&mut ppu, 1, 0, 0, 1, 0);
    ppu.render_scanline();
    assert_eq!(pixel(&ppu, 4, 4), 3);
    assert_eq!(pixel(&ppu, 7, 4), 3);
    assert_eq!(pixel(&ppu, 8, 4), 1);
    assert_eq!(pixel(&ppu, 12, 4), 1);
    assert_eq!(pixel(&ppu, 13, 4), 0);
}

#[test]
fn equal_x_earlier_entry_wins() {
    let mut ppu = sprite_scene();
    place_sprite(&mut ppu, 0, 3, 0, 1, 0x10);
    place_sprite(&mut ppu, 1, 3, 0, 1, 0);
    ppu.render_scanline();
    assert_eq!(pixel(&ppu, 3, 4), 1);
}

#[test]
fn only_ten_sprites_per_line() {
    let mut ppu = sprite_scene();
    for i in 0..11 {
        place_sprite(&mut ppu, i, (i * 8) as u8, 0, 1, 0);
    }
    ppu.render_scanline();
    assert_eq!(pixel(&ppu, 79, 4), 3);
    assert_eq!(pixel(&ppu, 80, 4), 0);
}

#[test]
fn sprite_flips_and_background_priority() {
    let mut ppu = sprite_scene();
    // Tile 2, row 4: only the leftmost pixel has color index 1.
    ppu.vram[32 + 8] = 0x80;
    place_sprite(&mut ppu, 0, 20, 0, 2, 0x20);
    ppu.render_scanline();
    assert_eq!(pixel(&ppu, 20, 4), 0);
    assert_eq!(pixel(&ppu, 27, 4), 3);

    let mut ppu = sprite_scene();
    // Tile 2, row 3 read through a vertical flip from line 4.
    ppu.vram[32 + 6] = 0xFF;
    place_sprite(&mut ppu, 0, 20, 0, 2, 0x40);
    ppu.render_scanline();
    assert_eq!(pixel(&ppu, 20, 4), 3);

    let mut ppu = sprite_scene();
    ppu.lcdc = 0x93;
    ppu.vram[8] = 0xFF;
    place_sprite(&mut ppu, 0, 0, 0, 1, 0x80);
    ppu.render_scanline();
    assert_eq!(pixel(&ppu, 0, 4), 3);
    ppu.bgp = 0x00;
    ppu.obp0 = 0x08;
    ppu.render_scanline();
    assert_eq!(pixel(&ppu, 0, 4), 2);
}

#[test]
fn tall_sprites_use_the_next_tile_below() {
    let mut ppu = ready_for_line(12);
    ppu.lcdc = 0x86;
    ppu.obp0 = 0xE4;
    // Tile 3 row 4 holds color index 2.
    ppu.vram[3 * 16 + 9] = 0xFF;
    place_sprite(&mut ppu, 0, 0, 0, 2, 0);
    ppu.render_scanline();
    assert_eq!(pixel(&ppu, 0, 12), 2);
}

#[test]
fn drawing_end_renders_line() {
    let mut ppu = Ppu::new();
    ppu.vram[0] = 0xFF;
    ppu.step(80);
    assert_eq!(pixel(&ppu, 0, 0), 0);
    ppu.step(172);
    assert_eq!(ppu.mode, 0);
    assert_eq!(pixel(&ppu, 0, 0), 3);
}

#[test]
fn debug_view_layout() {
    let mut ppu = Ppu::new();
    ppu.vram[0] = 0xFF;
    ppu.vram[1] = 0xFF;
    ppu.vram[0x1000 + 16] = 0x80;
    ppu.frame_buffer[65 * SCREEN_WIDTH + 3] = 2;
    render_vram_debug_view(&mut ppu);
    assert!((0..SCREEN_WIDTH).all(|x| pixel(&ppu, x, 72) == 3));
    assert!((0..SCREEN_HEIGHT).all(|y| pixel(&ppu, 80, y) == 3));
    assert!((0..8).all(|x| pixel(&ppu, x, 0) == 3));
    assert_eq!(pixel(&ppu, 0, 1), 0);
    assert_eq!(pixel(&ppu, 88, 0), 1);
    assert_eq!(pixel(&ppu, 89, 0), 0);
    assert_eq!(pixel(&ppu, 3, 65), 2);
    // The bottom left shows tile 0 at every map entry.
    assert!((0..8).all(|x| pixel(&ppu, x, 73) == 0));
    assert!((0..8).all(|x| pixel(&ppu, x, 80) == 3));
}
