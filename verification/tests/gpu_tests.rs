use gameboy_emulator::gpu::{
    get_color_from_palette, pixel_rgb, Color, FrameBuffer, GPUMode, Palette, Scanline, GPU,
    SCREEN_H, SCREEN_W,
};

fn pixel(gpu: &GPU, x: usize, y: usize) -> (u8, u8, u8) {
    pixel_rgb(&gpu.framebuffer.data, gpu.framebuffer.width, x, y)
}

/// Runs the unit until it has drawn line `ly` (leaves pixel transfer).
fn run_until_drawn(gpu: &mut GPU) {
    // OAM search takes 80 dots, pixel transfer 172.
    for _ in 0..(80 / 4 + 172 / 4) {
        gpu.step(4);
    }
    assert_eq!(gpu.mode, GPUMode::HBlank);
}

#[test]
fn gpu_power_on_state() {
    let gpu = GPU::new();
    assert_eq!(gpu.framebuffer.width, SCREEN_W);
    assert_eq!(gpu.framebuffer.height, SCREEN_H);
    assert_eq!(gpu.framebuffer.data.len(), 160 * 144 * 3);
    assert!(gpu.framebuffer.data.iter().all(|b| *b == 0));
    assert_eq!(gpu.mode, GPUMode::OAM);
    assert_eq!(gpu.current_line, 0);
    assert_eq!(gpu.mode_clock, 0);
    assert_eq!(gpu.registers.lcdc, 0x91);
    assert_eq!(gpu.registers.bgp, 0xFC);
    assert_eq!(gpu.registers.obp0, 0xFF);
    assert_eq!(gpu.registers.obp1, 0xFF);
    assert_eq!(gpu.palette.0[0], Color(255, 255, 255));
    assert_eq!(gpu.palette.0[1], Color(192, 192, 192));
    assert_eq!(gpu.palette.0[2], Color(96, 96, 96));
    assert_eq!(gpu.palette.0[3], Color(0, 0, 0));
}

#[test]
fn mode_timing_over_one_line() {
    let mut gpu = GPU::new();
    for _ in 0..19 {
        gpu.step(4);
    }
    assert_eq!(gpu.mode, GPUMode::OAM);
    assert_eq!(gpu.mode_clock, 76);
    gpu.step(4);
    assert_eq!(gpu.mode, GPUMode::Transfer);
    assert_eq!(gpu.mode_clock, 0);
    assert_eq!(gpu.registers.stat & 0x03, 3);
    for _ in 0..43 {
        gpu.step(4);
    }
    assert_eq!(gpu.mode, GPUMode::HBlank);
    assert_eq!(gpu.registers.stat & 0x03, 0);
    for _ in 0..51 {
        gpu.step(4);
    }
    assert_eq!(gpu.mode, GPUMode::OAM);
    assert_eq!(gpu.current_line, 1);
    assert_eq!(gpu.registers.ly, 1);
    assert_eq!(gpu.registers.stat & 0x03, 2);
}

#[test]
fn a_full_frame_returns_to_line_zero() {
    let mut gpu = GPU::new();
    let mut saw_vblank = false;
    for i in 0..(154 * 456 / 4) {
        gpu.step(4);
        if gpu.mode == GPUMode::VBlank {
            saw_vblank = true;
            assert!(gpu.current_line >= 144 && gpu.current_line <= 153);
        } else {
            assert!(gpu.current_line < 144, "step {}", i);
        }
        assert_eq!(gpu.registers.ly, gpu.current_line);
    }
    assert!(saw_vblank);
    assert_eq!(gpu.mode, GPUMode::OAM);
    assert_eq!(gpu.current_line, 0);
    assert_eq!(gpu.mode_clock, 0);
}

#[test]
fn vertical_blank_begins_after_line_143() {
    let mut gpu = GPU::new();
    for _ in 0..(144 * 456 / 4) {
        gpu.step(4);
    }
    assert_eq!(gpu.mode, GPUMode::VBlank);
    assert_eq!(gpu.current_line, 144);
    assert_eq!(gpu.registers.stat & 0x03, 1);
}

#[test]
fn excess_dots_are_dropped() {
    let mut gpu = GPU::new();
    gpu.step(1000);
    assert_eq!(gpu.mode, GPUMode::Transfer);
    assert_eq!(gpu.mode_clock, 0);
}

#[test]
fn stat_coincidence_and_interrupts() {
    let mut gpu = GPU::new();
    gpu.registers.lyc = 0;
    gpu.registers.stat = 0x40;
    let irq = gpu.step(4);
    assert_eq!(gpu.registers.stat, 0x40 | 0x04 | 0x02);
    assert_eq!(irq, 0x02);
    gpu.registers.lyc = 5;
    let irq = gpu.step(4);
    assert_eq!(gpu.registers.stat, 0x40 | 0x02);
    assert_eq!(irq, 0x00);
}

#[test]
fn check_interrupts_sources() {
    let mut gpu = GPU::new();
    gpu.registers.lyc = 1;
    gpu.mode = GPUMode::VBlank;
    gpu.registers.stat = 0x10;
    assert_eq!(gpu.check_interrupts(), 0x01);
    gpu.registers.stat = 0x10 | 0x40;
    gpu.registers.lyc = 0;
    assert_eq!(gpu.check_interrupts(), 0x03);
    gpu.mode = GPUMode::HBlank;
    gpu.registers.stat = 0x08;
    gpu.registers.lyc = 1;
    assert_eq!(gpu.check_interrupts(), 0x02);
    gpu.mode = GPUMode::OAM;
    gpu.registers.stat = 0x20;
    assert_eq!(gpu.check_interrupts(), 0x02);
    gpu.registers.stat = 0x08;
    assert_eq!(gpu.check_interrupts(), 0x00);
}

#[test]
fn oam_is_closed_during_transfer() {
    let mut gpu = GPU::new();
    gpu.write_oam(5, 0x77);
    assert_eq!(gpu.read_oam(5), Some(0x77));
    assert_eq!(gpu.read_oam(0xA0), None);
    gpu.write_oam(0xA0, 1);
    gpu.mode = GPUMode::Transfer;
    assert_eq!(gpu.read_oam(5), None);
    gpu.write_oam(5, 0x11);
    gpu.mode = GPUMode::HBlank;
    assert_eq!(gpu.read_oam(5), Some(0x77));
}

#[test]
fn palette_lookup() {
    let pal = Palette([Color(1, 1, 1), Color(2, 2, 2), Color(3, 3, 3), Color(4, 4, 4)]);
    // 0xE4 = 11 10 01 00: colour n maps to shade n
    for i in 0..4u8 {
        assert_eq!(get_color_from_palette(i, 0xE4, &pal), pal.0[i as usize]);
    }
    // 0x1B = 00 01 10 11: reversed
    assert_eq!(get_color_from_palette(0, 0x1B, &pal), Color(4, 4, 4));
    assert_eq!(get_color_from_palette(3, 0x1B, &pal), Color(1, 1, 1));
    let mut gpu = GPU::new();
    gpu.set_palette([Color(9, 8, 7); 4]);
    assert_eq!(gpu.palette.0[2], Color(9, 8, 7));
}

#[test]
fn frame_buffer_pixels() {
    let mut fb = FrameBuffer::new(4, 2);
    assert_eq!(fb.data.len(), 24);
    fb.set_pixel(1, 1, Color(10, 20, 30));
    assert_eq!(&fb.data[15..18], &[10, 20, 30]);
    // outside the buffer: ignored
    fb.set_pixel(3, 5, Color(1, 1, 1));
    assert_eq!(fb.data.iter().map(|b| *b as u32).sum::<u32>(), 60);
    assert_eq!(pixel_rgb(&fb.data, 4, 1, 1), (10, 20, 30));
    let line = Scanline::new(160);
    assert_eq!(line.data.len(), 480);
    assert_eq!(line.width, 160);
}

#[test]
fn background_line_is_drawn_when_transfer_ends() {
    let mut gpu = GPU::new();
    gpu.registers.bgp = 0xE4;
    // tile 0, row 0: low plane all ones -> colour 1 everywhere
    gpu.vram[0] = 0xFF;
    gpu.vram[1] = 0x00;
    // tile 1 at map column 2: row 0 high plane 0xF0 -> colours 2,2,2,2,0,0,0,0
    gpu.vram[1 * 16 + 1] = 0xF0;
    gpu.vram[0x1800 + 2] = 1;
    run_until_drawn(&mut gpu);
    assert_eq!(pixel(&gpu, 0, 0), (192, 192, 192));
    assert_eq!(pixel(&gpu, 15, 0), (192, 192, 192));
    assert_eq!(pixel(&gpu, 16, 0), (96, 96, 96));
    assert_eq!(pixel(&gpu, 19, 0), (96, 96, 96));
    assert_eq!(pixel(&gpu, 20, 0), (255, 255, 255));
    assert_eq!(pixel(&gpu, 159, 0), (192, 192, 192));
    // the next line is untouched
    assert_eq!(pixel(&gpu, 0, 1), (0, 0, 0));
}

#[test]
fn lcd_off_draws_nothing() {
    let mut gpu = GPU::new();
    gpu.registers.lcdc = 0x11;
    gpu.vram[0] = 0xFF;
    run_until_drawn(&mut gpu);
    assert!(gpu.framebuffer.data.iter().all(|b| *b == 0));
}

#[test]
fn signed_tile_addressing() {
    let mut gpu = GPU::new();
    gpu.registers.lcdc = 0x81; // LCD and background on, signed tile numbers
    gpu.registers.bgp = 0xE4;
    // tile 0 in signed mode lives at 0x1000
    gpu.vram[0x1000] = 0xFF;
    run_until_drawn(&mut gpu);
    assert_eq!(pixel(&gpu, 0, 0), (192, 192, 192));
    // tile 0xFF (-1) lives at 0x0FF0
    let mut gpu = GPU::new();
    gpu.registers.lcdc = 0x81;
    gpu.registers.bgp = 0xE4;
    gpu.vram[0x1800] = 0xFF;
    gpu.vram[0x0FF0] = 0xFF;
    run_until_drawn(&mut gpu);
    assert_eq!(pixel(&gpu, 0, 0), (192, 192, 192));
    assert_eq!(pixel(&gpu, 8, 0), (255, 255, 255));
}

#[test]
fn sprites_are_drawn_over_the_background() {
    let mut gpu = GPU::new();
    gpu.registers.lcdc = 0x91 | 0x02;
    gpu.registers.bgp = 0xE4;
    gpu.registers.obp0 = 0xE4;
    // sprite tile 1, row 0: colours 3,3,0,0,1,1,2,2
    gpu.vram[16] = 0b1100_1100;
    gpu.vram[17] = 0b1100_0011;
    gpu.oam[0] = 16; // top line 0
    gpu.oam[1] = 8 + 10; // left column 10
    gpu.oam[2] = 1;
    gpu.oam[3] = 0;
    run_until_drawn(&mut gpu);
    assert_eq!(pixel(&gpu, 10, 0), (0, 0, 0));
    assert_eq!(pixel(&gpu, 11, 0), (0, 0, 0));
    assert_eq!(pixel(&gpu, 12, 0), (255, 255, 255)); // transparent: background
    assert_eq!(pixel(&gpu, 14, 0), (192, 192, 192));
    assert_eq!(pixel(&gpu, 16, 0), (96, 96, 96));
    assert_eq!(pixel(&gpu, 17, 0), (96, 96, 96));
    assert_eq!(pixel(&gpu, 18, 0), (255, 255, 255));
}

#[test]
fn flipped_sprite() {
    let mut gpu = GPU::new();
    gpu.registers.lcdc = 0x91 | 0x02;
    gpu.registers.obp1 = 0xE4;
    gpu.vram[16] = 0b1000_0000; // leftmost pixel colour 1
    gpu.oam[0] = 16;
    gpu.oam[1] = 8;
    gpu.oam[2] = 1;
    gpu.oam[3] = 0x20 | 0x10; // x flip, palette 1
    run_until_drawn(&mut gpu);
    assert_eq!(pixel(&gpu, 7, 0), (192, 192, 192));
    assert_eq!(pixel(&gpu, 0, 0), (255, 255, 255));
}

#[test]
fn at_most_ten_sprites_per_line() {
    let mut gpu = GPU::new();
    gpu.registers.lcdc = 0x91 | 0x02;
    gpu.vram[16] = 0xFF;
    gpu.vram[17] = 0xFF;
    for s in 0..12 {
        gpu.oam[4 * s] = 16;
        gpu.oam[4 * s + 1] = (8 + 8 * s) as u8;
        gpu.oam[4 * s + 2] = 1;
    }
    run_until_drawn(&mut gpu);
    assert_eq!(pixel(&gpu, 8 * 9, 0), (0, 0, 0));
    assert_eq!(pixel(&gpu, 8 * 10, 0), (255, 255, 255));
    assert_eq!(pixel(&gpu, 8 * 11, 0), (255, 255, 255));
}

#[test]
fn window_is_drawn_over_the_background() {
    let mut gpu = GPU::new();
    gpu.registers.lcdc = 0x91 | 0x20 | 0x40; // window on, map at 0x1C00
    gpu.registers.bgp = 0xE4;
    gpu.registers.wx = 7 + 100;
    gpu.registers.wy = 0;
    gpu.vram[0x1C00] = 2;
    gpu.vram[2 * 16] = 0xFF;
    gpu.vram[2 * 16 + 1] = 0xFF;
    run_until_drawn(&mut gpu);
    assert_eq!(pixel(&gpu, 99, 0), (255, 255, 255));
    assert_eq!(pixel(&gpu, 100, 0), (0, 0, 0));
    assert_eq!(pixel(&gpu, 107, 0), (0, 0, 0));
    assert_eq!(pixel(&gpu, 108, 0), (255, 255, 255));
}
