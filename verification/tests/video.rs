use emu6502::cpu6502::memory::Device;
use chrono::Timelike;
use emu6502::video::cia1::{time_has_reached_alarm, time_registers, to_bcd, Cia1};
use emu6502::video::control::{Control, Coordinate, RasterEvents};
use emu6502::video::keyboard::{matrix_position, HostKey};
use emu6502::video::{palette, C64Colour, Video, VideoSystem};

#[test]
fn test_get_sprite_coordinate_1() {
    let reg: [u8; 64] = [
        0, 0, 1, 1, 2, 2, 3, 3, 4, 4, 5, 5, 6, 6, 7, 7, 0xff, 0, 0, 0, 0, 0, 0, 0, 0, 0, 0, 0,
        0, 0, 0, 0, 0, 0, 0, 0, 0, 0, 0, 0, 0, 0, 0, 0, 0, 0, 0, 0, 0, 0, 0, 0, 0, 0, 0, 0, 0,
        0, 0, 0, 0, 0, 0, 0,
    ];
    let c = Control { reg: reg, raster_interrupt_at_line: 0 };
    for sprite_no in 0..8 {
        assert_eq!(sprite_no as u16 + 256, c.get_sprite_coordinate(sprite_no, Coordinate::X));
        assert_eq!(sprite_no as u16, c.get_sprite_coordinate(sprite_no, Coordinate::Y));
    }
}

#[test]
fn test_get_sprite_coordinate_2() {
    let reg: [u8; 64] = [
        0, 0, 1, 1, 2, 2, 3, 3, 4, 4, 5, 5, 6, 6, 7, 7, 0xaa, 0, 0, 0, 0, 0, 0, 0, 0, 0, 0, 0,
        0, 0, 0, 0, 0, 0, 0, 0, 0, 0, 0, 0, 0, 0, 0, 0, 0, 0, 0, 0, 0, 0, 0, 0, 0, 0, 0, 0, 0,
        0, 0, 0, 0, 0, 0, 0,
    ];
    let c = Control { reg: reg, raster_interrupt_at_line: 0 };
    for sprite_no in 0..8_u8 {
        assert_eq!(
            sprite_no as u16 + if sprite_no % 2 == 0 { 0 } else { 256 },
            c.get_sprite_coordinate(sprite_no, Coordinate::X)
        );
        assert_eq!(sprite_no as u16, c.get_sprite_coordinate(sprite_no, Coordinate::Y));
    }
}

#[test]
fn sprite_coordinate_set_then_get() {
    let mut c = Control::new();
    c.set_sprite_coordinate(3, Coordinate::X, 0x1a5);
    c.set_sprite_coordinate(3, Coordinate::Y, 0x42);
    assert_eq!(0x1a5, c.get_sprite_coordinate(3, Coordinate::X));
    assert_eq!(0x42, c.get_sprite_coordinate(3, Coordinate::Y));
    assert_eq!(0x08, c.reg[0x10]);
}

#[test]
fn control_power_on_registers() {
    let c = Control::new();
    assert_eq!(0x1b, c.reg[0x11]);
    assert_eq!(0xc8, c.reg[0x16]);
    assert_eq!(C64Colour::LightBlue.index(), c.get_border_color());
    assert_eq!(C64Colour::Blue.index(), c.get_background_color());
    assert_eq!(14, c.get_border_color());
    assert_eq!(6, c.get_background_color());
}

#[test]
fn control_register_write_reads_back_and_mirrors() {
    let mut c = Control::new();
    c.write(0x20, 0x05);
    assert_eq!(0x05, c.read(0x20));
    c.write(0x21 + 0x40, 0x07);
    assert_eq!(0x07, c.read(0x21));
    // the memory pointer register reads with bit 0 set
    assert_eq!(0x15, c.read(0x18));
}

#[test]
fn raster_interrupt_line_from_two_registers() {
    let mut c = Control::new();
    c.write(0x11, 0x80);
    c.write(0x12, 0x23);
    assert_eq!(0x123, c.get_raster_interrupt_at_line());
    c.write(0x11, 0x00);
    assert_eq!(0x023, c.get_raster_interrupt_at_line());
}

#[test]
fn raster_line_counts_and_wraps() {
    let mut c = Control::new();
    let start = c.get_current_raster_line();
    c.inc_current_raster_line();
    assert_eq!((start + 1) % 512, c.get_current_raster_line());
    for _ in 0..400 {
        c.inc_current_raster_line();
        assert!(c.get_current_raster_line() < 512);
    }
}

#[test]
fn bcd_of_numbers_below_100() {
    assert_eq!(0x00, to_bcd(0));
    assert_eq!(0x09, to_bcd(9));
    assert_eq!(0x10, to_bcd(10));
    assert_eq!(0x45, to_bcd(45));
    assert_eq!(0x99, to_bcd(99));
}

#[test]
fn time_registers_in_bcd() {
    let r = time_registers(700_000_000, 59, 7, true, 12);
    assert_eq!([7, 0x59, 0x07, 0x92], r);
    let r = time_registers(0, 0, 30, false, 1);
    assert_eq!([0, 0x00, 0x30, 0x01], r);
}

#[test]
fn current_time_is_a_valid_time_of_day() {
    let now = chrono::Local::now();
    let (pm, hour) = now.hour12();
    let t = time_registers(now.nanosecond(), now.second(), now.minute(), pm, hour);
    let mut cia = Cia1::new_with_time(t);
    assert_eq!(t, cia.current_time);
    cia.step_with_time([1, 2, 3, 4]);
    assert_eq!([1, 2, 3, 4], cia.current_time);
    assert!(t[0] <= 19);
    assert!(t[1] & 0x0f <= 9 && t[1] >> 4 <= 5);
    assert!(t[2] & 0x0f <= 9 && t[2] >> 4 <= 5);
    let h = t[3] & 0x7f;
    assert!(h >= 1 && h <= 0x12);
}

#[test]
fn alarm_compares_little_endian() {
    assert!(time_has_reached_alarm([0, 0, 0, 2], [9, 9, 9, 1]));
    assert!(!time_has_reached_alarm([9, 9, 9, 1], [0, 0, 0, 2]));
    assert!(time_has_reached_alarm([1, 2, 3, 4], [1, 2, 3, 4]));
}

#[test]
fn key_press_clears_matrix_bit() {
    let mut cia = Cia1::new_with_time([0; 4]);
    cia.set_key_state(2, 5, true);
    assert_eq!(0xff & !(1 << 5), cia.matrix[2]);
    cia.set_key_state(2, 5, false);
    assert_eq!(0xff, cia.matrix[2]);
}

fn pixel(frame: &[u8], sys: &VideoSystem, r: usize, c: usize) -> [u8; 4] {
    let p = (r * sys.width + c) * 4;
    [frame[p], frame[p + 1], frame[p + 2], frame[p + 3]]
}

#[test]
fn palette_entries() {
    assert_eq!([0x00, 0x00, 0x00, 0xff], palette(0));
    assert_eq!([0x40, 0x31, 0x8d, 0xff], palette(C64Colour::Blue.index()));
    assert_eq!([0x78, 0x6f, 0xc6, 0xff], palette(C64Colour::LightBlue.index()));
    assert_eq!([0x9f, 0x9f, 0x9f, 0xff], palette(15));
}

#[test]
fn video_systems() {
    let v = Video::new(0x400, 0xd800);
    assert_eq!(VideoSystem::pal(), v.system);
    assert_eq!(428, v.system.width);
    assert_eq!(384, VideoSystem::ntsc().width);
    assert_eq!((25, 40), (v.rows, v.cols));
}

#[test]
fn blank_and_empty_screens() {
    let v = Video::new(0x400, 0xd800);
    let sys = v.system;
    let mut frame = vec![0u8; sys.width * sys.height * 4];
    v.do_blank_screen(&mut frame, 14);
    assert!(frame.chunks(4).all(|px| px == palette(14)));
    v.do_empty_screen(&mut frame, 14, 6);
    assert_eq!(palette(14), pixel(&frame, &sys, 0, 0));
    assert_eq!(palette(14), pixel(&frame, &sys, sys.y_min - 1, sys.x_min));
    assert_eq!(palette(6), pixel(&frame, &sys, sys.y_min, sys.x_min));
    assert_eq!(palette(6), pixel(&frame, &sys, sys.y_max - 1, sys.x_max));
    assert_eq!(palette(14), pixel(&frame, &sys, sys.y_max, sys.x_max));
    assert_eq!(palette(14), pixel(&frame, &sys, sys.y_min, sys.x_max + 1));
    assert_eq!(palette(14), pixel(&frame, &sys, sys.y_min, sys.x_min - 1));
}

#[test]
fn draws_a_character_cell() {
    let v = Video::new(0x400, 0xd800);
    let sys = v.system;
    let mut frame = vec![0u8; sys.width * sys.height * 4];
    let mut chars = vec![0u8; 16];
    // character 1: a left bar on its first line, all set on its last
    chars[8] = 0x80;
    chars[15] = 0xff;
    v.do_char_at(&mut frame, &chars, 1, 2, 3, 1, 0);
    let r0 = sys.y_min + 3 * 8;
    let c0 = sys.x_min + 2 * 8;
    assert_eq!(palette(1), pixel(&frame, &sys, r0, c0));
    assert_eq!(palette(0), pixel(&frame, &sys, r0, c0 + 1));
    assert_eq!(palette(1), pixel(&frame, &sys, r0 + 7, c0 + 7));
    assert_eq!(palette(0), pixel(&frame, &sys, r0 + 3, c0 + 3));
    // outside the cell the frame is untouched
    assert_eq!([0, 0, 0, 0], pixel(&frame, &sys, r0, c0 + 8));
    assert_eq!([0, 0, 0, 0], pixel(&frame, &sys, r0 - 1, c0));
}

#[test]
fn redraws_text_or_border() {
    let v = Video::new(0x400, 0xd800);
    let sys = v.system;
    let mut frame = vec![0u8; sys.width * sys.height * 4];
    let mut chars = vec![0u8; 2048];
    chars[8 * 65] = 0xff;
    let mut screen = vec![32u8; 1000];
    screen[41] = 65;
    let colors = vec![1u8; 1000];
    let mut control = Control::new();
    // power-on: the screen is on in text mode
    v.redraw_screen(&mut frame, &control, &chars, &screen, &colors);
    assert_eq!(palette(1), pixel(&frame, &sys, sys.y_min + 8, sys.x_min + 8));
    assert_eq!(palette(6), pixel(&frame, &sys, sys.y_min + 9, sys.x_min + 8));
    assert_eq!([0, 0, 0, 0], pixel(&frame, &sys, 0, 0));
    // screen off: all border
    control.reg[0x11] &= !0b10000;
    v.redraw_screen(&mut frame, &control, &chars, &screen, &colors);
    assert_eq!(palette(14), pixel(&frame, &sys, sys.y_min + 8, sys.x_min + 8));
}

#[test]
fn raster_events() {
    let mut c = Control::new();
    c.reg[0x1a] = 1;
    c.set_raster_interrupt_at_line(3);
    let start = c.get_current_raster_line();
    assert_eq!(0, start);
    let ev = c.advance_raster();
    assert_eq!(RasterEvents { redraw: false, irq: false }, ev);
    c.advance_raster();
    let ev = c.advance_raster();
    assert_eq!(RasterEvents { redraw: false, irq: true }, ev);
    assert_eq!(1, c.reg[0x19] & 1);
    for _ in 3..511 {
        c.advance_raster();
    }
    let ev = c.advance_raster();
    assert_eq!(0, c.get_current_raster_line());
    assert!(ev.redraw);
}

#[test]
fn host_keys_on_the_matrix() {
    assert_eq!((0, 1), matrix_position(HostKey::Enter));
    assert_eq!((1, 2), matrix_position(HostKey::KeyA));
    assert_eq!((7, 4), matrix_position(HostKey::Space));
    assert_eq!((5, 3), matrix_position(HostKey::Caret));
    assert_eq!((7, 7), matrix_position(HostKey::Tab));
}

#[test]
fn keyboard_scan_reads_the_selected_row() {
    let mut cia = Cia1::new_with_time([0; 4]);
    cia.write(2, 0xff); // port A: all outputs
    cia.write(0, !(1u8 << 2)); // drive row 2 low
    assert_eq!(0xff, cia.read(1));
    cia.set_key_state(2, 5, true);
    assert_eq!(0xff & !(1u8 << 5), cia.read(1));
    // a key in another row does not show
    cia.set_key_state(4, 1, true);
    assert_eq!(0xff & !(1u8 << 5), cia.read(1));
    cia.set_key_state(2, 5, false);
    assert_eq!(0xff, cia.read(1));
}

#[test]
fn memory_pointers_at_power_on() {
    let c = Control::new();
    assert_eq!(0x0400, c.get_screen_base_address());
    assert_eq!(0x2000, c.get_character_set_base_address());
    assert_eq!(0x0000, c.get_bitmap_base_address());
}
