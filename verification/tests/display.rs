use chip8::font::FONT;
use chip8::{Core, Fault};

fn machine(words: &[u16]) -> Core {
    let mut rom: Vec<u8> = Vec::new();
    for word in words {
        rom.push((word >> 8) as u8);
        rom.push((word & 0xFF) as u8);
    }
    Core::new(&rom, false)
}

fn run(core: &mut Core, cycles: usize) {
    for _ in 0..cycles {
        assert_eq!(core.fault(), None);
        core.cycle(&[]);
    }
}

fn lit(core: &Core) -> Vec<(usize, usize)> {
    let mut pixels = Vec::new();
    for row in 0..32 {
        for col in 0..64 {
            if core.display[row * 64 + col] {
                pixels.push((col, row));
            }
        }
    }
    pixels
}

fn glyph_pixels(digit: usize, left: usize, top: usize) -> Vec<(usize, usize)> {
    let mut pixels = Vec::new();
    for row in 0..5 {
        for col in 0..8 {
            if FONT[digit * 5 + row] & (0x80 >> col) != 0 && top + row < 32 && left + col < 64 {
                pixels.push((left + col, top + row));
            }
        }
    }
    pixels
}

#[test]
fn glyph_eight_drawn_where_v0_points() {
    // `D005` takes both coordinates from V0, which holds 8 by then.
    let mut core = machine(&[0x6005, 0x7003, 0xF029, 0xD005]);
    run(&mut core, 4);
    assert_eq!(core.registers()[0], 8);
    assert_eq!(core.index(), 0x50 + 40);
    assert_eq!(core.pc(), 0x208);
    let glyph: [u8; 5] = [0xF0, 0x90, 0xF0, 0x90, 0xF0];
    for row in 0..5 {
        for col in 0..8 {
            let expected = glyph[row] & (0x80 >> col) != 0;
            assert_eq!(
                core.display[(8 + row) * 64 + 8 + col],
                expected,
                "pixel ({col}, {row}) of the glyph"
            );
        }
    }
    assert_eq!(lit(&core), glyph_pixels(8, 8, 8));
    assert_eq!(core.registers()[0xF], 0);
}

#[test]
fn glyph_eight_in_the_top_left_block() {
    let mut core = machine(&[0x6105, 0x7103, 0xF129, 0xD005]);
    run(&mut core, 4);
    assert_eq!(core.registers()[1], 8);
    let glyph: [u8; 5] = [0xF0, 0x90, 0xF0, 0x90, 0xF0];
    for row in 0..5 {
        for col in 0..8 {
            let expected = glyph[row] & (0x80 >> col) != 0;
            assert_eq!(core.display[row * 64 + col], expected, "pixel ({col}, {row})");
        }
    }
    assert_eq!(lit(&core), glyph_pixels(8, 0, 0));
    assert_eq!(core.registers()[0xF], 0);
}

#[test]
fn display_getter_is_the_field() {
    let mut core = machine(&[0xA050, 0xD005]);
    run(&mut core, 2);
    assert_eq!(core.display(), &core.display);
    assert!(core.display().iter().any(|pixel| *pixel));
}

#[test]
fn drawing_twice_clears_and_reports_the_collision() {
    let mut core = machine(&[0x610A, 0x6205, 0xA050, 0xD125, 0xD125]);
    run(&mut core, 4);
    assert_eq!(lit(&core), glyph_pixels(0, 10, 5));
    assert_eq!(core.registers()[0xF], 0);
    run(&mut core, 1);
    assert_eq!(lit(&core), vec![]);
    assert_eq!(core.registers()[0xF], 1);
}

#[test]
fn overlapping_sprites_xor() {
    // Glyph 1 over glyph 0 at the same place.
    let mut core = machine(&[0xA050, 0xD005, 0xA055, 0xD005]);
    run(&mut core, 4);
    let rows: [u8; 5] = [0xF0 ^ 0x20, 0x90 ^ 0x60, 0x90 ^ 0x20, 0x90 ^ 0x20, 0xF0 ^ 0x70];
    for row in 0..5 {
        for col in 0..8 {
            assert_eq!(core.display[row * 64 + col], rows[row] & (0x80 >> col) != 0);
        }
    }
    assert_eq!(core.registers()[0xF], 1);
}

#[test]
fn sprite_without_overlap_reports_no_collision() {
    let mut core = machine(&[0xA050, 0xD005, 0x6108, 0xD105]);
    run(&mut core, 4);
    assert_eq!(core.registers()[0xF], 0);
    let mut expected = glyph_pixels(0, 0, 0);
    expected.extend(glyph_pixels(0, 8, 0));
    expected.sort_by_key(|(col, row)| (*row, *col));
    assert_eq!(lit(&core), expected);
}

#[test]
fn rows_below_the_display_are_dropped() {
    let mut core = machine(&[0x6104, 0x621E, 0xA050, 0xD125]);
    run(&mut core, 4);
    assert_eq!(lit(&core), vec![(4, 30), (5, 30), (6, 30), (7, 30), (4, 31), (7, 31)]);
    assert_eq!(core.registers()[0xF], 0);
}

#[test]
fn columns_right_of_the_display_are_dropped() {
    let mut core = machine(&[0x613E, 0x6202, 0xA050, 0xD125]);
    run(&mut core, 4);
    assert_eq!(
        lit(&core),
        vec![(62, 2), (63, 2), (62, 3), (62, 4), (62, 5), (62, 6), (63, 6)]
    );
}

#[test]
fn only_the_origin_wraps() {
    let mut core = machine(&[0x6142, 0x6223, 0xA050, 0xD125]);
    run(&mut core, 4);
    assert_eq!(lit(&core), glyph_pixels(0, 2, 3));

    let mut core = machine(&[0x61FF, 0x62FF, 0xA050, 0xD125]);
    run(&mut core, 4);
    assert_eq!(lit(&core), vec![(63, 31)]);
}

#[test]
fn dropped_rows_are_not_read_from_memory() {
    // I = 0xFFF and two rows asked for at row 31: one row fits.
    let mut core = machine(&[0x621F, 0x61FF, 0xAFFE, 0xF155, 0xAFFF, 0xD022]);
    run(&mut core, 5);
    assert_eq!(core.fault(), None);
    run(&mut core, 1);
    let mut expected = Vec::new();
    for col in 0..8 {
        expected.push((col, 31));
    }
    assert_eq!(lit(&core), expected);
}

#[test]
fn a_draw_that_needs_a_row_past_memory_is_a_fault() {
    let mut core = machine(&[0x621E, 0xAFFF, 0xD022]);
    run(&mut core, 2);
    assert_eq!(core.fault(), Some(Fault::MemoryOutOfRange));
}

#[test]
fn the_flag_is_cleared_by_a_draw_without_collision() {
    let mut core = machine(&[0x6F01, 0xA050, 0xD005]);
    run(&mut core, 3);
    assert_eq!(core.registers()[0xF], 0);
}

#[test]
fn draw_with_the_flag_register_as_coordinate_uses_its_value_before_the_draw() {
    let mut core = machine(&[0x6F0A, 0x6103, 0xA050, 0xDF15]);
    run(&mut core, 4);
    assert_eq!(lit(&core), glyph_pixels(0, 10, 3));
    assert_eq!(core.registers()[0xF], 0);
}

#[test]
fn clear_blanks_the_display() {
    let mut core = machine(&[0xA050, 0xD005, 0x00E0]);
    run(&mut core, 2);
    assert!(!lit(&core).is_empty());
    run(&mut core, 1);
    assert_eq!(lit(&core), vec![]);
    assert_eq!(core.pc(), 0x206);
}

#[test]
fn clear_then_draw_shows_only_the_new_sprite() {
    let mut core = machine(&[0xA050, 0xD005, 0x6114, 0xD115, 0x00E0, 0xA05A, 0x6203, 0xD125]);
    run(&mut core, 8);
    assert_eq!(lit(&core), glyph_pixels(2, 20, 3));
    assert_eq!(core.registers()[0xF], 0);

    let mut fresh = machine(&[0xA05A, 0x6114, 0x6203, 0xD125]);
    run(&mut fresh, 4);
    assert_eq!(fresh.display, core.display);
}

#[test]
fn draw_of_no_rows_changes_nothing_but_the_flag() {
    let mut core = machine(&[0x6F07, 0xD000]);
    run(&mut core, 2);
    assert_eq!(lit(&core), vec![]);
    assert_eq!(core.registers()[0xF], 0);
}

#[test]
fn draw_leaves_memory_and_index_alone() {
    let mut core = machine(&[0xA050, 0xD005]);
    run(&mut core, 1);
    let ram = *core.memory();
    run(&mut core, 1);
    assert_eq!(core.memory(), &ram);
    assert_eq!(core.index(), 0x50);
    assert_eq!(core.pc(), 0x204);
}
