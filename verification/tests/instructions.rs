use chip8::font::FONT;
use chip8::vm::is_instruction;
use chip8::{Core, Fault};

fn machine(words: &[u16]) -> Core {
    let mut rom: Vec<u8> = Vec::new();
    for word in words {
        rom.push((word >> 8) as u8);
        rom.push((word & 0xFF) as u8);
    }
    Core::new(&rom, false)
}

fn legacy_machine(words: &[u16]) -> Core {
    let mut rom: Vec<u8> = Vec::new();
    for word in words {
        rom.push((word >> 8) as u8);
        rom.push((word & 0xFF) as u8);
    }
    Core::new(&rom, true)
}

fn run(core: &mut Core, cycles: usize) {
    for _ in 0..cycles {
        assert_eq!(core.fault(), None);
        core.cycle(&[]);
    }
}

#[test]
fn new_machine_is_zeroed_with_font_and_program() {
    let core = Core::new(&[0x12, 0x34, 0x56], true);
    assert_eq!(core.pc(), 0x200);
    assert_eq!(core.index(), 0);
    assert_eq!(core.registers(), &[0u8; 16]);
    assert_eq!(core.stack_depth(), 0);
    assert_eq!(core.delay_timer(), 0);
    assert_eq!(core.sound_timer(), 0);
    assert!(core.is_legacy());
    assert!(core.display.iter().all(|pixel| !pixel));
    let ram = core.memory();
    for addr in 0..4096usize {
        let expected = if (0x50..0xA0).contains(&addr) {
            FONT[addr - 0x50]
        } else if addr == 0x200 {
            0x12
        } else if addr == 0x201 {
            0x34
        } else if addr == 0x202 {
            0x56
        } else {
            0
        };
        assert_eq!(ram[addr], expected, "address {addr:#x}");
    }
}

#[test]
fn font_table_has_the_sixteen_glyphs() {
    assert_eq!(&FONT[0..5], &[0xF0, 0x90, 0x90, 0x90, 0xF0]);
    assert_eq!(&FONT[5..10], &[0x20, 0x60, 0x20, 0x20, 0x70]);
    assert_eq!(&FONT[40..45], &[0xF0, 0x90, 0xF0, 0x90, 0xF0]);
    assert_eq!(&FONT[75..80], &[0xF0, 0x80, 0xF0, 0x80, 0x80]);
}

#[test]
fn empty_program_is_accepted() {
    let core = Core::new(&[], false);
    assert_eq!(core.pc(), 0x200);
    assert!(!core.is_legacy());
    assert_eq!(core.memory()[0x200], 0);
}

#[test]
fn longest_program_fills_memory_to_the_end() {
    let rom = vec![0xABu8; 3584];
    let core = Core::new(&rom, false);
    assert_eq!(core.memory()[0x200], 0xAB);
    assert_eq!(core.memory()[4095], 0xAB);
    assert_eq!(core.memory()[0x1FF], 0);
}

#[test]
fn fetch_moves_the_counter_by_two() {
    let mut core = machine(&[0x6A12, 0x6B34]);
    run(&mut core, 1);
    assert_eq!(core.pc(), 0x202);
    assert_eq!(core.registers()[0xA], 0x12);
    run(&mut core, 1);
    assert_eq!(core.pc(), 0x204);
    assert_eq!(core.registers()[0xB], 0x34);
}

#[test]
fn load_and_add_immediate() {
    let mut core = machine(&[0x6005, 0x7003, 0x70FF]);
    run(&mut core, 2);
    assert_eq!(core.registers()[0], 8);
    run(&mut core, 1);
    assert_eq!(core.registers()[0], 7);
    assert_eq!(core.registers()[0xF], 0);
}

#[test]
fn copy_or_and_xor() {
    let mut core = machine(&[0x61F0, 0x623C, 0x8310, 0x8321, 0x8410, 0x8422, 0x8510, 0x8523]);
    run(&mut core, 8);
    assert_eq!(core.registers()[3], 0xFC);
    assert_eq!(core.registers()[4], 0x30);
    assert_eq!(core.registers()[5], 0xCC);
    assert_eq!(core.registers()[1], 0xF0);
    assert_eq!(core.registers()[2], 0x3C);
}

#[test]
fn add_sets_carry_exactly_when_the_sum_reaches_256() {
    let mut core = machine(&[0x61FF, 0x6201, 0x8124]);
    run(&mut core, 3);
    assert_eq!(core.registers()[1], 0);
    assert_eq!(core.registers()[0xF], 1);

    let mut core = machine(&[0x61FE, 0x6201, 0x8124]);
    run(&mut core, 3);
    assert_eq!(core.registers()[1], 0xFF);
    assert_eq!(core.registers()[0xF], 0);

    let mut core = machine(&[0x61C8, 0x6264, 0x8124]);
    run(&mut core, 3);
    assert_eq!(core.registers()[1], 44);
    assert_eq!(core.registers()[0xF], 1);
}

#[test]
fn add_into_the_flag_register_keeps_the_carry() {
    let mut core = machine(&[0x6FF0, 0x6120, 0x8F14]);
    run(&mut core, 3);
    assert_eq!(core.registers()[0xF], 1);

    let mut core = machine(&[0x6F10, 0x6120, 0x8F14]);
    run(&mut core, 3);
    assert_eq!(core.registers()[0xF], 0);
}

#[test]
fn add_with_the_flag_register_as_second_operand() {
    let mut core = machine(&[0x6FF0, 0x6120, 0x81F4]);
    run(&mut core, 3);
    assert_eq!(core.registers()[1], 0x10);
    assert_eq!(core.registers()[0xF], 1);
}

#[test]
fn sub_sets_the_flag_exactly_when_there_is_no_borrow() {
    let mut core = machine(&[0x610A, 0x6203, 0x8125]);
    run(&mut core, 3);
    assert_eq!(core.registers()[1], 7);
    assert_eq!(core.registers()[0xF], 1);

    let mut core = machine(&[0x6103, 0x620A, 0x8125]);
    run(&mut core, 3);
    assert_eq!(core.registers()[1], 249);
    assert_eq!(core.registers()[0xF], 0);

    let mut core = machine(&[0x6105, 0x6205, 0x8125]);
    run(&mut core, 3);
    assert_eq!(core.registers()[1], 0);
    assert_eq!(core.registers()[0xF], 1);
}

#[test]
fn reversed_sub_takes_vx_from_vy() {
    let mut core = machine(&[0x6103, 0x620A, 0x8127]);
    run(&mut core, 3);
    assert_eq!(core.registers()[1], 7);
    assert_eq!(core.registers()[0xF], 1);

    let mut core = machine(&[0x610A, 0x6203, 0x8127]);
    run(&mut core, 3);
    assert_eq!(core.registers()[1], 249);
    assert_eq!(core.registers()[0xF], 0);
}

#[test]
fn sub_with_the_flag_register_as_subtrahend_takes_its_value_before_the_instruction() {
    let mut core = machine(&[0x610A, 0x6F03, 0x81F5]);
    run(&mut core, 3);
    assert_eq!(core.registers()[1], 7);
    assert_eq!(core.registers()[0xF], 1);

    let mut core = machine(&[0x6105, 0x6F03, 0x81F5]);
    run(&mut core, 3);
    assert_eq!(core.registers()[1], 2);
    assert_eq!(core.registers()[0xF], 1);

    let mut core = machine(&[0x6103, 0x6F0A, 0x81F5]);
    run(&mut core, 3);
    assert_eq!(core.registers()[1], 249);
    assert_eq!(core.registers()[0xF], 0);
}

#[test]
fn reversed_sub_with_the_flag_register_as_minuend_takes_its_value_before_the_instruction() {
    let mut core = machine(&[0x6103, 0x6F0A, 0x81F7]);
    run(&mut core, 3);
    assert_eq!(core.registers()[1], 7);
    assert_eq!(core.registers()[0xF], 1);

    let mut core = machine(&[0x610A, 0x6F03, 0x81F7]);
    run(&mut core, 3);
    assert_eq!(core.registers()[1], 249);
    assert_eq!(core.registers()[0xF], 0);
}

#[test]
fn sub_into_the_flag_register_leaves_the_difference() {
    let mut core = machine(&[0x6F0A, 0x6103, 0x8F15]);
    run(&mut core, 3);
    assert_eq!(core.registers()[0xF], 7);
    assert_eq!(core.registers()[1], 3);

    let mut core = machine(&[0x6F0A, 0x6103, 0x8F17]);
    run(&mut core, 3);
    assert_eq!(core.registers()[0xF], 249);

    let mut core = machine(&[0x6F0A, 0x8FF5]);
    run(&mut core, 2);
    assert_eq!(core.registers()[0xF], 0);
}

#[test]
fn sub_of_a_register_from_itself() {
    let mut core = machine(&[0x6142, 0x8115]);
    run(&mut core, 2);
    assert_eq!(core.registers()[1], 0);
    assert_eq!(core.registers()[0xF], 1);
}

#[test]
fn handlers_called_directly() {
    let mut core = machine(&[0x610A, 0x6F03]);
    run(&mut core, 2);
    core.sub(0x1F5);
    assert_eq!(core.registers()[1], 7);
    assert_eq!(core.registers()[0xF], 1);
    assert_eq!(core.pc(), 0x204);

    core.set_v(0x2FF);
    core.add(0x124);
    assert_eq!(core.registers()[1], 6);
    assert_eq!(core.registers()[0xF], 1);

    core.right_shift(0x126);
    assert_eq!(core.registers()[1], 3);
    assert_eq!(core.registers()[0xF], 0);
    core.left_shift(0x2FE);
    assert_eq!(core.registers()[2], 0xFE);
    assert_eq!(core.registers()[0xF], 1);

    core.jump(0x200);
    assert_eq!(core.fetch(), 0x610A);
    assert_eq!(core.pc(), 0x202);

    core.call(0x300);
    assert_eq!(core.stack_depth(), 1);
    core.ret_subroutine();
    assert_eq!(core.pc(), 0x202);

    core.set_i(0x400);
    core.bcd(0x200);
    assert_eq!(&core.memory()[0x400..0x403], &[2, 5, 4]);
    core.noop();
    core.decode_and_exec(0x6A77, &[]);
    assert_eq!(core.registers()[0xA], 0x77);
}

#[test]
fn unknown_word_reports_what_the_next_cycle_passes_over() {
    let mut core = machine(&[0x5121, 0x6107, 0x0000, 0x1FFF]);
    assert_eq!(core.unknown_word(), Some(0x5121));
    run(&mut core, 1);
    assert_eq!(core.unknown_word(), None);
    run(&mut core, 1);
    assert_eq!(core.unknown_word(), Some(0x0000));
    run(&mut core, 1);
    assert_eq!(core.unknown_word(), None);
    run(&mut core, 1);
    assert_eq!(core.pc(), 0xFFF);
    assert_eq!(core.unknown_word(), None);
}

#[test]
fn is_instruction_knows_the_instruction_set() {
    for word in [
        0x00E0u16, 0x00EE, 0x1234, 0x2345, 0x3456, 0x4567, 0x5670, 0x6789, 0x789A, 0x8120,
        0x8121, 0x8122, 0x8123, 0x8124, 0x8125, 0x8126, 0x8127, 0x812E, 0x9120, 0xA123, 0xB123,
        0xC123, 0xD123, 0xE19E, 0xE1A1, 0xF107, 0xF10A, 0xF115, 0xF118, 0xF11E, 0xF129, 0xF133,
        0xF155, 0xF165,
    ] {
        assert!(is_instruction(word), "word {word:#06x}");
    }
    for word in [
        0x0000u16, 0x00E1, 0x0123, 0x00EF, 0x5121, 0x567F, 0x9121, 0x8128, 0x8129,
        0x812A, 0x812B, 0x812C, 0x812D, 0x812F, 0xE19F, 0xE1A0, 0xE000, 0xF100, 0xF108, 0xF1FF,
        0xF156, 0xF166,
    ] {
        assert!(!is_instruction(word), "word {word:#06x}");
    }
}

#[test]
fn shift_right_in_place_without_legacy() {
    let mut core = machine(&[0x6105, 0x6208, 0x8126]);
    run(&mut core, 3);
    assert_eq!(core.registers()[1], 2);
    assert_eq!(core.registers()[0xF], 1);
    assert_eq!(core.registers()[2], 8);
}

#[test]
fn shift_right_copies_vy_first_in_legacy_mode() {
    let mut core = legacy_machine(&[0x6105, 0x6208, 0x8126]);
    run(&mut core, 3);
    assert_eq!(core.registers()[1], 4);
    assert_eq!(core.registers()[0xF], 0);
    assert_eq!(core.registers()[2], 8);
}

#[test]
fn shift_left_in_place_without_legacy() {
    let mut core = machine(&[0x6181, 0x6240, 0x812E]);
    run(&mut core, 3);
    assert_eq!(core.registers()[1], 2);
    assert_eq!(core.registers()[0xF], 1);
}

#[test]
fn shift_left_copies_vy_first_in_legacy_mode() {
    let mut core = legacy_machine(&[0x6181, 0x6240, 0x812E]);
    run(&mut core, 3);
    assert_eq!(core.registers()[1], 0x80);
    assert_eq!(core.registers()[0xF], 0);
}

#[test]
fn the_two_shift_modes_differ_when_vx_and_vy_differ() {
    for op in [0x8126u16, 0x812E] {
        for (vx, vy) in [(2u16, 3u16), (0x80, 0x00), (0xFF, 0x7F), (1, 0)] {
            let program = [0x6100 | vx, 0x6200 | vy, op];
            let mut modern = machine(&program);
            let mut legacy = legacy_machine(&program);
            run(&mut modern, 3);
            run(&mut legacy, 3);
            assert_ne!(modern.registers(), legacy.registers());
        }
    }
}

#[test]
fn jump_then_fetch_reads_at_the_target() {
    let mut core = machine(&[0x1206, 0x6111, 0x6222, 0x6333]);
    run(&mut core, 1);
    assert_eq!(core.pc(), 0x206);
    run(&mut core, 1);
    assert_eq!(core.registers()[3], 0x33);
    assert_eq!(core.registers()[1], 0);
    assert_eq!(core.registers()[2], 0);
    assert_eq!(core.pc(), 0x208);
}

#[test]
fn jump_with_offset_adds_v0() {
    let mut core = machine(&[0x6004, 0xB300]);
    run(&mut core, 2);
    assert_eq!(core.pc(), 0x304);
}

#[test]
fn call_then_return_comes_back_behind_the_call() {
    let mut core = machine(&[0x2206, 0x6111, 0x0000, 0x00EE]);
    run(&mut core, 1);
    assert_eq!(core.pc(), 0x206);
    assert_eq!(core.stack_depth(), 1);
    run(&mut core, 1);
    assert_eq!(core.pc(), 0x202);
    assert_eq!(core.stack_depth(), 0);
    run(&mut core, 1);
    assert_eq!(core.registers()[1], 0x11);
}

#[test]
fn nested_calls_return_in_reverse_order() {
    let mut core = machine(&[0x2204, 0x0000, 0x2208, 0x00EE, 0x00EE]);
    run(&mut core, 2);
    assert_eq!(core.pc(), 0x208);
    assert_eq!(core.stack_depth(), 2);
    run(&mut core, 1);
    assert_eq!(core.pc(), 0x206);
    run(&mut core, 1);
    assert_eq!(core.pc(), 0x202);
    assert_eq!(core.stack_depth(), 0);
}

#[test]
fn skips_on_immediate() {
    let mut core = machine(&[0x6107, 0x3107, 0x0000, 0x3108, 0x4108, 0x0000, 0x4107]);
    run(&mut core, 2);
    assert_eq!(core.pc(), 0x206);
    run(&mut core, 1);
    assert_eq!(core.pc(), 0x208);
    run(&mut core, 1);
    assert_eq!(core.pc(), 0x20C);
    run(&mut core, 1);
    assert_eq!(core.pc(), 0x20E);
}

#[test]
fn skips_on_registers() {
    let mut core = machine(&[0x6107, 0x6207, 0x6308, 0x5120, 0x0000, 0x5130, 0x9130, 0x0000, 0x9120]);
    run(&mut core, 4);
    assert_eq!(core.pc(), 0x20A);
    run(&mut core, 1);
    assert_eq!(core.pc(), 0x20C);
    run(&mut core, 1);
    assert_eq!(core.pc(), 0x210);
    run(&mut core, 1);
    assert_eq!(core.pc(), 0x212);
}

#[test]
fn words_outside_the_instruction_set_change_nothing_but_the_counter() {
    for word in [0x0000u16, 0x0123, 0x00E1, 0x5121, 0x912F, 0x8128, 0x812F, 0xE19F, 0xE1A0, 0xF1FF, 0xF100] {
        let mut core = machine(&[0x6107, 0x6207, word]);
        run(&mut core, 2);
        let registers = *core.registers();
        let ram = *core.memory();
        run(&mut core, 1);
        assert_eq!(core.pc(), 0x206, "word {word:#06x}");
        assert_eq!(core.registers(), &registers);
        assert_eq!(core.memory(), &ram);
        assert_eq!(core.index(), 0);
        assert_eq!(core.stack_depth(), 0);
        assert!(core.display.iter().all(|pixel| !pixel));
    }
}

#[test]
fn index_load_and_add() {
    let mut core = machine(&[0xA123, 0x6110, 0xF11E]);
    run(&mut core, 3);
    assert_eq!(core.index(), 0x133);
}

#[test]
fn index_addition_wraps_at_sixteen_bits() {
    let mut program = vec![0xAFFFu16, 0x61FF];
    for _ in 0..241 {
        program.push(0xF11E);
    }
    let mut core = machine(&program);
    run(&mut core, 2 + 240);
    assert_eq!(core.index(), 0xFFF + 240 * 255);
    run(&mut core, 1);
    assert_eq!(core.index(), ((0xFFFu32 + 241 * 255) % 65536) as u16);
    assert_eq!(core.registers()[0xF], 0);
}

#[test]
fn font_pointer_is_eighty_plus_five_times_vx() {
    let mut core = machine(&[0x6108, 0xF129, 0x610F, 0xF129, 0x61FF, 0xF129]);
    run(&mut core, 2);
    assert_eq!(core.index(), 0x50 + 40);
    run(&mut core, 2);
    assert_eq!(core.index(), 0x50 + 75);
    run(&mut core, 2);
    assert_eq!(core.index(), 0x50 + 1275);
}

#[test]
fn timers_are_set_read_and_counted_down() {
    let mut core = machine(&[0x6102, 0xF115, 0x6203, 0xF218, 0xF307]);
    run(&mut core, 4);
    assert_eq!(core.delay_timer(), 2);
    assert_eq!(core.sound_timer(), 3);
    core.decrement_timers();
    assert_eq!(core.delay_timer(), 1);
    assert_eq!(core.sound_timer(), 2);
    run(&mut core, 1);
    assert_eq!(core.registers()[3], 1);
    core.decrement_timers();
    core.decrement_timers();
    assert_eq!(core.delay_timer(), 0);
    assert_eq!(core.sound_timer(), 0);
    core.decrement_timers();
    assert_eq!(core.delay_timer(), 0);
    assert_eq!(core.sound_timer(), 0);
}

#[test]
fn timer_tick_touches_nothing_else() {
    let mut core = machine(&[0x6102, 0xF115]);
    run(&mut core, 2);
    let registers = *core.registers();
    let pc = core.pc();
    core.decrement_timers();
    assert_eq!(core.registers(), &registers);
    assert_eq!(core.pc(), pc);
}

#[test]
fn bcd_stores_hundreds_tens_and_ones() {
    let mut core = machine(&[0x61FE, 0xA300, 0xF133, 0x6107, 0xA310, 0xF133, 0x6164, 0xA320, 0xF133]);
    run(&mut core, 9);
    assert_eq!(&core.memory()[0x300..0x303], &[2, 5, 4]);
    assert_eq!(&core.memory()[0x310..0x313], &[0, 0, 7]);
    assert_eq!(&core.memory()[0x320..0x323], &[1, 0, 0]);
    assert_eq!(core.memory()[0x303], 0);
    assert_eq!(core.index(), 0x320);
}

#[test]
fn bcd_at_the_last_three_bytes() {
    let mut core = machine(&[0x617B, 0xAFFD, 0xF133]);
    run(&mut core, 3);
    assert_eq!(&core.memory()[0xFFD..0x1000], &[1, 2, 3]);
}

#[test]
fn store_and_load_blocks() {
    let mut core = machine(&[0x6011, 0x6122, 0x6233, 0x6344, 0xA300, 0xF255, 0x6000, 0x6100, 0x6200, 0x6300, 0xF165]);
    run(&mut core, 6);
    assert_eq!(&core.memory()[0x300..0x304], &[0x11, 0x22, 0x33, 0]);
    assert_eq!(core.index(), 0x300);
    run(&mut core, 5);
    assert_eq!(&core.registers()[0..4], &[0x11, 0x22, 0, 0]);
}

#[test]
fn store_of_all_registers_up_to_the_end_of_memory() {
    let mut core = machine(&[0x6FAA, 0x60BB, 0xAFF0, 0xFF55]);
    run(&mut core, 4);
    assert_eq!(core.memory()[0xFF0], 0xBB);
    assert_eq!(core.memory()[0xFFF], 0xAA);
}

#[test]
fn key_skips() {
    let mut core = machine(&[0x6105, 0xE19E, 0x0000, 0xE19E, 0xE1A1, 0x0000, 0xE1A1]);
    core.cycle(&[]);
    core.cycle(&[1, 5]);
    assert_eq!(core.pc(), 0x206);
    core.cycle(&[1, 4]);
    assert_eq!(core.pc(), 0x208);
    core.cycle(&[]);
    assert_eq!(core.pc(), 0x20C);
    core.cycle(&[5]);
    assert_eq!(core.pc(), 0x20E);
}

#[test]
fn await_key_spins_until_a_key_is_pressed() {
    let mut core = machine(&[0xF30A, 0x6111]);
    core.cycle(&[]);
    assert_eq!(core.pc(), 0x200);
    assert_eq!(core.registers(), &[0u8; 16]);
    core.cycle(&[]);
    assert_eq!(core.pc(), 0x200);
    core.cycle(&[0xB, 0x2]);
    assert_eq!(core.pc(), 0x202);
    assert_eq!(core.registers()[3], 0xB);
    core.cycle(&[]);
    assert_eq!(core.registers()[1], 0x11);
}

#[test]
fn random_byte_is_masked() {
    let mut core = machine(&[0x61FF, 0xC100, 0xC20F, 0xC3F0]);
    run(&mut core, 4);
    assert_eq!(core.registers()[1], 0);
    assert_eq!(core.registers()[2] & 0xF0, 0);
    assert_eq!(core.registers()[3] & 0x0F, 0);
    assert_eq!(core.pc(), 0x208);
}

#[test]
fn rand_with_stores_the_masked_byte() {
    let mut core = machine(&[]);
    core.rand_with(0x13C, 0xA5);
    assert_eq!(core.registers()[1], 0x24);
    core.rand_with(0xFFF, 0x5A);
    assert_eq!(core.registers()[0xF], 0x5A);
    core.rand_with(0x200, 0xFF);
    assert_eq!(core.registers()[2], 0);
    assert_eq!(core.pc(), 0x200);
}

#[test]
fn return_on_an_empty_stack_is_a_fault() {
    let mut core = machine(&[0x00EE]);
    assert_eq!(core.fault(), Some(Fault::StackUnderflow));
    assert_eq!(core.try_cycle(&[]), Err(Fault::StackUnderflow));
    assert_eq!(core.pc(), 0x200);
    assert_eq!(core.stack_depth(), 0);
}

#[test]
fn fetch_past_the_end_of_memory_is_a_fault() {
    let mut core = machine(&[0x1FFF]);
    assert_eq!(core.try_cycle(&[]), Ok(()));
    assert_eq!(core.pc(), 0xFFF);
    assert_eq!(core.fault(), Some(Fault::FetchOutOfRange));
    assert_eq!(core.try_cycle(&[]), Err(Fault::FetchOutOfRange));
    assert_eq!(core.pc(), 0xFFF);
}

#[test]
fn fetch_of_the_last_two_bytes_is_no_fault() {
    let mut core = machine(&[0x1FFE]);
    run(&mut core, 1);
    assert_eq!(core.fault(), None);
    run(&mut core, 1);
    assert_eq!(core.pc(), 0x1000);
    assert_eq!(core.fault(), Some(Fault::FetchOutOfRange));
}

#[test]
fn memory_access_past_the_end_is_a_fault() {
    for word in [0xF133u16, 0xF355, 0xF365, 0xD003] {
        let mut core = machine(&[0xAFFE, word]);
        run(&mut core, 1);
        assert_eq!(core.fault(), Some(Fault::MemoryOutOfRange), "word {word:#06x}");
        let ram = *core.memory();
        assert_eq!(core.try_cycle(&[]), Err(Fault::MemoryOutOfRange));
        assert_eq!(core.pc(), 0x202);
        assert_eq!(core.memory(), &ram);
        assert_eq!(core.registers(), &[0u8; 16]);
    }
}

#[test]
fn memory_access_up_to_the_end_is_no_fault() {
    for word in [0xF155u16, 0xF165, 0xD002, 0xD000, 0xF055] {
        let mut core = machine(&[0xAFFE, word]);
        run(&mut core, 1);
        assert_eq!(core.fault(), None, "word {word:#06x}");
        assert_eq!(core.try_cycle(&[]), Ok(()));
    }
}

#[test]
fn try_cycle_runs_like_cycle() {
    let mut core = machine(&[0x6005, 0x7003]);
    assert_eq!(core.try_cycle(&[]), Ok(()));
    assert_eq!(core.try_cycle(&[]), Ok(()));
    assert_eq!(core.registers()[0], 8);
    assert_eq!(core.pc(), 0x204);
}
