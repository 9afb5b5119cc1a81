use chip8::{decode, CycleEvent, Fault, Instruction, Quirks, Status, CPU};

fn run(cpu: &mut CPU, words: &[u16]) {
    for w in words {
        assert_eq!(cpu.execute(*w, 0), Ok(()));
    }
}

fn reg(cpu: &CPU, x: usize) -> u8 {
    cpu.snapshot().registers[x]
}

fn lit(cpu: &CPU) -> usize {
    cpu.frame_buffer().iter().map(|row| row.iter().filter(|p| **p == 1).count()).sum()
}

#[test]
fn decode_splits_the_word() {
    assert_eq!(
        decode(0xD12F),
        Instruction { op: 0xD, x: 1, y: 2, n: 0xF, kk: 0x2F, nnn: 0x12F }
    );
    assert_eq!(decode(0x0000), Instruction { op: 0, x: 0, y: 0, n: 0, kk: 0, nnn: 0 });
    assert_eq!(
        decode(0xFFFF),
        Instruction { op: 0xF, x: 0xF, y: 0xF, n: 0xF, kk: 0xFF, nnn: 0xFFF }
    );
}

#[test]
fn load_immediate() {
    let mut cpu = CPU::new();
    assert_eq!(cpu.load_rom(vec![0x6A, 0x3C]), Ok(()));
    assert_eq!(cpu.emulate_cycle(), Ok(CycleEvent::Continued));
    assert_eq!(reg(&cpu, 0xA), 0x3C);
    assert_eq!(cpu.snapshot().pc, 0x202);
}

#[test]
fn set_index() {
    let mut cpu = CPU::new();
    run(&mut cpu, &[0xA2F0]);
    assert_eq!(cpu.snapshot().index, 0x2F0);
    assert_eq!(cpu.snapshot().pc, 0x200);
}

#[test]
fn add_with_carry() {
    let mut cpu = CPU::new();
    run(&mut cpu, &[0x60FF, 0x6101, 0x8014]);
    assert_eq!(reg(&cpu, 0), 0x00);
    assert_eq!(reg(&cpu, 0xF), 1);
}

#[test]
fn add_without_carry_clears_the_flag() {
    let mut cpu = CPU::new();
    run(&mut cpu, &[0x6F01, 0x60FE, 0x6101, 0x8014]);
    assert_eq!(reg(&cpu, 0), 0xFF);
    assert_eq!(reg(&cpu, 0xF), 0);
}

#[test]
fn add_into_the_flag_register_keeps_the_flag() {
    let mut cpu = CPU::new();
    run(&mut cpu, &[0x6FFF, 0x6102, 0x8F14]);
    assert_eq!(reg(&cpu, 0xF), 1);
    run(&mut cpu, &[0x6F03, 0x6102, 0x8F14]);
    assert_eq!(reg(&cpu, 0xF), 0);
}

#[test]
fn subtract_with_borrow() {
    let mut cpu = CPU::new();
    run(&mut cpu, &[0x6001, 0x6102, 0x8015]);
    assert_eq!(reg(&cpu, 0), 0xFF);
    assert_eq!(reg(&cpu, 0xF), 0);
}

#[test]
fn subtract_without_borrow_sets_the_flag() {
    let mut cpu = CPU::new();
    run(&mut cpu, &[0x6005, 0x6102, 0x8015]);
    assert_eq!(reg(&cpu, 0), 3);
    assert_eq!(reg(&cpu, 0xF), 1);
    run(&mut cpu, &[0x6007, 0x6107, 0x8015]);
    assert_eq!(reg(&cpu, 0), 0);
    assert_eq!(reg(&cpu, 0xF), 1);
}

#[test]
fn reverse_subtract() {
    let mut cpu = CPU::new();
    run(&mut cpu, &[0x6002, 0x6105, 0x8017]);
    assert_eq!(reg(&cpu, 0), 3);
    assert_eq!(reg(&cpu, 0xF), 1);
    run(&mut cpu, &[0x6005, 0x6102, 0x8017]);
    assert_eq!(reg(&cpu, 0), 0xFD);
    assert_eq!(reg(&cpu, 0xF), 0);
}

#[test]
fn borrow_quirk_inverts_the_flag() {
    let quirks = Quirks { borrow_sets_flag: true, ..Quirks::default() };
    let mut cpu = CPU::with_quirks(quirks);
    run(&mut cpu, &[0x6001, 0x6102, 0x8015]);
    assert_eq!(reg(&cpu, 0), 0xFF);
    assert_eq!(reg(&cpu, 0xF), 1);
    run(&mut cpu, &[0x6005, 0x6102, 0x8015]);
    assert_eq!(reg(&cpu, 0xF), 0);
    run(&mut cpu, &[0x6002, 0x6105, 0x8017]);
    assert_eq!(reg(&cpu, 0), 3);
    assert_eq!(reg(&cpu, 0xF), 0);
}

#[test]
fn shift_right_captures_the_low_bit() {
    let mut cpu = CPU::new();
    run(&mut cpu, &[0x6001, 0x8006]);
    assert_eq!(reg(&cpu, 0), 0);
    assert_eq!(reg(&cpu, 0xF), 1);
    run(&mut cpu, &[0x60F6, 0x8006]);
    assert_eq!(reg(&cpu, 0), 0x7B);
    assert_eq!(reg(&cpu, 0xF), 0);
}

#[test]
fn shift_left_captures_the_high_bit() {
    let mut cpu = CPU::new();
    run(&mut cpu, &[0x6081, 0x800E]);
    assert_eq!(reg(&cpu, 0), 0x02);
    assert_eq!(reg(&cpu, 0xF), 1);
    run(&mut cpu, &[0x6041, 0x800E]);
    assert_eq!(reg(&cpu, 0), 0x82);
    assert_eq!(reg(&cpu, 0xF), 0);
}

#[test]
fn copy_and_bitwise_leave_the_flag_alone() {
    let mut cpu = CPU::new();
    run(&mut cpu, &[0x6F07, 0x60CC, 0x61AA, 0x8210]);
    assert_eq!(reg(&cpu, 2), 0xAA);
    run(&mut cpu, &[0x8011]);
    assert_eq!(reg(&cpu, 0), 0xEE);
    run(&mut cpu, &[0x60CC, 0x8012]);
    assert_eq!(reg(&cpu, 0), 0x88);
    run(&mut cpu, &[0x60CC, 0x8013]);
    assert_eq!(reg(&cpu, 0), 0x66);
    assert_eq!(reg(&cpu, 0xF), 7);
}

#[test]
fn add_immediate_wraps_without_flag() {
    let mut cpu = CPU::new();
    run(&mut cpu, &[0x6F05, 0x60F0, 0x7020]);
    assert_eq!(reg(&cpu, 0), 0x10);
    assert_eq!(reg(&cpu, 0xF), 5);
}

#[test]
fn jumps() {
    let mut cpu = CPU::new();
    run(&mut cpu, &[0x1ABC]);
    assert_eq!(cpu.snapshot().pc, 0xABC);
    run(&mut cpu, &[0x6010, 0xB300]);
    assert_eq!(cpu.snapshot().pc, 0x310);
    run(&mut cpu, &[0x60FF, 0xBFFF]);
    assert_eq!(cpu.snapshot().pc, 0x0FE);
}

#[test]
fn skips() {
    let mut cpu = CPU::new();
    run(&mut cpu, &[0x6011, 0x6111, 0x6222]);
    let cases: [(u16, bool); 8] = [
        (0x3011, true),
        (0x3012, false),
        (0x4011, false),
        (0x4012, true),
        (0x5010, true),
        (0x5020, false),
        (0x9010, false),
        (0x9020, true),
    ];
    for (word, skips) in cases {
        let before = cpu.snapshot().pc;
        run(&mut cpu, &[word]);
        let expected = if skips { before + 2 } else { before };
        assert_eq!(cpu.snapshot().pc, expected, "{:04X}", word);
    }
}

#[test]
fn key_skips_read_the_low_four_bits() {
    let mut cpu = CPU::new();
    cpu.set_key(0xB, true);
    run(&mut cpu, &[0x600B, 0x610C, 0x62FB]);
    let cases: [(u16, bool); 6] = [
        (0xE09E, true),
        (0xE0A1, false),
        (0xE19E, false),
        (0xE1A1, true),
        (0xE29E, true),
        (0xE2A1, false),
    ];
    for (word, skips) in cases {
        let before = cpu.snapshot().pc;
        run(&mut cpu, &[word]);
        let expected = if skips { before + 2 } else { before };
        assert_eq!(cpu.snapshot().pc, expected, "{:04X}", word);
    }
}

#[test]
fn call_then_return_restores_pc_and_sp() {
    let mut cpu = CPU::new();
    let mut rom = vec![0u8; 0x102];
    rom[0] = 0x23;
    rom[1] = 0x00;
    rom[0x100] = 0x00;
    rom[0x101] = 0xEE;
    assert_eq!(cpu.load_rom(rom), Ok(()));
    assert_eq!(cpu.emulate_cycle(), Ok(CycleEvent::Continued));
    assert_eq!(cpu.snapshot().pc, 0x300);
    assert_eq!(cpu.snapshot().sp, 1);
    assert_eq!(cpu.stack()[0], 0x202);
    assert_eq!(cpu.emulate_cycle(), Ok(CycleEvent::Continued));
    assert_eq!(cpu.snapshot().pc, 0x202);
    assert_eq!(cpu.snapshot().sp, 0);
}

#[test]
fn seventeenth_nested_call_overflows() {
    let mut cpu = CPU::new();
    for depth in 0..16 {
        assert_eq!(cpu.execute(0x2300, 0), Ok(()));
        assert_eq!(cpu.snapshot().sp, depth + 1);
    }
    let before = cpu.snapshot();
    assert_eq!(cpu.execute(0x2300, 0), Err(Fault::StackOverflow));
    assert_eq!(cpu.snapshot(), before);
    assert_eq!(cpu.status(), Status::Halted);
    assert_eq!(cpu.emulate_cycle(), Ok(CycleEvent::Halted));
}

#[test]
fn sixteen_returns_unwind_sixteen_calls() {
    let mut cpu = CPU::new();
    for depth in 0..16u16 {
        assert_eq!(cpu.execute(0x1200 + 2 * depth, 0), Ok(()));
        assert_eq!(cpu.execute(0x2300, 0), Ok(()));
    }
    for depth in (0..16u16).rev() {
        assert_eq!(cpu.execute(0x00EE, 0), Ok(()));
        assert_eq!(cpu.snapshot().pc, 0x200 + 2 * depth);
        assert_eq!(cpu.snapshot().sp as u16, depth);
    }
    assert_eq!(cpu.execute(0x00EE, 0), Err(Fault::StackUnderflow));
}

#[test]
fn return_on_empty_stack_underflows() {
    let mut cpu = CPU::new();
    let before = cpu.snapshot();
    assert_eq!(cpu.execute(0x00EE, 0), Err(Fault::StackUnderflow));
    assert_eq!(cpu.snapshot(), before);
    assert_eq!(cpu.status(), Status::Halted);
}

#[test]
fn f_family_dispatch_is_total() {
    let known = [0x07u16, 0x0A, 0x15, 0x18, 0x1E, 0x29, 0x33, 0x55, 0x65];
    for kk in 0..=255u16 {
        let word = 0xF000 | kk;
        let mut cpu = CPU::new();
        let res = cpu.parse_opcode(word);
        if known.contains(&kk) {
            assert_eq!(res, Ok(()), "{:04X}", word);
            assert_ne!(cpu.status(), Status::Halted);
        } else {
            assert_eq!(
                res,
                Err(Fault::UnknownOpcode { instruction: word, pc: 0x1FE }),
                "{:04X}",
                word
            );
            assert_eq!(cpu.status(), Status::Halted);
        }
    }
}

#[test]
fn undefined_words_in_other_families() {
    for word in [0x0000u16, 0x00E1, 0x0123, 0x5011, 0x5ABF, 0x8008, 0x812D, 0x9011, 0xE000, 0xE19F]
    {
        let mut cpu = CPU::new();
        assert_eq!(
            cpu.execute(word, 0),
            Err(Fault::UnknownOpcode { instruction: word, pc: 0x1FE }),
            "{:04X}",
            word
        );
        assert_eq!(cpu.snapshot(), CPU::new().snapshot());
    }
}

#[test]
fn random_is_masked() {
    let mut cpu = CPU::new();
    for _ in 0..64 {
        assert_eq!(cpu.parse_opcode(0xC00F), Ok(()));
        assert_eq!(reg(&cpu, 0) & 0xF0, 0);
        assert_eq!(cpu.parse_opcode(0xC100), Ok(()));
        assert_eq!(reg(&cpu, 1), 0);
    }
}

#[test]
fn random_byte_is_taken_as_given() {
    let mut cpu = CPU::new();
    run(&mut cpu, &[0x6F09]);
    assert_eq!(cpu.execute(0xC03C, 0xA5), Ok(()));
    assert_eq!(reg(&cpu, 0), 0x24);
    assert_eq!(reg(&cpu, 0xF), 9);
}

#[test]
fn font_address() {
    let mut cpu = CPU::new();
    run(&mut cpu, &[0x600A, 0xF029]);
    assert_eq!(cpu.snapshot().index, 0x82);
    let i = cpu.snapshot().index as usize;
    assert_eq!(&cpu.memory()[i..i + 5], &[0xF0, 0x90, 0xF0, 0x90, 0x90]);
    run(&mut cpu, &[0x6000, 0xF029]);
    assert_eq!(cpu.snapshot().index, 0x50);
}

#[test]
fn decimal_digits() {
    let mut cpu = CPU::new();
    run(&mut cpu, &[0x60EA, 0xA300, 0xF033]);
    assert_eq!(&cpu.memory()[0x300..0x303], &[2, 3, 4]);
    run(&mut cpu, &[0x6007, 0xA310, 0xF033]);
    assert_eq!(&cpu.memory()[0x310..0x313], &[0, 0, 7]);
    run(&mut cpu, &[0x60FF, 0xAFFF, 0xF033]);
    assert_eq!(cpu.memory()[0xFFF], 2);
    assert_eq!(cpu.memory()[0x000], 5);
    assert_eq!(cpu.memory()[0x001], 5);
}

#[test]
fn store_then_load_round_trip() {
    let mut cpu = CPU::new();
    for x in 0..16u16 {
        run(&mut cpu, &[0x6000 | (x << 8) | (0x11 * x + 3)]);
    }
    let saved = cpu.snapshot().registers;
    run(&mut cpu, &[0xA400, 0xFF55]);
    assert_eq!(&cpu.memory()[0x400..0x410], &saved);
    assert_eq!(cpu.snapshot().index, 0x400);
    for x in 0..16u16 {
        run(&mut cpu, &[0x6000 | (x << 8)]);
    }
    run(&mut cpu, &[0xFF65]);
    assert_eq!(cpu.snapshot().registers, saved);
    assert_eq!(cpu.snapshot().index, 0x400);
}

#[test]
fn store_and_load_touch_only_the_first_registers() {
    let mut cpu = CPU::new();
    run(&mut cpu, &[0x6011, 0x6122, 0x6233, 0x6344, 0xA400, 0xF255]);
    assert_eq!(&cpu.memory()[0x400..0x404], &[0x11, 0x22, 0x33, 0x00]);
    run(&mut cpu, &[0x6000, 0x6100, 0x6200, 0x6300, 0xF165]);
    assert_eq!(&cpu.snapshot().registers[0..4], &[0x11, 0x22, 0x00, 0x00]);
}

#[test]
fn store_wraps_at_the_end_of_memory() {
    let mut cpu = CPU::new();
    run(&mut cpu, &[0x60A1, 0x61A2, 0x62A3, 0xAFFE, 0xF255]);
    assert_eq!(cpu.memory()[0xFFE], 0xA1);
    assert_eq!(cpu.memory()[0xFFF], 0xA2);
    assert_eq!(cpu.memory()[0x000], 0xA3);
    run(&mut cpu, &[0x6000, 0x6100, 0x6200, 0xF265]);
    assert_eq!(&cpu.snapshot().registers[0..3], &[0xA1, 0xA2, 0xA3]);
}

#[test]
fn advance_index_quirk_moves_the_index() {
    let quirks = Quirks { advance_index: true, ..Quirks::default() };
    let mut cpu = CPU::with_quirks(quirks);
    run(&mut cpu, &[0x6011, 0x6122, 0x6233, 0xA400, 0xF255]);
    assert_eq!(cpu.snapshot().index, 0x403);
    run(&mut cpu, &[0x6000, 0x6100, 0x6200, 0xA400, 0xF265]);
    assert_eq!(&cpu.snapshot().registers[0..3], &[0x11, 0x22, 0x33]);
    assert_eq!(cpu.snapshot().index, 0x403);
}

#[test]
fn add_to_index_wraps_within_twelve_bits() {
    let mut cpu = CPU::new();
    run(&mut cpu, &[0x6F07, 0x6010, 0xA123, 0xF01E]);
    assert_eq!(cpu.snapshot().index, 0x133);
    run(&mut cpu, &[0x60FF, 0xAFFF, 0xF01E]);
    assert_eq!(cpu.snapshot().index, 0x0FE);
    assert_eq!(reg(&cpu, 0xF), 7);
}

#[test]
fn index_overflow_quirk_sets_the_flag() {
    let quirks = Quirks { index_overflow_flag: true, ..Quirks::default() };
    let mut cpu = CPU::with_quirks(quirks);
    run(&mut cpu, &[0x6F07, 0x60FF, 0xAFFF, 0xF01E]);
    assert_eq!(cpu.snapshot().index, 0x0FE);
    assert_eq!(reg(&cpu, 0xF), 1);
    run(&mut cpu, &[0x6001, 0xA100, 0xF01E]);
    assert_eq!(cpu.snapshot().index, 0x101);
    assert_eq!(reg(&cpu, 0xF), 0);
}

#[test]
fn draw_plots_most_significant_bit_first() {
    let mut cpu = CPU::new();
    run(&mut cpu, &[0x6003, 0x6102, 0xA050, 0xD015]);
    let fb = cpu.frame_buffer();
    let glyph: [[u8; 4]; 5] = [[1, 1, 1, 1], [1, 0, 0, 1], [1, 0, 0, 1], [1, 0, 0, 1], [1, 1, 1, 1]];
    for row in 0..5 {
        assert_eq!(&fb[2 + row][3..7], &glyph[row]);
        assert_eq!(&fb[2 + row][7..11], &[0, 0, 0, 0]);
    }
    assert_eq!(lit(&cpu), 14);
    assert_eq!(reg(&cpu, 0xF), 0);
}

#[test]
fn drawing_twice_erases_and_collides() {
    let mut cpu = CPU::new();
    run(&mut cpu, &[0x600A, 0x6105, 0xA050, 0xD015]);
    assert_eq!(reg(&cpu, 0xF), 0);
    assert_eq!(lit(&cpu), 14);
    run(&mut cpu, &[0xD015]);
    assert_eq!(reg(&cpu, 0xF), 1);
    assert_eq!(*cpu.frame_buffer(), [[0u8; 64]; 32]);
}

#[test]
fn drawing_an_empty_sprite_twice_never_collides() {
    let mut cpu = CPU::new();
    run(&mut cpu, &[0x6F01, 0xA300, 0xD005, 0xD005]);
    assert_eq!(reg(&cpu, 0xF), 0);
    assert_eq!(*cpu.frame_buffer(), [[0u8; 64]; 32]);
}

#[test]
fn partial_overlap_collides_and_keeps_the_rest() {
    let mut cpu = CPU::new();
    run(&mut cpu, &[0x60FF, 0xA300, 0xF055, 0x6000, 0x6100, 0xD011]);
    assert_eq!(lit(&cpu), 8);
    run(&mut cpu, &[0x6004, 0xD011]);
    assert_eq!(reg(&cpu, 0xF), 1);
    assert_eq!(&cpu.frame_buffer()[0][0..12], &[1, 1, 1, 1, 0, 0, 0, 0, 1, 1, 1, 1]);
    run(&mut cpu, &[0x6020, 0xD011]);
    assert_eq!(reg(&cpu, 0xF), 0);
    assert_eq!(lit(&cpu), 16);
}

#[test]
fn draw_origin_wraps() {
    let mut cpu = CPU::new();
    run(&mut cpu, &[0x6043, 0x6121, 0xA050, 0xD015]);
    assert_eq!(&cpu.frame_buffer()[1][3..7], &[1, 1, 1, 1]);
    assert_eq!(&cpu.frame_buffer()[5][3..7], &[1, 1, 1, 1]);
    assert_eq!(lit(&cpu), 14);
}

#[test]
fn draw_clips_at_the_edges() {
    let mut cpu = CPU::new();
    run(&mut cpu, &[0x603E, 0x611E, 0xA050, 0xD015]);
    let fb = cpu.frame_buffer();
    assert_eq!(&fb[30][62..64], &[1, 1]);
    assert_eq!(&fb[31][62..64], &[1, 0]);
    assert_eq!(lit(&cpu), 3);
    assert_eq!(reg(&cpu, 0xF), 0);
}

#[test]
fn wrap_quirk_wraps_pixels() {
    let quirks = Quirks { wrap_sprites: true, ..Quirks::default() };
    let mut cpu = CPU::with_quirks(quirks);
    run(&mut cpu, &[0x603E, 0x611E, 0xA050, 0xD015]);
    let fb = cpu.frame_buffer();
    assert_eq!(&fb[30][62..64], &[1, 1]);
    assert_eq!(&fb[30][0..2], &[1, 1]);
    assert_eq!(&fb[31][62..64], &[1, 0]);
    assert_eq!(&fb[31][0..2], &[0, 1]);
    assert_eq!(&fb[0][0..2], &[0, 1]);
    assert_eq!(&fb[2][62..64], &[1, 1]);
    assert_eq!(&fb[2][0..2], &[1, 1]);
    assert_eq!(lit(&cpu), 14);
    run(&mut cpu, &[0xD015]);
    assert_eq!(reg(&cpu, 0xF), 1);
    assert_eq!(lit(&cpu), 0);
}

#[test]
fn draw_with_no_rows_only_clears_the_flag() {
    let mut cpu = CPU::new();
    run(&mut cpu, &[0x6F01, 0xA050, 0xD010]);
    assert_eq!(reg(&cpu, 0xF), 0);
    assert_eq!(lit(&cpu), 0);
    assert!(cpu.take_dirty());
}

#[test]
fn draw_reads_only_the_low_fields() {
    let mut a = CPU::new();
    let mut b = CPU::new();
    run(&mut a, &[0x6205, 0x6307, 0xA055]);
    run(&mut b, &[0x6205, 0x6307, 0xA055]);
    a.draw(0xD235);
    b.draw(0x0235);
    assert_eq!(*a.frame_buffer(), *b.frame_buffer());
    assert_eq!(lit(&a), 8);
    assert_eq!(&a.frame_buffer()[7][5..13], &[0, 0, 1, 0, 0, 0, 0, 0]);
    assert_eq!(&a.frame_buffer()[8][5..13], &[0, 1, 1, 0, 0, 0, 0, 0]);
}

#[test]
fn clear_screen_blanks_the_frame() {
    let mut cpu = CPU::new();
    run(&mut cpu, &[0xA050, 0xD005]);
    assert_eq!(lit(&cpu), 14);
    run(&mut cpu, &[0x00E0]);
    assert_eq!(*cpu.frame_buffer(), [[0u8; 64]; 32]);
}
