use chip8::machine::Chip8;

#[test]
fn shift_left_sets_flag_and_wraps() {
    let mut cpu = Chip8::new();
    cpu.initialize();
    let rom: Vec<u8> = vec![0x61, 0x81, 0x81, 0x0E];
    cpu.load(&rom).unwrap();
    assert!(cpu.emulate_cycle().is_ok());
    assert!(cpu.emulate_cycle().is_ok());
    assert_eq!(cpu.get_register(1), Some(0x02));
    assert_eq!(cpu.get_register(15), Some(1));
}

#[test]
fn shift_right_sets_flag_and_halves() {
    let mut cpu = Chip8::new();
    cpu.initialize();
    let rom: Vec<u8> = vec![0x61, 0x81, 0x81, 0x06];
    cpu.load(&rom).unwrap();
    assert!(cpu.emulate_cycle().is_ok());
    assert!(cpu.emulate_cycle().is_ok());
    assert_eq!(cpu.get_register(1), Some(0x40));
    assert_eq!(cpu.get_register(15), Some(1));
}

#[test]
fn add_imm_wraps_without_error() {
    let mut cpu = Chip8::new();
    cpu.initialize();
    let rom: Vec<u8> = vec![0x61, 0x01, 0x71, 0xFF];
    cpu.load(&rom).unwrap();
    assert!(cpu.emulate_cycle().is_ok());
    assert!(cpu.emulate_cycle().is_ok());
    assert_eq!(cpu.get_register(1), Some(0x00));
    assert_eq!(cpu.get_pc(), 0x204);
}

#[test]
fn add_reg_sets_carry_on_overflow() {
    let mut cpu = Chip8::new();
    cpu.initialize();
    let rom: Vec<u8> = vec![0x60, 0xC8, 0x61, 0x64, 0x80, 0x14];
    cpu.load(&rom).unwrap();
    for _ in 0..3 {
        assert!(cpu.emulate_cycle().is_ok());
    }
    assert_eq!(cpu.get_register(0), Some(44));
    assert_eq!(cpu.get_register(15), Some(1));
}

#[test]
fn add_reg_clears_carry_without_overflow() {
    let mut cpu = Chip8::new();
    cpu.initialize();
    let rom: Vec<u8> = vec![0x60, 0x05, 0x61, 0x07, 0x80, 0x14];
    cpu.load(&rom).unwrap();
    for _ in 0..3 {
        assert!(cpu.emulate_cycle().is_ok());
    }
    assert_eq!(cpu.get_register(0), Some(12));
    assert_eq!(cpu.get_register(15), Some(0));
}

#[test]
fn sub_reg_wraps_and_reports_borrow() {
    let mut cpu = Chip8::new();
    cpu.initialize();
    let rom: Vec<u8> = vec![0x60, 0x05, 0x61, 0x07, 0x80, 0x15];
    cpu.load(&rom).unwrap();
    for _ in 0..3 {
        assert!(cpu.emulate_cycle().is_ok());
    }
    assert_eq!(cpu.get_register(0), Some(254));
    assert_eq!(cpu.get_register(15), Some(0));
}

#[test]
fn sub_reg_without_borrow_sets_flag() {
    let mut cpu = Chip8::new();
    cpu.initialize();
    let rom: Vec<u8> = vec![0x60, 0x09, 0x61, 0x04, 0x80, 0x15];
    cpu.load(&rom).unwrap();
    for _ in 0..3 {
        assert!(cpu.emulate_cycle().is_ok());
    }
    assert_eq!(cpu.get_register(0), Some(5));
    assert_eq!(cpu.get_register(15), Some(1));
}

#[test]
fn sub_from_reverses_operands() {
    let mut cpu = Chip8::new();
    cpu.initialize();
    let rom: Vec<u8> = vec![0x60, 0x04, 0x61, 0x09, 0x80, 0x17];
    cpu.load(&rom).unwrap();
    for _ in 0..3 {
        assert!(cpu.emulate_cycle().is_ok());
    }
    assert_eq!(cpu.get_register(0), Some(5));
    assert_eq!(cpu.get_register(15), Some(1));
}

#[test]
fn flag_register_as_destination_keeps_result() {
    // When VF is itself the destination, the flag write happens first
    // and the wrapped result, computed from the pre-instruction values,
    // overwrites it.
    let mut cpu = Chip8::new();
    cpu.initialize();
    let rom: Vec<u8> = vec![0x6F, 0x05, 0x61, 0x07, 0x8F, 0x14];
    cpu.load(&rom).unwrap();
    for _ in 0..3 {
        assert!(cpu.emulate_cycle().is_ok());
    }
    assert_eq!(cpu.get_register(15), Some(12));
}

#[test]
fn bitwise_or_and_xor() {
    let mut cpu = Chip8::new();
    cpu.initialize();
    let rom: Vec<u8> = vec![
        0x60, 0xF0, 0x61, 0x0F, 0x80, 0x11, // V0 |= V1
        0x62, 0x33, 0x63, 0x0F, 0x82, 0x32, // V2 &= V3
        0x64, 0xFF, 0x65, 0x0F, 0x84, 0x53, // V4 ^= V5
    ];
    cpu.load(&rom).unwrap();
    for _ in 0..9 {
        assert!(cpu.emulate_cycle().is_ok());
    }
    assert_eq!(cpu.get_register(0), Some(0xFF));
    assert_eq!(cpu.get_register(2), Some(0x03));
    assert_eq!(cpu.get_register(4), Some(0xF0));
}

#[test]
fn assign_copies_register() {
    let mut cpu = Chip8::new();
    cpu.initialize();
    let rom: Vec<u8> = vec![0x61, 0x7B, 0x80, 0x10];
    cpu.load(&rom).unwrap();
    assert!(cpu.emulate_cycle().is_ok());
    assert!(cpu.emulate_cycle().is_ok());
    assert_eq!(cpu.get_register(0), Some(0x7B));
}

#[test]
fn skip_if_equal_immediate() {
    let mut cpu = Chip8::new();
    cpu.initialize();
    let rom: Vec<u8> = vec![0x60, 0x05, 0x30, 0x05];
    cpu.load(&rom).unwrap();
    assert!(cpu.emulate_cycle().is_ok());
    assert!(cpu.emulate_cycle().is_ok());
    assert_eq!(cpu.get_pc(), 0x206);

    let mut cpu2 = Chip8::new();
    cpu2.initialize();
    let rom2: Vec<u8> = vec![0x60, 0x05, 0x30, 0x06];
    cpu2.load(&rom2).unwrap();
    assert!(cpu2.emulate_cycle().is_ok());
    assert!(cpu2.emulate_cycle().is_ok());
    assert_eq!(cpu2.get_pc(), 0x204);
}

#[test]
fn skip_if_not_equal_registers() {
    let mut cpu = Chip8::new();
    cpu.initialize();
    let rom: Vec<u8> = vec![0x60, 0x05, 0x61, 0x06, 0x90, 0x10];
    cpu.load(&rom).unwrap();
    for _ in 0..3 {
        assert!(cpu.emulate_cycle().is_ok());
    }
    assert_eq!(cpu.get_pc(), 0x208);
}

#[test]
fn skip_if_equal_registers() {
    let mut cpu = Chip8::new();
    cpu.initialize();
    let rom: Vec<u8> = vec![0x60, 0x09, 0x61, 0x09, 0x50, 0x10];
    cpu.load(&rom).unwrap();
    for _ in 0..3 {
        assert!(cpu.emulate_cycle().is_ok());
    }
    assert_eq!(cpu.get_pc(), 0x208);
}

#[test]
fn jump_sets_pc_directly() {
    let mut cpu = Chip8::new();
    cpu.initialize();
    let rom: Vec<u8> = vec![0x1A, 0xBC];
    cpu.load(&rom).unwrap();
    assert!(cpu.emulate_cycle().is_ok());
    assert_eq!(cpu.get_pc(), 0xABC);
}

#[test]
fn jump_plus_v0_offsets_target() {
    let mut cpu = Chip8::new();
    cpu.initialize();
    let rom: Vec<u8> = vec![0x60, 0x10, 0xB3, 0x00];
    cpu.load(&rom).unwrap();
    assert!(cpu.emulate_cycle().is_ok());
    assert!(cpu.emulate_cycle().is_ok());
    assert_eq!(cpu.get_pc(), 0x310);
}

#[test]
fn call_and_return_restore_pc() {
    let mut cpu = Chip8::new();
    cpu.initialize();
    let mut rom: Vec<u8> = vec![0x23, 0x00];
    while rom.len() < 0x100 {
        rom.push(0x00);
    }
    rom.push(0x00);
    rom.push(0xEE);
    cpu.load(&rom).unwrap();
    assert!(cpu.emulate_cycle().is_ok());
    assert_eq!(cpu.get_pc(), 0x300);
    assert_eq!(cpu.get_stack_pointer(), 1);
    assert!(cpu.emulate_cycle().is_ok());
    assert_eq!(cpu.get_pc(), 0x202);
    assert_eq!(cpu.get_stack_pointer(), 0);
}

#[test]
fn set_index_rom_only_steps_pc() {
    let mut cpu = Chip8::new();
    cpu.initialize();
    let rom: Vec<u8> = vec![0xA1, 0x23, 0xA1, 0x23, 0xA1, 0x23, 0xA1, 0x23, 0xA1, 0x23];
    cpu.load(&rom).unwrap();
    for k in 0..5u16 {
        assert!(cpu.emulate_cycle().is_ok());
        assert_eq!(cpu.get_pc(), 0x202 + 2 * k);
        assert!(!cpu.check_draw_sema());
    }
    assert_eq!(cpu.get_index(), 0x123);
    assert!(cpu.get_gfx().iter().all(|&p| p == 0));
}

#[test]
fn wait_key_freezes_machine_until_keypress() {
    let mut cpu = Chip8::new();
    cpu.initialize();
    let rom: Vec<u8> = vec![0x60, 0x05, 0xF0, 0x15, 0xF1, 0x0A];
    cpu.load(&rom).unwrap();
    assert!(cpu.emulate_cycle().is_ok());
    assert!(cpu.emulate_cycle().is_ok());
    assert_eq!(cpu.get_delay_timer(), 4);
    assert!(cpu.emulate_cycle().is_ok());
    assert!(cpu.check_key_sema());
    assert_eq!(cpu.get_pc(), 0x204);
    assert_eq!(cpu.get_delay_timer(), 4);
    for _ in 0..10 {
        assert!(cpu.emulate_cycle().is_ok());
        assert_eq!(cpu.get_pc(), 0x204);
        assert_eq!(cpu.get_delay_timer(), 4);
        assert!(cpu.check_key_sema());
    }
    cpu.set_register_to_keypress(0x0B);
    assert!(!cpu.check_key_sema());
    assert_eq!(cpu.get_register(1), Some(0x0B));
    assert_eq!(cpu.get_pc(), 0x206);
    assert_eq!(cpu.get_delay_timer(), 4);
}

#[test]
fn timers_count_down_once_per_cycle() {
    let mut cpu = Chip8::new();
    cpu.initialize();
    let rom: Vec<u8> = vec![0x60, 0x05, 0xF0, 0x15, 0xF0, 0x18, 0xF1, 0x07];
    cpu.load(&rom).unwrap();
    for _ in 0..4 {
        assert!(cpu.emulate_cycle().is_ok());
    }
    // The delay timer is set to 5 and ticks on that cycle and the two
    // after it; the register read sees it before the last tick.
    assert_eq!(cpu.get_register(1), Some(3));
    assert_eq!(cpu.get_delay_timer(), 2);
    assert_eq!(cpu.get_sound_timer(), 3);
}

#[test]
fn random_and_with_zero_mask_is_zero() {
    let mut cpu = Chip8::new();
    cpu.initialize();
    let rom: Vec<u8> = vec![0x60, 0xFF, 0xC0, 0x00];
    cpu.load(&rom).unwrap();
    assert!(cpu.emulate_cycle().is_ok());
    assert!(cpu.emulate_cycle().is_ok());
    assert_eq!(cpu.get_register(0), Some(0));
}

#[test]
fn random_and_applies_both_masks() {
    let mut cpu = Chip8::new();
    cpu.initialize();
    let rom: Vec<u8> = vec![0x60, 0xFF, 0xC0, 0x0F];
    cpu.load(&rom).unwrap();
    assert!(cpu.emulate_cycle().is_ok());
    assert!(cpu.cycle_with_random(0xAB).is_ok());
    assert_eq!(cpu.get_register(0), Some(0x0B));
}

#[test]
fn clear_then_double_draw_returns_to_empty() {
    let mut cpu = Chip8::new();
    cpu.initialize();
    let mut rom: Vec<u8> = vec![
        0x00, 0xE0, // clear
        0xA2, 0x10, // I = 0x210
        0x60, 0x00, // V0 = 0
        0x61, 0x00, // V1 = 0
        0xD0, 0x15, // draw 8x5 at (0, 0)
        0xD0, 0x15, // identical draw again
    ];
    while rom.len() < 0x10 {
        rom.push(0x00);
    }
    rom.extend_from_slice(&[0xF0, 0x90, 0x90, 0x90, 0xF0]);
    cpu.load(&rom).unwrap();
    for _ in 0..4 {
        assert!(cpu.emulate_cycle().is_ok());
    }
    assert!(cpu.check_draw_sema());
    assert!(cpu.emulate_cycle().is_ok());
    assert_eq!(cpu.get_register(15), Some(0));
    assert!(cpu.check_draw_sema());
    let gfx = cpu.get_gfx();
    assert_eq!(&gfx[0..8], &[1, 1, 1, 1, 0, 0, 0, 0]);
    assert_eq!(&gfx[64..72], &[1, 0, 0, 1, 0, 0, 0, 0]);
    assert!(cpu.emulate_cycle().is_ok());
    assert_eq!(cpu.get_register(15), Some(1));
    assert!(cpu.check_draw_sema());
    assert!(cpu.get_gfx().iter().all(|&p| p == 0));
}

#[test]
fn draw_clips_at_screen_edges() {
    let mut cpu = Chip8::new();
    cpu.initialize();
    let mut rom: Vec<u8> = vec![
        0xA2, 0x10, // I = 0x210
        0x60, 0x3C, // V0 = 60
        0x61, 0x1E, // V1 = 30
        0xD0, 0x15, // draw 8x5 at (60, 30)
    ];
    while rom.len() < 0x10 {
        rom.push(0x00);
    }
    rom.extend_from_slice(&[0xFF, 0xFF, 0xFF, 0xFF, 0xFF]);
    cpu.load(&rom).unwrap();
    for _ in 0..4 {
        assert!(cpu.emulate_cycle().is_ok());
    }
    let gfx = cpu.get_gfx();
    let lit: usize = gfx.iter().filter(|&&p| p == 1).count();
    assert_eq!(lit, 8);
    assert_eq!(gfx[30 * 64 + 60], 1);
    assert_eq!(gfx[30 * 64 + 63], 1);
    assert_eq!(gfx[31 * 64 + 60], 1);
    assert_eq!(gfx[31 * 64 + 63], 1);
    assert_eq!(gfx[30 * 64 + 59], 0);
    assert_eq!(gfx[29 * 64 + 60], 0);
}

#[test]
fn font_index_points_at_seeded_sprite() {
    let mut cpu = Chip8::new();
    cpu.initialize();
    let rom: Vec<u8> = vec![
        0x60, 0x00, // V0 = 0
        0xF0, 0x29, // I = font sprite for digit 0
        0xD0, 0x05, // draw it at (0, 0)
    ];
    cpu.load(&rom).unwrap();
    for _ in 0..3 {
        assert!(cpu.emulate_cycle().is_ok());
    }
    assert_eq!(cpu.get_index(), 80);
    let gfx = cpu.get_gfx();
    // Digit 0 is 0xF0 0x90 0x90 0x90 0xF0.
    assert_eq!(&gfx[0..4], &[1, 1, 1, 1]);
    assert_eq!(&gfx[64..68], &[1, 0, 0, 1]);
    assert_eq!(&gfx[4 * 64..4 * 64 + 4], &[1, 1, 1, 1]);
}

#[test]
fn bcd_store_then_load_regs() {
    let mut cpu = Chip8::new();
    cpu.initialize();
    let rom: Vec<u8> = vec![
        0x60, 0xEA, // V0 = 234
        0xA3, 0x00, // I = 0x300
        0xF0, 0x33, // BCD of V0 at I..I+2
        0xF2, 0x65, // load V0..V2 from I
    ];
    cpu.load(&rom).unwrap();
    for _ in 0..4 {
        assert!(cpu.emulate_cycle().is_ok());
    }
    assert_eq!(cpu.get_register(0), Some(2));
    assert_eq!(cpu.get_register(1), Some(3));
    assert_eq!(cpu.get_register(2), Some(4));
    assert_eq!(cpu.get_index(), 0x300);
}

#[test]
fn dump_then_reload_registers() {
    let mut cpu = Chip8::new();
    cpu.initialize();
    let rom: Vec<u8> = vec![
        0x60, 0x11, 0x61, 0x22, 0x62, 0x33, // V0..V2
        0xA3, 0x00, // I = 0x300
        0xF2, 0x55, // dump V0..V2
        0x60, 0x00, 0x61, 0x00, 0x62, 0x00, // zero them
        0xF2, 0x65, // reload V0..V2
    ];
    cpu.load(&rom).unwrap();
    for _ in 0..9 {
        assert!(cpu.emulate_cycle().is_ok());
    }
    assert_eq!(cpu.get_register(0), Some(0x11));
    assert_eq!(cpu.get_register(1), Some(0x22));
    assert_eq!(cpu.get_register(2), Some(0x33));
    assert_eq!(cpu.get_index(), 0x300);
}

#[test]
fn add_index_wraps_with_range_flag() {
    let mut cpu = Chip8::new();
    cpu.initialize();
    let rom: Vec<u8> = vec![
        0x60, 0xFF, // V0 = 255
        0xF0, 0x1E, // I += V0
        0x12, 0x02, // jump back to the add
    ];
    cpu.load(&rom).unwrap();
    assert!(cpu.emulate_cycle().is_ok());
    let mut adds: u32 = 0;
    loop {
        assert!(cpu.emulate_cycle().is_ok());
        adds += 1;
        if cpu.get_register(15) == Some(1) {
            break;
        }
        assert!(cpu.emulate_cycle().is_ok());
        assert!(adds < 1000);
    }
    // 258 additions of 255 pass 65535 and wrap to 254.
    assert_eq!(adds, 258);
    assert_eq!(cpu.get_index(), 254);
}
