use chip8::machine::Chip8;

#[test]
fn new_machine_is_fully_zeroed() {
    let mut cpu = Chip8::new();
    assert_eq!(cpu.get_pc(), 0);
    assert_eq!(cpu.get_index(), 0);
    assert_eq!(cpu.get_stack_pointer(), 0);
    assert_eq!(cpu.get_delay_timer(), 0);
    assert_eq!(cpu.get_sound_timer(), 0);
    for k in 0..16 {
        assert_eq!(cpu.get_register(k), Some(0));
    }
    let gfx = cpu.get_gfx();
    assert_eq!(gfx.len(), 2048);
    assert!(gfx.iter().all(|&p| p == 0));
    assert!(!cpu.check_key_sema());
    assert!(!cpu.check_draw_sema());
    assert!(cpu.check_invariants());
}

#[test]
fn initialize_resets_state_and_pc() {
    let mut cpu = Chip8::new();
    cpu.initialize();
    let rom: Vec<u8> = vec![0x60, 0x42, 0xA3, 0x00, 0x00, 0xE0];
    cpu.load(&rom).unwrap();
    for _ in 0..3 {
        assert!(cpu.emulate_cycle().is_ok());
    }
    assert_eq!(cpu.get_register(0), Some(0x42));
    cpu.initialize();
    assert_eq!(cpu.get_pc(), 0x200);
    assert_eq!(cpu.get_index(), 0);
    assert_eq!(cpu.get_register(0), Some(0));
    assert!(!cpu.check_draw_sema());
    assert!(cpu.get_gfx().iter().all(|&p| p == 0));
    assert!(cpu.check_invariants());
}

#[test]
fn get_register_out_of_range_is_none() {
    let cpu = Chip8::new();
    assert_eq!(cpu.get_register(16), None);
    assert_eq!(cpu.get_register(100), None);
}

#[test]
fn keypress_is_ignored_while_running() {
    let mut cpu = Chip8::new();
    cpu.initialize();
    cpu.set_register_to_keypress(0x0B);
    assert_eq!(cpu.get_pc(), 0x200);
    for k in 0..16 {
        assert_eq!(cpu.get_register(k), Some(0));
    }
}

#[test]
fn draw_dirty_flag_is_consumed_once() {
    let mut cpu = Chip8::new();
    cpu.initialize();
    let rom: Vec<u8> = vec![0x00, 0xE0];
    cpu.load(&rom).unwrap();
    assert!(cpu.emulate_cycle().is_ok());
    assert!(cpu.check_draw_sema());
    assert!(!cpu.check_draw_sema());
}

#[test]
fn key_skip_honours_pressed_key() {
    let mut cpu = Chip8::new();
    cpu.initialize();
    let rom: Vec<u8> = vec![0x60, 0x05, 0xE0, 0x9E];
    cpu.load(&rom).unwrap();
    let mut keys = [0u8; 16];
    keys[5] = 1;
    cpu.update_keystate(&keys);
    assert!(cpu.emulate_cycle().is_ok());
    assert!(cpu.emulate_cycle().is_ok());
    assert_eq!(cpu.get_pc(), 0x206);
}

#[test]
fn key_skip_falls_through_when_released() {
    let mut cpu = Chip8::new();
    cpu.initialize();
    let rom: Vec<u8> = vec![0x60, 0x05, 0xE0, 0x9E];
    cpu.load(&rom).unwrap();
    assert!(cpu.emulate_cycle().is_ok());
    assert!(cpu.emulate_cycle().is_ok());
    assert_eq!(cpu.get_pc(), 0x204);
}

#[test]
fn inverted_key_skip_honours_released_key() {
    let mut cpu = Chip8::new();
    cpu.initialize();
    let rom: Vec<u8> = vec![0x60, 0x05, 0xE0, 0xA1];
    cpu.load(&rom).unwrap();
    assert!(cpu.emulate_cycle().is_ok());
    assert!(cpu.emulate_cycle().is_ok());
    assert_eq!(cpu.get_pc(), 0x206);

    let mut cpu2 = Chip8::new();
    cpu2.initialize();
    let rom2: Vec<u8> = vec![0x60, 0x05, 0xE0, 0xA1];
    cpu2.load(&rom2).unwrap();
    let mut keys = [0u8; 16];
    keys[5] = 1;
    cpu2.update_keystate(&keys);
    assert!(cpu2.emulate_cycle().is_ok());
    assert!(cpu2.emulate_cycle().is_ok());
    assert_eq!(cpu2.get_pc(), 0x204);
}

#[test]
fn keystate_is_overwritten_wholesale() {
    let mut cpu = Chip8::new();
    cpu.initialize();
    let rom: Vec<u8> = vec![0x60, 0x05, 0xE0, 0x9E];
    cpu.load(&rom).unwrap();
    let mut keys = [0u8; 16];
    keys[5] = 1;
    cpu.update_keystate(&keys);
    keys[5] = 0;
    cpu.update_keystate(&keys);
    assert!(cpu.emulate_cycle().is_ok());
    assert!(cpu.emulate_cycle().is_ok());
    assert_eq!(cpu.get_pc(), 0x204);
}
