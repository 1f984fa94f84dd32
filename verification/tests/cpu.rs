use maze8::cpu::{Cpu, Fault, Note, FRAMEBUFFER_BASE};

fn boot(program: &[u8]) -> Cpu {
    let mut flash = vec![0u8; 65536];
    for (i, b) in program.iter().enumerate() {
        flash[i] = *b;
    }
    Cpu::new(flash)
}

#[test]
fn fresh_machine_is_zeroed() {
    let cpu = boot(&[]);
    assert_eq!(cpu.reg_a(), 0);
    assert_eq!(cpu.reg_b(), 0);
    assert_eq!(cpu.flags(), 0);
    assert_eq!(cpu.ram_ext(), 0);
    assert_eq!(cpu.pc(), 0);
    assert!(!cpu.halted());
    assert!(!cpu.carry());
    assert_eq!(cpu.read_data(0x1234), 0);
}

#[test]
fn add_scenario_terminates_with_sum() {
    // load A=5, load B=3, add, halt
    let mut cpu = boot(&[0x10, 0x05, 0x11, 0x03, 0x40, 0xff]);
    let mut guard: u32 = 0;
    while !cpu.halted() {
        assert!(cpu.step().is_ok());
        guard += 1;
        assert!(guard <= 10);
    }
    assert_eq!(cpu.reg_a(), 8);
    assert!(!cpu.carry());
    assert!(cpu.halted());
    assert_eq!(cpu.pc(), 6);
}

#[test]
fn add_overflow_scenario_wraps_and_sets_carry() {
    // load A=255, load B=2, add, halt
    let mut cpu = boot(&[0x10, 0xFF, 0x11, 0x02, 0x40, 0xff]);
    assert_eq!(cpu.step(), Ok(None));
    assert_eq!(cpu.step(), Ok(None));
    assert_eq!(cpu.step(), Ok(Some(Note::AdditionOverflow)));
    assert_eq!(cpu.reg_a(), 1);
    assert!(cpu.carry());
    assert_eq!(cpu.step(), Ok(None));
    assert!(cpu.halted());
}

#[test]
fn add_without_overflow_clears_carry() {
    // overflow first, then an add that fits: the carry must clear again
    let mut cpu = boot(&[0x10, 0xFF, 0x11, 0x02, 0x40, 0x10, 0x04, 0x11, 0x03, 0x40, 0xff]);
    for _ in 0..3 {
        cpu.step().unwrap();
    }
    assert!(cpu.carry());
    for _ in 0..3 {
        cpu.step().unwrap();
    }
    assert_eq!(cpu.reg_a(), 7);
    assert!(!cpu.carry());
}

#[test]
fn add_with_carry_uses_low_bit_of_b_plus_flags() {
    // after an overflowing add: A=1, B=2, carry=1;
    // then A=5; add-with-carry adds (B + flags) & 1 == (2 + 1) & 1 == 1
    let mut cpu = boot(&[0x10, 0xFF, 0x11, 0x02, 0x40, 0x10, 0x05, 0x41, 0xff]);
    for _ in 0..4 {
        cpu.step().unwrap();
    }
    assert_eq!(cpu.step(), Ok(None));
    assert_eq!(cpu.reg_a(), 6);
    assert!(!cpu.carry());
}

#[test]
fn add_with_carry_clear_uses_low_bit_of_b() {
    // carry clear, B=3 odd: operand is (3 + 0) & 1 == 1
    let mut cpu = boot(&[0x11, 0x03, 0x10, 0x02, 0x41, 0xff]);
    for _ in 0..3 {
        cpu.step().unwrap();
    }
    assert_eq!(cpu.reg_a(), 3);
    assert!(!cpu.carry());
}

#[test]
fn output_instructions_emit_accumulators() {
    let mut cpu = boot(&[0x10, 0x2A, 0x01, 0x11, 0x07, 0x02, 0xff]);
    assert_eq!(cpu.step(), Ok(None));
    assert_eq!(cpu.step(), Ok(Some(Note::OutputA(42))));
    assert_eq!(cpu.step(), Ok(None));
    assert_eq!(cpu.step(), Ok(Some(Note::OutputB(7))));
}

#[test]
fn nop_only_advances_pc() {
    let mut cpu = boot(&[0x00]);
    assert_eq!(cpu.step(), Ok(None));
    assert_eq!(cpu.pc(), 1);
    assert_eq!(cpu.reg_a(), 0);
    assert_eq!(cpu.reg_b(), 0);
    assert_eq!(cpu.flags(), 0);
    assert!(!cpu.halted());
}

#[test]
fn paged_store_load_round_trip() {
    // A=0xAB; page=0x7F; store A at offset 0x33; A=0; page=0x7F; load A
    let mut cpu = boot(&[
        0x10, 0xAB, 0x12, 0x7F, 0x20, 0x33, 0x10, 0x00, 0x12, 0x7F, 0x22, 0x33, 0xff,
    ]);
    for _ in 0..3 {
        cpu.step().unwrap();
    }
    assert_eq!(cpu.read_data(0x7F33), 0xAB);
    for _ in 0..3 {
        cpu.step().unwrap();
    }
    assert_eq!(cpu.reg_a(), 0xAB);
}

#[test]
fn paged_store_load_b_round_trip() {
    // B=0x5C; page=0x02; store B at offset 0x10; B=0; load B back
    let mut cpu = boot(&[0x11, 0x5C, 0x12, 0x02, 0x21, 0x10, 0x11, 0x00, 0x23, 0x10, 0xff]);
    for _ in 0..3 {
        cpu.step().unwrap();
    }
    assert_eq!(cpu.read_data(0x0210), 0x5C);
    for _ in 0..2 {
        cpu.step().unwrap();
    }
    assert_eq!(cpu.reg_b(), 0x5C);
}

#[test]
fn page_register_from_accumulators() {
    let mut cpu = boot(&[0x10, 0x11, 0x2d, 0x11, 0x22, 0x2e, 0xff]);
    cpu.step().unwrap();
    cpu.step().unwrap();
    assert_eq!(cpu.ram_ext(), 0x11);
    cpu.step().unwrap();
    cpu.step().unwrap();
    assert_eq!(cpu.ram_ext(), 0x22);
}

#[test]
fn load_page_paged_reads_through_current_page() {
    // data[0x0005] = 0x42, page 0: load page paged from offset 5
    let mut cpu = boot(&[0x2f, 0x05, 0xff]);
    cpu.write_data(0x0005, 0x42);
    assert_eq!(cpu.step(), Ok(None));
    assert_eq!(cpu.ram_ext(), 0x42);
    assert_eq!(cpu.pc(), 2);
}

#[test]
fn moves_copy_between_accumulators() {
    let mut cpu = boot(&[0x11, 0x09, 0x24, 0x10, 0x41, 0x25, 0xff]);
    cpu.step().unwrap();
    cpu.step().unwrap();
    assert_eq!(cpu.reg_a(), 0x09);
    cpu.step().unwrap();
    cpu.step().unwrap();
    assert_eq!(cpu.reg_b(), 0x41);
}

#[test]
fn direct_load_bypasses_paging_register() {
    let mut cpu = boot(&[0x12, 0x55, 0x30, 0x02, 0x03, 0xff]);
    cpu.write_data(0x0203, 77);
    cpu.step().unwrap();
    cpu.step().unwrap();
    assert_eq!(cpu.reg_a(), 77);
    assert_eq!(cpu.pc(), 5);
}

#[test]
fn indirect_load_uses_accumulator_pair() {
    let mut cpu = boot(&[0x10, 0x01, 0x11, 0x02, 0x31, 0xff]);
    cpu.write_data(0x0102, 55);
    for _ in 0..3 {
        cpu.step().unwrap();
    }
    assert_eq!(cpu.reg_a(), 55);
}

#[test]
fn indirect_load_into_b() {
    let mut cpu = boot(&[0x10, 0x01, 0x11, 0x02, 0x32, 0xff]);
    cpu.write_data(0x0102, 66);
    for _ in 0..3 {
        cpu.step().unwrap();
    }
    assert_eq!(cpu.reg_b(), 66);
    assert_eq!(cpu.reg_a(), 0x01);
}

#[test]
fn jump_absolute() {
    let mut cpu = boot(&[0xf0, 0x00, 0x10]);
    assert_eq!(cpu.step(), Ok(None));
    assert_eq!(cpu.pc(), 0x0010);
}

#[test]
fn jump_to_a() {
    let mut cpu = boot(&[0x10, 0x42, 0xf1]);
    cpu.step().unwrap();
    cpu.step().unwrap();
    assert_eq!(cpu.pc(), 0x42);
}

#[test]
fn jump_to_a_b_pair() {
    let mut cpu = boot(&[0x10, 0x12, 0x11, 0x34, 0xf2]);
    for _ in 0..3 {
        cpu.step().unwrap();
    }
    assert_eq!(cpu.pc(), 0x1234);
}

#[test]
fn conditional_jumps_not_taken_advance_pc_by_three() {
    // carry clear: 0xf3, 0xf4, 0xf5 fall through
    for op in [0xf3u8, 0xf4, 0xf5] {
        let mut cpu = boot(&[op, 0xAA, 0xBB]);
        assert_eq!(cpu.step(), Ok(None));
        assert_eq!(cpu.pc(), 3, "opcode {op:#x}");
    }
    // A nonzero: 0xf6, 0xf7 fall through
    for op in [0xf6u8, 0xf7] {
        let mut cpu = boot(&[0x10, 0x01, op, 0xAA, 0xBB]);
        cpu.step().unwrap();
        assert_eq!(cpu.step(), Ok(None));
        assert_eq!(cpu.pc(), 5, "opcode {op:#x}");
    }
}

#[test]
fn jump_absolute_if_carry_taken() {
    let mut cpu = boot(&[0x10, 0xFF, 0x11, 0x02, 0x40, 0xf3, 0x12, 0x34]);
    for _ in 0..4 {
        cpu.step().unwrap();
    }
    assert_eq!(cpu.pc(), 0x1234);
}

#[test]
fn jump_to_a_if_carry_taken() {
    // after the overflowing add, A holds 1
    let mut cpu = boot(&[0x10, 0xFF, 0x11, 0x02, 0x40, 0xf4, 0xAA, 0xBB]);
    for _ in 0..4 {
        cpu.step().unwrap();
    }
    assert_eq!(cpu.pc(), 0x0001);
}

#[test]
fn jump_to_a_b_if_carry_taken() {
    // after the overflowing add, A:B is 0x0102
    let mut cpu = boot(&[0x10, 0xFF, 0x11, 0x02, 0x40, 0xf5, 0xAA, 0xBB]);
    for _ in 0..4 {
        cpu.step().unwrap();
    }
    assert_eq!(cpu.pc(), 0x0102);
}

#[test]
fn jump_absolute_if_zero_taken() {
    let mut cpu = boot(&[0xf6, 0x00, 0x07]);
    assert_eq!(cpu.step(), Ok(None));
    assert_eq!(cpu.pc(), 0x0007);
}

#[test]
fn jump_to_b_if_zero_taken() {
    let mut cpu = boot(&[0x11, 0x09, 0xf7, 0xAA, 0xBB]);
    cpu.step().unwrap();
    assert_eq!(cpu.step(), Ok(None));
    assert_eq!(cpu.pc(), 0x0009);
}

#[test]
fn halted_machine_never_changes_again() {
    let mut cpu = boot(&[0x10, 0x2A, 0x12, 0x05, 0xff]);
    cpu.write_data(0x4321, 0x77);
    for _ in 0..3 {
        cpu.step().unwrap();
    }
    assert!(cpu.halted());
    let pc = cpu.pc();
    for _ in 0..5 {
        assert_eq!(cpu.step(), Ok(None));
        assert_eq!(cpu.reg_a(), 0x2A);
        assert_eq!(cpu.reg_b(), 0);
        assert_eq!(cpu.flags(), 0);
        assert_eq!(cpu.ram_ext(), 0x05);
        assert_eq!(cpu.pc(), pc);
        assert!(cpu.halted());
        assert_eq!(cpu.read_data(0x4321), 0x77);
    }
}

#[test]
fn unimplemented_opcode_faults_without_mutation() {
    let mut cpu = boot(&[0x99]);
    cpu.write_data(0x2000, 13);
    assert_eq!(cpu.step(), Err(Fault::UnimplementedOpcode(0x99)));
    assert_eq!(cpu.pc(), 0);
    assert_eq!(cpu.reg_a(), 0);
    assert_eq!(cpu.reg_b(), 0);
    assert_eq!(cpu.flags(), 0);
    assert_eq!(cpu.ram_ext(), 0);
    assert!(!cpu.halted());
    assert_eq!(cpu.read_data(0x2000), 13);
}

#[test]
fn other_unknown_opcodes_fault_too() {
    for op in [0x03u8, 0x13, 0x26, 0x33, 0x42, 0x80, 0xf8, 0xfe] {
        let mut cpu = boot(&[op]);
        assert_eq!(cpu.step(), Err(Fault::UnimplementedOpcode(op)));
        assert_eq!(cpu.pc(), 0);
    }
}

#[test]
fn load_next_reads_byte_and_advances() {
    let mut cpu = boot(&[7, 9]);
    assert_eq!(cpu.load_next(), 7);
    assert_eq!(cpu.pc(), 1);
    assert_eq!(cpu.load_next(), 9);
    assert_eq!(cpu.pc(), 2);
}

#[test]
fn program_counter_wraps_at_end_of_program_memory() {
    let mut cpu = boot(&[0xf0, 0xff, 0xff]);
    cpu.step().unwrap();
    assert_eq!(cpu.pc(), 0xffff);
    cpu.load_next();
    assert_eq!(cpu.pc(), 0);
}

#[test]
fn data_memory_read_write() {
    let mut cpu = boot(&[]);
    cpu.write_data(0x0000, 1);
    cpu.write_data(0xffff, 2);
    cpu.write_data(FRAMEBUFFER_BASE, 3);
    assert_eq!(cpu.read_data(0x0000), 1);
    assert_eq!(cpu.read_data(0xffff), 2);
    assert_eq!(cpu.read_data(FRAMEBUFFER_BASE), 3);
    assert_eq!(cpu.read_data(0x1000), 0);
}

#[test]
fn read_program_sees_the_image() {
    let cpu = boot(&[0x10, 0x05]);
    assert_eq!(cpu.read_program(0), 0x10);
    assert_eq!(cpu.read_program(1), 0x05);
    assert_eq!(cpu.read_program(2), 0);
}

#[test]
fn get_pixels_snapshots_upper_half_of_data_memory() {
    let mut cpu = boot(&[]);
    cpu.write_data(FRAMEBUFFER_BASE, 0xE0);
    cpu.write_data(FRAMEBUFFER_BASE + 5, 99);
    cpu.write_data(0xffff, 42);
    cpu.write_data(0x7fff, 17); // below the framebuffer: not visible
    let pixels = cpu.get_pixels();
    assert_eq!(pixels.len(), 32768);
    assert_eq!(pixels[0], 0xE0);
    assert_eq!(pixels[5], 99);
    assert_eq!(pixels[32767], 42);
    assert_eq!(pixels[1], 0);
}
