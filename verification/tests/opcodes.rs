use chip8_vm::model::Fault;
use chip8_vm::virtual_machine::{decode, VirtualMachine};

fn fresh() -> VirtualMachine {
    VirtualMachine::build()
}

fn exec(vm: &mut VirtualMachine, word: u16) {
    vm.execute(decode(word), 0).expect("instruction faulted");
}

#[test]
fn set_register_exact_for_every_index() {
    // 6xkk followed by a plain read of Vx yields exactly kk, for all x.
    let mut vm = fresh();
    for x in 0u16..16 {
        let kk = 0xA0 | x as u8;
        exec(&mut vm, 0x6000 | (x << 8) | kk as u16);
        assert_eq!(vm.registers[x as usize], kk);
    }
    // No masking beyond 8 bits: the full byte value survives.
    exec(&mut vm, 0x60FF);
    assert_eq!(vm.registers[0], 0xFF);
}

#[test]
fn add_immediate_wraps_and_touches_no_flag() {
    let mut vm = fresh();
    vm.registers[0] = 0xFF;
    vm.registers[0xF] = 0x55; // sentinel: 7xkk must not touch VF
    exec(&mut vm, 0x7002);
    assert_eq!(vm.registers[0], 0x01);
    assert_eq!(vm.registers[0xF], 0x55);
}

#[test]
fn add_register_carry_law() {
    let mut vm = fresh();
    vm.registers[1] = 0xFF;
    vm.registers[2] = 0x01;
    exec(&mut vm, 0x8124);
    assert_eq!(vm.registers[1], 0x00);
    assert_eq!(vm.registers[0xF], 1);

    vm.registers[1] = 0x01;
    vm.registers[2] = 0x01;
    exec(&mut vm, 0x8124);
    assert_eq!(vm.registers[1], 0x02);
    assert_eq!(vm.registers[0xF], 0);
}

#[test]
fn sub_register_borrow_law() {
    let mut vm = fresh();
    vm.registers[1] = 0x05;
    vm.registers[2] = 0x03;
    exec(&mut vm, 0x8125);
    assert_eq!(vm.registers[1], 0x02);
    assert_eq!(vm.registers[0xF], 1);

    vm.registers[1] = 0x03;
    vm.registers[2] = 0x05;
    exec(&mut vm, 0x8125);
    assert_eq!(vm.registers[1], 0xFE);
    assert_eq!(vm.registers[0xF], 0);
}

#[test]
fn subn_register_borrow_law() {
    let mut vm = fresh();
    vm.registers[1] = 0x03;
    vm.registers[2] = 0x05;
    exec(&mut vm, 0x8127); // V1 = V2 - V1
    assert_eq!(vm.registers[1], 0x02);
    assert_eq!(vm.registers[0xF], 1);

    vm.registers[1] = 0x05;
    vm.registers[2] = 0x03;
    exec(&mut vm, 0x8127);
    assert_eq!(vm.registers[1], 0xFE);
    assert_eq!(vm.registers[0xF], 0);
}

#[test]
fn bitwise_ops_force_flag_to_zero() {
    let mut vm = fresh();
    vm.registers[1] = 0b1100;
    vm.registers[2] = 0b1010;
    vm.registers[0xF] = 7;
    exec(&mut vm, 0x8121);
    assert_eq!(vm.registers[1], 0b1110);
    assert_eq!(vm.registers[0xF], 0);

    vm.registers[1] = 0b1100;
    vm.registers[0xF] = 7;
    exec(&mut vm, 0x8122);
    assert_eq!(vm.registers[1], 0b1000);
    assert_eq!(vm.registers[0xF], 0);

    vm.registers[1] = 0b1100;
    vm.registers[0xF] = 7;
    exec(&mut vm, 0x8123);
    assert_eq!(vm.registers[1], 0b0110);
    assert_eq!(vm.registers[0xF], 0);
}

#[test]
fn copy_register() {
    let mut vm = fresh();
    vm.registers[2] = 0x77;
    exec(&mut vm, 0x8120);
    assert_eq!(vm.registers[1], 0x77);
}

#[test]
fn shift_right_uses_source_register() {
    // 8xy6: VF = low bit of Vy, Vx = Vy >> 1; Vy itself is untouched.
    let mut vm = fresh();
    vm.registers[2] = 0x05;
    exec(&mut vm, 0x8126);
    assert_eq!(vm.registers[1], 0x02);
    assert_eq!(vm.registers[2], 0x05);
    assert_eq!(vm.registers[0xF], 1);
}

#[test]
fn shift_left_uses_source_register() {
    // 8xyE: VF = high bit of Vy, Vx = Vy << 1 wrapping.
    let mut vm = fresh();
    vm.registers[2] = 0x81;
    exec(&mut vm, 0x812E);
    assert_eq!(vm.registers[1], 0x02);
    assert_eq!(vm.registers[0xF], 1);

    vm.registers[2] = 0x41;
    exec(&mut vm, 0x812E);
    assert_eq!(vm.registers[1], 0x82);
    assert_eq!(vm.registers[0xF], 0);
}

#[test]
fn jump_sets_program_counter() {
    let mut vm = fresh();
    exec(&mut vm, 0x1ABC);
    assert_eq!(vm.program_counter, 0xABC);
}

#[test]
fn call_pushes_and_return_pops() {
    let mut vm = fresh();
    exec(&mut vm, 0x2400); // call 0x400: pushes 0x200
    assert_eq!(vm.program_counter, 0x400);
    assert_eq!(vm.stack, vec![0x200]);
    exec(&mut vm, 0x00EE);
    assert_eq!(vm.program_counter, 0x200);
    assert!(vm.stack.is_empty());
}

#[test]
fn return_with_empty_stack_underflows() {
    let mut vm = fresh();
    let r = vm.execute(decode(0x00EE), 0);
    assert_eq!(r, Err(Fault::StackUnderflow));
    // The machine is untouched by the fault.
    assert_eq!(vm.program_counter, 0x200);
}

#[test]
fn skip_on_immediate_equality() {
    let mut vm = fresh();
    vm.registers[3] = 0x42;
    exec(&mut vm, 0x3342); // equal: skip
    assert_eq!(vm.program_counter, 0x202);
    exec(&mut vm, 0x3343); // not equal: no skip
    assert_eq!(vm.program_counter, 0x202);
    exec(&mut vm, 0x4343); // not equal: skip
    assert_eq!(vm.program_counter, 0x204);
    exec(&mut vm, 0x4342); // equal: no skip
    assert_eq!(vm.program_counter, 0x204);
}

#[test]
fn skip_on_register_equality() {
    let mut vm = fresh();
    vm.registers[1] = 9;
    vm.registers[2] = 9;
    exec(&mut vm, 0x5120);
    assert_eq!(vm.program_counter, 0x202);
    exec(&mut vm, 0x9120);
    assert_eq!(vm.program_counter, 0x202);
    vm.registers[2] = 8;
    exec(&mut vm, 0x5120);
    assert_eq!(vm.program_counter, 0x202);
    exec(&mut vm, 0x9120);
    assert_eq!(vm.program_counter, 0x204);
}

#[test]
fn set_index_register() {
    let mut vm = fresh();
    exec(&mut vm, 0xA123);
    assert_eq!(vm.index_register, 0x123);
}

#[test]
fn jump_with_offset_uses_v0() {
    let mut vm = fresh();
    vm.registers[0] = 0x10;
    exec(&mut vm, 0xB300);
    assert_eq!(vm.program_counter, 0x310);
}

#[test]
fn random_masks_with_immediate() {
    // The mask is exact for any byte the generator hands back.
    let mut vm = fresh();
    vm.execute(decode(0xC10F), 0xAB).unwrap();
    assert_eq!(vm.registers[1], 0x0B);
    vm.execute(decode(0xC1F0), 0xAB).unwrap();
    assert_eq!(vm.registers[1], 0xA0);
    vm.execute(decode(0xC100), 0xFF).unwrap();
    assert_eq!(vm.registers[1], 0x00);
}

#[test]
fn draw_plots_sprite_and_reports_no_collision_on_dark_screen() {
    let mut vm = fresh();
    vm.index_register = 0x300;
    vm.memory[0x300] = 0b1010_0000;
    vm.registers[0] = 4; // x
    vm.registers[1] = 2; // y
    exec(&mut vm, 0xD011);
    assert!(vm.video_memory[2 * 64 + 4]);
    assert!(!vm.video_memory[2 * 64 + 5]);
    assert!(vm.video_memory[2 * 64 + 6]);
    assert_eq!(vm.registers[0xF], 0);
    assert!(vm.update_display);
}

#[test]
fn draw_twice_restores_pixels_and_collides_second_time() {
    let mut vm = fresh();
    vm.index_register = 0x300;
    vm.memory[0x300] = 0xFF;
    vm.memory[0x301] = 0x81;
    vm.registers[0] = 10;
    vm.registers[1] = 5;
    let before: Vec<bool> = vm.video_memory.clone();
    exec(&mut vm, 0xD012);
    assert_eq!(vm.registers[0xF], 0); // screen was dark: nothing turned off
    exec(&mut vm, 0xD012);
    assert_eq!(vm.registers[0xF], 1); // same sprite again: pixels turn off
    assert_eq!(vm.video_memory, before); // XOR is its own inverse
}

#[test]
fn draw_clips_at_right_edge() {
    // A row drawn at x = 60 plots only columns 60..=63; nothing wraps.
    let mut vm = fresh();
    vm.index_register = 0x300;
    vm.memory[0x300] = 0xFF;
    vm.registers[0] = 60;
    vm.registers[1] = 0;
    exec(&mut vm, 0xD011);
    for c in 60..64 {
        assert!(vm.video_memory[c], "column {c} should be lit");
    }
    for c in 0..60 {
        assert!(!vm.video_memory[c], "column {c} must stay dark");
    }
    for c in 0..64 {
        assert!(!vm.video_memory[64 + c], "row 1 must stay dark");
    }
}

#[test]
fn draw_clips_at_bottom_edge() {
    let mut vm = fresh();
    vm.index_register = 0x300;
    vm.memory[0x300] = 0x80;
    vm.memory[0x301] = 0x80;
    vm.registers[0] = 0;
    vm.registers[1] = 31;
    exec(&mut vm, 0xD012);
    assert!(vm.video_memory[31 * 64]);
    // The second sprite row would land on row 32: dropped, not wrapped to 0.
    assert!(!vm.video_memory[0]);
}

#[test]
fn draw_origin_wraps_modulo_grid() {
    let mut vm = fresh();
    vm.index_register = 0x300;
    vm.memory[0x300] = 0x80;
    vm.registers[0] = 64; // wraps to x = 0
    vm.registers[1] = 33; // wraps to y = 1
    exec(&mut vm, 0xD011);
    assert!(vm.video_memory[64]);
}

#[test]
fn draw_out_of_memory_faults() {
    let mut vm = fresh();
    vm.index_register = 4090;
    vm.registers[0] = 0;
    vm.registers[1] = 0;
    let r = vm.execute(decode(0xD01F), 0); // 15 rows from 4090: out of range
    assert_eq!(r, Err(Fault::OutOfBounds));
}

#[test]
fn skip_on_key_state() {
    let mut vm = fresh();
    vm.registers[1] = 0x5;
    vm.keys[0x5] = true;
    exec(&mut vm, 0xE19E); // pressed: skip
    assert_eq!(vm.program_counter, 0x202);
    exec(&mut vm, 0xE1A1); // pressed: no skip
    assert_eq!(vm.program_counter, 0x202);
    vm.keys[0x5] = false;
    exec(&mut vm, 0xE19E); // released: no skip
    assert_eq!(vm.program_counter, 0x202);
    exec(&mut vm, 0xE1A1); // released: skip
    assert_eq!(vm.program_counter, 0x204);
}

#[test]
fn skip_on_key_with_bad_register_value_faults() {
    let mut vm = fresh();
    vm.registers[1] = 16;
    assert_eq!(vm.execute(decode(0xE19E), 0), Err(Fault::OutOfBounds));
    assert_eq!(vm.execute(decode(0xE1A1), 0), Err(Fault::OutOfBounds));
}

#[test]
fn read_and_set_timers() {
    let mut vm = fresh();
    vm.delay_timer = 42;
    exec(&mut vm, 0xF107); // V1 = delay
    assert_eq!(vm.registers[1], 42);
    vm.registers[2] = 9;
    exec(&mut vm, 0xF215); // delay = V2
    assert_eq!(vm.delay_timer, 9);
    exec(&mut vm, 0xF218); // sound = V2
    assert_eq!(vm.sound_timer, 9);
}

#[test]
fn wait_key_rewinds_when_nothing_pressed() {
    let mut vm = fresh();
    vm.program_counter = 0x202; // as if the cycle driver had just advanced
    exec(&mut vm, 0xF10A);
    assert_eq!(vm.program_counter, 0x200); // re-execute next cycle
}

#[test]
fn wait_key_reads_lowest_pressed_key() {
    let mut vm = fresh();
    vm.keys[0x7] = true;
    vm.keys[0x3] = true;
    exec(&mut vm, 0xF10A);
    assert_eq!(vm.registers[1], 0x3);
    assert_eq!(vm.program_counter, 0x200); // no rewind
}

#[test]
fn add_to_index_sets_overflow_flag() {
    let mut vm = fresh();
    vm.index_register = 0x0FFF;
    vm.registers[1] = 1;
    exec(&mut vm, 0xF11E);
    assert_eq!(vm.index_register, 0x1000);
    assert_eq!(vm.registers[0xF], 1);

    vm.index_register = 0x0010;
    exec(&mut vm, 0xF11E);
    assert_eq!(vm.index_register, 0x0011);
    assert_eq!(vm.registers[0xF], 0);
}

#[test]
fn font_address_for_digit() {
    let mut vm = fresh();
    vm.registers[1] = 0xA;
    exec(&mut vm, 0xF129);
    assert_eq!(vm.index_register, 0x50 + 0xA * 5);
    // The glyph rows for 'A' sit there.
    assert_eq!(vm.memory[vm.index_register as usize], 0xF0);
}

#[test]
fn bcd_decomposition_of_157() {
    let mut vm = fresh();
    vm.index_register = 0x300;
    vm.registers[1] = 157;
    exec(&mut vm, 0xF133);
    assert_eq!(vm.memory[0x300], 1);
    assert_eq!(vm.memory[0x301], 5);
    assert_eq!(vm.memory[0x302], 7);
}

#[test]
fn bcd_out_of_range_faults() {
    let mut vm = fresh();
    vm.index_register = 4094;
    assert_eq!(vm.execute(decode(0xF133), 0), Err(Fault::OutOfBounds));
}

#[test]
fn store_load_round_trip() {
    let mut vm = fresh();
    vm.registers[0] = 0x11;
    vm.registers[1] = 0x22;
    vm.registers[2] = 0x33;
    vm.registers[3] = 0x44;
    vm.index_register = 0x300;
    exec(&mut vm, 0xF355); // store V0..V3
    assert_eq!(&vm.memory[0x300..0x304], &[0x11, 0x22, 0x33, 0x44]);
    assert_eq!(vm.index_register, 0x304); // I advanced by x + 1

    // Clobber the registers, point I back, and load.
    for x in 0..4 {
        vm.registers[x] = 0;
    }
    exec(&mut vm, 0xA300);
    exec(&mut vm, 0xF365);
    assert_eq!(&vm.registers[0..4], &[0x11, 0x22, 0x33, 0x44]);
    assert_eq!(vm.index_register, 0x304);
}

#[test]
fn store_out_of_range_faults() {
    let mut vm = fresh();
    vm.index_register = 4093;
    assert_eq!(vm.execute(decode(0xF555), 0), Err(Fault::OutOfBounds));
    assert_eq!(vm.execute(decode(0xF565), 0), Err(Fault::OutOfBounds));
}

#[test]
fn unknown_instructions_fault() {
    let mut vm = fresh();
    for word in [0x0000u16, 0x00E1, 0x8009, 0x800F, 0xE100, 0xE1FF, 0xF100, 0xF1FF] {
        assert_eq!(
            vm.execute(decode(word), 0),
            Err(Fault::UnknownInstruction(word)),
            "word {word:04X} must be refused"
        );
    }
}

#[test]
fn decode_splits_fields() {
    let o = decode(0xD123);
    assert_eq!(o.instruction, 0xD123);
    assert_eq!(o.i, 0xD);
    assert_eq!(o.x, 0x1);
    assert_eq!(o.y, 0x2);
    assert_eq!(o.n, 0x3);
    assert_eq!(o.nn, 0x23);
    assert_eq!(o.nnn, 0x123);
}

#[test]
fn clear_screen_clears_and_marks_dirty() {
    let mut vm = fresh();
    vm.video_memory[100] = true;
    vm.update_display = false;
    exec(&mut vm, 0x00E0);
    assert!(vm.video_memory.iter().all(|p| !p));
    assert!(vm.update_display);
}
