use std::time::{Duration, Instant};

use chip8_vm::model::Fault;
use chip8_vm::virtual_machine::VirtualMachine;

#[test]
fn build_installs_font_and_resets_state() {
    let vm = VirtualMachine::build();
    assert_eq!(vm.program_counter, 0x200);
    assert_eq!(vm.index_register, 0);
    assert!(vm.stack.is_empty());
    assert_eq!(vm.delay_timer, 0);
    assert_eq!(vm.sound_timer, 0);
    assert!(!vm.update_display);
    assert_eq!(vm.memory.len(), 4096);
    assert_eq!(vm.video_memory.len(), 2048);
    assert_eq!(vm.registers.len(), 16);
    assert_eq!(vm.keys.len(), 16);
    // The glyph for 0 starts at 0x50; the one for F ends at 0x9F.
    assert_eq!(&vm.memory[0x50..0x55], &[0xF0, 0x90, 0x90, 0x90, 0xF0]);
    assert_eq!(&vm.memory[0x9B..0xA0], &[0xF0, 0x80, 0xF0, 0x80, 0x80]);
    // Outside the font the memory is zero.
    assert!(vm.memory[..0x50].iter().all(|b| *b == 0));
    assert!(vm.memory[0xA0..].iter().all(|b| *b == 0));
}

#[test]
fn load_program_places_bytes_at_0x200() {
    let mut vm = VirtualMachine::build();
    vm.program_counter = 0x400;
    assert_eq!(vm.load_program(vec![0x60, 0x2A, 0x12, 0x00]), Ok(()));
    assert_eq!(&vm.memory[0x200..0x204], &[0x60, 0x2A, 0x12, 0x00]);
    assert_eq!(vm.program_counter, 0x200);
}

#[test]
fn load_program_keeps_registers_and_timers() {
    let mut vm = VirtualMachine::build();
    vm.registers[3] = 7;
    vm.delay_timer = 5;
    vm.stack.push(0x222);
    vm.load_program(vec![1, 2, 3]).unwrap();
    assert_eq!(vm.registers[3], 7);
    assert_eq!(vm.delay_timer, 5);
    assert_eq!(vm.stack, vec![0x222]);
}

#[test]
fn load_program_accepts_the_largest_fit() {
    let mut vm = VirtualMachine::build();
    assert_eq!(vm.load_program(vec![0xAB; 3584]), Ok(()));
    assert_eq!(vm.memory[0x200], 0xAB);
    assert_eq!(vm.memory[0xFFF], 0xAB);
}

#[test]
fn oversized_program_is_refused_before_any_cycle() {
    let mut vm = VirtualMachine::build();
    let r = vm.load_program(vec![0u8; 4000]);
    assert_eq!(r, Err(Fault::ProgramTooLarge));
    // Nothing was copied and the machine never ran.
    assert!(vm.memory[0x200..].iter().all(|b| *b == 0));
    assert_eq!(vm.program_counter, 0x200);
    assert_eq!(
        r.unwrap_err().message(),
        "program too large: at most 3584 bytes fit at 0x200"
    );
}

#[test]
fn cycle_fetches_advances_and_executes() {
    let mut vm = VirtualMachine::build();
    vm.load_program(vec![0x60, 0x2A]).unwrap();
    vm.cycle().unwrap();
    assert_eq!(vm.registers[0], 42);
    assert_eq!(vm.program_counter, 0x202);
}

#[test]
fn cycle_with_program_counter_out_of_range_faults() {
    let mut vm = VirtualMachine::build();
    vm.program_counter = 4095;
    assert_eq!(vm.cycle(), Err(Fault::OutOfBounds));
    assert_eq!(vm.program_counter, 4095);
}

#[test]
fn cycle_does_not_clobber_a_jump() {
    // The program counter advances before dispatch, so a jump lands exactly.
    let mut vm = VirtualMachine::build();
    vm.load_program(vec![0x12, 0x00]).unwrap();
    vm.cycle().unwrap();
    assert_eq!(vm.program_counter, 0x200);
}

#[test]
fn unknown_instruction_halts_a_cycle() {
    let mut vm = VirtualMachine::build();
    vm.load_program(vec![0xFF, 0xFF]).unwrap();
    assert_eq!(vm.cycle(), Err(Fault::UnknownInstruction(0xFFFF)));
}

#[test]
fn key_edges_follow_the_fixed_table() {
    let mut vm = VirtualMachine::build();
    let table = [
        ('1', 0x1),
        ('2', 0x2),
        ('3', 0x3),
        ('4', 0xC),
        ('q', 0x4),
        ('w', 0x5),
        ('e', 0x6),
        ('r', 0xD),
        ('a', 0x7),
        ('s', 0x8),
        ('d', 0x9),
        ('f', 0xE),
        ('z', 0xA),
        ('x', 0x0),
        ('c', 0xB),
        ('v', 0xF),
    ];
    for (ch, idx) in table {
        vm.handle_keydown(ch);
        assert!(vm.keys[idx], "key {ch} should press {idx:X}");
        vm.handle_keyup(ch);
        assert!(!vm.keys[idx]);
    }
}

#[test]
fn keys_outside_the_table_are_ignored() {
    let mut vm = VirtualMachine::build();
    vm.handle_keydown('p');
    vm.handle_keydown('!');
    assert!(vm.keys.iter().all(|k| !k));
    vm.keys[5] = true;
    vm.handle_keyup('p');
    assert!(vm.keys[5]);
}

#[test]
fn tick_timers_saturates_at_zero() {
    let mut vm = VirtualMachine::build();
    vm.delay_timer = 2;
    vm.sound_timer = 1;
    vm.tick_timers();
    assert_eq!((vm.delay_timer, vm.sound_timer), (1, 0));
    vm.tick_timers();
    assert_eq!((vm.delay_timer, vm.sound_timer), (0, 0));
    vm.tick_timers();
    assert_eq!((vm.delay_timer, vm.sound_timer), (0, 0));
}

#[test]
fn delay_timer_reaches_zero_in_real_time() {
    // Start the delay timer at 10 and keep cycling a jump loop: after at
    // least ten sixtieths of a second the timer reads 0, and it never wraps.
    let mut vm = VirtualMachine::build();
    vm.load_program(vec![0x12, 0x00]).unwrap();
    vm.delay_timer = 10;
    vm.sound_timer = 3;
    let start = Instant::now();
    while start.elapsed() < Duration::from_millis(400) {
        vm.cycle().unwrap();
        assert!(vm.delay_timer <= 10);
    }
    assert_eq!(vm.delay_timer, 0);
    assert_eq!(vm.sound_timer, 0);
}

#[test]
fn sound_state_is_level_triggered() {
    let mut vm = VirtualMachine::build();
    vm.registers[1] = 2;
    vm.execute(chip8_vm::virtual_machine::decode(0xF118), 0).unwrap();
    assert!(vm.sound_timer > 0); // the host would start the tone here
    vm.tick_timers();
    vm.tick_timers();
    assert_eq!(vm.sound_timer, 0); // and stop it here
}

#[test]
fn fault_messages_describe_the_condition() {
    assert!(Fault::ProgramTooLarge.message().contains("too large"));
    assert!(Fault::UnknownInstruction(0x1234).message().contains("unknown"));
    assert!(Fault::StackUnderflow.message().contains("underflow"));
    assert!(Fault::OutOfBounds.message().contains("out of range"));
}
