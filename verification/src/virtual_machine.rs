//! The executable machine: all CPU state in one owned aggregate, mutated only
//! through the cycle-stepping interface. Every method is proved against the
//! model in `model`.

use vstd::prelude::*;

use crate::host::{elapsed_nanos, now_instant, random_byte};
use crate::model::{
    addr_nnn, any_key, blank_video, cycle_post, draw_bit, draw_covers, draw_processed, draw_video,
    fetch_spec, font_seq, hits_upto, imm_nn, init_state, key_index, lemma_cell_bounds,
    lemma_draw_clip, lemma_draw_plot, lemma_hits_upto_collision, load_state, lowest_key,
    lowest_key_from, nib_i, nib_n, nib_x, nib_y, skip_if, step_add, step_add_imm, step_add_index,
    step_and, step_bcd, step_call, step_clear, step_copy, step_draw, step_font, step_jump,
    step_jump_offset, step_load, step_or, step_random, step_read_delay, step_result, step_ret,
    step_set_delay, step_set_imm, step_set_index, step_set_sound, step_shl, step_shr,
    step_skip_key, step_store, step_sub, step_sub_rev, step_wait_key, step_xor, tick_state, Fault,
    State,
};

verus! {

/// The whole CPU state. The fields are public so that a host (or a test) can
/// observe the machine; the contracts speak of them through the view.
pub struct VirtualMachine {
    /// 4096 bytes; the font lives at 0x050..0x0A0, programs at 0x200 upward.
    pub memory: Vec<u8>,
    /// 2048 cells, row-major: index = y * 64 + x.
    pub video_memory: Vec<bool>,
    pub program_counter: u16,
    pub index_register: u16,
    /// Return addresses; push on call, pop on return.
    pub stack: Vec<u16>,
    pub delay_timer: u8,
    pub sound_timer: u8,
    /// When the last 60 Hz timer tick was taken.
    pub timer_counter: std::time::Instant,
    /// V0..VF; VF doubles as the flag output.
    pub registers: Vec<u8>,
    /// Level-triggered key states, indexed 0x0..0xF.
    pub keys: Vec<bool>,
    /// Set by any drawing or clear instruction; the host clears it after a
    /// redraw.
    pub update_display: bool,
}

impl View for VirtualMachine {
    type V = State;

    open spec fn view(&self) -> State {
        State {
            memory: self.memory@,
            video: self.video_memory@,
            pc: self.program_counter,
            index: self.index_register,
            stack: self.stack@,
            delay: self.delay_timer,
            sound: self.sound_timer,
            regs: self.registers@,
            keys: self.keys@,
            update_display: self.update_display,
        }
    }
}

/// A decoded instruction word: the fields every handler dispatches on.
#[derive(Clone, Copy, Debug)]
pub struct Opcode {
    pub instruction: u16,
    /// Top nibble: the opcode family.
    pub i: u16,
    /// Second nibble: first register index.
    pub x: u16,
    /// Third nibble: second register index.
    pub y: u16,
    /// Bottom nibble: small immediate.
    pub n: u16,
    /// Bottom byte: immediate.
    pub nn: u8,
    /// Bottom 12 bits: address immediate.
    pub nnn: u16,
}

impl Opcode {
    /// The fields agree with the instruction word they were decoded from.
    pub open spec fn wf(self) -> bool {
        &&& self.i as int == nib_i(self.instruction)
        &&& self.x as int == nib_x(self.instruction)
        &&& self.y as int == nib_y(self.instruction)
        &&& self.n as int == nib_n(self.instruction)
        &&& self.nn == imm_nn(self.instruction)
        &&& self.nnn == addr_nnn(self.instruction)
    }
}

/// Split an instruction word into its nibble and immediate fields.
pub fn decode(instruction: u16) -> (o: Opcode)
    ensures
        o.wf(),
        o.instruction == instruction,
{
    Opcode {
        instruction,
        i: instruction / 0x1000,
        x: (instruction / 0x100) % 16,
        y: (instruction / 16) % 16,
        n: instruction % 16,
        nn: (instruction % 256) as u8,
        nnn: instruction % 0x1000,
    }
}

/// A vector of `n` zero bytes.
fn zero_bytes(n: usize) -> (v: Vec<u8>)
    ensures
        v@.len() == n,
        forall|j: int| 0 <= j < n ==> v@[j] == 0u8,
{
    let mut v: Vec<u8> = Vec::new();
    let mut k: usize = 0;
    while k < n
        invariant
            k <= n,
            v@.len() == k,
            forall|j: int| 0 <= j < k ==> v@[j] == 0u8,
        decreases n - k,
    {
        v.push(0);
        k = k + 1;
    }
    v
}

/// A vector of `n` cleared cells.
fn false_cells(n: usize) -> (v: Vec<bool>)
    ensures
        v@.len() == n,
        forall|j: int| 0 <= j < n ==> v@[j] == false,
{
    let mut v: Vec<bool> = Vec::new();
    let mut k: usize = 0;
    while k < n
        invariant
            k <= n,
            v@.len() == k,
            forall|j: int| 0 <= j < k ==> v@[j] == false,
        decreases n - k,
    {
        v.push(false);
        k = k + 1;
    }
    v
}

/// The built-in font, 16 glyphs of 5 rows.
fn font_data() -> (v: Vec<u8>)
    ensures
        v@ =~= font_seq(),
{
    let v: Vec<u8> = vec![
        0xF0, 0x90, 0x90, 0x90, 0xF0, // 0
        0x20, 0x60, 0x20, 0x20, 0x70, // 1
        0xF0, 0x10, 0xF0, 0x80, 0xF0, // 2
        0xF0, 0x10, 0xF0, 0x10, 0xF0, // 3
        0x90, 0x90, 0xF0, 0x10, 0x10, // 4
        0xF0, 0x80, 0xF0, 0x10, 0xF0, // 5
        0xF0, 0x80, 0xF0, 0x90, 0xF0, // 6
        0xF0, 0x10, 0x20, 0x40, 0x40, // 7
        0xF0, 0x90, 0xF0, 0x90, 0xF0, // 8
        0xF0, 0x90, 0xF0, 0x10, 0xF0, // 9
        0xF0, 0x90, 0xF0, 0x90, 0x90, // A
        0xE0, 0x90, 0xE0, 0x90, 0xE0, // B
        0xF0, 0x80, 0x80, 0x80, 0xF0, // C
        0xE0, 0x90, 0x90, 0x90, 0xE0, // D
        0xF0, 0x80, 0xF0, 0x80, 0xF0, // E
        0xF0, 0x80, 0xF0, 0x80, 0x80, // F
    ];
    proof {
        assert(v@ =~= font_seq());
    }
    v
}

/// Map a host key character to its CHIP-8 key index, per the fixed 4x4 table.
fn map_key(key: char) -> (r: Option<usize>)
    ensures
        match r {
            Some(k) => key_index(key) == Some(k as int),
            None => key_index(key) is None,
        },
{
    if key == '1' { Some(0x1) }
    else if key == '2' { Some(0x2) }
    else if key == '3' { Some(0x3) }
    else if key == '4' { Some(0xC) }
    else if key == 'q' { Some(0x4) }
    else if key == 'w' { Some(0x5) }
    else if key == 'e' { Some(0x6) }
    else if key == 'r' { Some(0xD) }
    else if key == 'a' { Some(0x7) }
    else if key == 's' { Some(0x8) }
    else if key == 'd' { Some(0x9) }
    else if key == 'f' { Some(0xE) }
    else if key == 'z' { Some(0xA) }
    else if key == 'x' { Some(0x0) }
    else if key == 'c' { Some(0xB) }
    else if key == 'v' { Some(0xF) }
    else { None }
}

impl VirtualMachine {
    /// The state is well formed: every array has its fixed size.
    pub open spec fn wf(&self) -> bool {
        self@.wf()
    }

    /// A fresh machine: memory zeroed but for the font, program counter at
    /// 0x200, everything else cleared.
    pub fn build() -> (vm: VirtualMachine)
        ensures
            vm.wf(),
            vm@ == init_state(),
    {
        let mut memory = zero_bytes(4096);
        let font = font_data();
        let mut k: usize = 0;
        while k < 80
            invariant
                k <= 80,
                memory@.len() == 4096,
                font@ =~= font_seq(),
                forall|j: int| 0 <= j < 0x50 ==> memory@[j] == 0u8,
                forall|j: int| 0x50 <= j < 0x50 + k ==> memory@[j] == font_seq()[j - 0x50],
                forall|j: int| 0x50 + k <= j < 4096 ==> memory@[j] == 0u8,
            decreases 80 - k,
        {
            memory[0x50 + k] = font[k];
            k = k + 1;
        }
        let vm = VirtualMachine {
            memory,
            video_memory: false_cells(2048),
            program_counter: 0x200,
            index_register: 0,
            stack: Vec::new(),
            delay_timer: 0,
            sound_timer: 0,
            timer_counter: now_instant(),
            registers: zero_bytes(16),
            keys: false_cells(16),
            update_display: false,
        };
        proof {
            assert(vm@.memory =~= init_state().memory);
            assert(vm@.video =~= init_state().video);
            assert(vm@.regs =~= init_state().regs);
            assert(vm@.keys =~= init_state().keys);
            assert(vm@.stack =~= init_state().stack);
            assert(vm@ =~= init_state());
        }
        vm
    }

    /// Place a program verbatim at 0x200 and rewind the program counter.
    /// A program over 3584 bytes cannot fit and is refused before any byte is
    /// copied; registers, stack and timers are deliberately kept.
    pub fn load_program(&mut self, program: Vec<u8>) -> (r: Result<(), Fault>)
        requires
            old(self).wf(),
        ensures
            final(self).wf(),
            program@.len() > 3584 ==> r == Err::<(), Fault>(Fault::ProgramTooLarge)
                && final(self)@ == old(self)@,
            program@.len() <= 3584 ==> r == Ok::<(), Fault>(())
                && final(self)@ == load_state(old(self)@, program@),
    {
        if program.len() > 3584 {
            return Err(Fault::ProgramTooLarge);
        }
        let mut k: usize = 0;
        while k < program.len()
            invariant
                old(self).wf(),
                program@.len() <= 3584,
                k <= program@.len(),
                self.memory@.len() == 4096,
                forall|j: int| 0 <= j < k ==> self.memory@[0x200 + j] == program@[j],
                forall|j: int|
                    0 <= j < 4096 && !(0x200 <= j < 0x200 + k) ==> self.memory@[j] == old(
                        self,
                    ).memory@[j],
                self.video_memory == old(self).video_memory,
                self.program_counter == old(self).program_counter,
                self.index_register == old(self).index_register,
                self.stack == old(self).stack,
                self.delay_timer == old(self).delay_timer,
                self.sound_timer == old(self).sound_timer,
                self.registers == old(self).registers,
                self.keys == old(self).keys,
                self.update_display == old(self).update_display,
            decreases program@.len() - k,
        {
            self.memory[0x200 + k] = program[k];
            k = k + 1;
        }
        self.program_counter = 0x200;
        proof {
            assert(self@.memory =~= load_state(old(self)@, program@).memory);
            assert(self@ =~= load_state(old(self)@, program@));
        }
        Ok(())
    }

    /// One 60 Hz tick: both timers down by one, saturating at zero.
    pub fn tick_timers(&mut self)
        requires
            old(self).wf(),
        ensures
            final(self).wf(),
            final(self)@ == tick_state(old(self)@),
    {
        self.sound_timer = if self.sound_timer > 0 {
            self.sound_timer - 1
        } else {
            0
        };
        self.delay_timer = if self.delay_timer > 0 {
            self.delay_timer - 1
        } else {
            0
        };
    }

    /// Take a 60 Hz tick when at least a sixtieth of a second of wall-clock
    /// time has passed since the last one. Whether the tick falls now depends
    /// on the clock alone, so the contract promises one of the two outcomes.
    fn decrement_timers(&mut self)
        requires
            old(self).wf(),
        ensures
            final(self).wf(),
            final(self)@ == old(self)@ || final(self)@ == tick_state(old(self)@),
    {
        if elapsed_nanos(&self.timer_counter) > 1_000_000_000 / 60 {
            self.tick_timers();
            self.timer_counter = now_instant();
        }
    }

    /// Report a key press. Characters outside the fixed table are ignored.
    pub fn handle_keydown(&mut self, key: char)
        requires
            old(self).wf(),
        ensures
            final(self).wf(),
            final(self)@ == (match key_index(key) {
                Some(k) => State { keys: old(self)@.keys.update(k, true), ..old(self)@ },
                None => old(self)@,
            }),
    {
        if let Some(k) = map_key(key) {
            self.keys[k] = true;
        }
    }

    /// Report a key release. Characters outside the fixed table are ignored.
    pub fn handle_keyup(&mut self, key: char)
        requires
            old(self).wf(),
        ensures
            final(self).wf(),
            final(self)@ == (match key_index(key) {
                Some(k) => State { keys: old(self)@.keys.update(k, false), ..old(self)@ },
                None => old(self)@,
            }),
    {
        if let Some(k) = map_key(key) {
            self.keys[k] = false;
        }
    }

    /// Read the two bytes at the program counter and split the word into its
    /// fields. The program counter is not advanced here; the cycle driver
    /// advances it explicitly, so that jumps are not clobbered.
    pub fn fetch_decode(&self) -> (o: Opcode)
        requires
            self.wf(),
            self@.pc as int + 1 < 4096,
        ensures
            o.wf(),
            o.instruction == fetch_spec(self@),
    {
        let a = self.memory[self.program_counter as usize];
        let b = self.memory[self.program_counter as usize + 1];
        let instruction: u16 = (a as u16) * 256 + (b as u16);
        decode(instruction)
    }

    /// 00E0: clear the framebuffer and mark it dirty.
    fn op_00e0(&mut self)
        requires
            old(self).wf(),
        ensures
            final(self)@ == step_clear(old(self)@),
    {
        let mut k: usize = 0;
        while k < 2048
            invariant
                k <= 2048,
                self.video_memory@.len() == 2048,
                (self@ == (State { video: self.video_memory@, ..old(self)@ })),
                forall|j: int| 0 <= j < k ==> self.video_memory@[j] == false,
                forall|j: int| k <= j < 2048 ==> self.video_memory@[j] == old(self)@.video[j],
            decreases 2048 - k,
        {
            self.video_memory[k] = false;
            k = k + 1;
        }
        self.update_display = true;
        proof {
            assert(self@.video =~= blank_video());
            assert(self@ =~= step_clear(old(self)@));
        }
    }

    /// 00EE: return from a subroutine; a fault on an empty stack.
    fn op_00ee(&mut self) -> (r: Result<(), Fault>)
        requires
            old(self).wf(),
        ensures
            (match step_ret(old(self)@) {
                Ok(s2) => r == Ok::<(), Fault>(()) && final(self)@ == s2,
                Err(f) => r == Err::<(), Fault>(f) && final(self)@ == old(self)@,
            }),
    {
        match self.stack.pop() {
            Some(addr) => {
                self.program_counter = addr;
                Ok(())
            },
            None => Err(Fault::StackUnderflow),
        }
    }

    /// 1nnn: jump.
    fn op_1nnn(&mut self, opcode: Opcode)
        requires
            old(self).wf(),
            opcode.wf(),
        ensures
            final(self)@ == step_jump(old(self)@, opcode.instruction),
    {
        self.program_counter = opcode.nnn;
    }

    /// 2nnn: call the subroutine at nnn.
    fn op_2nnn(&mut self, opcode: Opcode)
        requires
            old(self).wf(),
            opcode.wf(),
        ensures
            final(self)@ == step_call(old(self)@, opcode.instruction),
    {
        self.stack.push(self.program_counter);
        self.program_counter = opcode.nnn;
    }

    /// 3xkk: skip the next instruction when Vx equals the immediate.
    fn op_3xkk(&mut self, opcode: Opcode)
        requires
            old(self).wf(),
            opcode.wf(),
        ensures
            final(self)@ == skip_if(
                old(self)@,
                old(self)@.regs[nib_x(opcode.instruction)] == imm_nn(opcode.instruction),
            ),
    {
        if self.registers[opcode.x as usize] == opcode.nn {
            self.program_counter = self.program_counter.wrapping_add(2);
        }
    }

    /// 4xkk: skip when Vx differs from the immediate.
    fn op_4xkk(&mut self, opcode: Opcode)
        requires
            old(self).wf(),
            opcode.wf(),
        ensures
            final(self)@ == skip_if(
                old(self)@,
                old(self)@.regs[nib_x(opcode.instruction)] != imm_nn(opcode.instruction),
            ),
    {
        if self.registers[opcode.x as usize] != opcode.nn {
            self.program_counter = self.program_counter.wrapping_add(2);
        }
    }

    /// 5xy0: skip when Vx equals Vy.
    fn op_5xy0(&mut self, opcode: Opcode)
        requires
            old(self).wf(),
            opcode.wf(),
        ensures
            final(self)@ == skip_if(
                old(self)@,
                old(self)@.regs[nib_x(opcode.instruction)] == old(self)@.regs[nib_y(
                    opcode.instruction,
                )],
            ),
    {
        if self.registers[opcode.x as usize] == self.registers[opcode.y as usize] {
            self.program_counter = self.program_counter.wrapping_add(2);
        }
    }

    /// 9xy0: skip when Vx differs from Vy.
    fn op_9xy0(&mut self, opcode: Opcode)
        requires
            old(self).wf(),
            opcode.wf(),
        ensures
            final(self)@ == skip_if(
                old(self)@,
                old(self)@.regs[nib_x(opcode.instruction)] != old(self)@.regs[nib_y(
                    opcode.instruction,
                )],
            ),
    {
        if self.registers[opcode.x as usize] != self.registers[opcode.y as usize] {
            self.program_counter = self.program_counter.wrapping_add(2);
        }
    }

    /// 6xkk: set Vx to the immediate.
    fn op_6xkk(&mut self, opcode: Opcode)
        requires
            old(self).wf(),
            opcode.wf(),
        ensures
            final(self)@ == step_set_imm(old(self)@, opcode.instruction),
    {
        self.registers[opcode.x as usize] = opcode.nn;
    }

    /// 7xkk: add the immediate to Vx, wrapping; no flag is touched.
    fn op_7xkk(&mut self, opcode: Opcode)
        requires
            old(self).wf(),
            opcode.wf(),
        ensures
            final(self)@ == step_add_imm(old(self)@, opcode.instruction),
    {
        let x = opcode.x as usize;
        self.registers[x] = self.registers[x].wrapping_add(opcode.nn);
    }

    /// 8xy0: copy Vy into Vx.
    fn op_8xy0(&mut self, opcode: Opcode)
        requires
            old(self).wf(),
            opcode.wf(),
        ensures
            final(self)@ == step_copy(old(self)@, opcode.instruction),
    {
        self.registers[opcode.x as usize] = self.registers[opcode.y as usize];
    }

    /// 8xy1: Vx |= Vy; VF forced to zero.
    fn op_8xy1(&mut self, opcode: Opcode)
        requires
            old(self).wf(),
            opcode.wf(),
        ensures
            final(self)@ == step_or(old(self)@, opcode.instruction),
    {
        let x = opcode.x as usize;
        self.registers[x] = self.registers[x] | self.registers[opcode.y as usize];
        self.registers[0xF] = 0;
    }

    /// 8xy2: Vx &= Vy; VF forced to zero.
    fn op_8xy2(&mut self, opcode: Opcode)
        requires
            old(self).wf(),
            opcode.wf(),
        ensures
            final(self)@ == step_and(old(self)@, opcode.instruction),
    {
        let x = opcode.x as usize;
        self.registers[x] = self.registers[x] & self.registers[opcode.y as usize];
        self.registers[0xF] = 0;
    }

    /// 8xy3: Vx ^= Vy; VF forced to zero.
    fn op_8xy3(&mut self, opcode: Opcode)
        requires
            old(self).wf(),
            opcode.wf(),
        ensures
            final(self)@ == step_xor(old(self)@, opcode.instruction),
    {
        let x = opcode.x as usize;
        self.registers[x] = self.registers[x] ^ self.registers[opcode.y as usize];
        self.registers[0xF] = 0;
    }

    /// 8xy4: Vx += Vy wrapping; VF = 1 exactly on carry.
    fn op_8xy4(&mut self, opcode: Opcode)
        requires
            old(self).wf(),
            opcode.wf(),
        ensures
            final(self)@ == step_add(old(self)@, opcode.instruction),
    {
        let x = opcode.x as usize;
        let vx = self.registers[x];
        let vy = self.registers[opcode.y as usize];
        self.registers[x] = vx.wrapping_add(vy);
        self.registers[0xF] = if (vx as u16) + (vy as u16) > 255 {
            1
        } else {
            0
        };
    }

    /// 8xy5: Vx -= Vy wrapping; VF = 1 exactly when no borrow.
    fn op_8xy5(&mut self, opcode: Opcode)
        requires
            old(self).wf(),
            opcode.wf(),
        ensures
            final(self)@ == step_sub(old(self)@, opcode.instruction),
    {
        let x = opcode.x as usize;
        let vx = self.registers[x];
        let vy = self.registers[opcode.y as usize];
        self.registers[x] = vx.wrapping_sub(vy);
        self.registers[0xF] = if vx >= vy {
            1
        } else {
            0
        };
    }

    /// 8xy7: Vx = Vy - Vx wrapping; VF = 1 exactly when no borrow.
    fn op_8xy7(&mut self, opcode: Opcode)
        requires
            old(self).wf(),
            opcode.wf(),
        ensures
            final(self)@ == step_sub_rev(old(self)@, opcode.instruction),
    {
        let x = opcode.x as usize;
        let vx = self.registers[x];
        let vy = self.registers[opcode.y as usize];
        self.registers[x] = vy.wrapping_sub(vx);
        self.registers[0xF] = if vy >= vx {
            1
        } else {
            0
        };
    }

    /// 8xy6: VF = low bit of Vy, then Vx = Vy >> 1 (the Vy-source variant).
    fn op_8xy6(&mut self, opcode: Opcode)
        requires
            old(self).wf(),
            opcode.wf(),
        ensures
            final(self)@ == step_shr(old(self)@, opcode.instruction),
    {
        let vy = self.registers[opcode.y as usize];
        self.registers[0xF] = vy % 2;
        self.registers[opcode.x as usize] = vy / 2;
    }

    /// 8xyE: VF = high bit of Vy, then Vx = Vy << 1 wrapping.
    fn op_8xye(&mut self, opcode: Opcode)
        requires
            old(self).wf(),
            opcode.wf(),
        ensures
            final(self)@ == step_shl(old(self)@, opcode.instruction),
    {
        let vy = self.registers[opcode.y as usize];
        self.registers[0xF] = vy / 128;
        self.registers[opcode.x as usize] = vy.wrapping_mul(2);
    }

    /// Annn: set the index register.
    fn op_annn(&mut self, opcode: Opcode)
        requires
            old(self).wf(),
            opcode.wf(),
        ensures
            final(self)@ == step_set_index(old(self)@, opcode.instruction),
    {
        self.index_register = opcode.nnn;
    }

    /// Bnnn: jump to nnn + V0 (the legacy form).
    fn op_bnnn(&mut self, opcode: Opcode)
        requires
            old(self).wf(),
            opcode.wf(),
        ensures
            final(self)@ == step_jump_offset(old(self)@, opcode.instruction),
    {
        self.program_counter = opcode.nnn + (self.registers[0] as u16);
    }

    /// Cxkk: Vx = the supplied random byte masked with the immediate. The
    /// byte comes in as an argument so that the masking is proved for every
    /// value the generator may hand back.
    fn op_cxkk(&mut self, opcode: Opcode, random_byte: u8)
        requires
            old(self).wf(),
            opcode.wf(),
        ensures
            final(self)@ == step_random(old(self)@, opcode.instruction, random_byte),
    {
        self.registers[opcode.x as usize] = random_byte & opcode.nn;
    }

    /// Ex9E: skip when the key Vx names is pressed.
    fn op_ex9e(&mut self, opcode: Opcode) -> (r: Result<(), Fault>)
        requires
            old(self).wf(),
            opcode.wf(),
        ensures
            (match step_skip_key(old(self)@, opcode.instruction, true) {
                Ok(s2) => r == Ok::<(), Fault>(()) && final(self)@ == s2,
                Err(f) => r == Err::<(), Fault>(f) && final(self)@ == old(self)@,
            }),
    {
        let key = self.registers[opcode.x as usize];
        if key > 15 {
            return Err(Fault::OutOfBounds);
        }
        if self.keys[key as usize] {
            self.program_counter = self.program_counter.wrapping_add(2);
        }
        Ok(())
    }

    /// ExA1: skip when the key Vx names is not pressed.
    fn op_exa1(&mut self, opcode: Opcode) -> (r: Result<(), Fault>)
        requires
            old(self).wf(),
            opcode.wf(),
        ensures
            (match step_skip_key(old(self)@, opcode.instruction, false) {
                Ok(s2) => r == Ok::<(), Fault>(()) && final(self)@ == s2,
                Err(f) => r == Err::<(), Fault>(f) && final(self)@ == old(self)@,
            }),
    {
        let key = self.registers[opcode.x as usize];
        if key > 15 {
            return Err(Fault::OutOfBounds);
        }
        if !self.keys[key as usize] {
            self.program_counter = self.program_counter.wrapping_add(2);
        }
        Ok(())
    }

    /// Fx07: read the delay timer into Vx.
    fn op_fx07(&mut self, opcode: Opcode)
        requires
            old(self).wf(),
            opcode.wf(),
        ensures
            final(self)@ == step_read_delay(old(self)@, opcode.instruction),
    {
        self.registers[opcode.x as usize] = self.delay_timer;
    }

    /// Fx15: load the delay timer from Vx.
    fn op_fx15(&mut self, opcode: Opcode)
        requires
            old(self).wf(),
            opcode.wf(),
        ensures
            final(self)@ == step_set_delay(old(self)@, opcode.instruction),
    {
        self.delay_timer = self.registers[opcode.x as usize];
    }

    /// Fx18: load the sound timer from Vx.
    fn op_fx18(&mut self, opcode: Opcode)
        requires
            old(self).wf(),
            opcode.wf(),
        ensures
            final(self)@ == step_set_sound(old(self)@, opcode.instruction),
    {
        self.sound_timer = self.registers[opcode.x as usize];
    }

    /// Fx1E: I += Vx wrapping at 16 bits; VF = 1 exactly when the sum runs
    /// past the 12-bit address space.
    fn op_fx1e(&mut self, opcode: Opcode)
        requires
            old(self).wf(),
            opcode.wf(),
        ensures
            final(self)@ == step_add_index(old(self)@, opcode.instruction),
    {
        self.index_register = self.index_register.wrapping_add(
            self.registers[opcode.x as usize] as u16,
        );
        self.registers[0xF] = if self.index_register > 0x0FFF {
            1
        } else {
            0
        };
    }

    /// Dxyn: draw the n-row sprite at memory[I..I+n] at (Vx mod 64, Vy mod
    /// 32) by XOR; VF = 1 exactly when a lit pixel goes dark. The origin
    /// wraps; the sprite body clips at the right and bottom edges.
    #[verifier::rlimit(100)]
    fn op_dxyn(&mut self, opcode: Opcode) -> (r: Result<(), Fault>)
        requires
            old(self).wf(),
            opcode.wf(),
        ensures
            (match step_draw(old(self)@, opcode.instruction) {
                Ok(s2) => r == Ok::<(), Fault>(()) && final(self)@ == s2,
                Err(f) => r == Err::<(), Fault>(f) && final(self)@ == old(self)@,
            }),
    {
        let ghost pre = old(self)@;
        let ghost w = opcode.instruction;
        let n = opcode.n as usize;
        let i0 = self.index_register as usize;
        if i0 + n > 4096 {
            return Err(Fault::OutOfBounds);
        }
        self.update_display = true;
        let xo = (self.registers[opcode.x as usize] % 64) as usize;
        let yo = (self.registers[opcode.y as usize] % 32) as usize;
        let mut collided = false;
        let mut row: usize = 0;
        while row < n
            invariant
                pre == old(self)@,
                old(self).wf(),
                opcode.wf(),
                n == nib_n(w),
                i0 == pre.index as int,
                i0 + n <= 4096,
                xo == (pre.regs[nib_x(w)] as int) % 64,
                yo == (pre.regs[nib_y(w)] as int) % 32,
                0 <= xo < 64,
                0 <= yo < 32,
                row <= n,
                self.video_memory@.len() == 2048,
                (self@ == (State { video: self.video_memory@, update_display: true, ..pre })),
                forall|idx: int|
                    0 <= idx < 2048 ==> self.video_memory@[idx] == (if draw_processed(
                        xo as int,
                        yo as int,
                        8 * row,
                        idx,
                    ) {
                        pre.video[idx] != draw_bit(pre, xo as int, yo as int, idx)
                    } else {
                        pre.video[idx]
                    }),
                collided == hits_upto(pre, xo as int, yo as int, 8 * row),
            decreases n - row,
        {
            let sprite_row = self.memory[i0 + row];
            let mut col: usize = 0;
            while col < 8
                invariant
                    pre == old(self)@,
                    old(self).wf(),
                    opcode.wf(),
                    n == nib_n(w),
                    i0 == pre.index as int,
                    i0 + n <= 4096,
                    xo == (pre.regs[nib_x(w)] as int) % 64,
                    yo == (pre.regs[nib_y(w)] as int) % 32,
                    0 <= xo < 64,
                    0 <= yo < 32,
                    row < n,
                    col <= 8,
                    sprite_row == pre.memory[i0 + row],
                    self.video_memory@.len() == 2048,
                    (self@ == (State { video: self.video_memory@, update_display: true, ..pre })),
                    forall|idx: int|
                        0 <= idx < 2048 ==> self.video_memory@[idx] == (if draw_processed(
                            xo as int,
                            yo as int,
                            8 * row + col,
                            idx,
                        ) {
                            pre.video[idx] != draw_bit(pre, xo as int, yo as int, idx)
                        } else {
                            pre.video[idx]
                        }),
                    collided == hits_upto(pre, xo as int, yo as int, 8 * row + col),
                decreases 8 - col,
            {
                let r_scr = yo + row;
                let c_scr = xo + col;
                if r_scr <= 31 && c_scr <= 63 {
                    proof {
                        lemma_draw_plot(
                            pre,
                            xo as int,
                            yo as int,
                            n as int,
                            row as int,
                            col as int,
                            self.video_memory@,
                        );
                    }
                    let bit = sprite_row & (0x80u8 >> (col as u8)) != 0;
                    let vidx = r_scr * 64 + c_scr;
                    let cur = self.video_memory[vidx];
                    if cur && bit {
                        collided = true;
                    }
                    self.video_memory[vidx] = cur != bit;
                } else {
                    proof {
                        lemma_draw_clip(
                            xo as int,
                            yo as int,
                            row as int,
                            col as int,
                            8 * (row as int) + (col as int),
                            8 * (row as int) + (col as int) + 1,
                        );
                    }
                }
                col = col + 1;
            }
            row = row + 1;
        }
        self.registers[0xF] = if collided {
            1
        } else {
            0
        };
        proof {
            let xoi = xo as int;
            let yoi = yo as int;
            let ni = n as int;
            assert forall|idx: int| 0 <= idx < 2048 implies (draw_processed(xoi, yoi, 8 * ni, idx)
                == draw_covers(xoi, yoi, ni, idx)) by {
                lemma_cell_bounds(idx);
                if draw_covers(xoi, yoi, ni, idx) {
                    vstd::arithmetic::mul::lemma_mul_inequality(idx / 64 - yoi, ni - 1, 8);
                }
            }
            assert(self@.video =~= draw_video(pre, xoi, yoi, ni));
            lemma_hits_upto_collision(pre, xoi, yoi, ni);
            let s2 = step_draw(pre, w)->Ok_0;
            assert(self@ =~= s2);
        }
        Ok(())
    }

    /// Fx0A: wait for a key without blocking: when none is pressed, rewind
    /// the program counter one word so this instruction re-executes next
    /// cycle (the timers keep ticking); else Vx = the lowest pressed key.
    fn op_fx0a(&mut self, opcode: Opcode)
        requires
            old(self).wf(),
            opcode.wf(),
        ensures
            final(self)@ == step_wait_key(old(self)@, opcode.instruction),
    {
        let mut k: usize = 0;
        while k < 16
            invariant
                old(self).wf(),
                opcode.wf(),
                k <= 16,
                self == old(self),
                lowest_key(self.keys@) == lowest_key_from(self.keys@, k as int),
                forall|j: int| 0 <= j < k ==> self.keys@[j] == false,
            decreases 16 - k,
        {
            if self.keys[k] {
                proof {
                    assert(lowest_key(self.keys@) == k as int);
                    assert(any_key(self.keys@));
                }
                self.registers[opcode.x as usize] = k as u8;
                return ;
            }
            k = k + 1;
        }
        proof {
            assert(lowest_key(self.keys@) == 16);
            assert(!any_key(self.keys@));
        }
        self.program_counter = self.program_counter.wrapping_sub(2);
    }

    /// Fx33: store the decimal digits of Vx at I, I+1, I+2.
    fn op_fx33(&mut self, opcode: Opcode) -> (r: Result<(), Fault>)
        requires
            old(self).wf(),
            opcode.wf(),
        ensures
            (match step_bcd(old(self)@, opcode.instruction) {
                Ok(s2) => r == Ok::<(), Fault>(()) && final(self)@ == s2,
                Err(f) => r == Err::<(), Fault>(f) && final(self)@ == old(self)@,
            }),
    {
        if self.index_register > 4093 {
            return Err(Fault::OutOfBounds);
        }
        let i0 = self.index_register as usize;
        let value = self.registers[opcode.x as usize];
        self.memory[i0 + 2] = value % 10;
        self.memory[i0 + 1] = (value / 10) % 10;
        self.memory[i0] = value / 100;
        proof {
            let s2 = step_bcd(old(self)@, opcode.instruction)->Ok_0;
            assert(self@.memory =~= s2.memory);
            assert(self@ =~= s2);
        }
        Ok(())
    }

    /// Fx55: store V0..Vx to memory at I; I moves past the stored block.
    fn op_fx55(&mut self, opcode: Opcode) -> (r: Result<(), Fault>)
        requires
            old(self).wf(),
            opcode.wf(),
        ensures
            (match step_store(old(self)@, opcode.instruction) {
                Ok(s2) => r == Ok::<(), Fault>(()) && final(self)@ == s2,
                Err(f) => r == Err::<(), Fault>(f) && final(self)@ == old(self)@,
            }),
    {
        let x = opcode.x as usize;
        let i0 = self.index_register as usize;
        if i0 + x > 4095 {
            return Err(Fault::OutOfBounds);
        }
        let mut k: usize = 0;
        while k <= x
            invariant
                old(self).wf(),
                opcode.wf(),
                x == nib_x(opcode.instruction),
                i0 == old(self)@.index as int,
                i0 + x <= 4095,
                k <= x + 1,
                self.memory@.len() == 4096,
                (self@ == (State { memory: self.memory@, ..old(self)@ })),
                forall|j: int| i0 <= j < i0 + k ==> self.memory@[j] == old(self)@.regs[j - i0],
                forall|j: int|
                    0 <= j < 4096 && !(i0 <= j < i0 + k) ==> self.memory@[j] == old(
                        self,
                    )@.memory[j],
            decreases x + 1 - k,
        {
            self.memory[i0 + k] = self.registers[k];
            k = k + 1;
        }
        self.index_register = self.index_register.wrapping_add(opcode.x + 1);
        proof {
            let s2 = step_store(old(self)@, opcode.instruction)->Ok_0;
            assert(self@.memory =~= s2.memory);
            assert(self@ =~= s2);
        }
        Ok(())
    }

    /// Fx65: load V0..Vx from memory at I; I moves past the loaded block.
    fn op_fx65(&mut self, opcode: Opcode) -> (r: Result<(), Fault>)
        requires
            old(self).wf(),
            opcode.wf(),
        ensures
            (match step_load(old(self)@, opcode.instruction) {
                Ok(s2) => r == Ok::<(), Fault>(()) && final(self)@ == s2,
                Err(f) => r == Err::<(), Fault>(f) && final(self)@ == old(self)@,
            }),
    {
        let x = opcode.x as usize;
        let i0 = self.index_register as usize;
        if i0 + x > 4095 {
            return Err(Fault::OutOfBounds);
        }
        let mut k: usize = 0;
        while k <= x
            invariant
                old(self).wf(),
                opcode.wf(),
                x == nib_x(opcode.instruction),
                i0 == old(self)@.index as int,
                i0 + x <= 4095,
                k <= x + 1,
                self.registers@.len() == 16,
                (self@ == (State { regs: self.registers@, ..old(self)@ })),
                forall|j: int| 0 <= j < k ==> self.registers@[j] == old(self)@.memory[i0 + j],
                forall|j: int| k <= j < 16 ==> self.registers@[j] == old(self)@.regs[j],
            decreases x + 1 - k,
        {
            self.registers[k] = self.memory[i0 + k];
            k = k + 1;
        }
        self.index_register = self.index_register.wrapping_add(opcode.x + 1);
        proof {
            let s2 = step_load(old(self)@, opcode.instruction)->Ok_0;
            assert(self@.regs =~= s2.regs);
            assert(self@ =~= s2);
        }
        Ok(())
    }

    /// Fx29: point the index register at the font glyph for digit Vx.
    fn op_fx29(&mut self, opcode: Opcode)
        requires
            old(self).wf(),
            opcode.wf(),
        ensures
            final(self)@ == step_font(old(self)@, opcode.instruction),
    {
        let digit = self.registers[opcode.x as usize] as u16;
        self.index_register = 0x50 + digit * 5;
    }

    /// Dispatch one decoded instruction. The random byte feeds Cxkk alone and
    /// comes in as an argument, so the dispatch is proved for every value the
    /// generator may hand back. On a fault the state is untouched.
    #[verifier::rlimit(100)]
    pub fn execute(&mut self, opcode: Opcode, random_byte: u8) -> (r: Result<(), Fault>)
        requires
            old(self).wf(),
            opcode.wf(),
        ensures
            final(self).wf(),
            step_result(old(self)@, final(self)@, opcode.instruction, random_byte, r),
    {
        match opcode.i {
            0x0 => match opcode.nn {
                0xE0 => {
                    self.op_00e0();
                    Ok(())
                },
                0xEE => self.op_00ee(),
                _ => Err(Fault::UnknownInstruction(opcode.instruction)),
            },
            0x1 => {
                self.op_1nnn(opcode);
                Ok(())
            },
            0x2 => {
                self.op_2nnn(opcode);
                Ok(())
            },
            0x3 => {
                self.op_3xkk(opcode);
                Ok(())
            },
            0x4 => {
                self.op_4xkk(opcode);
                Ok(())
            },
            0x5 => {
                self.op_5xy0(opcode);
                Ok(())
            },
            0x6 => {
                self.op_6xkk(opcode);
                Ok(())
            },
            0x7 => {
                self.op_7xkk(opcode);
                Ok(())
            },
            0x8 => match opcode.n {
                0x0 => {
                    self.op_8xy0(opcode);
                    Ok(())
                },
                0x1 => {
                    self.op_8xy1(opcode);
                    Ok(())
                },
                0x2 => {
                    self.op_8xy2(opcode);
                    Ok(())
                },
                0x3 => {
                    self.op_8xy3(opcode);
                    Ok(())
                },
                0x4 => {
                    self.op_8xy4(opcode);
                    Ok(())
                },
                0x5 => {
                    self.op_8xy5(opcode);
                    Ok(())
                },
                0x6 => {
                    self.op_8xy6(opcode);
                    Ok(())
                },
                0x7 => {
                    self.op_8xy7(opcode);
                    Ok(())
                },
                0xE => {
                    self.op_8xye(opcode);
                    Ok(())
                },
                _ => Err(Fault::UnknownInstruction(opcode.instruction)),
            },
            0x9 => {
                self.op_9xy0(opcode);
                Ok(())
            },
            0xA => {
                self.op_annn(opcode);
                Ok(())
            },
            0xB => {
                self.op_bnnn(opcode);
                Ok(())
            },
            0xC => {
                self.op_cxkk(opcode, random_byte);
                Ok(())
            },
            0xD => self.op_dxyn(opcode),
            0xE => match opcode.nn {
                0x9E => self.op_ex9e(opcode),
                0xA1 => self.op_exa1(opcode),
                _ => Err(Fault::UnknownInstruction(opcode.instruction)),
            },
            0xF => match opcode.nn {
                0x07 => {
                    self.op_fx07(opcode);
                    Ok(())
                },
                0x0A => {
                    self.op_fx0a(opcode);
                    Ok(())
                },
                0x15 => {
                    self.op_fx15(opcode);
                    Ok(())
                },
                0x18 => {
                    self.op_fx18(opcode);
                    Ok(())
                },
                0x1E => {
                    self.op_fx1e(opcode);
                    Ok(())
                },
                0x29 => {
                    self.op_fx29(opcode);
                    Ok(())
                },
                0x33 => self.op_fx33(opcode),
                0x55 => self.op_fx55(opcode),
                0x65 => self.op_fx65(opcode),
                _ => Err(Fault::UnknownInstruction(opcode.instruction)),
            },
            _ => {
                proof {
                    assert((opcode.instruction as int) / 0x1000 < 16);
                    assert(false);
                }
                Err(Fault::OutOfBounds)
            },
        }
    }

    /// One cycle: fetch and decode the word at the program counter, take a
    /// 60 Hz timer tick when one is due, advance the program counter one
    /// word, then execute. Whether a tick fell and which random byte was
    /// drawn depend on the clock and the generator, so the contract promises
    /// that the outcome is the model's step for some such pair.
    pub fn cycle(&mut self) -> (r: Result<(), Fault>)
        requires
            old(self).wf(),
        ensures
            final(self).wf(),
            old(self)@.pc as int + 1 >= 4096 ==> r == Err::<(), Fault>(Fault::OutOfBounds)
                && final(self)@ == old(self)@,
            old(self)@.pc as int + 1 < 4096 ==> exists|ticked: bool, rb: u8|
                cycle_post(old(self)@, final(self)@, r, ticked, rb),
    {
        if self.program_counter >= 4095 {
            return Err(Fault::OutOfBounds);
        }
        let opcode = self.fetch_decode();
        self.decrement_timers();
        let ghost mid = self@;
        self.program_counter = self.program_counter.wrapping_add(2);
        let rb = random_byte();
        let r = self.execute(opcode, rb);
        proof {
            let pre = old(self)@;
            if mid == tick_state(pre) {
                assert(cycle_post(pre, self@, r, true, rb));
            } else {
                assert(cycle_post(pre, self@, r, false, rb));
            }
        }
        r
    }
}

} // verus!
