//! The mathematical model of the machine: a ghost mirror of the CPU state and
//! a step function that gives the meaning of every instruction. The executable
//! interpreter in `virtual_machine` is proved to follow `exec_step`.

use vstd::prelude::*;

verus! {

/// A fatal condition: the machine halts and reports it to the host.
/// Arithmetic overflow, shifts and index-register overflow are defined,
/// flagged behaviours, never faults.
#[derive(Clone, Copy, Debug, PartialEq, Eq, Structural)]
pub enum Fault {
    /// A program longer than 3584 bytes was handed to `load_program`.
    ProgramTooLarge,
    /// The fetched word matches no instruction; carries the word itself.
    UnknownInstruction(u16),
    /// A return was executed with an empty call stack.
    StackUnderflow,
    /// A memory or keypad access fell outside the machine (a malformed
    /// program: the program counter or index register ran out of range).
    OutOfBounds,
}

impl Fault {
    /// A short description of the condition, for the host to report.
    pub fn message(&self) -> &'static str {
        match self {
            Fault::ProgramTooLarge => "program too large: at most 3584 bytes fit at 0x200",
            Fault::UnknownInstruction(_) => "unknown instruction",
            Fault::StackUnderflow => "stack underflow: return with an empty call stack",
            Fault::OutOfBounds => "memory access out of range",
        }
    }
}

/// The machine state as the contracts see it: every field a plain value or a
/// sequence. The wall-clock tick source is deliberately not part of the model;
/// timer decrements enter the step relation as an explicit boolean.
#[verifier::ext_equal]
pub ghost struct State {
    pub memory: Seq<u8>,
    pub video: Seq<bool>,
    pub pc: u16,
    pub index: u16,
    pub stack: Seq<u16>,
    pub delay: u8,
    pub sound: u8,
    pub regs: Seq<u8>,
    pub keys: Seq<bool>,
    pub update_display: bool,
}

impl State {
    pub open spec fn wf(self) -> bool {
        &&& self.memory.len() == 4096
        &&& self.video.len() == 2048
        &&& self.regs.len() == 16
        &&& self.keys.len() == 16
    }
}

// ---------------------------------------------------------------------------
// Decoding: the nibble and immediate fields of a 16-bit instruction word.
// ---------------------------------------------------------------------------

/// Top nibble: the opcode family.
pub open spec fn nib_i(w: u16) -> int {
    (w as int) / 0x1000
}

/// Second nibble: the first register index.
pub open spec fn nib_x(w: u16) -> int {
    ((w as int) / 0x100) % 16
}

/// Third nibble: the second register index.
pub open spec fn nib_y(w: u16) -> int {
    ((w as int) / 16) % 16
}

/// Bottom nibble: a small immediate.
pub open spec fn nib_n(w: u16) -> int {
    (w as int) % 16
}

/// Bottom byte: an immediate.
pub open spec fn imm_nn(w: u16) -> u8 {
    ((w as int) % 256) as u8
}

/// Bottom 12 bits: an address immediate.
pub open spec fn addr_nnn(w: u16) -> u16 {
    ((w as int) % 0x1000) as u16
}

/// The word fetched at the program counter: two consecutive bytes, big-endian.
pub open spec fn fetch_spec(s: State) -> u16 {
    ((s.memory[s.pc as int] as int) * 256 + (s.memory[s.pc as int + 1] as int)) as u16
}

// ---------------------------------------------------------------------------
// The built-in font: 16 glyphs of 5 rows each, installed at 0x050.
// ---------------------------------------------------------------------------

pub open spec fn font_seq() -> Seq<u8> {
    seq![
        0xF0u8, 0x90, 0x90, 0x90, 0xF0, // 0
        0x20, 0x60, 0x20, 0x20, 0x70, // 1
        0xF0, 0x10, 0xF0, 0x80, 0xF0, // 2
        0xF0, 0x10, 0xF0, 0x10, 0xF0, // 3
        0x90, 0x90, 0xF0, 0x10, 0x10, // 4
        0xF0, 0x80, 0xF0, 0x10, 0xF0, // 5
        0xF0, 0x80, 0xF0, 0x90, 0xF0, // 6
        0xF0, 0x10, 0x20, 0x40, 0x40, // 7
        0xF0, 0x90, 0xF0, 0x90, 0xF0, // 8
        0xF0, 0x90, 0xF0, 0x10, 0xF0, // 9
        0xF0, 0x90, 0xF0, 0x90, 0x90, // A
        0xE0, 0x90, 0xE0, 0x90, 0xE0, // B
        0xF0, 0x80, 0x80, 0x80, 0xF0, // C
        0xE0, 0x90, 0x90, 0x90, 0xE0, // D
        0xF0, 0x80, 0xF0, 0x80, 0xF0, // E
        0xF0, 0x80, 0xF0, 0x80, 0x80, // F
    ]
}

/// An all-dark framebuffer.
pub open spec fn blank_video() -> Seq<bool> {
    Seq::new(2048, |k: int| false)
}

/// The state of a freshly built machine: memory zeroed but for the font,
/// program counter at 0x200, everything else cleared.
pub open spec fn init_state() -> State {
    State {
        memory: Seq::new(4096, |j: int| if 0x50 <= j < 0xA0 { font_seq()[j - 0x50] } else { 0u8 }),
        video: blank_video(),
        pc: 0x200,
        index: 0,
        stack: Seq::empty(),
        delay: 0,
        sound: 0,
        regs: Seq::new(16, |j: int| 0u8),
        keys: Seq::new(16, |j: int| false),
        update_display: false,
    }
}

/// The state after a program is placed verbatim at 0x200: the program counter
/// returns to 0x200; registers, stack and timers are deliberately kept.
pub open spec fn load_state(s: State, p: Seq<u8>) -> State {
    State {
        memory: Seq::new(
            4096,
            |j: int| if 0x200 <= j < 0x200 + p.len() { p[j - 0x200] } else { s.memory[j] },
        ),
        pc: 0x200,
        ..s
    }
}

// ---------------------------------------------------------------------------
// Timers: each ticks down toward zero at 60 Hz, saturating.
// ---------------------------------------------------------------------------

/// One 60 Hz tick of a single timer: down by one, never below zero.
pub open spec fn tick(t: u8) -> u8 {
    if t > 0 { (t - 1) as u8 } else { 0 }
}

/// One 60 Hz tick of both timers.
pub open spec fn tick_state(s: State) -> State {
    State { delay: tick(s.delay), sound: tick(s.sound), ..s }
}

// ---------------------------------------------------------------------------
// The keypad: Fx0A reads the lowest-index pressed key.
// ---------------------------------------------------------------------------

/// The lowest pressed key index at or above `i`; 16 when none is pressed.
pub open spec fn lowest_key_from(keys: Seq<bool>, i: int) -> int
    decreases 16 - i,
{
    if i >= 16 {
        16
    } else if keys[i] {
        i
    } else {
        lowest_key_from(keys, i + 1)
    }
}

/// The lowest pressed key index; 16 when none is pressed.
pub open spec fn lowest_key(keys: Seq<bool>) -> int {
    lowest_key_from(keys, 0)
}

pub open spec fn any_key(keys: Seq<bool>) -> bool {
    lowest_key(keys) < 16
}

/// The fixed physical-key-to-hex-key table, over the host's key characters.
/// Keys outside the table are ignored.
pub open spec fn key_index(key: char) -> Option<int> {
    if key == '1' { Some(0x1int) }
    else if key == '2' { Some(0x2int) }
    else if key == '3' { Some(0x3int) }
    else if key == '4' { Some(0xCint) }
    else if key == 'q' { Some(0x4int) }
    else if key == 'w' { Some(0x5int) }
    else if key == 'e' { Some(0x6int) }
    else if key == 'r' { Some(0xDint) }
    else if key == 'a' { Some(0x7int) }
    else if key == 's' { Some(0x8int) }
    else if key == 'd' { Some(0x9int) }
    else if key == 'f' { Some(0xEint) }
    else if key == 'z' { Some(0xAint) }
    else if key == 'x' { Some(0x0int) }
    else if key == 'c' { Some(0xBint) }
    else if key == 'v' { Some(0xFint) }
    else { None }
}

// ---------------------------------------------------------------------------
// Sprite drawing (Dxyn): XOR of an n-row, 8-column sprite onto the grid.
// The starting position wraps (modulo 64 and 32); the sprite body clips.
// ---------------------------------------------------------------------------

/// Whether bit `j` (most significant first) of a sprite row is set.
pub open spec fn sprite_pixel(row: u8, j: u8) -> bool {
    row & (0x80u8 >> j) != 0
}

/// Whether the sprite at origin (xo, yo) with n rows covers the cell `idx`.
/// Cells are row-major: row = idx / 64, column = idx % 64. Sprite pixels that
/// would fall beyond column 63 or row 31 cover no cell: they are clipped, not
/// wrapped.
pub open spec fn draw_covers(xo: int, yo: int, n: int, idx: int) -> bool {
    let r = idx / 64;
    let c = idx % 64;
    yo <= r < yo + n && xo <= c < xo + 8
}

/// The sprite bit that lands on cell `idx` (meaningful only where the sprite
/// covers the cell): row `r - yo` of the sprite read from memory at the index
/// register, bit `c - xo` from the most significant end.
pub open spec fn draw_bit(s: State, xo: int, yo: int, idx: int) -> bool {
    let r = idx / 64;
    let c = idx % 64;
    sprite_pixel(s.memory[s.index + (r - yo)], (c - xo) as u8)
}

/// The new value of cell `idx`: XOR with the sprite bit where covered,
/// unchanged elsewhere.
pub open spec fn draw_cell(s: State, xo: int, yo: int, n: int, idx: int) -> bool {
    if draw_covers(xo, yo, n, idx) {
        s.video[idx] != draw_bit(s, xo, yo, idx)
    } else {
        s.video[idx]
    }
}

/// The whole framebuffer after the draw.
pub open spec fn draw_video(s: State, xo: int, yo: int, n: int) -> Seq<bool> {
    Seq::new(2048, |idx: int| draw_cell(s, xo, yo, n, idx))
}

/// The cells already written when the row-major sprite scan has handled `k`
/// sprite pixels (rows of 8 bits, most significant first).
pub open spec fn draw_processed(xo: int, yo: int, k: int, idx: int) -> bool {
    let r = idx / 64;
    let c = idx % 64;
    xo <= c < xo + 8 && yo <= r && (r - yo) * 8 + (c - xo) < k
}

/// Row and column of the cell a sprite pixel lands on.
pub proof fn lemma_cell_index(r: int, c: int)
    requires
        0 <= r < 32,
        0 <= c < 64,
    ensures
        (r * 64 + c) / 64 == r,
        (r * 64 + c) % 64 == c,
{
    vstd::arithmetic::div_mod::lemma_fundamental_div_mod_converse(r * 64 + c, 64, r, c);
}

/// Every cell index splits uniquely into a row and a column.
pub proof fn lemma_cell_bounds(idx: int)
    requires
        0 <= idx < 2048,
    ensures
        0 <= idx / 64 < 32,
        0 <= idx % 64 < 64,
        idx == 64 * (idx / 64) + idx % 64,
{
    vstd::arithmetic::div_mod::lemma_fundamental_div_mod(idx, 64);
    vstd::arithmetic::div_mod::lemma_mod_bound(idx, 64);
}

/// Whether the draw turns the lit cell `idx` off (a collision at `idx`).
pub open spec fn draw_hit(s: State, xo: int, yo: int, n: int, idx: int) -> bool {
    &&& draw_covers(xo, yo, n, idx)
    &&& s.video[idx]
    &&& draw_bit(s, xo, yo, idx)
}

/// Whether the draw turns any lit cell off; VF reports exactly this.
pub open spec fn draw_collision(s: State, xo: int, yo: int, n: int) -> bool {
    exists|idx: int| 0 <= idx < 2048 && draw_hit(s, xo, yo, n, idx)
}

// ---------------------------------------------------------------------------
// The sprite scan, pixel by pixel: sprite pixel `k` (rows of 8, most
// significant bit first) lands on one cell, or is clipped. These drive the
// interpreter's loop proof and connect it to the cell-wise account above.
// ---------------------------------------------------------------------------

/// The cell sprite pixel `k` lands on.
pub open spec fn pixel_cell(xo: int, yo: int, k: int) -> int {
    (yo + k / 8) * 64 + (xo + k % 8)
}

/// Whether sprite pixel `k` falls inside the grid (not clipped).
pub open spec fn pixel_visible(xo: int, yo: int, k: int) -> bool {
    yo + k / 8 < 32 && xo + k % 8 < 64
}

/// Whether sprite pixel `k` turns a lit cell off.
pub open spec fn pixel_hit(s: State, xo: int, yo: int, k: int) -> bool {
    pixel_visible(xo, yo, k) && s.video[pixel_cell(xo, yo, k)] && draw_bit(
        s,
        xo,
        yo,
        pixel_cell(xo, yo, k),
    )
}

/// Whether any of the first `k` sprite pixels turns a lit cell off.
pub open spec fn hits_upto(s: State, xo: int, yo: int, k: int) -> bool
    decreases k,
{
    if k <= 0 {
        false
    } else {
        hits_upto(s, xo, yo, k - 1) || pixel_hit(s, xo, yo, k - 1)
    }
}

/// One plotted pixel: where pixel (row, col) is visible, its cell is fresh
/// (not yet written by the scan), carries the sprite bit of row `row`, bit
/// `col`, and writing it extends the scan's partial picture by one pixel.
pub proof fn lemma_draw_plot(s: State, xo: int, yo: int, n: int, row: int, col: int, vid: Seq<bool>)
    requires
        s.wf(),
        0 <= xo < 64,
        0 <= yo < 32,
        0 <= row < n,
        n <= 16,
        0 <= col < 8,
        yo + row < 32,
        xo + col < 64,
        vid.len() == 2048,
        forall|idx: int|
            0 <= idx < 2048 ==> vid[idx] == (if draw_processed(xo, yo, 8 * row + col, idx) {
                s.video[idx] != draw_bit(s, xo, yo, idx)
            } else {
                s.video[idx]
            }),
    ensures
        ({
            let k = 8 * row + col;
            let vidx = (yo + row) * 64 + (xo + col);
            &&& 0 <= vidx < 2048
            &&& draw_bit(s, xo, yo, vidx) == sprite_pixel(s.memory[s.index + row], col as u8)
            &&& vid[vidx] == s.video[vidx]
            &&& pixel_cell(xo, yo, k) == vidx
            &&& pixel_visible(xo, yo, k)
            &&& pixel_hit(s, xo, yo, k) == (vid[vidx] && draw_bit(s, xo, yo, vidx))
            &&& forall|idx: int|
                0 <= idx < 2048 ==> vid.update(vidx, vid[vidx] != draw_bit(s, xo, yo, vidx))[idx]
                    == (if draw_processed(xo, yo, k + 1, idx) {
                    s.video[idx] != draw_bit(s, xo, yo, idx)
                } else {
                    s.video[idx]
                })
        }),
{
    let k = 8 * row + col;
    let vidx = (yo + row) * 64 + (xo + col);
    lemma_cell_index(yo + row, xo + col);
    vstd::arithmetic::div_mod::lemma_fundamental_div_mod_converse(k, 8, row, col);
    assert(!draw_processed(xo, yo, k, vidx));
    assert(draw_processed(xo, yo, k + 1, vidx));
    assert forall|idx: int| 0 <= idx < 2048 && idx != vidx implies draw_processed(
        xo,
        yo,
        k + 1,
        idx,
    ) == draw_processed(xo, yo, k, idx) by {
        lemma_cell_bounds(idx);
        if draw_processed(xo, yo, k + 1, idx) && !draw_processed(xo, yo, k, idx) {
            vstd::arithmetic::div_mod::lemma_fundamental_div_mod_converse(
                k,
                8,
                idx / 64 - yo,
                idx % 64 - xo,
            );
        }
    }
}

/// One clipped pixel: where pixel (row, col) falls off the grid it writes no
/// cell and hits nothing; the scan's partial picture is unchanged.
pub proof fn lemma_draw_clip(xo: int, yo: int, row: int, col: int, k: int, k2: int)
    requires
        0 <= xo < 64,
        0 <= yo < 32,
        0 <= row,
        0 <= col < 8,
        yo + row > 31 || xo + col > 63,
        k == 8 * row + col,
        k2 == k + 1,
    ensures
        forall|idx: int|
            0 <= idx < 2048 ==> draw_processed(xo, yo, k2, idx) == draw_processed(xo, yo, k, idx),
        !pixel_visible(xo, yo, k),
{
    vstd::arithmetic::div_mod::lemma_fundamental_div_mod_converse(k, 8, row, col);
    assert forall|idx: int| 0 <= idx < 2048 implies draw_processed(xo, yo, k + 1, idx)
        == draw_processed(xo, yo, k, idx) by {
        lemma_cell_bounds(idx);
        if draw_processed(xo, yo, k + 1, idx) && !draw_processed(xo, yo, k, idx) {
            vstd::arithmetic::div_mod::lemma_fundamental_div_mod_converse(
                k,
                8,
                idx / 64 - yo,
                idx % 64 - xo,
            );
            assert(idx / 64 == yo + row && idx % 64 == xo + col);
            assert(false);
        }
    }
}

/// The scan that has seen its first `k` pixels has hit a lit cell exactly
/// when one of those pixels hits.
proof fn lemma_hits_upto_exists(s: State, xo: int, yo: int, k: int)
    requires
        k >= 0,
    ensures
        hits_upto(s, xo, yo, k) == exists|j: int| 0 <= j < k && pixel_hit(s, xo, yo, j),
    decreases k,
{
    if k > 0 {
        lemma_hits_upto_exists(s, xo, yo, k - 1);
        if hits_upto(s, xo, yo, k) {
            if hits_upto(s, xo, yo, k - 1) {
                let j = choose|j: int| 0 <= j < k - 1 && pixel_hit(s, xo, yo, j);
                assert(0 <= j < k && pixel_hit(s, xo, yo, j));
            } else {
                assert(pixel_hit(s, xo, yo, k - 1));
            }
        }
    }
}

/// The whole scan hits exactly when the draw turns some lit cell off: the
/// pixel-by-pixel account agrees with the cell-wise one.
pub proof fn lemma_hits_upto_collision(s: State, xo: int, yo: int, n: int)
    requires
        s.wf(),
        0 <= xo < 64,
        0 <= yo < 32,
        0 <= n <= 16,
    ensures
        hits_upto(s, xo, yo, 8 * n) == draw_collision(s, xo, yo, n),
{
    lemma_hits_upto_exists(s, xo, yo, 8 * n);
    if hits_upto(s, xo, yo, 8 * n) {
        let j = choose|j: int| 0 <= j < 8 * n && pixel_hit(s, xo, yo, j);
        vstd::arithmetic::div_mod::lemma_fundamental_div_mod(j, 8);
        vstd::arithmetic::div_mod::lemma_mod_bound(j, 8);
        lemma_cell_index(yo + j / 8, xo + j % 8);
        let idx = pixel_cell(xo, yo, j);
        assert(draw_hit(s, xo, yo, n, idx));
        assert(draw_collision(s, xo, yo, n));
    }
    if draw_collision(s, xo, yo, n) {
        let idx = choose|idx: int| 0 <= idx < 2048 && draw_hit(s, xo, yo, n, idx);
        lemma_cell_bounds(idx);
        let r = idx / 64;
        let c = idx % 64;
        let j = (r - yo) * 8 + (c - xo);
        vstd::arithmetic::div_mod::lemma_fundamental_div_mod_converse(j, 8, r - yo, c - xo);
        assert(pixel_cell(xo, yo, j) == idx);
        assert(0 <= j < 8 * n && pixel_hit(s, xo, yo, j));
        assert(hits_upto(s, xo, yo, 8 * n));
    }
}

// ---------------------------------------------------------------------------
// The meaning of each instruction, one spec function per operation.
// `s` is the state after the program counter has advanced past the word.
// ---------------------------------------------------------------------------

/// The state with the program counter moved past one further word (a skip).
pub open spec fn skip_if(s: State, cond: bool) -> State {
    if cond {
        State { pc: s.pc.wrapping_add(2), ..s }
    } else {
        s
    }
}

/// 00E0: clear the framebuffer and mark it dirty.
pub open spec fn step_clear(s: State) -> State {
    State { video: blank_video(), update_display: true, ..s }
}

/// 00EE: return: pop the program counter; a fault on an empty stack.
pub open spec fn step_ret(s: State) -> Result<State, Fault> {
    if s.stack.len() == 0 {
        Err(Fault::StackUnderflow)
    } else {
        Ok(State { pc: s.stack.last(), stack: s.stack.drop_last(), ..s })
    }
}

/// 1nnn: unconditional jump.
pub open spec fn step_jump(s: State, w: u16) -> State {
    State { pc: addr_nnn(w), ..s }
}

/// 2nnn: call: push the (already advanced) program counter, then jump.
pub open spec fn step_call(s: State, w: u16) -> State {
    State { stack: s.stack.push(s.pc), pc: addr_nnn(w), ..s }
}

/// 6xkk: set a register to an immediate.
pub open spec fn step_set_imm(s: State, w: u16) -> State {
    State { regs: s.regs.update(nib_x(w), imm_nn(w)), ..s }
}

/// 7xkk: add an immediate, wrapping at 256; no flag is touched.
pub open spec fn step_add_imm(s: State, w: u16) -> State {
    State { regs: s.regs.update(nib_x(w), s.regs[nib_x(w)].wrapping_add(imm_nn(w))), ..s }
}

/// 8xy0: copy Vy into Vx.
pub open spec fn step_copy(s: State, w: u16) -> State {
    State { regs: s.regs.update(nib_x(w), s.regs[nib_y(w)]), ..s }
}

/// 8xy1/8xy2/8xy3: bitwise OR/AND/XOR into Vx; VF is forced to zero.
pub open spec fn step_or(s: State, w: u16) -> State {
    State { regs: s.regs.update(nib_x(w), s.regs[nib_x(w)] | s.regs[nib_y(w)]).update(0xF, 0u8), ..s }
}

pub open spec fn step_and(s: State, w: u16) -> State {
    State { regs: s.regs.update(nib_x(w), s.regs[nib_x(w)] & s.regs[nib_y(w)]).update(0xF, 0u8), ..s }
}

pub open spec fn step_xor(s: State, w: u16) -> State {
    State { regs: s.regs.update(nib_x(w), s.regs[nib_x(w)] ^ s.regs[nib_y(w)]).update(0xF, 0u8), ..s }
}

/// 8xy4: Vx = Vx + Vy wrapping; VF = 1 exactly on carry. The flag write comes
/// second, so with x = F it wins.
pub open spec fn step_add(s: State, w: u16) -> State {
    let vx = s.regs[nib_x(w)];
    let vy = s.regs[nib_y(w)];
    State {
        regs: s.regs.update(nib_x(w), vx.wrapping_add(vy)).update(
            0xF,
            if vx + vy > 255 { 1u8 } else { 0u8 },
        ),
        ..s
    }
}

/// 8xy5: Vx = Vx - Vy wrapping; VF = 1 exactly when no borrow (Vx >= Vy).
pub open spec fn step_sub(s: State, w: u16) -> State {
    let vx = s.regs[nib_x(w)];
    let vy = s.regs[nib_y(w)];
    State {
        regs: s.regs.update(nib_x(w), vx.wrapping_sub(vy)).update(
            0xF,
            if vx >= vy { 1u8 } else { 0u8 },
        ),
        ..s
    }
}

/// 8xy7: Vx = Vy - Vx wrapping; VF = 1 exactly when no borrow (Vy >= Vx).
pub open spec fn step_sub_rev(s: State, w: u16) -> State {
    let vx = s.regs[nib_x(w)];
    let vy = s.regs[nib_y(w)];
    State {
        regs: s.regs.update(nib_x(w), vy.wrapping_sub(vx)).update(
            0xF,
            if vy >= vx { 1u8 } else { 0u8 },
        ),
        ..s
    }
}

/// 8xy6: VF = low bit of Vy, then Vx = Vy shifted right once (the Vy-source
/// variant). The register write comes second, so with x = F it wins.
pub open spec fn step_shr(s: State, w: u16) -> State {
    let vy = s.regs[nib_y(w)];
    State {
        regs: s.regs.update(0xF, (vy % 2) as u8).update(nib_x(w), (vy / 2) as u8),
        ..s
    }
}

/// 8xyE: VF = high bit of Vy, then Vx = Vy shifted left once, wrapping.
pub open spec fn step_shl(s: State, w: u16) -> State {
    let vy = s.regs[nib_y(w)];
    State {
        regs: s.regs.update(0xF, (vy / 128) as u8).update(nib_x(w), vy.wrapping_mul(2)),
        ..s
    }
}

/// Annn: set the index register.
pub open spec fn step_set_index(s: State, w: u16) -> State {
    State { index: addr_nnn(w), ..s }
}

/// Bnnn: jump to nnn + V0 (the legacy form, not Bxnn).
pub open spec fn step_jump_offset(s: State, w: u16) -> State {
    State { pc: (addr_nnn(w) + s.regs[0]) as u16, ..s }
}

/// Cxkk: Vx = a random byte masked with the immediate.
pub open spec fn step_random(s: State, w: u16, rb: u8) -> State {
    State { regs: s.regs.update(nib_x(w), rb & imm_nn(w)), ..s }
}

/// Dxyn: draw the sprite at memory[I..I+n] at (Vx mod 64, Vy mod 32); VF = 1
/// exactly when a lit pixel is turned off; a fault when the sprite rows run
/// past the end of memory.
pub open spec fn step_draw(s: State, w: u16) -> Result<State, Fault> {
    if s.index + nib_n(w) > 4096 {
        Err(Fault::OutOfBounds)
    } else {
        let xo = (s.regs[nib_x(w)] as int) % 64;
        let yo = (s.regs[nib_y(w)] as int) % 32;
        let n = nib_n(w);
        Ok(State {
            video: draw_video(s, xo, yo, n),
            regs: s.regs.update(0xF, if draw_collision(s, xo, yo, n) { 1u8 } else { 0u8 }),
            update_display: true,
            ..s
        })
    }
}

/// Ex9E / ExA1: skip when key Vx is pressed / not pressed; Vx must resolve to
/// a key index 0..15, else the program is malformed.
pub open spec fn step_skip_key(s: State, w: u16, want_pressed: bool) -> Result<State, Fault> {
    let vx = s.regs[nib_x(w)];
    if vx > 15 {
        Err(Fault::OutOfBounds)
    } else {
        Ok(skip_if(s, s.keys[vx as int] == want_pressed))
    }
}

/// Fx07: read the delay timer into Vx.
pub open spec fn step_read_delay(s: State, w: u16) -> State {
    State { regs: s.regs.update(nib_x(w), s.delay), ..s }
}

/// Fx0A: wait for a key without blocking: when none is pressed the program
/// counter rewinds by one word so the instruction re-executes next cycle
/// (timers keep ticking); else Vx = the lowest-index pressed key.
pub open spec fn step_wait_key(s: State, w: u16) -> State {
    if any_key(s.keys) {
        State { regs: s.regs.update(nib_x(w), lowest_key(s.keys) as u8), ..s }
    } else {
        State { pc: s.pc.wrapping_sub(2), ..s }
    }
}

/// Fx15 / Fx18: load the delay / sound timer from Vx.
pub open spec fn step_set_delay(s: State, w: u16) -> State {
    State { delay: s.regs[nib_x(w)], ..s }
}

pub open spec fn step_set_sound(s: State, w: u16) -> State {
    State { sound: s.regs[nib_x(w)], ..s }
}

/// Fx1E: I = I + Vx (wrapping at 16 bits); VF = 1 exactly when the new value
/// runs past the 12-bit address space. A documented quirk, not a fault.
pub open spec fn step_add_index(s: State, w: u16) -> State {
    let ni = s.index.wrapping_add(s.regs[nib_x(w)] as u16);
    State { index: ni, regs: s.regs.update(0xF, if ni > 0x0FFF { 1u8 } else { 0u8 }), ..s }
}

/// Fx29: point the index register at the font glyph for digit Vx.
pub open spec fn step_font(s: State, w: u16) -> State {
    State { index: (0x50 + (s.regs[nib_x(w)] as int) * 5) as u16, ..s }
}

/// Fx33: store the decimal digits of Vx at I, I+1, I+2 (hundreds first).
pub open spec fn step_bcd(s: State, w: u16) -> Result<State, Fault> {
    if s.index + 2 > 4095 {
        Err(Fault::OutOfBounds)
    } else {
        let vx = s.regs[nib_x(w)];
        Ok(State {
            memory: s.memory.update(s.index as int, (vx / 100) as u8).update(
                s.index + 1,
                ((vx / 10) % 10) as u8,
            ).update(s.index + 2, (vx % 10) as u8),
            ..s
        })
    }
}

/// The memory after V0..Vx are stored at `i0` (Fx55).
pub open spec fn store_regs(mem: Seq<u8>, regs: Seq<u8>, i0: int, x: int) -> Seq<u8> {
    Seq::new(mem.len(), |j: int| if i0 <= j <= i0 + x { regs[j - i0] } else { mem[j] })
}

/// The registers after V0..Vx are loaded from `i0` (Fx65).
pub open spec fn load_regs(mem: Seq<u8>, regs: Seq<u8>, i0: int, x: int) -> Seq<u8> {
    Seq::new(16, |j: int| if j <= x { mem[i0 + j] } else { regs[j] })
}

/// Fx55: store V0..Vx to memory at I; I moves past the stored block (the
/// modern increment quirk).
pub open spec fn step_store(s: State, w: u16) -> Result<State, Fault> {
    let x = nib_x(w);
    if s.index + x > 4095 {
        Err(Fault::OutOfBounds)
    } else {
        Ok(State {
            memory: store_regs(s.memory, s.regs, s.index as int, x),
            index: s.index.wrapping_add((x + 1) as u16),
            ..s
        })
    }
}

/// Fx65: load V0..Vx from memory at I; I moves past the loaded block.
pub open spec fn step_load(s: State, w: u16) -> Result<State, Fault> {
    let x = nib_x(w);
    if s.index + x > 4095 {
        Err(Fault::OutOfBounds)
    } else {
        Ok(State {
            regs: load_regs(s.memory, s.regs, s.index as int, x),
            index: s.index.wrapping_add((x + 1) as u16),
            ..s
        })
    }
}

// ---------------------------------------------------------------------------
// The step function: two-level dispatch on the decoded fields. An
// unrecognized combination at either level is a fault, never a silent no-op.
// ---------------------------------------------------------------------------

pub open spec fn exec_step(s: State, w: u16, rb: u8) -> Result<State, Fault> {
    let i = nib_i(w);
    let n = nib_n(w);
    let nn = imm_nn(w);
    if i == 0x0 {
        if nn == 0xE0 {
            Ok(step_clear(s))
        } else if nn == 0xEE {
            step_ret(s)
        } else {
            Err(Fault::UnknownInstruction(w))
        }
    } else if i == 0x1 {
        Ok(step_jump(s, w))
    } else if i == 0x2 {
        Ok(step_call(s, w))
    } else if i == 0x3 {
        Ok(skip_if(s, s.regs[nib_x(w)] == nn))
    } else if i == 0x4 {
        Ok(skip_if(s, s.regs[nib_x(w)] != nn))
    } else if i == 0x5 {
        Ok(skip_if(s, s.regs[nib_x(w)] == s.regs[nib_y(w)]))
    } else if i == 0x6 {
        Ok(step_set_imm(s, w))
    } else if i == 0x7 {
        Ok(step_add_imm(s, w))
    } else if i == 0x8 {
        if n == 0x0 {
            Ok(step_copy(s, w))
        } else if n == 0x1 {
            Ok(step_or(s, w))
        } else if n == 0x2 {
            Ok(step_and(s, w))
        } else if n == 0x3 {
            Ok(step_xor(s, w))
        } else if n == 0x4 {
            Ok(step_add(s, w))
        } else if n == 0x5 {
            Ok(step_sub(s, w))
        } else if n == 0x6 {
            Ok(step_shr(s, w))
        } else if n == 0x7 {
            Ok(step_sub_rev(s, w))
        } else if n == 0xE {
            Ok(step_shl(s, w))
        } else {
            Err(Fault::UnknownInstruction(w))
        }
    } else if i == 0x9 {
        Ok(skip_if(s, s.regs[nib_x(w)] != s.regs[nib_y(w)]))
    } else if i == 0xA {
        Ok(step_set_index(s, w))
    } else if i == 0xB {
        Ok(step_jump_offset(s, w))
    } else if i == 0xC {
        Ok(step_random(s, w, rb))
    } else if i == 0xD {
        step_draw(s, w)
    } else if i == 0xE {
        if nn == 0x9E {
            step_skip_key(s, w, true)
        } else if nn == 0xA1 {
            step_skip_key(s, w, false)
        } else {
            Err(Fault::UnknownInstruction(w))
        }
    } else {
        if nn == 0x07 {
            Ok(step_read_delay(s, w))
        } else if nn == 0x0A {
            Ok(step_wait_key(s, w))
        } else if nn == 0x15 {
            Ok(step_set_delay(s, w))
        } else if nn == 0x18 {
            Ok(step_set_sound(s, w))
        } else if nn == 0x1E {
            Ok(step_add_index(s, w))
        } else if nn == 0x29 {
            Ok(step_font(s, w))
        } else if nn == 0x33 {
            step_bcd(s, w)
        } else if nn == 0x55 {
            step_store(s, w)
        } else if nn == 0x65 {
            step_load(s, w)
        } else {
            Err(Fault::UnknownInstruction(w))
        }
    }
}

/// How one call of the interpreter's `execute` relates its outcome to the
/// model: on success the state is the stepped one; on a fault the state is
/// untouched.
pub open spec fn step_result(pre: State, post: State, w: u16, rb: u8, r: Result<(), Fault>) -> bool {
    match exec_step(pre, w, rb) {
        Ok(s2) => r == Ok::<(), Fault>(()) && post == s2,
        Err(f) => r == Err::<(), Fault>(f) && post == pre,
    }
}

/// How one whole `cycle` relates its outcome to the model, given whether a
/// 60 Hz tick fell in this cycle and which random byte was drawn: fetch from
/// the pre-state, tick the timers, advance the program counter one word, then
/// execute the fetched word.
pub open spec fn cycle_post(
    pre: State,
    post: State,
    r: Result<(), Fault>,
    ticked: bool,
    rb: u8,
) -> bool {
    let t = if ticked { tick_state(pre) } else { pre };
    let adv = State { pc: t.pc.wrapping_add(2), ..t };
    match exec_step(adv, fetch_spec(pre), rb) {
        Ok(s2) => r == Ok::<(), Fault>(()) && post == s2,
        Err(f) => r == Err::<(), Fault>(f) && post == adv,
    }
}

} // verus!
