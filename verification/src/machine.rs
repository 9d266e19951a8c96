//! The abstract CHIP-8 machine: its state as mathematical values, the
//! decoding of an instruction word, and what each instruction, each timer
//! tick and each host command does to that state.
use vstd::prelude::*;
use crate::command::EmulatorCommand;

verus! {

/// Address at which a program is loaded and at which execution starts.
pub const PROGRAM_START: usize = 0x200;

/// Width of the monochrome display in pixels.
pub const DISPLAY_WIDTH: usize = 64;

/// Height of the monochrome display in pixels.
pub const DISPLAY_HEIGHT: usize = 32;

/// Number of bytes that fit between the program start and the end of memory.
pub const MAX_ROM_SIZE: usize = 3584;

/// Why the interpreter stopped on its own.
#[derive(Clone, Copy, Debug, PartialEq, Eq, Structural)]
pub enum Halt {
    /// The all-zero instruction word marks the end of a program.
    EndOfProgram,
    /// A return (00EE) was executed with an empty call stack.
    StackUnderflow,
    /// The word does not encode any supported instruction.
    InvalidInstruction(u16),
    /// A key instruction named a key that the keypad does not have.
    InvalidKey,
    /// Fx29 asked for the glyph of a value above 0xF.
    InvalidSprite,
}

/// A situation in which the interpreter cannot go on at all: a memory
/// access outside the 4 KiB, or an overflow of the stack pointer or of the
/// index register.
#[derive(Clone, Copy, Debug, PartialEq, Eq, Structural)]
pub enum Fault {
    /// The program counter does not leave room for a two-byte fetch.
    FetchOutOfBounds,
    /// A call was made with 255 return addresses already on the stack.
    StackOverflow,
    /// An instruction reads or writes memory past its last byte.
    MemoryOutOfBounds,
    /// Fx1E would carry the index register past 0xFFFF.
    IndexOverflow,
}

/// What one executed instruction asks of the host.
#[derive(Clone, Copy, Debug, PartialEq, Eq, Structural)]
pub enum StepOutcome {
    /// Nothing: go on with the next cycle.
    Continue,
    /// Fx18 set the sound timer above 1: start the tone, then go on.
    StartSound,
    /// The program ended or hit an instruction it cannot execute.
    Halt(Halt),
    /// The step could not be carried out; the machine is left unchanged.
    Fault(Fault),
}

/// What one timer tick asks of the host.
#[derive(Clone, Copy, Debug, PartialEq, Eq, Structural)]
pub struct TickOutcome {
    /// The machine is paused: skip the rest of this cycle.
    pub paused: bool,
    /// A 60 Hz frame boundary was reached: redraw the display.
    pub redraw: bool,
    /// The sound timer just reached zero: stop the tone.
    pub stop_sound: bool,
}

/// The complete state of the machine as mathematical values.
#[verifier::ext_equal]
pub struct MachineView {
    pub mem: Seq<u8>,
    pub reg: Seq<u8>,
    pub i: u16,
    pub dt: u8,
    pub st: u8,
    pub pc: u16,
    pub sp: u8,
    /// Rows of pixels, top to bottom; each row left to right.
    pub display: Seq<Seq<bool>>,
    pub stack: Seq<u16>,
    pub keys: Map<u8, bool>,
    pub paused: bool,
    pub speed: u32,
}

/// The sixteen glyphs 0..F, five rows of four pixels each (high nibble).
pub open spec fn glyph_row(digit: int, row: int) -> u8 {
    let g: Seq<u8> = if digit == 0 {
        seq![0xF0u8, 0x90, 0x90, 0x90, 0xF0]
    } else if digit == 1 {
        seq![0x20u8, 0x60, 0x20, 0x20, 0x70]
    } else if digit == 2 {
        seq![0xF0u8, 0x10, 0xF0, 0x80, 0xF0]
    } else if digit == 3 {
        seq![0xF0u8, 0x10, 0xF0, 0x10, 0xF0]
    } else if digit == 4 {
        seq![0x90u8, 0x90, 0xF0, 0x10, 0x10]
    } else if digit == 5 {
        seq![0xF0u8, 0x80, 0xF0, 0x10, 0xF0]
    } else if digit == 6 {
        seq![0xF0u8, 0x80, 0xF0, 0x90, 0xF0]
    } else if digit == 7 {
        seq![0xF0u8, 0x10, 0x20, 0x40, 0x40]
    } else if digit == 8 {
        seq![0xF0u8, 0x90, 0xF0, 0x90, 0xF0]
    } else if digit == 9 {
        seq![0xF0u8, 0x90, 0xF0, 0x10, 0xF0]
    } else if digit == 10 {
        seq![0xF0u8, 0x90, 0xF0, 0x90, 0x90]
    } else if digit == 11 {
        seq![0xE0u8, 0x90, 0xE0, 0x90, 0xE0]
    } else if digit == 12 {
        seq![0xF0u8, 0x80, 0x80, 0x80, 0xF0]
    } else if digit == 13 {
        seq![0xE0u8, 0x90, 0x90, 0x90, 0xE0]
    } else if digit == 14 {
        seq![0xF0u8, 0x80, 0xF0, 0x80, 0xF0]
    } else {
        seq![0xF0u8, 0x80, 0xF0, 0x80, 0x80]
    };
    g[row]
}

/// Whether address `a` holds a byte of the built-in font: glyph `d` takes
/// the five bytes from address `8 * d`.
pub open spec fn is_font_address(a: int) -> bool {
    0 <= a < 0x80 && a % 8 < 5
}

/// The font byte stored at a font address.
pub open spec fn font_byte(a: int) -> u8 {
    glyph_row(a / 8, a % 8)
}

/// `mem` with the font written over its font addresses.
pub open spec fn with_font(mem: Seq<u8>) -> Seq<u8> {
    Seq::new(mem.len(), |a: int| if is_font_address(a) { font_byte(a) } else { mem[a] })
}

/// Memory as a fresh machine has it: the font, zeros elsewhere.
pub open spec fn initial_memory() -> Seq<u8> {
    with_font(Seq::new(4096, |a: int| 0u8))
}

/// The keypad as a fresh machine has it: keys 0..F, none pressed.
pub open spec fn initial_keys() -> Map<u8, bool> {
    Map::new(|k: u8| k < 16, |k: u8| false)
}

/// A display with every pixel off.
pub open spec fn blank_display() -> Seq<Seq<bool>> {
    Seq::new(32, |r: int| Seq::new(64, |c: int| false))
}

/// The state of a freshly created machine.
pub open spec fn initial_machine() -> MachineView {
    MachineView {
        mem: initial_memory(),
        reg: Seq::new(16, |k: int| 0u8),
        i: 0,
        dt: 0,
        st: 0,
        pc: 0x200,
        sp: 0,
        display: blank_display(),
        stack: Seq::empty(),
        keys: initial_keys(),
        paused: false,
        speed: 1,
    }
}

// Decoding of an instruction word `0xONNN`.
/// The opcode nibble (bits 12..16).
pub open spec fn op_class(instr: u16) -> int {
    instr as int / 4096
}

/// The `x` register operand (bits 8..12).
pub open spec fn op_x(instr: u16) -> int {
    (instr as int / 256) % 16
}

/// The `y` register operand (bits 4..8).
pub open spec fn op_y(instr: u16) -> int {
    (instr as int / 16) % 16
}

/// The low nibble (bits 0..4).
pub open spec fn op_n(instr: u16) -> int {
    instr as int % 16
}

/// The low byte.
pub open spec fn op_kk(instr: u16) -> u8 {
    (instr as int % 256) as u8
}

/// The twelve-bit address (bits 0..12).
pub open spec fn op_nnn(instr: u16) -> u16 {
    (instr as int % 4096) as u16
}

/// The instruction word at the program counter, big-endian.
pub open spec fn fetch_word(s: MachineView) -> u16 {
    (s.mem[s.pc as int] as int * 256 + s.mem[s.pc as int + 1] as int) as u16
}

/// Whether the instruction draws on a random byte (Cxkk).
pub open spec fn uses_random(instr: u16) -> bool {
    op_class(instr) == 0xC
}

/// The register that holds the flag of arithmetic, shift and draw results.
pub open spec fn flag_reg() -> int {
    15
}

/// Whether the keypad map has all sixteen keys 0..F.
pub open spec fn has_keypad(keys: Map<u8, bool>) -> bool {
    forall|k: u8| k < 16 ==> #[trigger] keys.contains_key(k)
}

impl MachineView {
    /// The invariant every reachable machine keeps.
    pub open spec fn wf(self) -> bool {
        &&& self.mem.len() == 4096
        &&& self.reg.len() == 16
        &&& self.display.len() == 32
        &&& forall|r: int| 0 <= r < 32 ==> (#[trigger] self.display[r]).len() == 64
        &&& self.sp as int == self.stack.len()
        &&& has_keypad(self.keys)
    }

    pub open spec fn with_pc(self, pc: u16) -> MachineView {
        MachineView { pc, ..self }
    }

    pub open spec fn with_reg(self, x: int, v: u8) -> MachineView {
        MachineView { reg: self.reg.update(x, v), ..self }
    }

    /// Skip the next instruction when `cond` holds.
    pub open spec fn skip_if(self, cond: bool) -> MachineView {
        if cond {
            self.with_pc((self.pc + 2) as u16)
        } else {
            self
        }
    }

    /// Whether key `k` is on the keypad and held down.
    pub open spec fn key_down(self, k: u8) -> bool {
        self.keys.contains_key(k) && self.keys[k]
    }
}

/// 8xyN: register-to-register arithmetic and logic on the register file
/// `reg`; `None` when N names no operation.
pub open spec fn alu_result(reg: Seq<u8>, instr: u16) -> Option<Seq<u8>> {
    let x = op_x(instr);
    let y = op_y(instr);
    let vx = reg[x];
    let vy = reg[y];
    let n = op_n(instr);
    let f = flag_reg();
    if n == 0 {
        Some(reg.update(x, vy))
    } else if n == 1 {
        Some(reg.update(x, vx | vy))
    } else if n == 2 {
        Some(reg.update(x, vx & vy))
    } else if n == 3 {
        Some(reg.update(x, vx ^ vy))
    } else if n == 4 {
        // VF is the carry
        let sum = vx + vy;
        Some(reg.update(x, (sum % 256) as u8).update(f, if sum > 255 { 1u8 } else { 0u8 }))
    } else if n == 5 {
        // VF is NOT borrow
        Some(reg.update(x, ((vx - vy) % 256) as u8).update(f, if vx < vy { 0u8 } else { 1u8 }))
    } else if n == 6 {
        // VF is cleared, then set from the low bit of Vx as it is then
        let r1 = reg.update(f, 0);
        let r2 = if r1[x] % 2 == 1 { r1.update(f, 1) } else { r1 };
        Some(r2.update(x, (r2[x] / 2) as u8))
    } else if n == 7 {
        // Vx = Vy - Vx, VF is NOT borrow
        Some(reg.update(x, ((vy - vx) % 256) as u8).update(f, if vy < vx { 0u8 } else { 1u8 }))
    } else if n == 0xE {
        // VF is cleared, then set from the high bit of Vx as it is then
        let r1 = reg.update(f, 0);
        let r2 = if r1[x] >= 128 { r1.update(f, 1) } else { r1 };
        Some(r2.update(x, ((r2[x] * 2) % 256) as u8))
    } else {
        None
    }
}

/// 8xyN on the whole machine `t` (program counter already advanced).
pub open spec fn alu_spec(t: MachineView, instr: u16) -> (MachineView, StepOutcome) {
    match alu_result(t.reg, instr) {
        Some(reg) => (MachineView { reg, ..t }, StepOutcome::Continue),
        None => (t, StepOutcome::Halt(Halt::InvalidInstruction(instr))),
    }
}

/// Bit `b` of a sprite byte, counted from the most significant bit.
pub open spec fn sprite_bit(byte: u8, b: int) -> bool {
    0 <= b < 8 && (byte >> ((7 - b) as u8)) & 1u8 == 1u8
}

/// Whether the sprite of `n` rows stored at `i`, drawn at `(vx, vy)` with
/// wrap-around, covers pixel `(r, c)` with a set bit.
pub open spec fn sprite_covers(
    mem: Seq<u8>,
    i: int,
    vx: int,
    vy: int,
    n: int,
    r: int,
    c: int,
) -> bool {
    let k = (r - vy) % 32;
    let b = (c - vx) % 64;
    k < n && b < 8 && sprite_bit(mem[i + k], b)
}

/// The display after drawing: covered pixels are flipped.
pub open spec fn drawn_display(
    display: Seq<Seq<bool>>,
    mem: Seq<u8>,
    i: int,
    vx: int,
    vy: int,
    n: int,
) -> Seq<Seq<bool>> {
    Seq::new(
        32,
        |r: int|
            Seq::new(
                64,
                |c: int| display[r][c] != sprite_covers(mem, i, vx, vy, n, r, c),
            ),
    )
}

/// Whether some set bit of the sprite lands on a pixel that is on.
pub open spec fn draw_collides(
    display: Seq<Seq<bool>>,
    mem: Seq<u8>,
    i: int,
    vx: int,
    vy: int,
    n: int,
) -> bool {
    exists|k: int, b: int|
        0 <= k < n && 0 <= b < 8 && #[trigger] sprite_bit(mem[i + k], b) && display[(vy
            + k) % 32][(vx + b) % 64]
}

/// Wrap-around of a sprite offset on a display dimension of size 32.
pub proof fn lemma_wrap32(v: int, k: int, r: int)
    requires
        0 <= v,
        0 <= k < 32,
        0 <= r < 32,
    ensures
        ((v + k) % 32 - v) % 32 == k,
        ((r - v) % 32 == k) == (r == (v + k) % 32),
        0 <= (r - v) % 32 < 32,
{
}

/// Wrap-around of a sprite offset on a display dimension of size 64.
pub proof fn lemma_wrap64(v: int, k: int, r: int)
    requires
        0 <= v,
        0 <= k < 64,
        0 <= r < 64,
    ensures
        ((v + k) % 64 - v) % 64 == k,
        ((r - v) % 64 == k) == (r == (v + k) % 64),
        0 <= (r - v) % 64 < 64,
{
}

/// Dxyn: draw the `n`-byte sprite at `I` at `(Vx, Vy)`; VF reports a collision.
pub open spec fn draw_spec(t: MachineView, instr: u16) -> MachineView {
    let vx = t.reg[op_x(instr)] as int;
    let vy = t.reg[op_y(instr)] as int;
    let n = op_n(instr);
    let hit = draw_collides(t.display, t.mem, t.i as int, vx, vy, n);
    MachineView {
        display: drawn_display(t.display, t.mem, t.i as int, vx, vy, n),
        reg: t.reg.update(flag_reg(), if hit { 1u8 } else { 0u8 }),
        ..t
    }
}

/// The first key at or above `k` (below 0x10) that is held down, scanning
/// upward; the scan stops at a key the keypad does not have.
pub open spec fn first_key_down_from(keys: Map<u8, bool>, k: int) -> Option<u8>
    decreases 16 - k,
{
    if k >= 16 || k < 0 {
        None
    } else if !keys.contains_key(k as u8) {
        None
    } else if keys[k as u8] {
        Some(k as u8)
    } else {
        first_key_down_from(keys, k + 1)
    }
}

/// ExNN: keypad tests.
pub open spec fn key_spec(t: MachineView, instr: u16) -> (MachineView, StepOutcome) {
    let target = t.reg[op_x(instr)];
    let kk = op_kk(instr);
    if kk != 0x9E && kk != 0xA1 {
        (t, StepOutcome::Halt(Halt::InvalidInstruction(instr)))
    } else if !t.keys.contains_key(target) {
        (t, StepOutcome::Halt(Halt::InvalidKey))
    } else if kk == 0x9E {
        (t.skip_if(t.keys[target]), StepOutcome::Continue)
    } else {
        (t.skip_if(!t.keys[target]), StepOutcome::Continue)
    }
}

/// FxNN: timers, keypad wait, index register and memory transfers.
pub open spec fn misc_spec(t: MachineView, instr: u16) -> (MachineView, StepOutcome) {
    let x = op_x(instr);
    let vx = t.reg[x];
    let kk = op_kk(instr);
    let i = t.i as int;
    if kk == 0x07 {
        (t.with_reg(x, t.dt), StepOutcome::Continue)
    } else if kk == 0x0A {
        // Wait for a key: without one, the instruction is executed again.
        match first_key_down_from(t.keys, 0) {
            Some(k) => (t.with_reg(x, k), StepOutcome::Continue),
            None => (t.with_pc((t.pc - 2) as u16), StepOutcome::Continue),
        }
    } else if kk == 0x15 {
        (MachineView { dt: vx, ..t }, StepOutcome::Continue)
    } else if kk == 0x18 {
        (
            MachineView { st: vx, ..t },
            if vx > 1 { StepOutcome::StartSound } else { StepOutcome::Continue },
        )
    } else if kk == 0x1E {
        (MachineView { i: (i + vx) as u16, ..t }, StepOutcome::Continue)
    } else if kk == 0x29 {
        if vx <= 15 {
            (MachineView { i: (vx * 8) as u16, ..t }, StepOutcome::Continue)
        } else {
            (t, StepOutcome::Halt(Halt::InvalidSprite))
        }
    } else if kk == 0x33 {
        // binary-coded decimal of Vx at I, I+1, I+2
        (
            MachineView {
                mem: t.mem.update(i, (vx / 100) as u8).update(i + 1, ((vx % 100) / 10) as u8).update(
                    i + 2,
                    (vx % 10) as u8,
                ),
                ..t
            },
            StepOutcome::Continue,
        )
    } else if kk == 0x55 {
        // V0..=Vx to memory at I
        (
            MachineView {
                mem: Seq::new(
                    t.mem.len(),
                    |a: int|
                        if i <= a <= i + x {
                            t.reg[a - i]
                        } else {
                            t.mem[a]
                        },
                ),
                ..t
            },
            StepOutcome::Continue,
        )
    } else if kk == 0x65 {
        // memory at I to V0..=Vx
        (
            MachineView {
                reg: Seq::new(
                    t.reg.len(),
                    |j: int|
                        if j <= x {
                            t.mem[i + j]
                        } else {
                            t.reg[j]
                        },
                ),
                ..t
            },
            StepOutcome::Continue,
        )
    } else {
        (t, StepOutcome::Halt(Halt::InvalidInstruction(instr)))
    }
}

/// The fault, if any, that executing `instr` in state `s` runs into.
pub open spec fn fault_of(s: MachineView, instr: u16) -> Option<Fault> {
    let c = op_class(instr);
    let kk = op_kk(instr);
    let i = s.i as int;
    if c == 2 && s.sp == 255 {
        Some(Fault::StackOverflow)
    } else if c == 0xD && op_n(instr) > 0 && i + op_n(instr) > 4096 {
        Some(Fault::MemoryOutOfBounds)
    } else if c == 0xF && kk == 0x1E && i + s.reg[op_x(instr)] > 0xFFFF {
        Some(Fault::IndexOverflow)
    } else if c == 0xF && kk == 0x33 && i + 2 >= 4096 {
        Some(Fault::MemoryOutOfBounds)
    } else if c == 0xF && (kk == 0x55 || kk == 0x65) && i + op_x(instr) >= 4096 {
        Some(Fault::MemoryOutOfBounds)
    } else {
        None
    }
}

/// Execute the instruction word `instr`, fetched at the program counter of
/// `s`; `rnd` is the random byte that Cxkk combines with its operand.
pub open spec fn execute_spec(s: MachineView, instr: u16, rnd: u8) -> (MachineView, StepOutcome) {
    let t = s.with_pc((s.pc + 2) as u16);
    let c = op_class(instr);
    let x = op_x(instr);
    let y = op_y(instr);
    let kk = op_kk(instr);
    let nnn = op_nnn(instr);
    if instr == 0 {
        (t, StepOutcome::Halt(Halt::EndOfProgram))
    } else if instr == 0x00EE {
        // return from a call
        if t.stack.len() == 0 {
            (t, StepOutcome::Halt(Halt::StackUnderflow))
        } else {
            (
                MachineView {
                    pc: t.stack.last(),
                    stack: t.stack.drop_last(),
                    sp: (t.sp - 1) as u8,
                    ..t
                },
                StepOutcome::Continue,
            )
        }
    } else if instr == 0x00E0 {
        (MachineView { display: blank_display(), ..t }, StepOutcome::Continue)
    } else if c == 1 {
        (t.with_pc(nnn), StepOutcome::Continue)
    } else if c == 2 {
        // call: push the return address
        (
            MachineView { sp: (t.sp + 1) as u8, stack: t.stack.push(t.pc), pc: nnn, ..t },
            StepOutcome::Continue,
        )
    } else if c == 3 {
        (t.skip_if(t.reg[x] == kk), StepOutcome::Continue)
    } else if c == 4 {
        (t.skip_if(t.reg[x] != kk), StepOutcome::Continue)
    } else if c == 5 {
        (t.skip_if(t.reg[x] == t.reg[y]), StepOutcome::Continue)
    } else if c == 6 {
        (t.with_reg(x, kk), StepOutcome::Continue)
    } else if c == 7 {
        (t.with_reg(x, ((t.reg[x] + kk) % 256) as u8), StepOutcome::Continue)
    } else if c == 8 {
        alu_spec(t, instr)
    } else if c == 9 {
        (t.skip_if(t.reg[x] != t.reg[y]), StepOutcome::Continue)
    } else if c == 0xA {
        (MachineView { i: nnn, ..t }, StepOutcome::Continue)
    } else if c == 0xB {
        (t.with_pc((nnn + t.reg[0]) as u16), StepOutcome::Continue)
    } else if c == 0xC {
        (t.with_reg(x, rnd & kk), StepOutcome::Continue)
    } else if c == 0xD {
        (draw_spec(t, instr), StepOutcome::Continue)
    } else if c == 0xE {
        key_spec(t, instr)
    } else if c == 0xF {
        misc_spec(t, instr)
    } else {
        (t, StepOutcome::Halt(Halt::InvalidInstruction(instr)))
    }
}

/// One timer tick: unless paused, count the cycle, and on every tenth one
/// (60 Hz at 600 instructions per second) ask for a redraw and count the
/// delay and sound timers down by one.
pub open spec fn tick_spec(s: MachineView, counter: u32) -> (MachineView, u32, TickOutcome) {
    if s.paused {
        (s, counter, TickOutcome { paused: true, redraw: false, stop_sound: false })
    } else if counter + 1 >= 10 {
        (
            MachineView {
                dt: if s.dt > 0 { (s.dt - 1) as u8 } else { s.dt },
                st: if s.st > 0 { (s.st - 1) as u8 } else { s.st },
                ..s
            },
            0,
            TickOutcome { paused: false, redraw: true, stop_sound: s.st == 1 },
        )
    } else {
        (s, (counter + 1) as u32, TickOutcome { paused: false, redraw: false, stop_sound: false })
    }
}

/// One cycle's instruction: fetch at the program counter and execute,
/// unless the fetch or the instruction would leave the machine's bounds;
/// `rnd` is the random byte for Cxkk.
pub open spec fn step_spec(s: MachineView, rnd: u8) -> (MachineView, StepOutcome) {
    if s.pc >= 4095 {
        (s, StepOutcome::Fault(Fault::FetchOutOfBounds))
    } else {
        let instr = fetch_word(s);
        match fault_of(s, instr) {
            Some(f) => (s, StepOutcome::Fault(f)),
            None => execute_spec(s, instr, rnd),
        }
    }
}

/// A host command applied to the machine; the flag is whether the
/// emulation loop must stop.
pub open spec fn command_spec(s: MachineView, cmd: EmulatorCommand) -> (MachineView, bool) {
    match cmd {
        EmulatorCommand::KeyPress(key) => (MachineView { keys: s.keys.insert(key as u8, true), ..s }, false),
        EmulatorCommand::KeyRelease(key) => (MachineView { keys: s.keys.insert(key as u8, false), ..s }, false),
        EmulatorCommand::SetPaused(p) => (MachineView { paused: p, ..s }, false),
        EmulatorCommand::Terminate => (s, true),
        EmulatorCommand::SetSpeed(v) => (MachineView { speed: v as u32, ..s }, false),
    }
}

/// Memory after loading a program image at the program start.
pub open spec fn loaded_memory(mem: Seq<u8>, rom: Seq<u8>) -> Seq<u8> {
    Seq::new(
        mem.len(),
        |a: int|
            if 0x200 <= a < 0x200 + rom.len() {
                rom[a - 0x200]
            } else {
                mem[a]
            },
    )
}

/// The display flattened row by row, one byte per pixel (1 when on).
pub open spec fn frame_byte(display: Seq<Seq<bool>>, a: int) -> u8 {
    if display[a / 64][a % 64] {
        1u8
    } else {
        0u8
    }
}

} // verus!
