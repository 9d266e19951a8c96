//! The interpreter: a CHIP-8 machine whose every operation is proved to do
//! to its state what `crate::machine` says.
use vstd::prelude::*;
use std::collections::BTreeMap;
use crate::command::EmulatorCommand;
use crate::entropy::random_byte;
use crate::machine::{
    MachineView, Fault, Halt, StepOutcome, TickOutcome, DISPLAY_HEIGHT, DISPLAY_WIDTH,
    MAX_ROM_SIZE, PROGRAM_START, initial_machine, initial_keys, initial_memory, blank_display,
    with_font, fetch_word, fault_of, execute_spec, step_spec, tick_spec, command_spec,
    loaded_memory, frame_byte, alu_result, key_spec, misc_spec, first_key_down_from,
    drawn_display, draw_collides, sprite_bit, uses_random, op_class, op_x, op_y, op_n, op_kk,
    op_nnn, lemma_wrap32, lemma_wrap64,
};

verus! {

pub const SPRITE_0_ADDR: usize = 0x00;
pub const SPRITE_1_ADDR: usize = 0x08;
pub const SPRITE_2_ADDR: usize = 0x10;
pub const SPRITE_3_ADDR: usize = 0x18;
pub const SPRITE_4_ADDR: usize = 0x20;
pub const SPRITE_5_ADDR: usize = 0x28;
pub const SPRITE_6_ADDR: usize = 0x30;
pub const SPRITE_7_ADDR: usize = 0x38;
pub const SPRITE_8_ADDR: usize = 0x40;
pub const SPRITE_9_ADDR: usize = 0x48;
pub const SPRITE_A_ADDR: usize = 0x50;
pub const SPRITE_B_ADDR: usize = 0x58;
pub const SPRITE_C_ADDR: usize = 0x60;
pub const SPRITE_D_ADDR: usize = 0x68;
pub const SPRITE_E_ADDR: usize = 0x70;
pub const SPRITE_F_ADDR: usize = 0x78;

/// A CHIP-8 machine: 4 KiB of memory, sixteen byte registers, the index
/// register, two 60 Hz timers, a call stack, a 64x32 monochrome display and
/// a sixteen-key keypad.
pub struct Chipi8 {
    mem: [u8; 4096],
    reg: [u8; 16],
    i: u16,
    dt: u8,
    st: u8,
    pc: u16,
    sp: u8,
    display: [[bool; 64]; 32],
    stack: Vec<u16>,
    keys: BTreeMap<u8, bool>,
    paused: bool,
    speed: u32,
}

/// The display array as rows of pixels.
pub open spec fn pixels(d: [[bool; 64]; 32]) -> Seq<Seq<bool>> {
    d@.map_values(|row: [bool; 64]| row@)
}

impl View for Chipi8 {
    type V = MachineView;

    closed spec fn view(&self) -> MachineView {
        MachineView {
            mem: self.mem@,
            reg: self.reg@,
            i: self.i,
            dt: self.dt,
            st: self.st,
            pc: self.pc,
            sp: self.sp,
            display: pixels(self.display),
            stack: self.stack@,
            keys: self.keys@,
            paused: self.paused,
            speed: self.speed,
        }
    }
}

impl Chipi8 {
    /// The invariant of every machine this library hands out.
    pub open spec fn wf(&self) -> bool {
        self@.wf()
    }

    /// A machine as it is at power-on: the font in low memory, the program
    /// counter at 0x200, all keys released, running at speed 1.
    pub fn new() -> (r: Self)
        ensures
            r.wf(),
            r@ == initial_machine(),
    {
        let mut chipi8 = Self {
            mem: [0;4096],
            reg: [0;16],
            i: 0,
            dt: 0,
            st: 0,
            pc: 0x200,
            sp: 0,
            display: [[false;64];32],
            stack: Vec::<u16>::new(),
            keys: BTreeMap::new(),
            paused: false,
            speed: 1,
        };

        // Initialize keys and sprites
        chipi8.keys.insert(0x0, false);
        chipi8.keys.insert(0x1, false);
        chipi8.keys.insert(0x2, false);
        chipi8.keys.insert(0x3, false);
        chipi8.keys.insert(0x4, false);
        chipi8.keys.insert(0x5, false);
        chipi8.keys.insert(0x6, false);
        chipi8.keys.insert(0x7, false);
        chipi8.keys.insert(0x8, false);
        chipi8.keys.insert(0x9, false);
        chipi8.keys.insert(0xA, false);
        chipi8.keys.insert(0xB, false);
        chipi8.keys.insert(0xC, false);
        chipi8.keys.insert(0xD, false);
        chipi8.keys.insert(0xE, false);
        chipi8.keys.insert(0xF, false);
        chipi8.insert_preloaded_sprites();
        proof {
            assert(chipi8.keys@ =~= initial_keys());
            assert(chipi8.mem@ =~= initial_memory());
            assert(chipi8@.display =~~= blank_display());
            assert(chipi8@.reg =~= Seq::new(16, |k: int| 0u8));
            assert(chipi8@ =~= initial_machine());
        }
        chipi8
    }

    /// Set how many times faster than 600 instructions per second to run.
    pub fn set_speed(&mut self, new_speed: u32)
        ensures
            final(self)@ == (MachineView { speed: new_speed, ..old(self)@ }),
    {
        self.speed = new_speed;
    }
    /// Write the glyphs 0..F of the built-in font to memory: glyph `d`
    /// takes the five bytes from address `8 * d`.
    fn insert_preloaded_sprites(&mut self)
        ensures
            final(self)@ == (MachineView { mem: with_font(old(self)@.mem), ..old(self)@ }),
    {
        self.mem[SPRITE_0_ADDR] = 0xF0;
        self.mem[SPRITE_0_ADDR + 1] = 0x90;
        self.mem[SPRITE_0_ADDR + 2] = 0x90;
        self.mem[SPRITE_0_ADDR + 3] = 0x90;
        self.mem[SPRITE_0_ADDR + 4] = 0xF0;

        self.mem[SPRITE_1_ADDR] = 0x20;
        self.mem[SPRITE_1_ADDR + 1] = 0x60;
        self.mem[SPRITE_1_ADDR + 2] = 0x20;
        self.mem[SPRITE_1_ADDR + 3] = 0x20;
        self.mem[SPRITE_1_ADDR + 4] = 0x70;

        self.mem[SPRITE_2_ADDR] = 0xF0;
        self.mem[SPRITE_2_ADDR + 1] = 0x10;
        self.mem[SPRITE_2_ADDR + 2] = 0xF0;
        self.mem[SPRITE_2_ADDR + 3] = 0x80;
        self.mem[SPRITE_2_ADDR + 4] = 0xF0;

        self.mem[SPRITE_3_ADDR] = 0xF0;
        self.mem[SPRITE_3_ADDR + 1] = 0x10;
        self.mem[SPRITE_3_ADDR + 2] = 0xF0;
        self.mem[SPRITE_3_ADDR + 3] = 0x10;
        self.mem[SPRITE_3_ADDR + 4] = 0xF0;

        self.mem[SPRITE_4_ADDR] = 0x90;
        self.mem[SPRITE_4_ADDR + 1] = 0x90;
        self.mem[SPRITE_4_ADDR + 2] = 0xF0;
        self.mem[SPRITE_4_ADDR + 3] = 0x10;
        self.mem[SPRITE_4_ADDR + 4] = 0x10;

        self.mem[SPRITE_5_ADDR] = 0xF0;
        self.mem[SPRITE_5_ADDR + 1] = 0x80;
        self.mem[SPRITE_5_ADDR + 2] = 0xF0;
        self.mem[SPRITE_5_ADDR + 3] = 0x10;
        self.mem[SPRITE_5_ADDR + 4] = 0xF0;

        self.mem[SPRITE_6_ADDR] = 0xF0;
        self.mem[SPRITE_6_ADDR + 1] = 0x80;
        self.mem[SPRITE_6_ADDR + 2] = 0xF0;
        self.mem[SPRITE_6_ADDR + 3] = 0x90;
        self.mem[SPRITE_6_ADDR + 4] = 0xF0;

        self.mem[SPRITE_7_ADDR] = 0xF0;
        self.mem[SPRITE_7_ADDR + 1] = 0x10;
        self.mem[SPRITE_7_ADDR + 2] = 0x20;
        self.mem[SPRITE_7_ADDR + 3] = 0x40;
        self.mem[SPRITE_7_ADDR + 4] = 0x40;

        self.mem[SPRITE_8_ADDR] = 0xF0;
        self.mem[SPRITE_8_ADDR + 1] = 0x90;
        self.mem[SPRITE_8_ADDR + 2] = 0xF0;
        self.mem[SPRITE_8_ADDR + 3] = 0x90;
        self.mem[SPRITE_8_ADDR + 4] = 0xF0;

        self.mem[SPRITE_9_ADDR] = 0xF0;
        self.mem[SPRITE_9_ADDR + 1] = 0x90;
        self.mem[SPRITE_9_ADDR + 2] = 0xF0;
        self.mem[SPRITE_9_ADDR + 3] = 0x10;
        self.mem[SPRITE_9_ADDR + 4] = 0xF0;

        self.mem[SPRITE_A_ADDR] = 0xF0;
        self.mem[SPRITE_A_ADDR + 1] = 0x90;
        self.mem[SPRITE_A_ADDR + 2] = 0xF0;
        self.mem[SPRITE_A_ADDR + 3] = 0x90;
        self.mem[SPRITE_A_ADDR + 4] = 0x90;

        self.mem[SPRITE_B_ADDR] = 0xE0;
        self.mem[SPRITE_B_ADDR + 1] = 0x90;
        self.mem[SPRITE_B_ADDR + 2] = 0xE0;
        self.mem[SPRITE_B_ADDR + 3] = 0x90;
        self.mem[SPRITE_B_ADDR + 4] = 0xE0;

        self.mem[SPRITE_C_ADDR] = 0xF0;
        self.mem[SPRITE_C_ADDR + 1] = 0x80;
        self.mem[SPRITE_C_ADDR + 2] = 0x80;
        self.mem[SPRITE_C_ADDR + 3] = 0x80;
        self.mem[SPRITE_C_ADDR + 4] = 0xF0;

        self.mem[SPRITE_D_ADDR] = 0xE0;
        self.mem[SPRITE_D_ADDR + 1] = 0x90;
        self.mem[SPRITE_D_ADDR + 2] = 0x90;
        self.mem[SPRITE_D_ADDR + 3] = 0x90;
        self.mem[SPRITE_D_ADDR + 4] = 0xE0;

        self.mem[SPRITE_E_ADDR] = 0xF0;
        self.mem[SPRITE_E_ADDR + 1] = 0x80;
        self.mem[SPRITE_E_ADDR + 2] = 0xF0;
        self.mem[SPRITE_E_ADDR + 3] = 0x80;
        self.mem[SPRITE_E_ADDR + 4] = 0xF0;

        self.mem[SPRITE_F_ADDR] = 0xF0;
        self.mem[SPRITE_F_ADDR + 1] = 0x80;
        self.mem[SPRITE_F_ADDR + 2] = 0xF0;
        self.mem[SPRITE_F_ADDR + 3] = 0x80;
        self.mem[SPRITE_F_ADDR + 4] = 0x80;
        proof {
            assert(self.mem@ =~= with_font(old(self).mem@));
        }
    }
}

/// The fields of an instruction word, as the decoder extracts them.
proof fn lemma_decode(instr: u16)
    ensures
        ((instr & 0xF00) >> 8) as int == op_x(instr),
        ((instr & 0xF0) >> 4) as int == op_y(instr),
        (instr & 0xF) as int == op_n(instr),
        (instr & 0xFF) as u8 == op_kk(instr),
        instr & 0xFFF == op_nnn(instr),
        (instr >> 12) as int == op_class(instr),
{
    assert((instr & 0xF00) >> 8 == (instr / 256) % 16) by (bit_vector);
    assert((instr & 0xF0) >> 4 == (instr / 16) % 16) by (bit_vector);
    assert(instr & 0xF == instr % 16) by (bit_vector);
    assert(instr & 0xFF == instr % 256) by (bit_vector);
    assert(instr & 0xFFF == instr % 4096) by (bit_vector);
    assert(instr >> 12 == instr / 4096) by (bit_vector);
}

/// Whether pixel `(r, c)` is covered by a set bit among the sprite rows
/// before `k`, or among the first `b` bits of row `k`.
spec fn covers_upto(mem: Seq<u8>, i: int, vx: int, vy: int, k: int, b: int, r: int, c: int) -> bool {
    let ro = (r - vy) % 32;
    let co = (c - vx) % 64;
    (ro < k || (ro == k && co < b)) && co < 8 && sprite_bit(mem[i + ro], co)
}

spec fn partial_display(d: Seq<Seq<bool>>, mem: Seq<u8>, i: int, vx: int, vy: int, k: int, b: int) -> Seq<
    Seq<bool>,
> {
    Seq::new(
        32,
        |r: int| Seq::new(64, |c: int| d[r][c] != covers_upto(mem, i, vx, vy, k, b, r, c)),
    )
}

spec fn partial_hit(d: Seq<Seq<bool>>, mem: Seq<u8>, i: int, vx: int, vy: int, k: int, b: int) -> bool {
    exists|kk: int, bb: int|
        ((0 <= kk < k && 0 <= bb < 8) || (kk == k && 0 <= bb < b)) && #[trigger] sprite_bit(
            mem[i + kk],
            bb,
        ) && d[(vy + kk) % 32][(vx + bb) % 64]
}

proof fn lemma_sprite_shift(byte: u8, b: u8)
    requires
        b < 8,
    ensures
        (((byte << b) & 0x80u8) != 0) == sprite_bit(byte, b as int),
        (byte << b) << 1u8 == byte << ((b + 1) as u8),
{
    assert((((byte << b) & 0x80u8) != 0) == ((byte >> ((7 - b) as u8)) & 1u8 == 1u8)) by (bit_vector)
        requires
            b < 8,
    ;
    assert((byte << b) << 1u8 == byte << ((b + 1) as u8)) by (bit_vector)
        requires
            b < 8,
    ;
}

impl Chipi8 {
    /// The instruction word at the program counter (big-endian).
    pub fn fetch(&self) -> (instr: u16)
        requires
            self@.pc < 4095,
        ensures
            instr == fetch_word(self@),
    {
        let msb = self.mem[self.pc as usize];
        let lsb = self.mem[(self.pc + 1) as usize];
        let instr: u16 = ((msb as u16) << 8) | (lsb as u16);
        assert(((msb as u16) << 8) | (lsb as u16) == msb as int * 256 + lsb as int) by (bit_vector);
        instr
    }

    /// Dxyn: XOR the `n`-byte sprite at `i` onto the display at `(vx, vy)`,
    /// wrapping around the edges; returns whether a lit pixel was erased.
    fn draw_sprite(display: &mut [[bool; 64]; 32], mem: &[u8; 4096], i: u16, vx: usize, vy: usize, n: usize) -> (hit: bool)
        requires
            vx < 256,
            vy < 256,
            n < 16,
            n > 0 ==> i + n <= 4096,
        ensures
            pixels(*final(display)) == drawn_display(pixels(*old(display)), mem@, i as int, vx as int, vy as int, n as int),
            hit == draw_collides(pixels(*old(display)), mem@, i as int, vx as int, vy as int, n as int),
    {
        let ghost d0 = pixels(*display);
        let mut hit = false;
        proof {
            assert(pixels(*display) =~~= partial_display(d0, mem@, i as int, vx as int, vy as int, 0, 0));
        }
        for sprite_offset in 0..n
            invariant
                vx < 256,
                vy < 256,
                n < 16,
                n > 0 ==> i + n <= 4096,
                d0.len() == 32,
                forall|r: int| 0 <= r < 32 ==> (#[trigger] d0[r]).len() == 64,
                pixels(*display) == partial_display(d0, mem@, i as int, vx as int, vy as int, sprite_offset as int, 0),
                hit == partial_hit(d0, mem@, i as int, vx as int, vy as int, sprite_offset as int, 0),
        {
            let total_memory_offset = (i as usize) + sprite_offset;
            let mut sprite = mem[total_memory_offset];
            let ghost byte = sprite;
            assert(sprite << 0u8 == sprite) by (bit_vector);
            let display_y = (vy + sprite_offset) % DISPLAY_HEIGHT;
            for bit_offset in 0..8
                invariant
                    vx < 256,
                    vy < 256,
                    sprite_offset < n < 16,
                    i + n <= 4096,
                    byte == mem@[i + sprite_offset],
                    display_y == (vy + sprite_offset) % 32,
                    sprite == byte << (bit_offset as u8),
                    d0.len() == 32,
                    forall|r: int| 0 <= r < 32 ==> (#[trigger] d0[r]).len() == 64,
                    pixels(*display) == partial_display(d0, mem@, i as int, vx as int, vy as int, sprite_offset as int, bit_offset as int),
                    hit == partial_hit(d0, mem@, i as int, vx as int, vy as int, sprite_offset as int, bit_offset as int),
            {
                let display_x = (vx + bit_offset) % DISPLAY_WIDTH;
                proof {
                    lemma_sprite_shift(byte, bit_offset as u8);
                    lemma_wrap32(vy as int, sprite_offset as int, display_y as int);
                    lemma_wrap64(vx as int, bit_offset as int, display_x as int);
                }
                let bit = (sprite & 0x80) != 0;
                let cur = display[display_y][display_x];
                proof {
                    let dp = partial_display(d0, mem@, i as int, vx as int, vy as int, sprite_offset as int, bit_offset as int);
                    assert(cur == dp[display_y as int][display_x as int]);
                    assert(!covers_upto(mem@, i as int, vx as int, vy as int, sprite_offset as int, bit_offset as int, display_y as int, display_x as int));
                    assert(cur == d0[display_y as int][display_x as int]);
                }
                if bit && cur {
                    hit = true;
                }
                let ghost prev = pixels(*display);
                display[display_y][display_x] = cur != bit;
                sprite = sprite << 1;
                proof {
                    let k = sprite_offset as int;
                    let b = bit_offset as int;
                    let dp = partial_display(d0, mem@, i as int, vx as int, vy as int, k, b);
                    assert(pixels(*display) =~~= prev.update(display_y as int, prev[display_y as int].update(display_x as int, cur != bit)));
                    let nd = partial_display(d0, mem@, i as int, vx as int, vy as int, k, b + 1);
                    assert forall|r: int, c: int| 0 <= r < 32 && 0 <= c < 64 implies #[trigger] pixels(*display)[r][c] == nd[r][c] by {
                        lemma_wrap32(vy as int, k, r);
                        lemma_wrap64(vx as int, b, c);
                        assert(prev[r][c] == dp[r][c]);
                    }
                    assert(pixels(*display) =~~= nd);
                    if hit {
                        if bit && cur {
                            assert(sprite_bit(mem@[i + k], b));
                        }
                        assert(partial_hit(d0, mem@, i as int, vx as int, vy as int, k, b + 1));
                    } else {
                        assert(!partial_hit(d0, mem@, i as int, vx as int, vy as int, k, b + 1)) by {
                            if partial_hit(d0, mem@, i as int, vx as int, vy as int, k, b + 1) {
                                let (kk, bb) = choose|kk: int, bb: int|
                                    ((0 <= kk < k && 0 <= bb < 8) || (kk == k && 0 <= bb < b + 1)) && #[trigger] sprite_bit(
                                        mem@[i + kk],
                                        bb,
                                    ) && d0[(vy + kk) % 32][(vx + bb) % 64];
                                assert(kk == k && bb == b);
                            }
                        }
                    }
                }
            }
            proof {
                let k = sprite_offset as int;
                assert(pixels(*display) =~~= partial_display(d0, mem@, i as int, vx as int, vy as int, k + 1, 0));
                assert(partial_hit(d0, mem@, i as int, vx as int, vy as int, k, 8) == partial_hit(d0, mem@, i as int, vx as int, vy as int, k + 1, 0));
            }
        }
        proof {
            assert(pixels(*display) =~~= drawn_display(d0, mem@, i as int, vx as int, vy as int, n as int));
        }
        hit
    }

    /// Whether key `target` is held down; `None` if the keypad has no such key.
    fn lookup_key(keys: &BTreeMap<u8, bool>, target: u8) -> (r: Option<bool>)
        ensures
            r == (if keys@.contains_key(target) { Some(keys@[target]) } else { None::<bool> }),
    {
        match keys.get(&target) {
            Some(n) => Some(*n),
            None => None,
        }
    }

    /// The lowest held-down key, scanning the keys 0..F upward.
    fn first_key_down(keys: &BTreeMap<u8, bool>) -> (r: Option<u8>)
        ensures
            r == first_key_down_from(keys@, 0),
    {
        let mut pressed_key: u8 = 0;
        let mut find_success = true;
        let mut pressed_success = false;
        let mut i: u8 = 0;
        while i < 16
            invariant_except_break
                i <= 16,
                find_success && !pressed_success,
                first_key_down_from(keys@, 0) == first_key_down_from(keys@, i as int),
            ensures
                find_success && pressed_success ==> first_key_down_from(keys@, 0) == Some(pressed_key),
                !(find_success && pressed_success) ==> first_key_down_from(keys@, 0) is None,
            decreases 16 - i,
        {
            let is_key_pressed = match keys.get(&i) {
                Some(n) => *n,
                None => {
                    find_success = false;
                    break;
                },
            };
            if is_key_pressed {
                pressed_success = true;
                pressed_key = i;
                break;
            }
            i += 1;
        }
        if !find_success || !pressed_success {
            None
        } else {
            Some(pressed_key)
        }
    }

    /// Fx55: V0..=Vx to memory from `i`.
    fn store_registers(mem: &mut [u8; 4096], reg: &[u8; 16], i: u16, x: usize)
        requires
            x < 16,
            i + x < 4096,
        ensures
            final(mem)@ == Seq::new(4096, |a: int| if i <= a <= i + x { reg@[a - i] } else { old(mem)@[a] }),
    {
        for reg_index in 0..x + 1
            invariant
                x < 16,
                i + x < 4096,
                mem@ == Seq::new(4096, |a: int| if i <= a < i + reg_index { reg@[a - i] } else { old(mem)@[a] }),
        {
            mem[(i + (reg_index as u16)) as usize] = reg[reg_index];
        }
    }

    /// Fx65: memory from `i` to V0..=Vx.
    fn load_registers(reg: &mut [u8; 16], mem: &[u8; 4096], i: u16, x: usize)
        requires
            x < 16,
            i + x < 4096,
        ensures
            final(reg)@ == Seq::new(16, |j: int| if j <= x { mem@[i + j] } else { old(reg)@[j] }),
    {
        for reg_index in 0..x + 1
            invariant
                x < 16,
                i + x < 4096,
                reg@ == Seq::new(16, |j: int| if j < reg_index { mem@[i + j] } else { old(reg)@[j] }),
        {
            reg[reg_index] = mem[(i + (reg_index as u16)) as usize];
        }
    }

    /// ExNN: keypad tests. The program counter is already advanced.
    fn exec_key(&mut self, instr: u16, x: usize, kk: u8) -> (o: StepOutcome)
        requires
            old(self).wf(),
            x as int == op_x(instr),
            kk == op_kk(instr),
            old(self)@.pc <= 4096,
        ensures
            final(self).wf(),
            (final(self)@, o) == key_spec(old(self)@, instr),
    {
        if kk == 0x9E {
            // Skip next instruction if key with the value of Vx is pressed
            let target = self.reg[x];
            let is_target_pressed = match Self::lookup_key(&self.keys, target) {
                Some(n) => n,
                None => {
                    return StepOutcome::Halt(Halt::InvalidKey);
                },
            };
            if is_target_pressed {
                self.pc += 2;
            }
            StepOutcome::Continue
        } else if kk == 0xA1 {
            // Skip next instruction if key with the value of Vx is not pressed
            let target = self.reg[x];
            let is_target_pressed = match Self::lookup_key(&self.keys, target) {
                Some(n) => n,
                None => {
                    return StepOutcome::Halt(Halt::InvalidKey);
                },
            };
            if !is_target_pressed {
                self.pc += 2;
            }
            StepOutcome::Continue
        } else {
            StepOutcome::Halt(Halt::InvalidInstruction(instr))
        }
    }

    /// FxNN: timers, keypad wait, index register, memory transfers. The
    /// program counter is already advanced.
    #[verifier::rlimit(40)]
    fn exec_misc(&mut self, instr: u16, x: usize, kk: u8) -> (o: StepOutcome)
        requires
            old(self).wf(),
            x as int == op_x(instr),
            kk == op_kk(instr),
            2 <= old(self)@.pc,
            op_class(instr) == 0xF,
            fault_of(old(self)@, instr) is None,
        ensures
            final(self).wf(),
            (final(self)@, o) == misc_spec(old(self)@, instr),
    {
        let o = if kk == 0x07 {
            // Set Vx = delay timer value
            self.reg[x] = self.dt;
            StepOutcome::Continue
        } else if kk == 0x0A {
            // Wait for a key press, store the value of the key in Vx
            match Self::first_key_down(&self.keys) {
                Some(pressed_key) => {
                    self.reg[x] = pressed_key;
                },
                None => {
                    self.pc -= 2;
                },
            }
            StepOutcome::Continue
        } else if kk == 0x15 {
            // Set delay timer = Vx
            self.dt = self.reg[x];
            StepOutcome::Continue
        } else if kk == 0x18 {
            // Set sound timer = Vx; the tone starts when it is above 1
            self.st = self.reg[x];
            if self.st > 1 {
                StepOutcome::StartSound
            } else {
                StepOutcome::Continue
            }
        } else if kk == 0x1E {
            // Set I = I + Vx
            self.i += self.reg[x] as u16;
            StepOutcome::Continue
        } else if kk == 0x29 {
            // Set I = location of sprite for digit Vx
            match self.reg[x] {
                0 => { self.i = SPRITE_0_ADDR as u16; StepOutcome::Continue },
                1 => { self.i = SPRITE_1_ADDR as u16; StepOutcome::Continue },
                2 => { self.i = SPRITE_2_ADDR as u16; StepOutcome::Continue },
                3 => { self.i = SPRITE_3_ADDR as u16; StepOutcome::Continue },
                4 => { self.i = SPRITE_4_ADDR as u16; StepOutcome::Continue },
                5 => { self.i = SPRITE_5_ADDR as u16; StepOutcome::Continue },
                6 => { self.i = SPRITE_6_ADDR as u16; StepOutcome::Continue },
                7 => { self.i = SPRITE_7_ADDR as u16; StepOutcome::Continue },
                8 => { self.i = SPRITE_8_ADDR as u16; StepOutcome::Continue },
                9 => { self.i = SPRITE_9_ADDR as u16; StepOutcome::Continue },
                10 => { self.i = SPRITE_A_ADDR as u16; StepOutcome::Continue },
                11 => { self.i = SPRITE_B_ADDR as u16; StepOutcome::Continue },
                12 => { self.i = SPRITE_C_ADDR as u16; StepOutcome::Continue },
                13 => { self.i = SPRITE_D_ADDR as u16; StepOutcome::Continue },
                14 => { self.i = SPRITE_E_ADDR as u16; StepOutcome::Continue },
                15 => { self.i = SPRITE_F_ADDR as u16; StepOutcome::Continue },
                _ => StepOutcome::Halt(Halt::InvalidSprite),
            }
        } else if kk == 0x33 {
            // Store the BCD representation of Vx at I, I+1 and I+2
            let dec = self.reg[x];
            let hundreds: u8 = dec / 100;
            let tens: u8 = (dec % 100) / 10;
            let ones: u8 = dec % 10;
            self.mem[self.i as usize] = hundreds;
            self.mem[(self.i as usize) + 1] = tens;
            self.mem[(self.i as usize) + 2] = ones;
            StepOutcome::Continue
        } else if kk == 0x55 {
            // Store registers V0 through Vx in memory starting at location I
            Self::store_registers(&mut self.mem, &self.reg, self.i, x);
            StepOutcome::Continue
        } else if kk == 0x65 {
            // Read registers V0 through Vx from memory starting at location I
            Self::load_registers(&mut self.reg, &self.mem, self.i, x);
            StepOutcome::Continue
        } else {
            StepOutcome::Halt(Halt::InvalidInstruction(instr))
        };
        o
    }

    /// Execute the instruction word `instr`, fetched at the program counter;
    /// `random_byte` is what Cxkk combines with its operand.
    #[verifier::rlimit(60)]
    #[verifier::spinoff_prover]
    pub fn execute(&mut self, instr: u16, random_byte: u8) -> (o: StepOutcome)
        requires
            old(self).wf(),
            old(self)@.pc < 4095,
            fault_of(old(self)@, instr) is None,
        ensures
            final(self).wf(),
            (final(self)@, o) == execute_spec(old(self)@, instr, random_byte),
    {
        proof {
            lemma_decode(instr);
        }
        let x = ((instr & 0xF00) >> 8) as usize;
        let y = ((instr & 0xF0) >> 4) as usize;
        let kk = #[verifier::truncate] ((instr & 0xFF) as u8);
        let nnn = instr & 0xFFF;
        let msn = instr >> 12; // Most Significant Nibble
        self.pc += 2;

        let o = if instr == 0 {
            StepOutcome::Halt(Halt::EndOfProgram)
        } else if instr == 0x00EE {
            // Return from function
            match self.stack.pop() {
                Some(n) => {
                    self.pc = n;
                    self.sp -= 1;
                    StepOutcome::Continue
                },
                None => StepOutcome::Halt(Halt::StackUnderflow),
            }
        } else if instr == 0x00E0 {
            // CLS: clear display
            self.display = [[false;64];32];
            proof {
                assert(pixels(self.display) =~~= blank_display());
            }
            StepOutcome::Continue
        } else if msn == 0x1 {
            // JP addr: jump to address nnn
            self.pc = nnn;
            StepOutcome::Continue
        } else if msn == 0x2 {
            // CALL addr: call function at nnn
            self.sp += 1;
            self.stack.push(self.pc);
            self.pc = nnn;
            StepOutcome::Continue
        } else if msn == 0x3 {
            // Skip next instr if Vx == kk
            if self.reg[x] == kk {
                self.pc += 2;
            }
            StepOutcome::Continue
        } else if msn == 0x4 {
            // Skip next instruction if Vx != kk
            if self.reg[x] != kk {
                self.pc += 2;
            }
            StepOutcome::Continue
        } else if msn == 0x5 {
            // Skip next instruction if Vx == Vy
            if self.reg[x] == self.reg[y] {
                self.pc += 2;
            }
            StepOutcome::Continue
        } else if msn == 0x6 {
            // LD x, kk: Set Vx to kk
            self.reg[x] = kk;
            StepOutcome::Continue
        } else if msn == 0x7 {
            // ADD x, kk: Set Vx to Vx + kk
            self.reg[x] = self.reg[x].wrapping_add(kk);
            StepOutcome::Continue
        } else if msn == 0x8 {
            if Self::alu(&mut self.reg, instr, x, y, instr & 0xF) {
                StepOutcome::Continue
            } else {
                StepOutcome::Halt(Halt::InvalidInstruction(instr))
            }
        } else if msn == 0x9 {
            // Skip next instruction if Vx != Vy
            if self.reg[x] != self.reg[y] {
                self.pc += 2;
            }
            StepOutcome::Continue
        } else if msn == 0xA {
            // LD I, addr: Set I = nnn
            self.i = nnn;
            StepOutcome::Continue
        } else if msn == 0xB {
            // Jump to location nnn + V0
            self.pc = nnn + (self.reg[0] as u16);
            StepOutcome::Continue
        } else if msn == 0xC {
            // Set Vx = random byte AND kk
            self.reg[x] = random_byte & kk;
            StepOutcome::Continue
        } else if msn == 0xD {
            // DRW x, y, n: display n-byte sprite from address I at (Vx, Vy), set VF = collision
            let vx = self.reg[x] as usize;
            let vy = self.reg[y] as usize;
            let n = (instr & 0xF) as usize;
            self.reg[0xF] = 0;
            let hit = Self::draw_sprite(&mut self.display, &self.mem, self.i, vx, vy, n);
            if hit {
                self.reg[0xF] = 1;
            }
            StepOutcome::Continue
        } else if msn == 0xE {
            self.exec_key(instr, x, kk)
        } else if msn == 0xF {
            self.exec_misc(instr, x, kk)
        } else {
            StepOutcome::Halt(Halt::InvalidInstruction(instr))
        };
        o
    }

    /// The fault, if any, that executing `instr` now would run into.
    fn fault(&self, instr: u16) -> (f: Option<Fault>)
        requires
            self.wf(),
        ensures
            f == fault_of(self@, instr),
    {
        proof {
            lemma_decode(instr);
        }
        let x = ((instr & 0xF00) >> 8) as usize;
        let kk = #[verifier::truncate] ((instr & 0xFF) as u8);
        let n = (instr & 0xF) as u32;
        let msn = instr >> 12;
        let i = self.i as u32;
        if msn == 0x2 && self.sp == 255 {
            Some(Fault::StackOverflow)
        } else if msn == 0xD && n > 0 && i + n > 4096 {
            Some(Fault::MemoryOutOfBounds)
        } else if msn == 0xF && kk == 0x1E && i + (self.reg[x] as u32) > 0xFFFF {
            Some(Fault::IndexOverflow)
        } else if msn == 0xF && kk == 0x33 && i + 2 >= 4096 {
            Some(Fault::MemoryOutOfBounds)
        } else if msn == 0xF && (kk == 0x55 || kk == 0x65) && i + (x as u32) >= 4096 {
            Some(Fault::MemoryOutOfBounds)
        } else {
            None
        }
    }

    /// One instruction cycle: fetch the word at the program counter and
    /// execute it, drawing a random byte for Cxkk. Where the fetch or the
    /// instruction would leave the machine's bounds, nothing changes and
    /// the fault is reported.
    pub fn step(&mut self) -> (o: StepOutcome)
        requires
            old(self).wf(),
        ensures
            final(self).wf(),
            exists|rnd: u8| (final(self)@, o) == step_spec(old(self)@, rnd),
            old(self)@.pc >= 4095 || !uses_random(fetch_word(old(self)@)) ==> (final(self)@, o)
                == step_spec(old(self)@, 0),
    {
        if self.pc >= 4095 {
            assert((self@, StepOutcome::Fault(Fault::FetchOutOfBounds)) == step_spec(old(self)@, 0));
            return StepOutcome::Fault(Fault::FetchOutOfBounds);
        }
        let instr = self.fetch();
        match self.fault(instr) {
            Some(f) => {
                assert((self@, StepOutcome::Fault(f)) == step_spec(old(self)@, 0));
                StepOutcome::Fault(f)
            },
            None => {
                let rnd = if instr >> 12 == 0xC {
                    random_byte()
                } else {
                    0
                };
                proof {
                    lemma_decode(instr);
                }
                let o = self.execute(instr, rnd);
                assert((self@, o) == step_spec(old(self)@, rnd));
                o
            },
        }
    }

    /// The timer part of a cycle: unless paused, count the cycle, and on
    /// every tenth one ask for a redraw and count both timers down.
    pub fn tick(&mut self, loop_counter: &mut u32) -> (t: TickOutcome)
        requires
            old(self).wf(),
            *old(loop_counter) < u32::MAX,
        ensures
            final(self).wf(),
            (final(self)@, *final(loop_counter), t) == tick_spec(old(self)@, *old(loop_counter)),
    {
        if self.paused {
            return TickOutcome { paused: true, redraw: false, stop_sound: false };
        }
        *loop_counter += 1;
        let mut redraw = false;
        let mut stop_sound = false;
        // Update display and decrement timers at 60 Hz
        if *loop_counter >= 10 {
            redraw = true;
            if self.dt > 0 {
                self.dt -= 1;
            }
            if self.st > 0 {
                self.st -= 1;
                if self.st == 0 {
                    stop_sound = true;
                }
            }
            *loop_counter = 0;
        }
        TickOutcome { paused: false, redraw, stop_sound }
    }

    /// Apply a host command; returns whether the emulation loop must stop.
    pub fn apply_command(&mut self, cmd: EmulatorCommand) -> (terminate: bool)
        requires
            old(self).wf(),
        ensures
            final(self).wf(),
            (final(self)@, terminate) == command_spec(old(self)@, cmd),
    {
        match cmd {
            EmulatorCommand::KeyPress(key) => {
                self.keys.insert(#[verifier::truncate] (key as u8), true);
                false
            },
            EmulatorCommand::KeyRelease(key) => {
                self.keys.insert(#[verifier::truncate] (key as u8), false);
                false
            },
            EmulatorCommand::SetPaused(is_paused) => {
                self.paused = is_paused;
                false
            },
            EmulatorCommand::Terminate => true,
            EmulatorCommand::SetSpeed(speed) => {
                self.speed = speed as u32;
                false
            },
        }
    }

    /// Microseconds to wait before a cycle: 600 cycles per second at speed 1.
    pub fn cycle_delay_micros(&self) -> (d: u64)
        requires
            self@.speed > 0,
        ensures
            d == 1667int / (self@.speed as int),
    {
        1667 / self.speed as u64
    }

    /// Copy a program image into memory from the program start.
    pub fn load_rom(&mut self, rom: &[u8])
        requires
            old(self).wf(),
            rom@.len() <= MAX_ROM_SIZE,
        ensures
            final(self).wf(),
            final(self)@ == (MachineView { mem: loaded_memory(old(self)@.mem, rom@), ..old(self)@ }),
    {
        for i in 0..rom.len()
            invariant
                rom@.len() <= MAX_ROM_SIZE,
                self.wf(),
                self@ == (MachineView { mem: self@.mem, ..old(self)@ }),
                self@.mem == Seq::new(
                    4096,
                    |a: int|
                        if 0x200 <= a < 0x200 + i {
                            rom@[a - 0x200]
                        } else {
                            old(self)@.mem[a]
                        },
                ),
        {
            self.mem[PROGRAM_START + i] = rom[i];
        }
        assert(self@.mem =~= loaded_memory(old(self)@.mem, rom@));
    }

    /// The display flattened row by row, one byte per pixel (1 when on).
    pub fn flat_display(&self) -> (f: [u8; 2048])
        requires
            self.wf(),
        ensures
            forall|a: int| 0 <= a < 2048 ==> f@[a] == frame_byte(self@.display, a),
    {
        let mut flat_display = [0u8;2048];
        for row in 0..DISPLAY_HEIGHT
            invariant
                self.wf(),
                forall|a: int|
                    0 <= a < 2048 ==> flat_display@[a] == (if a < row * 64 {
                        frame_byte(self@.display, a)
                    } else {
                        0u8
                    }),
        {
            for col in 0..DISPLAY_WIDTH
                invariant
                    self.wf(),
                    row < 32,
                    forall|a: int|
                        0 <= a < 2048 ==> flat_display@[a] == (if a < row * 64 + col {
                            frame_byte(self@.display, a)
                        } else {
                            0u8
                        }),
            {
                if self.display[row][col] {
                    flat_display[row * DISPLAY_WIDTH + col] = 1;
                }
                assert(flat_display@[row * 64 + col] == frame_byte(self@.display, row * 64 + col));
            }
        }
        flat_display
    }

    /// The program counter.
    pub fn pc(&self) -> (r: u16)
        ensures
            r == self@.pc,
    {
        self.pc
    }

    /// Whether execution is paused.
    pub fn is_paused(&self) -> (r: bool)
        ensures
            r == self@.paused,
    {
        self.paused
    }

    /// The speed multiplier.
    pub fn speed(&self) -> (r: u32)
        ensures
            r == self@.speed,
    {
        self.speed
    }

    /// Register Vx.
    pub fn register(&self, x: usize) -> (r: u8)
        requires
            x < 16,
        ensures
            r == self@.reg[x as int],
    {
        self.reg[x]
    }

    /// The byte at address `a`.
    pub fn memory(&self, a: usize) -> (r: u8)
        requires
            a < 4096,
        ensures
            r == self@.mem[a as int],
    {
        self.mem[a]
    }

    /// The index register I.
    pub fn index(&self) -> (r: u16)
        ensures
            r == self@.i,
    {
        self.i
    }

    /// The delay timer.
    pub fn delay_timer(&self) -> (r: u8)
        ensures
            r == self@.dt,
    {
        self.dt
    }

    /// The sound timer.
    pub fn sound_timer(&self) -> (r: u8)
        ensures
            r == self@.st,
    {
        self.st
    }

    /// The stack pointer: the number of return addresses on the stack.
    pub fn stack_pointer(&self) -> (r: u8)
        ensures
            r == self@.sp,
    {
        self.sp
    }

    /// Whether the pixel in row `row`, column `col` is on.
    pub fn pixel(&self, row: usize, col: usize) -> (r: bool)
        requires
            row < 32,
            col < 64,
        ensures
            r == self@.display[row as int][col as int],
    {
        self.display[row][col]
    }

    /// Whether key `k` is held down; `None` if the keypad has no such key.
    pub fn key_state(&self, k: u8) -> (r: Option<bool>)
        ensures
            r == (if self@.keys.contains_key(k) { Some(self@.keys[k]) } else { None::<bool> }),
    {
        Self::lookup_key(&self.keys, k)
    }

    /// 8xyN.
    fn alu(reg: &mut [u8; 16], instr: u16, x: usize, y: usize, n: u16) -> (ok: bool)
        requires
            x as int == op_x(instr),
            y as int == op_y(instr),
            n as int == op_n(instr),
        ensures
            ok == alu_result(old(reg)@, instr) is Some,
            ok ==> final(reg)@ == alu_result(old(reg)@, instr)->0,
            !ok ==> final(reg)@ == old(reg)@,
    {
        match n {
            0x0 => {
                // Set Vx = Vy
                reg[x] = reg[y];
            },
            0x1 => {
                // OR
                reg[x] = reg[x] | reg[y];
            },
            0x2 => {
                // AND
                reg[x] = reg[x] & reg[y];
            },
            0x3 => {
                // XOR
                reg[x] = reg[x] ^ reg[y];
            },
            0x4 => {
                // ADD, VF is carry
                let vx = reg[x];
                let vy = reg[y];
                let res = vx.wrapping_add(vy);
                let overflow = (vx as u16) + (vy as u16) > 255;
                reg[x] = res;
                if overflow {
                    reg[0xF] = 1;
                } else {
                    reg[0xF] = 0;
                }
            },
            0x5 => {
                // SUB, VF is NOT borrow
                let vx = reg[x];
                let vy = reg[y];
                let res = vx.wrapping_sub(vy);
                let borrow = vx < vy;
                reg[x] = res;
                if borrow {
                    reg[0xF] = 0;
                } else {
                    reg[0xF] = 1;
                }
            },
            0x6 => {
                // SHR: VF is the least significant bit of Vx
                reg[0xF] = 0;
                let v = reg[x];
                assert((v & 1 == 1) == (v % 2 == 1)) by (bit_vector);
                if v & 0b1 == 1 {
                    reg[0xF] = 1;
                }
                let w = reg[x];
                assert(w >> 1 == w / 2) by (bit_vector);
                reg[x] = w >> 1;
            },
            0x7 => {
                // SUBN: Vx = Vy - Vx, VF is NOT borrow
                let vx = reg[x];
                let vy = reg[y];
                let res = vy.wrapping_sub(vx);
                let borrow = vy < vx;
                reg[x] = res;
                if borrow {
                    reg[0xF] = 0;
                } else {
                    reg[0xF] = 1;
                }
            },
            0xE => {
                // SHL: VF is the most significant bit of Vx
                reg[0xF] = 0;
                let v = reg[x];
                assert(((v & 0x80) != 0) == (v >= 128)) by (bit_vector);
                if (v & 0x80) != 0 {
                    reg[0xF] = 1;
                }
                let w = reg[x];
                assert(w << 1 == ((w * 2) % 256) as u8) by (bit_vector);
                reg[x] = w << 1;
            },
            _ => {
                return false;
            },
        }
        true
    }
}

} // verus!
