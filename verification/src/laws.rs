//! Properties of the machine that span several instructions, ticks or
//! commands, proved over the specification in `crate::machine`.
use vstd::prelude::*;
use crate::command::EmulatorCommand;
use crate::machine::{
    MachineView, StepOutcome, execute_spec, tick_spec, command_spec, fault_of, op_class,
    op_x, op_y, op_n, op_kk, op_nnn, is_font_address, font_byte, glyph_row, first_key_down_from,
    has_keypad, initial_machine, blank_display, loaded_memory, fetch_word, drawn_display,
    draw_collides, sprite_covers, flag_reg, sprite_bit, lemma_wrap32, lemma_wrap64,
};

verus! {

/// The machine after `n` timer ticks from frame counter `c`.
pub open spec fn run_ticks(s: MachineView, c: u32, n: nat) -> (MachineView, u32)
    decreases n,
{
    if n == 0 {
        (s, c)
    } else {
        let (s1, c1, _) = tick_spec(s, c);
        run_ticks(s1, c1, (n - 1) as nat)
    }
}

/// A fresh machine satisfies the machine invariant.
pub proof fn law_initial_machine_wf()
    ensures
        initial_machine().wf(),
{
    let s = initial_machine();
    assert forall|k: u8| k < 16 implies #[trigger] s.keys.contains_key(k) by {}
}

/// Every instruction that runs into no fault keeps the machine invariant.
pub proof fn law_execute_keeps_wf(s: MachineView, instr: u16, rnd: u8)
    requires
        s.wf(),
        s.pc < 4095,
        fault_of(s, instr) is None,
    ensures
        execute_spec(s, instr, rnd).0.wf(),
{
    let t = s.with_pc((s.pc + 2) as u16);
    let r = execute_spec(s, instr, rnd).0;
    if instr == 0x00E0 {
        assert(r.display == blank_display());
    } else if op_class(instr) == 0xD {
        let vx = t.reg[op_x(instr)] as int;
        let vy = t.reg[op_y(instr)] as int;
        assert(r.display == drawn_display(t.display, t.mem, t.i as int, vx, vy, op_n(instr)));
    }
}

/// A call followed by a return at the called address resumes right after
/// the call, with the stack and every other part of the machine as before
/// the call.
pub proof fn law_call_then_return(s: MachineView, call: u16, r1: u8, r2: u8)
    requires
        s.wf(),
        s.pc < 4095,
        op_class(call) == 2,
        s.sp < 255,
    ensures
        ({
            let (s1, o1) = execute_spec(s, call, r1);
            let (s2, o2) = execute_spec(s1, 0x00EE, r2);
            &&& o1 == StepOutcome::Continue
            &&& o2 == StepOutcome::Continue
            &&& s1.pc == op_nnn(call)
            &&& s2 == s.with_pc((s.pc + 2) as u16)
        }),
{
    let (s1, o1) = execute_spec(s, call, r1);
    let (s2, o2) = execute_spec(s1, 0x00EE, r2);
    assert(s1.stack.drop_last() =~= s.stack);
    assert(s2 =~= s.with_pc((s.pc + 2) as u16));
}

/// Drawing the same sprite twice at the same place restores the display
/// and leaves memory and I as they were.
pub proof fn law_draw_twice_restores_display(s: MachineView, instr: u16, r1: u8, r2: u8)
    requires
        s.wf(),
        s.pc < 4095,
        op_class(instr) == 0xD,
        op_x(instr) != flag_reg(),
        op_y(instr) != flag_reg(),
        fault_of(s, instr) is None,
    ensures
        ({
            let s1 = execute_spec(s, instr, r1).0;
            let s2 = execute_spec(s1, instr, r2).0;
            &&& s2.display == s.display
            &&& s2.mem == s.mem
            &&& s2.i == s.i
        }),
{
    let s1 = execute_spec(s, instr, r1).0;
    let s2 = execute_spec(s1, instr, r2).0;
    let vx = s.reg[op_x(instr)] as int;
    let vy = s.reg[op_y(instr)] as int;
    let n = op_n(instr);
    assert(s1.reg[op_x(instr)] == s.reg[op_x(instr)]);
    assert(s1.reg[op_y(instr)] == s.reg[op_y(instr)]);
    assert forall|r: int| 0 <= r < 32 implies #[trigger] s2.display[r] =~= s.display[r] by {
        assert forall|c: int| 0 <= c < 64 implies s2.display[r][c] == s.display[r][c] by {
            assert(s1.display[r][c] == (s.display[r][c] != sprite_covers(
                s.mem,
                s.i as int,
                vx,
                vy,
                n,
                r,
                c,
            )));
        }
    }
    assert(s2.display =~= s.display);
}

/// Drawing on a blank display never reports a collision.
pub proof fn law_draw_on_blank_display_no_collision(s: MachineView, instr: u16, rnd: u8)
    requires
        s.wf(),
        s.display == blank_display(),
        op_class(instr) == 0xD,
    ensures
        execute_spec(s, instr, rnd).0.reg[flag_reg()] == 0,
{
    let t = s.with_pc((s.pc + 2) as u16);
    let vx = t.reg[op_x(instr)] as int;
    let vy = t.reg[op_y(instr)] as int;
    assert(!draw_collides(t.display, t.mem, t.i as int, vx, vy, op_n(instr)));
}

/// Fx33 stores the three decimal digits of Vx: hundreds, tens, ones.
pub proof fn law_bcd_digits(s: MachineView, instr: u16, rnd: u8)
    requires
        s.wf(),
        op_class(instr) == 0xF,
        op_kk(instr) == 0x33,
        fault_of(s, instr) is None,
    ensures
        ({
            let s1 = execute_spec(s, instr, rnd).0;
            let i = s.i as int;
            &&& s1.mem[i] <= 2
            &&& s1.mem[i + 1] < 10
            &&& s1.mem[i + 2] < 10
            &&& 100 * s1.mem[i] + 10 * s1.mem[i + 1] + s1.mem[i + 2] == s.reg[op_x(instr)]
        }),
{
}

/// Storing V0..=Vx with Fx55 and loading them back with Fx65 from the same
/// index leaves the registers as they were.
pub proof fn law_store_then_load_registers(s: MachineView, store: u16, load: u16, r1: u8, r2: u8)
    requires
        s.wf(),
        op_class(store) == 0xF,
        op_kk(store) == 0x55,
        op_class(load) == 0xF,
        op_kk(load) == 0x65,
        op_x(store) == op_x(load),
        fault_of(s, store) is None,
    ensures
        execute_spec(execute_spec(s, store, r1).0, load, r2).0.reg == s.reg,
{
    let s1 = execute_spec(s, store, r1).0;
    let s2 = execute_spec(s1, load, r2).0;
    assert(s2.reg =~= s.reg);
}

/// 8xy4 adds with carry: Vx + 256 * VF is the full sum (for x other than F).
pub proof fn law_add_with_carry(s: MachineView, instr: u16, rnd: u8)
    requires
        s.wf(),
        op_class(instr) == 8,
        op_n(instr) == 4,
        op_x(instr) != flag_reg(),
    ensures
        ({
            let s1 = execute_spec(s, instr, rnd).0;
            &&& s1.reg[flag_reg()] <= 1
            &&& s1.reg[op_x(instr)] + 256 * s1.reg[flag_reg()] == s.reg[op_x(instr)] + s.reg[op_y(
                instr,
            )]
        }),
{
}

/// 8xy5 subtracts with borrow: Vx - Vy is the new Vx, less 256 when VF
/// (NOT borrow) is 0 (for x other than F).
pub proof fn law_sub_with_borrow(s: MachineView, instr: u16, rnd: u8)
    requires
        s.wf(),
        op_class(instr) == 8,
        op_n(instr) == 5,
        op_x(instr) != flag_reg(),
    ensures
        ({
            let s1 = execute_spec(s, instr, rnd).0;
            &&& s1.reg[flag_reg()] <= 1
            &&& s.reg[op_x(instr)] - s.reg[op_y(instr)] == s1.reg[op_x(instr)] - 256 * (1
                - s1.reg[flag_reg()])
        }),
{
}

/// 8xy7 subtracts the other way with borrow: Vy - Vx is the new Vx, less
/// 256 when VF (NOT borrow) is 0 (for x other than F).
pub proof fn law_reverse_sub_with_borrow(s: MachineView, instr: u16, rnd: u8)
    requires
        s.wf(),
        op_class(instr) == 8,
        op_n(instr) == 7,
        op_x(instr) != flag_reg(),
    ensures
        ({
            let s1 = execute_spec(s, instr, rnd).0;
            &&& s1.reg[flag_reg()] <= 1
            &&& s.reg[op_y(instr)] - s.reg[op_x(instr)] == s1.reg[op_x(instr)] - 256 * (1
                - s1.reg[flag_reg()])
        }),
{
}

/// 8xy6 shifts right: twice the new Vx plus VF (the bit shifted out) is the
/// old Vx (for x other than F).
pub proof fn law_shift_right(s: MachineView, instr: u16, rnd: u8)
    requires
        s.wf(),
        op_class(instr) == 8,
        op_n(instr) == 6,
        op_x(instr) != flag_reg(),
    ensures
        ({
            let s1 = execute_spec(s, instr, rnd).0;
            &&& s1.reg[flag_reg()] <= 1
            &&& 2 * s1.reg[op_x(instr)] + s1.reg[flag_reg()] == s.reg[op_x(instr)]
        }),
{
}

/// 8xyE shifts left: the new Vx plus 256 times VF (the bit shifted out) is
/// twice the old Vx (for x other than F).
pub proof fn law_shift_left(s: MachineView, instr: u16, rnd: u8)
    requires
        s.wf(),
        op_class(instr) == 8,
        op_n(instr) == 0xE,
        op_x(instr) != flag_reg(),
    ensures
        ({
            let s1 = execute_spec(s, instr, rnd).0;
            &&& s1.reg[flag_reg()] <= 1
            &&& s1.reg[op_x(instr)] + 256 * s1.reg[flag_reg()] == 2 * s.reg[op_x(instr)]
        }),
{
}

/// No instruction changes the keypad, the pause state or the speed: those
/// belong to the host.
pub proof fn law_execute_keeps_host_state(s: MachineView, instr: u16, rnd: u8)
    ensures
        ({
            let s1 = execute_spec(s, instr, rnd).0;
            &&& s1.keys == s.keys
            &&& s1.paused == s.paused
            &&& s1.speed == s.speed
        }),
{
}

/// Ten unpaused ticks from the start of a frame count each timer down by
/// one (stopping at zero) and end at the start of the next frame; a tick at
/// counts 0..8 asks for no redraw and the tick at count 9 asks for one.
pub proof fn law_ten_ticks_one_frame(s: MachineView)
    requires
        s.wf(),
        !s.paused,
    ensures
        ({
            let (s10, c10) = run_ticks(s, 0, 10);
            &&& c10 == 0
            &&& s10.dt == (if s.dt > 0 { (s.dt - 1) as u8 } else { 0u8 })
            &&& s10.st == (if s.st > 0 { (s.st - 1) as u8 } else { 0u8 })
            &&& s10 == (MachineView { dt: s10.dt, st: s10.st, ..s })
        }),
        forall|c: u32| c < 9 ==> !(#[trigger] tick_spec(s, c)).2.redraw,
        tick_spec(s, 9).2.redraw,
{
    reveal_with_fuel(run_ticks, 11);
}

/// A paused machine is left unchanged by a tick.
pub proof fn law_paused_tick_changes_nothing(s: MachineView, c: u32)
    requires
        s.paused,
    ensures
        tick_spec(s, c).0 == s,
        tick_spec(s, c).1 == c,
        tick_spec(s, c).2.paused,
{
}

proof fn lemma_no_key_down_from(keys: Map<u8, bool>, k: int)
    requires
        0 <= k <= 16,
        has_keypad(keys),
        forall|j: u8| j < 16 ==> !keys[j],
    ensures
        first_key_down_from(keys, k) is None,
    decreases 16 - k,
{
    if k < 16 {
        assert(keys.contains_key(k as u8));
        lemma_no_key_down_from(keys, k + 1);
    }
}

/// Fx0A with no key held down leaves the machine exactly as it was, so the
/// same instruction runs again on the next cycle.
pub proof fn law_wait_for_key_repeats(s: MachineView, instr: u16, rnd: u8)
    requires
        s.wf(),
        s.pc < 4095,
        op_class(instr) == 0xF,
        op_kk(instr) == 0x0A,
        forall|k: u8| k < 16 ==> !s.keys[k],
    ensures
        execute_spec(s, instr, rnd) == (s, StepOutcome::Continue),
{
    lemma_no_key_down_from(s.keys, 0);
    assert(execute_spec(s, instr, rnd).0 =~= s);
}

/// Fx29 points I at the glyph of the digit in Vx: while the font area is
/// intact, the five bytes at I are that glyph's rows.
pub proof fn law_glyph_address(s: MachineView, instr: u16, rnd: u8)
    requires
        s.wf(),
        op_class(instr) == 0xF,
        op_kk(instr) == 0x29,
        s.reg[op_x(instr)] <= 15,
        forall|a: int| #[trigger] is_font_address(a) ==> s.mem[a] == font_byte(a),
    ensures
        ({
            let s1 = execute_spec(s, instr, rnd).0;
            forall|r: int|
                0 <= r < 5 ==> #[trigger] s1.mem[s1.i + r] == glyph_row(s.reg[op_x(instr)] as int, r)
        }),
{
    let s1 = execute_spec(s, instr, rnd).0;
    let d = s.reg[op_x(instr)] as int;
    assert(s1.i == d * 8);
    assert forall|r: int| 0 <= r < 5 implies #[trigger] s1.mem[s1.i + r] == glyph_row(d, r) by {
        assert(is_font_address(d * 8 + r));
        assert((d * 8 + r) / 8 == d);
        assert((d * 8 + r) % 8 == r);
    }
}

/// Pressing a key and then releasing it leaves it released; the keypad
/// keeps all its keys.
pub proof fn law_press_then_release(s: MachineView, key: u16)
    requires
        s.wf(),
    ensures
        ({
            let s1 = command_spec(s, EmulatorCommand::KeyPress(key)).0;
            let s2 = command_spec(s1, EmulatorCommand::KeyRelease(key)).0;
            &&& s1.keys[key as u8]
            &&& !s2.keys[key as u8]
            &&& s2.wf()
            &&& s2 == (MachineView { keys: s.keys.insert(key as u8, false), ..s })
        }),
{
    let s1 = command_spec(s, EmulatorCommand::KeyPress(key)).0;
    let s2 = command_spec(s1, EmulatorCommand::KeyRelease(key)).0;
    assert(s2.keys =~= s.keys.insert(key as u8, false));
}

/// After a program image is loaded into a fresh machine, the first
/// instruction fetched is the image's first two bytes.
pub proof fn law_loaded_program_runs_first(rom: Seq<u8>)
    requires
        2 <= rom.len() <= 3584,
    ensures
        ({
            let s = initial_machine();
            let s1 = MachineView { mem: loaded_memory(s.mem, rom), ..s };
            fetch_word(s1) == rom[0] as int * 256 + rom[1] as int
        }),
{
}

/// Dxyn sets VF to 1 exactly when the draw turns off some pixel that was
/// lit before it, in any row of the sprite, and to 0 otherwise.
pub proof fn law_draw_flag_reports_erased_pixel(s: MachineView, instr: u16, rnd: u8)
    requires
        s.wf(),
        instr as int / 4096 == 0xD,
    ensures
        ({
            let s1 = execute_spec(s, instr, rnd).0;
            &&& s1.reg[15] == 0 || s1.reg[15] == 1
            &&& (s1.reg[15] == 1) == (exists|r: int, c: int|
                0 <= r < 32 && 0 <= c < 64 && #[trigger] s.display[r][c] && !s1.display[r][c])
        }),
{
    let t = s.with_pc((s.pc + 2) as u16);
    let s1 = execute_spec(s, instr, rnd).0;
    let vx = t.reg[op_x(instr)] as int;
    let vy = t.reg[op_y(instr)] as int;
    let n = op_n(instr);
    let i = t.i as int;
    let erased = exists|r: int, c: int|
        0 <= r < 32 && 0 <= c < 64 && #[trigger] s.display[r][c] && !s1.display[r][c];
    if draw_collides(s.display, s.mem, i, vx, vy, n) {
        let (k, b) = choose|k: int, b: int|
            0 <= k < n && 0 <= b < 8 && #[trigger] sprite_bit(s.mem[i + k], b) && s.display[(vy
                + k) % 32][(vx + b) % 64];
        let r = (vy + k) % 32;
        let c = (vx + b) % 64;
        lemma_wrap32(vy, k, r);
        lemma_wrap64(vx, b, c);
        assert(sprite_covers(s.mem, i, vx, vy, n, r, c));
        assert(s.display[r][c] && !s1.display[r][c]);
        assert(erased);
    } else {
        assert(!erased) by {
            if erased {
                let (r, c) = choose|r: int, c: int|
                    0 <= r < 32 && 0 <= c < 64 && #[trigger] s.display[r][c] && !s1.display[r][c];
                let k = (r - vy) % 32;
                let b = (c - vx) % 64;
                assert(sprite_covers(s.mem, i, vx, vy, n, r, c));
                lemma_wrap32(vy, k, r);
                lemma_wrap64(vx, b, c);
                assert(sprite_bit(s.mem[i + k], b) && s.display[(vy + k) % 32][(vx + b) % 64]);
                assert(draw_collides(s.display, s.mem, i, vx, vy, n));
            }
        }
    }
}

/// The conditional skips 3xkk (Vx == kk), 4xkk (Vx != kk), 5xy0 (Vx == Vy)
/// and 9xy0 (Vx != Vy) advance the program counter by 4 when their
/// condition holds and by exactly 2 when it does not, changing nothing else.
pub proof fn law_conditional_skips(s: MachineView, instr: u16, rnd: u8)
    requires
        s.wf(),
        s.pc < 4095,
        instr as int / 4096 == 3 || instr as int / 4096 == 4 || instr as int / 4096 == 5
            || instr as int / 4096 == 9,
    ensures
        ({
            let c = instr as int / 4096;
            let vx = s.reg[(instr as int / 256) % 16] as int;
            let vy = s.reg[(instr as int / 16) % 16] as int;
            let kk = instr as int % 256;
            let taken = if c == 3 {
                vx == kk
            } else if c == 4 {
                vx != kk
            } else if c == 5 {
                vx == vy
            } else {
                vx != vy
            };
            execute_spec(s, instr, rnd) == (
                MachineView { pc: (s.pc + if taken { 4int } else { 2int }) as u16, ..s },
                StepOutcome::Continue,
            )
        }),
{
}

/// The scan for a held key from key `k` upward finds the lowest held key at
/// or above `k`, and finds none only when no key in `k..16` is held.
proof fn lemma_first_key_down(keys: Map<u8, bool>, k: int)
    requires
        0 <= k <= 16,
        has_keypad(keys),
    ensures
        match first_key_down_from(keys, k) {
            Some(m) => k <= m < 16 && keys[m] && forall|j: u8| k <= j < m ==> !keys[j],
            None => forall|j: u8| k <= j < 16 ==> !keys[j],
        },
    decreases 16 - k,
{
    if k < 16 {
        assert(keys.contains_key(k as u8));
        lemma_first_key_down(keys, k + 1);
    }
}

/// When some key 0..F is held, Fx0A stores the lowest held key in Vx and
/// moves on to the next instruction; it never waits while a key is held.
pub proof fn law_wait_for_key_takes_lowest_held(s: MachineView, instr: u16, rnd: u8, held: u8)
    requires
        s.wf(),
        s.pc < 4095,
        instr as int / 4096 == 0xF,
        instr as int % 256 == 0x0A,
        held < 16,
        s.keys[held],
    ensures
        ({
            let x = (instr as int / 256) % 16;
            let (s1, o) = execute_spec(s, instr, rnd);
            let v = s1.reg[x];
            &&& o == StepOutcome::Continue
            &&& v <= held
            &&& s.keys[v]
            &&& forall|j: u8| j < v ==> !s.keys[j]
            &&& s1 == (MachineView { reg: s.reg.update(x, v), pc: (s.pc + 2) as u16, ..s })
        }),
{
    lemma_first_key_down(s.keys, 0);
}

/// SetPaused(p) makes the paused flag p, whatever it was, and changes
/// nothing else; it never asks the loop to stop.
pub proof fn law_set_paused(s: MachineView, p: bool)
    ensures
        command_spec(s, EmulatorCommand::SetPaused(p)) == (MachineView { paused: p, ..s }, false),
{
}

/// The five bytes of glyph `d` in memory `m`, read as one big-endian number.
pub open spec fn glyph_code(m: Seq<u8>, d: int) -> int {
    m[8 * d] * 0x1_0000_0000 + m[8 * d + 1] * 0x100_0000 + m[8 * d + 2] * 0x1_0000 + m[8 * d + 3]
        * 0x100 + m[8 * d + 4]
}

/// A power-on machine holds the standard CHIP-8 hexadecimal font: glyph `d`
/// is the five bytes at `8 * d`, and no two of the sixteen glyphs are alike.
pub proof fn law_power_on_font()
    ensures
        ({
            let m = initial_machine().mem;
            &&& m[0x00] == 0xF0 && m[0x01] == 0x90 && m[0x02] == 0x90 && m[0x03] == 0x90 && m[0x04] == 0xF0
            &&& m[0x08] == 0x20 && m[0x09] == 0x60 && m[0x0A] == 0x20 && m[0x0B] == 0x20 && m[0x0C] == 0x70
            &&& m[0x10] == 0xF0 && m[0x11] == 0x10 && m[0x12] == 0xF0 && m[0x13] == 0x80 && m[0x14] == 0xF0
            &&& m[0x18] == 0xF0 && m[0x19] == 0x10 && m[0x1A] == 0xF0 && m[0x1B] == 0x10 && m[0x1C] == 0xF0
            &&& m[0x20] == 0x90 && m[0x21] == 0x90 && m[0x22] == 0xF0 && m[0x23] == 0x10 && m[0x24] == 0x10
            &&& m[0x28] == 0xF0 && m[0x29] == 0x80 && m[0x2A] == 0xF0 && m[0x2B] == 0x10 && m[0x2C] == 0xF0
            &&& m[0x30] == 0xF0 && m[0x31] == 0x80 && m[0x32] == 0xF0 && m[0x33] == 0x90 && m[0x34] == 0xF0
            &&& m[0x38] == 0xF0 && m[0x39] == 0x10 && m[0x3A] == 0x20 && m[0x3B] == 0x40 && m[0x3C] == 0x40
            &&& m[0x40] == 0xF0 && m[0x41] == 0x90 && m[0x42] == 0xF0 && m[0x43] == 0x90 && m[0x44] == 0xF0
            &&& m[0x48] == 0xF0 && m[0x49] == 0x90 && m[0x4A] == 0xF0 && m[0x4B] == 0x10 && m[0x4C] == 0xF0
            &&& m[0x50] == 0xF0 && m[0x51] == 0x90 && m[0x52] == 0xF0 && m[0x53] == 0x90 && m[0x54] == 0x90
            &&& m[0x58] == 0xE0 && m[0x59] == 0x90 && m[0x5A] == 0xE0 && m[0x5B] == 0x90 && m[0x5C] == 0xE0
            &&& m[0x60] == 0xF0 && m[0x61] == 0x80 && m[0x62] == 0x80 && m[0x63] == 0x80 && m[0x64] == 0xF0
            &&& m[0x68] == 0xE0 && m[0x69] == 0x90 && m[0x6A] == 0x90 && m[0x6B] == 0x90 && m[0x6C] == 0xE0
            &&& m[0x70] == 0xF0 && m[0x71] == 0x80 && m[0x72] == 0xF0 && m[0x73] == 0x80 && m[0x74] == 0xF0
            &&& m[0x78] == 0xF0 && m[0x79] == 0x80 && m[0x7A] == 0xF0 && m[0x7B] == 0x80 && m[0x7C] == 0x80
        }),
        forall|d1: int, d2: int|
            0 <= d1 < 16 && 0 <= d2 < 16 && d1 != d2 ==> #[trigger] glyph_code(initial_machine().mem, d1)
                != #[trigger] glyph_code(initial_machine().mem, d2),
{
    let m = initial_machine().mem;
    assert(glyph_code(m, 0) == 0xF0909090F0);
    assert(glyph_code(m, 1) == 0x2060202070);
    assert(glyph_code(m, 2) == 0xF010F080F0);
    assert(glyph_code(m, 3) == 0xF010F010F0);
    assert(glyph_code(m, 4) == 0x9090F01010);
    assert(glyph_code(m, 5) == 0xF080F010F0);
    assert(glyph_code(m, 6) == 0xF080F090F0);
    assert(glyph_code(m, 7) == 0xF010204040);
    assert(glyph_code(m, 8) == 0xF090F090F0);
    assert(glyph_code(m, 9) == 0xF090F010F0);
    assert(glyph_code(m, 10) == 0xF090F09090);
    assert(glyph_code(m, 11) == 0xE090E090E0);
    assert(glyph_code(m, 12) == 0xF0808080F0);
    assert(glyph_code(m, 13) == 0xE0909090E0);
    assert(glyph_code(m, 14) == 0xF080F080F0);
    assert(glyph_code(m, 15) == 0xF080F08080);
    assert forall|d1: int, d2: int|
        0 <= d1 < 16 && 0 <= d2 < 16 && d1 != d2 implies #[trigger] glyph_code(m, d1)
            != #[trigger] glyph_code(m, d2) by {
        assert(d1 == 0 || d1 == 1 || d1 == 2 || d1 == 3 || d1 == 4 || d1 == 5 || d1 == 6 || d1 == 7 || d1 == 8 || d1 == 9 || d1 == 10 || d1 == 11 || d1 == 12 || d1 == 13 || d1 == 14 || d1 == 15);
        assert(d2 == 0 || d2 == 1 || d2 == 2 || d2 == 3 || d2 == 4 || d2 == 5 || d2 == 6 || d2 == 7 || d2 == 8 || d2 == 9 || d2 == 10 || d2 == 11 || d2 == 12 || d2 == 13 || d2 == 14 || d2 == 15);
    }
}

/// Ex9E skips the next instruction exactly when key Vx is held, ExA1
/// exactly when it is not; a key the keypad lacks halts the program.
pub proof fn law_key_skips(s: MachineView, instr: u16, rnd: u8)
    requires
        s.wf(),
        s.pc < 4095,
        instr as int / 4096 == 0xE,
        instr as int % 256 == 0x9E || instr as int % 256 == 0xA1,
    ensures
        ({
            let k = s.reg[(instr as int / 256) % 16];
            let (s1, o) = execute_spec(s, instr, rnd);
            if !s.keys.contains_key(k) {
                o == StepOutcome::Halt(crate::machine::Halt::InvalidKey) && s1 == (MachineView {
                    pc: (s.pc + 2) as u16,
                    ..s
                })
            } else {
                let taken = if instr as int % 256 == 0x9E { s.keys[k] } else { !s.keys[k] };
                o == StepOutcome::Continue && s1 == (MachineView {
                    pc: (s.pc + if taken { 4int } else { 2int }) as u16,
                    ..s
                })
            }
        }),
{
}

/// SetSpeed(v) makes the speed v and Terminate asks the loop to stop; both
/// leave everything else as it was.
pub proof fn law_speed_and_terminate(s: MachineView, v: u16)
    ensures
        command_spec(s, EmulatorCommand::SetSpeed(v)) == (MachineView { speed: v as u32, ..s }, false),
        command_spec(s, EmulatorCommand::Terminate) == (s, true),
{
}

/// Fx55 writes V0..=Vx to I..=I+x, in order, and no other byte of memory;
/// registers and I are unchanged.
pub proof fn law_store_registers_layout(s: MachineView, instr: u16, rnd: u8)
    requires
        s.wf(),
        s.pc < 4095,
        instr as int / 4096 == 0xF,
        instr as int % 256 == 0x55,
        fault_of(s, instr) is None,
    ensures
        ({
            let x = (instr as int / 256) % 16;
            let s1 = execute_spec(s, instr, rnd).0;
            &&& forall|j: int| 0 <= j <= x ==> #[trigger] s1.mem[s.i + j] == s.reg[j]
            &&& forall|a: int|
                0 <= a < 4096 && !(s.i <= a <= s.i + x) ==> #[trigger] s1.mem[a] == s.mem[a]
            &&& s1.mem.len() == 4096
            &&& s1.reg == s.reg
            &&& s1.i == s.i
        }),
{
}

/// Fx65 reads V0..=Vx from I..=I+x, in order, and leaves the other
/// registers, memory and I unchanged.
pub proof fn law_load_registers_layout(s: MachineView, instr: u16, rnd: u8)
    requires
        s.wf(),
        s.pc < 4095,
        instr as int / 4096 == 0xF,
        instr as int % 256 == 0x65,
        fault_of(s, instr) is None,
    ensures
        ({
            let x = (instr as int / 256) % 16;
            let s1 = execute_spec(s, instr, rnd).0;
            &&& forall|j: int| 0 <= j <= x ==> #[trigger] s1.reg[j] == s.mem[s.i + j]
            &&& forall|j: int| x < j < 16 ==> #[trigger] s1.reg[j] == s.reg[j]
            &&& s1.reg.len() == 16
            &&& s1.mem == s.mem
            &&& s1.i == s.i
        }),
{
}

} // verus!
