//! What holds of the machine whatever its state: the flags of the
//! arithmetic instructions, skips, calls and returns, sprites drawn twice,
//! the timers, and the wait for a key.

use crate::display::{lemma_draw_twice_restores, lemma_second_draw_collides, misses};
use crate::keyboard::{hex_of_keycode, KeyEvent};
use crate::machine::{
    flag, Fault, Machine, SoundSignal, State, MEMORY_LEN, MEMORY_PROGRAM_LEN, OPCODES_PER_FRAME,
    SPRITES, STACK_CAPACITY,
};
use crate::opcode::{family, field_n, field_nn, field_nnn, field_x, field_y};
use vstd::prelude::*;

verus! {

/// `8XY4` leaves in VF whether the sum of VX and VY is over 255, and in VX,
/// unless VX is VF itself, the sum modulo 256. No other register changes.
pub proof fn law_add_sets_carry(m: Machine, op: u16, random: u8)
    requires
        m.wf(),
        m.state == State::Running,
        family(op) == 0x8,
        field_n(op) == 0x4,
    ensures
        ({
            let x = field_x(op);
            let sum = m.registers[x] + m.registers[field_y(op)];
            let after = m.exec(op, random);
            &&& after.registers[0xF] == flag(sum > 255)
            &&& x != 0xF ==> after.registers[x] == sum % 256
            &&& forall|r: int| 0 <= r < 0xF && r != x ==> after.registers[r] == m.registers[r]
        }),
{
    assert(m.exec(op, random) == m.alu(op));
}

/// `8XY5` leaves in VF whether VX is at least VY, so that nothing is
/// borrowed, and in VX, unless VX is VF itself, the difference modulo 256.
/// No other register changes.
pub proof fn law_sub_sets_no_borrow(m: Machine, op: u16, random: u8)
    requires
        m.wf(),
        m.state == State::Running,
        family(op) == 0x8,
        field_n(op) == 0x5,
    ensures
        ({
            let x = field_x(op);
            let vx = m.registers[x];
            let vy = m.registers[field_y(op)];
            let after = m.exec(op, random);
            &&& after.registers[0xF] == flag(vx >= vy)
            &&& x != 0xF ==> after.registers[x] == (vx - vy) % 256
            &&& forall|r: int| 0 <= r < 0xF && r != x ==> after.registers[r] == m.registers[r]
        }),
{
    assert(m.exec(op, random) == m.alu(op));
}

/// `8XY7` leaves in VF whether VY is at least VX, and in VX, unless VX is
/// VF itself, VY minus VX modulo 256.
pub proof fn law_reverse_sub_sets_no_borrow(m: Machine, op: u16, random: u8)
    requires
        m.wf(),
        m.state == State::Running,
        family(op) == 0x8,
        field_n(op) == 0x7,
    ensures
        ({
            let x = field_x(op);
            let vx = m.registers[x];
            let vy = m.registers[field_y(op)];
            let after = m.exec(op, random);
            &&& after.registers[0xF] == flag(vy >= vx)
            &&& x != 0xF ==> after.registers[x] == (vy - vx) % 256
        }),
{
    assert(m.exec(op, random) == m.alu(op));
}

/// `8XY6` halves VX and `8XYE` doubles it modulo 256; where VX is not VF
/// itself, VF gets the bit that fell out: the lowest for `8XY6`, the highest
/// for `8XYE`.
pub proof fn law_shift_sets_flag(m: Machine, op: u16, random: u8)
    requires
        m.wf(),
        m.state == State::Running,
        family(op) == 0x8,
        field_n(op) == 0x6 || field_n(op) == 0xE,
    ensures
        ({
            let x = field_x(op);
            let vx = m.registers[x];
            let after = m.exec(op, random);
            &&& field_n(op) == 0x6 ==> after.registers[x] == vx / 2
            &&& field_n(op) == 0xE ==> after.registers[x] == (vx * 2) % 256
            &&& x != 0xF && field_n(op) == 0x6 ==> after.registers[0xF] == vx % 2
            &&& x != 0xF && field_n(op) == 0xE ==> after.registers[0xF] == vx / 128
        }),
{
    assert(m.exec(op, random) == m.alu(op));
}

/// What a shift of a register other than VF leaves in the registers does
/// not depend on what VF held before.
pub proof fn law_shift_ignores_flag(m: Machine, op: u16, random: u8, vf: u8)
    requires
        m.wf(),
        m.state == State::Running,
        family(op) == 0x8,
        field_n(op) == 0x6 || field_n(op) == 0xE,
        field_x(op) != 0xF,
    ensures
        m.with_register(0xF, vf).exec(op, random).registers == m.exec(op, random).registers,
{
    assert(m.with_register(0xF, vf).exec(op, random).registers =~= m.exec(op, random).registers);
}

/// A byte is made up of its hundreds, tens and units, each a decimal digit.
proof fn lemma_decimal_digits(v: u8)
    ensures
        (v / 100) * 100 + ((v / 10) % 10) * 10 + v % 10 == v,
        v / 100 < 10,
        (v / 10) % 10 < 10,
        v % 10 < 10,
{
}

/// `FX33` stores the hundreds, tens and units of VX at I, I + 1 and I + 2,
/// and changes no other byte of memory.
pub proof fn law_bcd_digits(m: Machine, op: u16, random: u8)
    requires
        m.wf(),
        m.state == State::Running,
        family(op) == 0xF,
        field_nn(op) == 0x33,
        m.index + 2 < MEMORY_LEN,
    ensures
        ({
            let vx = m.registers[field_x(op)];
            let i = m.index as int;
            let after = m.exec(op, random);
            &&& after.memory[i] * 100 + after.memory[i + 1] * 10 + after.memory[i + 2] == vx
            &&& after.memory[i] < 10 && after.memory[i + 1] < 10 && after.memory[i + 2] < 10
            &&& forall|a: int|
                0 <= a < 4096 && !(i <= a <= i + 2) ==> after.memory[a] == m.memory[a]
        }),
{
    assert(m.exec(op, random) == m.store_bcd(op));
    lemma_decimal_digits(m.registers[field_x(op)]);
}

/// A sprite drawn twice leaves the screen as it was, and the second drawing
/// reports a collision just where the first lit a cell: where a set bit of
/// the sprite fell on an unlit cell.
pub proof fn law_draw_twice(m: Machine, op: u16, first: u8, second: u8)
    requires
        m.wf(),
        m.state == State::Running,
        family(op) == 0xD,
        field_n(op) == 0 || m.index + field_n(op) <= MEMORY_LEN,
    ensures
        ({
            let (x, y) = m.sprite_origin(op);
            let twice = m.exec(op, first).exec(op, second);
            &&& twice.screen == m.screen
            &&& twice.registers[0xF] == flag(
                exists|row: int, col: int| #[trigger]
                    misses(m.screen, m.sprite_rows(op), x, y, row, col),
            )
        }),
{
    let (x, y) = m.sprite_origin(op);
    let rows = m.sprite_rows(op);
    let once = m.exec(op, first);
    assert(once.sprite_rows(op) == rows);
    assert(once.sprite_origin(op) == (x, y));
    lemma_draw_twice_restores(m.screen, rows, x, y);
    lemma_second_draw_collides(m.screen, rows, x, y);
}

/// After any number of frames a timer stands at what it held less the
/// frames, and at zero once as many frames have passed as it held.
pub proof fn law_timers_count_down(m: Machine, frames: nat)
    ensures
        m.tick_timers_times(frames).delay_timer == if m.delay_timer >= frames {
            m.delay_timer - frames
        } else {
            0
        },
        m.tick_timers_times(frames).sound_timer == if m.sound_timer >= frames {
            m.sound_timer - frames
        } else {
            0
        },
    decreases frames,
{
    if frames > 0 {
        law_timers_count_down(m, (frames - 1) as nat);
    }
}

/// A step that fetches `3XNN` moves the program counter by 4 if VX equals
/// `NN`, and by 2 if it does not.
pub proof fn law_skip_if_equal(m: Machine, random: u8)
    requires
        m.wf(),
        m.state == State::Running,
        m.pc + 1 < MEMORY_LEN,
        family(m.fetch()) == 0x3,
    ensures
        m.step(random).pc == if m.registers[field_x(m.fetch())] == field_nn(m.fetch()) {
            m.pc + 4
        } else {
            m.pc + 2
        },
{
}

/// A loaded machine starts at the program's first word, its first byte the
/// high one; and the glyph of digit `d` stands at address `5 * d`, where
/// `FX29` looks for it.
pub proof fn law_load_then_fetch(m: Machine, rom: Seq<u8>, digit: int)
    requires
        m.wf(),
        2 <= rom.len() <= MEMORY_PROGRAM_LEN,
        0 <= digit < 16,
    ensures
        m.loaded(rom).fetch() == rom[0] * 256 + rom[1],
        m.loaded(rom).wf(),
        m.loaded(rom).memory.subrange(5 * digit, 5 * digit + 5) == SPRITES@.subrange(
            5 * digit,
            5 * digit + 5,
        ),
{
    assert(m.loaded(rom).memory.subrange(5 * digit, 5 * digit + 5) =~= SPRITES@.subrange(
        5 * digit,
        5 * digit + 5,
    ));
}

/// A step from an even address leaves the program counter even, unless the
/// instruction is one that sends it where it is told to: a jump, a call, a
/// jump with offset, or a return.
pub proof fn law_pc_stays_even(m: Machine, random: u8)
    requires
        m.wf(),
        m.pc % 2 == 0,
        family(m.fetch()) != 0x1,
        family(m.fetch()) != 0x2,
        family(m.fetch()) != 0xB,
        m.fetch() != 0x00EE,
    ensures
        m.step(random).pc % 2 == 0,
{
}

/// A call goes to `NNN`; and a return made with the stack as the call left
/// it goes to the instruction behind the call and leaves the stack as it
/// was before the call. `callee` is the machine that is about to return.
pub proof fn law_return_after_call(caller: Machine, callee: Machine, first: u8, second: u8)
    requires
        caller.wf(),
        caller.state == State::Running,
        caller.pc + 1 < MEMORY_LEN,
        family(caller.fetch()) == 0x2,
        caller.stack.len() < STACK_CAPACITY,
        callee.wf(),
        callee.state == State::Running,
        callee.pc + 1 < MEMORY_LEN,
        callee.fetch() == 0x00EE,
        callee.stack == caller.step(first).stack,
    ensures
        caller.step(first).pc == field_nnn(caller.fetch()),
        callee.step(second).pc == caller.pc + 2,
        callee.step(second).stack == caller.stack,
{
    assert(caller.stack.push((caller.pc + 2) as u16).drop_last() =~= caller.stack);
}

/// `FX0A` makes the machine wait. While it waits, steps change nothing.
/// When a pad key goes down, the machine takes it into VX and runs again,
/// with the program counter where it was.
pub proof fn law_key_press_resumes(m: Machine, op: u16, random: u8, keycode: i32)
    requires
        m.wf(),
        m.state == State::Running,
        family(op) == 0xF,
        field_nn(op) == 0x0A,
        hex_of_keycode(keycode) is Some,
    ensures
        ({
            let waiting = m.exec(op, random);
            let resumed = waiting.hear(Some(KeyEvent::KeyDown { keycode: Some(keycode) })).resume();
            &&& waiting.state == State::WaitingForKey { register: field_x(op) as u8 }
            &&& waiting.step(random) == waiting
            &&& resumed.state == State::Running
            &&& resumed.registers == m.registers.update(
                field_x(op),
                hex_of_keycode(keycode).unwrap(),
            )
            &&& resumed.pc == m.pc
        }),
{
}

/// Only `CXNN` reads the random byte: any other instruction, and a step that
/// fetches any other, does the same whatever the byte.
pub proof fn law_random_only_masks(m: Machine, op: u16, first: u8, second: u8)
    ensures
        family(op) != 0xC ==> m.exec(op, first) == m.exec(op, second),
        family(m.fetch()) != 0xC ==> m.step(first) == m.step(second),
        family(op) == 0xC && m.state == State::Running ==> m.exec(op, first) == m.with_register(
            field_x(op),
            first & (field_nn(op) as u8),
        ),
{
}

/// A machine that has halted stays as it is, whatever is done with it.
pub proof fn law_halted_is_final(
    m: Machine,
    op: u16,
    random: u8,
    event: Option<KeyEvent>,
    randoms: Seq<u8>,
)
    requires
        m.state is Halted,
    ensures
        m.exec(op, random) == m,
        m.step(random) == m,
        m.resume() == m,
        m.tick(event, randoms) == m,
        m.tick_report(event, randoms) == Err::<SoundSignal, Fault>(m.state->fault),
{
}

/// A sound machine stays sound: after an instruction, a step, a look for
/// the awaited key, a count of the timers, and a frame.
pub proof fn law_wf_is_kept(
    m: Machine,
    op: u16,
    random: u8,
    event: Option<KeyEvent>,
    randoms: Seq<u8>,
)
    requires
        m.wf(),
    ensures
        m.exec(op, random).wf(),
        m.step(random).wf(),
        m.resume().wf(),
        m.tick_timers().wf(),
        m.tick(event, randoms).wf(),
{
    lemma_exec_keeps_wf(m, op, random);
    lemma_exec_keeps_wf(m.with_pc((m.pc + 2) as u16), m.fetch(), random);
    lemma_run_keeps_wf(m.hear(event), OPCODES_PER_FRAME as nat, randoms);
}

/// An instruction leaves a sound machine sound.
proof fn lemma_exec_keeps_wf(m: Machine, op: u16, random: u8)
    requires
        m.wf(),
    ensures
        m.exec(op, random).wf(),
{
}

/// Any number of steps leave a sound machine sound.
proof fn lemma_run_keeps_wf(m: Machine, steps: nat, randoms: Seq<u8>)
    requires
        m.wf(),
    ensures
        m.run(steps, randoms).wf(),
    decreases steps,
{
    if steps > 0 {
        lemma_run_keeps_wf(m, (steps - 1) as nat, randoms);
        let before = m.run((steps - 1) as nat, randoms);
        lemma_exec_keeps_wf(
            before.with_pc((before.pc + 2) as u16),
            before.fetch(),
            randoms[steps - 1],
        );
    }
}

} // verus!
