//! The machine as a mathematical value, and what loading a program, running
//! an instruction, a key press and the passing of a frame do to it.
//!
//! [`crate::cpu::CPU`] is the machine that runs; [`Machine`] is what its
//! contracts speak of.

use crate::display::{blank, collides, draw};
use crate::keyboard::{KeyEvent, KeyboardView};
use crate::opcode::{family, field_n, field_nn, field_nnn, field_x, field_y};
use vstd::prelude::*;

verus! {

/// Bytes of memory.
pub const MEMORY_LEN: usize = 0x1000;

/// First address of the built-in glyphs.
pub const MEMORY_FONT_START: u16 = 0x0000;

/// Last address of the region kept for the built-in glyphs.
pub const MEMORY_FONT_END: u16 = 0x01FF;

/// Address at which a program is loaded and starts.
pub const MEMORY_PROGRAM_BASE: u16 = 0x0200;

/// Last address of the program region.
pub const MEMORY_PROGRAM_END: u16 = 0x0FFF;

/// Bytes in the program region: the longest program that can be loaded.
pub const MEMORY_PROGRAM_LEN: usize = 0x0E00;

/// Return addresses that the call stack can hold.
pub const STACK_CAPACITY: usize = 64;

/// Instructions run in one frame, unless the machine stops before.
pub const OPCODES_PER_FRAME: u8 = 16;

/// Frames in a second.
pub const FPS: u64 = 60;

/// Microseconds that one frame lasts.
pub const MICROS_PER_FRAME: u64 = 1_000_000 / FPS;

/// The glyphs of the sixteen hexadecimal digits, five bytes each.
pub const SPRITES: [u8; 80] = [
    0xF0, 0x90, 0x90, 0x90, 0xF0,
    0x20, 0x60, 0x20, 0x20, 0x70,
    0xF0, 0x10, 0xF0, 0x80, 0xF0,
    0xF0, 0x10, 0xF0, 0x10, 0xF0,
    0x90, 0x90, 0xF0, 0x10, 0x10,
    0xF0, 0x80, 0xF0, 0x10, 0xF0,
    0xF0, 0x80, 0xF0, 0x90, 0xF0,
    0xF0, 0x10, 0x20, 0x40, 0x40,
    0xF0, 0x90, 0xF0, 0x90, 0xF0,
    0xF0, 0x90, 0xF0, 0x10, 0xF0,
    0xF0, 0x90, 0xF0, 0x90, 0x90,
    0xE0, 0x90, 0xE0, 0x90, 0xE0,
    0xF0, 0x80, 0x80, 0x80, 0xF0,
    0xE0, 0x90, 0x90, 0x90, 0xE0,
    0xF0, 0x80, 0xF0, 0x80, 0xF0,
    0xF0, 0x80, 0xF0, 0x80, 0x80,
];

/// Why a machine halted.
#[derive(Clone, Copy, Debug, PartialEq, Eq)]
pub enum Fault {
    /// The word fetched is no instruction of the machine.
    UnsupportedOpcode { opcode: u16 },
    /// A call was made with the call stack full.
    StackOverflow,
    /// A return was made with the call stack empty.
    StackUnderflow,
    /// An instruction was to be fetched, or memory read or written, beyond
    /// the end of memory.
    AddressOutOfRange,
}

/// What the engine is doing.
#[derive(Clone, Copy, Debug, PartialEq, Eq)]
pub enum State {
    /// It runs instructions.
    Running,
    /// It waits for a key to go down; the key goes to `register`.
    WaitingForKey { register: u8 },
    /// It has stopped for good.
    Halted { fault: Fault },
}

/// What a frame asks of the tone generator.
#[derive(Clone, Copy, Debug, PartialEq, Eq)]
pub enum SoundSignal {
    /// Nothing: the sound timer was at rest.
    Keep,
    /// Switch the tone on: the sound timer is still running.
    On,
    /// Switch the tone on and then off: the sound timer has run out.
    OnThenOff,
}

/// Why a program was not loaded.
#[derive(Clone, Copy, Debug, PartialEq, Eq)]
pub enum LoadError {
    /// The program is longer than the program region.
    RomTooLarge { len: usize },
}

/// The program counter after it moved past one instruction.
pub open spec fn next_pc(pc: u16) -> u16 {
    ((pc + 2) % 0x10000) as u16
}

/// The flag register's value for a condition.
pub open spec fn flag(condition: bool) -> u8 {
    if condition {
        1
    } else {
        0
    }
}

/// A timer one frame later.
pub open spec fn timer_after_frame(timer: u8) -> u8 {
    if timer > 0 {
        (timer - 1) as u8
    } else {
        0
    }
}

/// The whole state of a machine.
#[verifier::ext_equal]
pub struct Machine {
    /// The sixteen registers V0 to VF.
    pub registers: Seq<u8>,
    /// The program counter.
    pub pc: u16,
    /// The index register I.
    pub index: u16,
    /// The return addresses, the latest last.
    pub stack: Seq<u16>,
    /// The delay timer.
    pub delay_timer: u8,
    /// The sound timer: the tone sounds while it runs.
    pub sound_timer: u8,
    /// The 4096 bytes of memory.
    pub memory: Seq<u8>,
    /// Whether the engine runs, waits for a key, or has halted.
    pub state: State,
    /// The key pad.
    pub keys: KeyboardView,
    /// The 2048 cells of the screen, row by row.
    pub screen: Seq<bool>,
}

impl Machine {
    /// What holds of every machine.
    pub open spec fn wf(self) -> bool {
        &&& self.registers.len() == 16
        &&& self.memory.len() == 4096
        &&& self.stack.len() <= STACK_CAPACITY
        &&& self.screen.len() == 2048
        &&& (self.state matches State::WaitingForKey { register } ==> register < 16)
    }

    /// The machine as it is made: everything zero, the screen blank.
    pub open spec fn initial() -> Machine {
        Machine {
            registers: Seq::new(16, |i: int| 0u8),
            pc: 0,
            index: 0,
            stack: Seq::empty(),
            delay_timer: 0,
            sound_timer: 0,
            memory: Seq::new(4096, |a: int| 0u8),
            state: State::Running,
            keys: KeyboardView::idle(),
            screen: blank(),
        }
    }

    /// The machine with a program loaded: the glyphs stand at the start of
    /// memory, the program from `MEMORY_PROGRAM_BASE` on, the rest of
    /// memory is as it was, and the program counter is at the program's
    /// first instruction.
    pub open spec fn loaded(self, rom: Seq<u8>) -> Machine {
        Machine {
            pc: MEMORY_PROGRAM_BASE,
            memory: Seq::new(
                4096,
                |a: int|
                    if a < 80 {
                        SPRITES@[a]
                    } else if 0x200 <= a < 0x200 + rom.len() {
                        rom[a - 0x200]
                    } else {
                        self.memory[a]
                    },
            ),
            ..self
        }
    }

    /// The machine halted by `fault`.
    pub open spec fn halted(self, fault: Fault) -> Machine {
        Machine { state: State::Halted { fault }, ..self }
    }

    /// The machine with `value` in register `x`.
    pub open spec fn with_register(self, x: int, value: u8) -> Machine {
        Machine { registers: self.registers.update(x, value), ..self }
    }

    /// The machine with its program counter at `pc`.
    pub open spec fn with_pc(self, pc: u16) -> Machine {
        Machine { pc, ..self }
    }

    /// Skips the next instruction if `condition` holds.
    pub open spec fn skip_if(self, condition: bool) -> Machine {
        if condition {
            self.with_pc(next_pc(self.pc))
        } else {
            self
        }
    }

    /// `00E0` clears the screen and `00EE` returns from a subroutine. No
    /// other word of family 0 is an instruction.
    pub open spec fn system(self, op: u16) -> Machine {
        if op == 0x00E0 {
            Machine { screen: blank(), ..self }
        } else if op == 0x00EE {
            if self.stack.len() == 0 {
                self.halted(Fault::StackUnderflow)
            } else {
                Machine { pc: self.stack.last(), stack: self.stack.drop_last(), ..self }
            }
        } else {
            self.halted(Fault::UnsupportedOpcode { opcode: op })
        }
    }

    /// `2NNN` calls the subroutine at `NNN`: the address of the instruction
    /// after the call goes on the stack.
    pub open spec fn call(self, op: u16) -> Machine {
        if self.stack.len() >= STACK_CAPACITY {
            self.halted(Fault::StackOverflow)
        } else {
            Machine { pc: field_nnn(op) as u16, stack: self.stack.push(self.pc), ..self }
        }
    }

    /// The register-to-register instructions `8XY0` to `8XY7` and `8XYE`.
    /// Sums and differences wrap round; VF is 1 after a carry and after a
    /// subtraction without borrow, else 0. A shift puts the bit that falls
    /// out into VF before it writes VX.
    pub open spec fn alu(self, op: u16) -> Machine {
        let x = field_x(op);
        let vx = self.registers[x];
        let vy = self.registers[field_y(op)];
        let selector = field_n(op);
        if selector == 0x0 {
            self.with_register(x, vy)
        } else if selector == 0x1 {
            self.with_register(x, vx | vy)
        } else if selector == 0x2 {
            self.with_register(x, vx & vy)
        } else if selector == 0x3 {
            self.with_register(x, vx ^ vy)
        } else if selector == 0x4 {
            self.with_register(x, ((vx + vy) % 256) as u8).with_register(0xF, flag(vx + vy > 255))
        } else if selector == 0x5 {
            self.with_register(x, ((vx - vy) % 256) as u8).with_register(0xF, flag(vx >= vy))
        } else if selector == 0x6 {
            self.with_register(0xF, flag(vx % 2 == 1)).with_register(x, vx / 2)
        } else if selector == 0x7 {
            self.with_register(x, ((vy - vx) % 256) as u8).with_register(0xF, flag(vy >= vx))
        } else if selector == 0xE {
            self.with_register(0xF, flag(vx >= 128)).with_register(x, ((vx * 2) % 256) as u8)
        } else {
            self.halted(Fault::UnsupportedOpcode { opcode: op })
        }
    }

    /// The rows of the sprite that `DXYN` draws: the `N` bytes at I.
    pub open spec fn sprite_rows(self, op: u16) -> Seq<u8> {
        if field_n(op) == 0 {
            Seq::empty()
        } else {
            self.memory.subrange(self.index as int, self.index + field_n(op))
        }
    }

    /// The column and the row at which `DXYN` draws: VX and VY, read when VF
    /// has been reset, so that a coordinate taken from VF itself is 0.
    pub open spec fn sprite_origin(self, op: u16) -> (int, int) {
        let cleared = self.registers.update(0xF, 0u8);
        (cleared[field_x(op)] as int, cleared[field_y(op)] as int)
    }

    /// `DXYN` resets VF, draws the sprite at column VX and row VY, and
    /// leaves in VF whether a lit cell went off. A sprite that reaches
    /// beyond the end of memory halts the machine, and nothing is drawn.
    pub open spec fn sprite(self, op: u16) -> Machine {
        let (x, y) = self.sprite_origin(op);
        let rows = self.sprite_rows(op);
        if field_n(op) > 0 && self.index + field_n(op) > MEMORY_LEN {
            self.halted(Fault::AddressOutOfRange)
        } else {
            Machine {
                screen: draw(self.screen, rows, x, y),
                registers: self.registers.update(0xF, flag(collides(self.screen, rows, x, y))),
                ..self
            }
        }
    }

    /// `EX9E` skips if the key that VX names is down, `EXA1` if it is not.
    pub open spec fn key_skip(self, op: u16) -> Machine {
        let down = self.keys.pressed.contains(self.registers[field_x(op)]);
        if field_nn(op) == 0x9E {
            self.skip_if(down)
        } else if field_nn(op) == 0xA1 {
            self.skip_if(!down)
        } else {
            self.halted(Fault::UnsupportedOpcode { opcode: op })
        }
    }

    /// `FX33` stores the decimal digits of VX at I, I + 1 and I + 2.
    pub open spec fn store_bcd(self, op: u16) -> Machine {
        let vx = self.registers[field_x(op)];
        let i = self.index as int;
        if i + 2 >= MEMORY_LEN {
            self.halted(Fault::AddressOutOfRange)
        } else {
            Machine {
                memory: self.memory.update(i, vx / 100).update(i + 1, (vx / 10) % 10).update(
                    i + 2,
                    vx % 10,
                ),
                ..self
            }
        }
    }

    /// `FX55` stores V0 to VX at I and leaves I behind the last byte.
    pub open spec fn store_registers(self, op: u16) -> Machine {
        let x = field_x(op);
        let i = self.index as int;
        if i + x >= MEMORY_LEN {
            self.halted(Fault::AddressOutOfRange)
        } else {
            Machine {
                memory: Seq::new(
                    4096,
                    |a: int|
                        if i <= a <= i + x {
                            self.registers[a - i]
                        } else {
                            self.memory[a]
                        },
                ),
                index: (i + x + 1) as u16,
                ..self
            }
        }
    }

    /// `FX65` fills V0 to VX from I and leaves I behind the last byte.
    pub open spec fn load_registers(self, op: u16) -> Machine {
        let x = field_x(op);
        let i = self.index as int;
        if i + x >= MEMORY_LEN {
            self.halted(Fault::AddressOutOfRange)
        } else {
            Machine {
                registers: Seq::new(
                    16,
                    |r: int|
                        if r <= x {
                            self.memory[i + r]
                        } else {
                            self.registers[r]
                        },
                ),
                index: (i + x + 1) as u16,
                ..self
            }
        }
    }

    /// The instructions of family F: timers, the wait for a key, the index
    /// register, and the transfers between registers and memory.
    pub open spec fn misc(self, op: u16) -> Machine {
        let x = field_x(op);
        let vx = self.registers[x];
        let selector = field_nn(op);
        if selector == 0x07 {
            self.with_register(x, self.delay_timer)
        } else if selector == 0x0A {
            Machine { state: State::WaitingForKey { register: x as u8 }, ..self }
        } else if selector == 0x15 {
            Machine { delay_timer: vx, ..self }
        } else if selector == 0x18 {
            Machine { sound_timer: vx, ..self }
        } else if selector == 0x1E {
            Machine { index: ((self.index + vx) % 0x10000) as u16, ..self }
        } else if selector == 0x29 {
            Machine { index: (vx * 5) as u16, ..self }
        } else if selector == 0x33 {
            self.store_bcd(op)
        } else if selector == 0x55 {
            self.store_registers(op)
        } else if selector == 0x65 {
            self.load_registers(op)
        } else {
            self.halted(Fault::UnsupportedOpcode { opcode: op })
        }
    }

    /// What a running machine does with the instruction `op`, after the
    /// program counter has moved past it. `random` is the byte that `CXNN`
    /// masks; no other instruction reads it.
    pub open spec fn dispatch(self, op: u16, random: u8) -> Machine {
        let x = field_x(op);
        let vx = self.registers[x];
        let vy = self.registers[field_y(op)];
        let nn = field_nn(op) as u8;
        let nnn = field_nnn(op) as u16;
        let kind = family(op);
        if kind == 0x0 {
            self.system(op)
        } else if kind == 0x1 {
            self.with_pc(nnn)
        } else if kind == 0x2 {
            self.call(op)
        } else if kind == 0x3 {
            self.skip_if(vx == nn)
        } else if kind == 0x4 {
            self.skip_if(vx != nn)
        } else if kind == 0x5 {
            self.skip_if(vx == vy)
        } else if kind == 0x6 {
            self.with_register(x, nn)
        } else if kind == 0x7 {
            self.with_register(x, ((vx + nn) % 256) as u8)
        } else if kind == 0x8 {
            self.alu(op)
        } else if kind == 0x9 {
            self.skip_if(vx != vy)
        } else if kind == 0xA {
            Machine { index: nnn, ..self }
        } else if kind == 0xB {
            self.with_pc((self.registers[0] + nnn) as u16)
        } else if kind == 0xC {
            self.with_register(x, random & nn)
        } else if kind == 0xD {
            self.sprite(op)
        } else if kind == 0xE {
            self.key_skip(op)
        } else {
            self.misc(op)
        }
    }

    /// The machine after the instruction `op`. Only a running machine runs
    /// an instruction: one that waits or has halted stays as it is.
    pub open spec fn exec(self, op: u16, random: u8) -> Machine {
        if self.state == State::Running {
            self.dispatch(op, random)
        } else {
            self
        }
    }

    /// The word at the program counter, its first byte the high one.
    pub open spec fn fetch(self) -> u16 {
        (self.memory[self.pc as int] * 256 + self.memory[self.pc + 1]) as u16
    }

    /// One step of the engine: fetch the word at the program counter, move
    /// the counter past it, run the instruction. A machine whose counter
    /// stands where no whole word is left halts. One that waits or has
    /// halted stays as it is.
    pub open spec fn step(self, random: u8) -> Machine {
        if self.state != State::Running {
            self
        } else if self.pc + 1 >= MEMORY_LEN {
            self.halted(Fault::AddressOutOfRange)
        } else {
            self.with_pc((self.pc + 2) as u16).exec(self.fetch(), random)
        }
    }

    /// The machine after `steps` steps, of which step `k` is given the byte
    /// `randoms[k]`.
    pub open spec fn run(self, steps: nat, randoms: Seq<u8>) -> Machine
        decreases steps,
    {
        if steps == 0 {
            self
        } else {
            self.run((steps - 1) as nat, randoms).step(randoms[steps - 1])
        }
    }

    /// The machine after it looked for the key it waits for. If a key went
    /// down since the pad was last asked, that key is taken, goes to the
    /// register that waits, and the machine runs again. If none did, or the
    /// machine does not wait, nothing changes.
    pub open spec fn resume(self) -> Machine {
        match (self.state, self.keys.last) {
            (State::WaitingForKey { register }, Some(key)) => Machine {
                registers: self.registers.update(register as int, key),
                keys: self.keys.taken(),
                state: State::Running,
                ..self
            },
            _ => self,
        }
    }

    /// The machine after both timers counted one frame.
    pub open spec fn tick_timers(self) -> Machine {
        Machine {
            delay_timer: timer_after_frame(self.delay_timer),
            sound_timer: timer_after_frame(self.sound_timer),
            ..self
        }
    }

    /// What the tone generator is asked when the timers count a frame.
    pub open spec fn sound_signal(self) -> SoundSignal {
        if self.sound_timer == 0 {
            SoundSignal::Keep
        } else if self.sound_timer == 1 {
            SoundSignal::OnThenOff
        } else {
            SoundSignal::On
        }
    }

    /// The machine after `frames` frames in which only the timers count.
    pub open spec fn tick_timers_times(self, frames: nat) -> Machine
        decreases frames,
    {
        if frames == 0 {
            self
        } else {
            self.tick_timers_times((frames - 1) as nat).tick_timers()
        }
    }

    /// The machine after the key pad was told of `event`.
    pub open spec fn hear(self, event: Option<KeyEvent>) -> Machine {
        match event {
            Some(event) => Machine { keys: self.keys.on_event(event), ..self },
            None => self,
        }
    }

    /// The machine in the middle of a frame: the event is heard; then a
    /// machine that waits looks for its key, and one that runs takes
    /// `OPCODES_PER_FRAME` steps.
    pub open spec fn frame_work(self, event: Option<KeyEvent>, randoms: Seq<u8>) -> Machine {
        let heard = self.hear(event);
        if heard.state is WaitingForKey {
            heard.resume()
        } else {
            heard.run(OPCODES_PER_FRAME as nat, randoms)
        }
    }

    /// The machine after one frame. A halted machine stays as it is. Any
    /// other does the frame's work and then, unless that halted it, counts
    /// its timers.
    pub open spec fn tick(self, event: Option<KeyEvent>, randoms: Seq<u8>) -> Machine {
        if self.state is Halted {
            self
        } else {
            let worked = self.frame_work(event, randoms);
            if worked.state is Halted {
                worked
            } else {
                worked.tick_timers()
            }
        }
    }

    /// What one frame reports: the fault of a machine that is halted at the
    /// frame's end, else the signal for the tone generator.
    pub open spec fn tick_report(self, event: Option<KeyEvent>, randoms: Seq<u8>) -> Result<
        SoundSignal,
        Fault,
    > {
        if self.state is Halted {
            Err(self.state->fault)
        } else {
            let worked = self.frame_work(event, randoms);
            if worked.state is Halted {
                Err(worked.state->fault)
            } else {
                Ok(worked.sound_signal())
            }
        }
    }
}

/// What a run does depends on no more random bytes than it takes steps.
pub proof fn lemma_run_reads_prefix(m: Machine, steps: nat, a: Seq<u8>, b: Seq<u8>)
    requires
        forall|k: int| 0 <= k < steps ==> a[k] == b[k],
    ensures
        m.run(steps, a) == m.run(steps, b),
    decreases steps,
{
    if steps > 0 {
        lemma_run_reads_prefix(m, (steps - 1) as nat, a, b);
    }
}

/// Once a run has left the running state, further steps change nothing.
pub proof fn lemma_run_stays_stopped(m: Machine, stopped: nat, steps: nat, randoms: Seq<u8>)
    requires
        stopped <= steps,
        m.run(stopped, randoms).state != State::Running,
    ensures
        m.run(steps, randoms) == m.run(stopped, randoms),
    decreases steps,
{
    if steps > stopped {
        lemma_run_stays_stopped(m, stopped, (steps - 1) as nat, randoms);
    }
}

} // verus!
