//! The execution engine: it loads a program, fetches and runs instructions,
//! waits for keys, counts its timers, and does the work of a frame.

use crate::display::Display;
use crate::keyboard::{KeyEvent, Keyboard};
use crate::machine::{
    flag, lemma_run_reads_prefix, lemma_run_stays_stopped, Fault, LoadError, Machine,
    SoundSignal, State, MEMORY_LEN, MEMORY_PROGRAM_BASE, MEMORY_PROGRAM_LEN, MICROS_PER_FRAME,
    OPCODES_PER_FRAME, SPRITES, STACK_CAPACITY,
};
use crate::opcode::{family, field_n, field_x, field_y, lemma_fields_by_mask, Opcode};
use rand::Rng;
use vstd::prelude::*;
use vstd::slice::slice_subrange;

verus! {

/// The engine: registers, memory, call stack and timers, with the key pad it
/// reads and the frame buffer it draws on. Its model is a [`Machine`].
pub struct CPU {
    registers: [u8; 16],
    pc: u16,
    reg_index: u16,
    stack: Vec<u16>,
    delay_timer: u8,
    sound_timer: u8,
    memory: [u8; 4096],
    state: State,
    keyboard: Keyboard,
    display: Display,
}

impl View for CPU {
    type V = Machine;

    closed spec fn view(&self) -> Machine {
        Machine {
            registers: self.registers@,
            pc: self.pc,
            index: self.reg_index,
            stack: self.stack@,
            delay_timer: self.delay_timer,
            sound_timer: self.sound_timer,
            memory: self.memory@,
            state: self.state,
            keys: self.keyboard@,
            screen: self.display@,
        }
    }
}

/// Draws one byte from the generator that `rand::thread_rng` keeps for the
/// calling thread, with `rand::Rng::gen`. Nothing is claimed of the byte:
/// each of the 256 values may come, and two calls may give different ones.
/// The generator takes its seed from the operating system, and panics if
/// the system has no random bytes to give.
#[verifier::external_body]
fn random_byte() -> (byte: u8) {
    rand::thread_rng().gen::<u8>()
}

/// The sum of two bytes, wrapped to a byte, and 1 if it was carried over,
/// else 0.
fn add_with_carry(a: u8, b: u8) -> (r: (u8, u8))
    ensures
        r.0 == (a + b) % 256,
        r.1 == flag(a + b > 255),
{
    let carry: u8 = if a as u16 + b as u16 > 255 { 1 } else { 0 };
    (a.wrapping_add(b), carry)
}

/// The difference of two bytes, wrapped to a byte, and 1 if nothing was
/// borrowed, else 0.
fn sub_with_borrow(a: u8, b: u8) -> (r: (u8, u8))
    ensures
        r.0 == (a - b) % 256,
        r.1 == flag(a >= b),
{
    let no_borrow: u8 = if a >= b { 1 } else { 0 };
    (a.wrapping_sub(b), no_borrow)
}

/// A byte shifted right by one bit, and the bit that fell out.
fn shift_right(a: u8) -> (r: (u8, u8))
    ensures
        r.0 == a / 2,
        r.1 == flag(a % 2 == 1),
{
    assert(a & 0x01 == a % 2 && a >> 1 == a / 2) by (bit_vector);
    (a >> 0x01, a & 0x01)
}

/// A byte shifted left by one bit, and the bit that fell out.
fn shift_left(a: u8) -> (r: (u8, u8))
    ensures
        r.0 == (a * 2) % 256,
        r.1 == flag(a >= 128),
{
    assert(a >> 7 == a / 128 && a << 1 == (a * 2) % 256) by (bit_vector);
    (a << 0x01, a >> 7)
}

impl CPU {
    /// The invariant of the engine: the call stack is within its capacity,
    /// the frame buffer is sound, and a machine that waits for a key waits
    /// with one of the sixteen registers.
    pub closed spec fn wf(&self) -> bool {
        &&& self.stack@.len() <= STACK_CAPACITY
        &&& self.display.wf()
        &&& (self.state matches State::WaitingForKey { register } ==> register < 16)
    }

    /// The model of a sound engine is a sound machine.
    pub proof fn lemma_view_wf(&self)
        requires
            self.wf(),
        ensures
            self@.wf(),
    {
        self.display.lemma_view_len();
    }

    /// An engine with everything at zero, no key down and a blank screen.
    pub fn new() -> (cpu: Self)
        ensures
            cpu.wf(),
            cpu@ == Machine::initial(),
    {
        let cpu = CPU {
            registers: [0; 16],
            pc: 0,
            reg_index: 0,
            stack: Vec::new(),
            delay_timer: 0u8,
            sound_timer: 0u8,
            memory: [0; 4096],
            state: State::Running,
            keyboard: Keyboard::new(),
            display: Display::new(),
        };
        assert(cpu@.registers =~= Machine::initial().registers);
        assert(cpu@.memory =~= Machine::initial().memory);
        cpu
    }

    /// Loads a program: the glyphs go to the start of memory, the program to
    /// `MEMORY_PROGRAM_BASE`, byte for byte, and the program counter to the
    /// program's first instruction. A program longer than the program region
    /// is refused, and nothing changes.
    pub fn init(&mut self, rom: &[u8]) -> (result: Result<(), LoadError>)
        requires
            old(self).wf(),
        ensures
            final(self).wf(),
            rom@.len() <= MEMORY_PROGRAM_LEN ==> result is Ok && final(self)@ == old(self)@.loaded(
                rom@,
            ),
            rom@.len() > MEMORY_PROGRAM_LEN ==> result == Err::<(), LoadError>(
                LoadError::RomTooLarge { len: rom@.len() as usize },
            ) && final(self)@ == old(self)@,
    {
        if rom.len() > MEMORY_PROGRAM_LEN {
            return Err(LoadError::RomTooLarge { len: rom.len() });
        }
        self.pc = MEMORY_PROGRAM_BASE;
        let mut i: usize = 0;
        while i < 80
            invariant
                i <= 80,
                self.wf(),
                self@ == (Machine { memory: self.memory@, pc: MEMORY_PROGRAM_BASE, ..old(self)@ }),
                forall|a: int| 0 <= a < i ==> self.memory@[a] == SPRITES@[a],
                forall|a: int| i <= a < 4096 ==> self.memory@[a] == old(self).memory@[a],
            decreases 80 - i,
        {
            self.memory[i] = SPRITES[i];
            i += 1;
        }
        let mut j: usize = 0;
        while j < rom.len()
            invariant
                j <= rom@.len() <= MEMORY_PROGRAM_LEN,
                self.wf(),
                self@ == (Machine { memory: self.memory@, pc: MEMORY_PROGRAM_BASE, ..old(self)@ }),
                forall|a: int| 0 <= a < 80 ==> self.memory@[a] == SPRITES@[a],
                forall|a: int| 0x200 <= a < 0x200 + j ==> self.memory@[a] == rom@[a - 0x200],
                forall|a: int|
                    80 <= a < 4096 && !(0x200 <= a < 0x200 + j) ==> self.memory@[a] == old(
                        self,
                    ).memory@[a],
            decreases rom@.len() - j,
        {
            self.memory[MEMORY_PROGRAM_BASE as usize + j] = rom[j];
            j += 1;
        }
        assert(self.memory@ =~= old(self)@.loaded(rom@).memory);
        Ok(())
    }

    fn halt(&mut self, fault: Fault)
        requires
            old(self).wf(),
        ensures
            final(self).wf(),
            final(self)@ == old(self)@.halted(fault),
    {
        self.state = State::Halted { fault };
    }

    fn unsupported_instruction(&mut self, opcode: u16)
        requires
            old(self).wf(),
        ensures
            final(self).wf(),
            final(self)@ == old(self)@.halted(Fault::UnsupportedOpcode { opcode }),
    {
        self.halt(Fault::UnsupportedOpcode { opcode });
    }

    fn skip_if(&mut self, condition: bool)
        requires
            old(self).wf(),
        ensures
            final(self).wf(),
            final(self)@ == old(self)@.skip_if(condition),
    {
        if condition {
            self.pc = self.pc.wrapping_add(0x0002);
        }
    }

    fn exec_alu(&mut self, opcode: u16, x: usize, y: usize)
        requires
            old(self).wf(),
            x == field_x(opcode),
            y == field_y(opcode),
        ensures
            final(self).wf(),
            final(self)@ == old(self)@.alu(opcode),
    {
        let vx: u8 = self.registers[x];
        let vy: u8 = self.registers[y];
        let selector: u16 = opcode & 0x000F;
        proof {
            lemma_fields_by_mask(opcode);
        }
        match selector {
            0x0000 => {
                self.registers[x] = vy;
            },
            0x0001 => {
                self.registers[x] = vx | vy;
            },
            0x0002 => {
                self.registers[x] = vx & vy;
            },
            0x0003 => {
                self.registers[x] = vx ^ vy;
            },
            0x0004 => {
                let (val, carry) = add_with_carry(vx, vy);
                self.registers[x] = val;
                self.registers[0x0F] = carry;
            },
            0x0005 => {
                let (val, no_borrow) = sub_with_borrow(vx, vy);
                self.registers[x] = val;
                self.registers[0x0F] = no_borrow;
            },
            0x0006 => {
                let (val, bit) = shift_right(vx);
                self.registers[0x0F] = bit;
                self.registers[x] = val;
            },
            0x0007 => {
                let (val, no_borrow) = sub_with_borrow(vy, vx);
                self.registers[x] = val;
                self.registers[0x0F] = no_borrow;
            },
            0x000E => {
                let (val, bit) = shift_left(vx);
                self.registers[0x0F] = bit;
                self.registers[x] = val;
            },
            _ => self.unsupported_instruction(opcode),
        }
    }

    /// `FX33`: the decimal digits of VX go to I, I + 1 and I + 2.
    fn store_bcd(&mut self, opcode: u16, x: usize)
        requires
            old(self).wf(),
            x == field_x(opcode),
        ensures
            final(self).wf(),
            final(self)@ == old(self)@.store_bcd(opcode),
    {
        let vx: u8 = self.registers[x];
        let i: usize = self.reg_index as usize;
        if i + 2 >= MEMORY_LEN {
            self.halt(Fault::AddressOutOfRange);
        } else {
            self.memory[i] = vx / 100;
            self.memory[i + 1] = (vx / 10) % 10;
            self.memory[i + 2] = vx % 10;
        }
    }

    /// `FX55`: V0 to VX go to memory at I, and I moves behind them.
    fn store_registers(&mut self, opcode: u16, x: usize)
        requires
            old(self).wf(),
            x == field_x(opcode),
        ensures
            final(self).wf(),
            final(self)@ == old(self)@.store_registers(opcode),
    {
        if self.reg_index as usize + x >= MEMORY_LEN {
            self.halt(Fault::AddressOutOfRange);
            return ;
        }
        let ghost base: int = self.reg_index as int;
        let mut i: usize = 0;
        while i <= x
            invariant
                i <= x + 1,
                x < 16,
                base + x < 4096,
                base == old(self).reg_index,
                self.reg_index == base + i,
                self.wf(),
                self@ == (Machine { memory: self.memory@, index: self.reg_index, ..old(self)@ }),
                forall|a: int|
                    0 <= a < 4096 ==> self.memory@[a] == if base <= a < base + i {
                        old(self).registers@[a - base]
                    } else {
                        old(self).memory@[a]
                    },
            decreases x + 1 - i,
        {
            self.memory[self.reg_index as usize] = self.registers[i];
            self.reg_index += 1;
            i += 1;
        }
        assert(self.memory@ =~= old(self)@.store_registers(opcode).memory);
    }

    /// `FX65`: V0 to VX are filled from memory at I, and I moves behind
    /// what was read.
    fn load_registers(&mut self, opcode: u16, x: usize)
        requires
            old(self).wf(),
            x == field_x(opcode),
        ensures
            final(self).wf(),
            final(self)@ == old(self)@.load_registers(opcode),
    {
        if self.reg_index as usize + x >= MEMORY_LEN {
            self.halt(Fault::AddressOutOfRange);
            return ;
        }
        let ghost base: int = self.reg_index as int;
        let mut i: usize = 0;
        while i <= x
            invariant
                i <= x + 1,
                x < 16,
                base + x < 4096,
                base == old(self).reg_index,
                self.reg_index == base + i,
                self.wf(),
                self@ == (Machine {
                    registers: self.registers@,
                    index: self.reg_index,
                    ..old(self)@
                }),
                forall|r: int|
                    0 <= r < 16 ==> self.registers@[r] == if r < i {
                        old(self).memory@[base + r]
                    } else {
                        old(self).registers@[r]
                    },
            decreases x + 1 - i,
        {
            self.registers[i] = self.memory[self.reg_index as usize];
            self.reg_index += 1;
            i += 1;
        }
        assert(self.registers@ =~= old(self)@.load_registers(opcode).registers);
    }

    fn exec_misc(&mut self, opcode: u16, x: usize)
        requires
            old(self).wf(),
            x == field_x(opcode),
        ensures
            final(self).wf(),
            final(self)@ == old(self)@.misc(opcode),
    {
        let vx: u8 = self.registers[x];
        let selector: u16 = opcode & 0x00FF;
        proof {
            lemma_fields_by_mask(opcode);
        }
        match selector {
            0x0007 => {
                self.registers[x] = self.delay_timer;
            },
            0x000A => {
                self.state = State::WaitingForKey { register: x as u8 };
            },
            0x0015 => {
                self.delay_timer = vx;
            },
            0x0018 => {
                self.sound_timer = vx;
            },
            0x001E => {
                self.reg_index = self.reg_index.wrapping_add(vx as u16);
            },
            0x0029 => {
                self.reg_index = (vx as u16) * 5;
            },
            0x0033 => self.store_bcd(opcode, x),
            0x0055 => self.store_registers(opcode, x),
            0x0065 => self.load_registers(opcode, x),
            _ => self.unsupported_instruction(opcode),
        }
    }

    /// `DXYN`: draws the `n` bytes at I as a sprite at column VX and row VY.
    fn draw_sprite(&mut self, opcode: u16, x: usize, y: usize, n: u8)
        requires
            old(self).wf(),
            x == field_x(opcode),
            y == field_y(opcode),
            n == field_n(opcode),
        ensures
            final(self).wf(),
            final(self)@ == old(self)@.sprite(opcode),
    {
        let start: usize = self.reg_index as usize;
        let count: usize = n as usize;
        if count > 0 && start + count > MEMORY_LEN {
            self.halt(Fault::AddressOutOfRange);
            return ;
        }
        self.registers[0xF] = 0;
        let vx: u8 = self.registers[x];
        let vy: u8 = self.registers[y];
        let rows: &[u8] = if count == 0 {
            slice_subrange(self.memory.as_slice(), 0, 0)
        } else {
            slice_subrange(self.memory.as_slice(), start, start + count)
        };
        assert(rows@ =~= old(self)@.sprite_rows(opcode));
        if self.display.draw_sprite(vx, vy, rows) {
            self.registers[0xF] = 1;
        }
        assert(self.registers@ =~= old(self)@.sprite(opcode).registers);
    }

    /// Runs the instruction `opcode` with `random` as the byte that `CXNN`
    /// masks, and says what the engine does afterwards. The program counter
    /// is taken to stand behind the instruction already. An engine that
    /// waits or has halted runs nothing.
    pub fn exec_opcode_with_random(&mut self, opcode: &Opcode, random: u8) -> (state: State)
        requires
            old(self).wf(),
        ensures
            final(self).wf(),
            final(self)@ == old(self)@.exec(opcode.0, random),
            state == final(self)@.state,
    {
        match self.state {
            State::Running => {},
            _ => {
                return self.state;
            },
        }
        let x: usize = opcode.x();
        let y: usize = opcode.y();
        let n: u8 = opcode.n();
        let nn: u8 = opcode.nn();
        let nnn: u16 = opcode.nnn();
        let opcode: u16 = opcode.0;
        let vx: u8 = self.registers[x];
        let vy: u8 = self.registers[y];
        let kind: u16 = opcode & 0xF000;
        proof {
            lemma_fields_by_mask(opcode);
            assert(vx.wrapping_add(nn) == ((vx + nn) % 256) as u8);
        }
        match kind {
            0x0000 => {
                match opcode {
                    0x00E0 => {
                        self.display.clear();
                    },
                    0x00EE => {
                        match self.stack.pop() {
                            Some(address) => {
                                self.pc = address;
                            },
                            None => self.halt(Fault::StackUnderflow),
                        }
                    },
                    _ => self.unsupported_instruction(opcode),
                }
            },
            0x1000 => {
                self.pc = nnn;
            },
            0x2000 => {
                if self.stack.len() >= STACK_CAPACITY {
                    self.halt(Fault::StackOverflow);
                } else {
                    self.stack.push(self.pc);
                    self.pc = nnn;
                }
            },
            0x3000 => self.skip_if(vx == nn),
            0x4000 => self.skip_if(vx != nn),
            0x5000 => self.skip_if(vx == vy),
            0x6000 => {
                self.registers[x] = nn;
            },
            0x7000 => {
                self.registers[x] = vx.wrapping_add(nn);
            },
            0x8000 => self.exec_alu(opcode, x, y),
            0x9000 => self.skip_if(vx != vy),
            0xA000 => {
                self.reg_index = nnn;
            },
            0xB000 => {
                self.pc = (self.registers[0] as u16) + nnn;
            },
            0xC000 => {
                self.registers[x] = random & nn;
            },
            0xD000 => self.draw_sprite(opcode, x, y, n),
            0xE000 => {
                let down: bool = self.keyboard.is_pressed(vx);
                match opcode & 0x00FF {
                    0x009E => self.skip_if(down),
                    0x00A1 => self.skip_if(!down),
                    _ => self.unsupported_instruction(opcode),
                }
            },
            _ => self.exec_misc(opcode, x),
        }
        self.state
    }

    /// Runs the instruction `opcode`, for which `CXNN` draws its byte at
    /// random, and says what the engine does afterwards.
    pub fn exec_opcode(&mut self, opcode: &Opcode) -> (state: State)
        requires
            old(self).wf(),
        ensures
            final(self).wf(),
            exists|random: u8| final(self)@ == old(self)@.exec(opcode.0, random),
            family(opcode.0) != 0xC ==> final(self)@ == old(self)@.exec(opcode.0, 0),
            state == final(self)@.state,
    {
        let random: u8 = if opcode.0 & 0xF000 == 0xC000 {
            random_byte()
        } else {
            0
        };
        proof {
            lemma_fields_by_mask(opcode.0);
        }
        self.exec_opcode_with_random(opcode, random)
    }

    /// The word at the program counter, its first byte the high one.
    fn read_opcode(&self) -> (opcode: Opcode)
        requires
            self.pc + 1 < MEMORY_LEN,
        ensures
            opcode.0 == self@.fetch(),
    {
        let pc: u16 = self.pc;
        let high: u16 = self.memory[pc as usize] as u16;
        let low: u16 = self.memory[(pc + 1) as usize] as u16;
        assert(high < 256 && low < 256 ==> (high << 8) | low == high * 256 + low) by (bit_vector);
        Opcode((high << 8) | low)
    }

    /// One step of the engine: fetches the word at the program counter,
    /// moves the counter past it and runs the instruction. Says what the
    /// engine does afterwards.
    pub fn step(&mut self) -> (state: State)
        requires
            old(self).wf(),
        ensures
            final(self).wf(),
            exists|random: u8| final(self)@ == old(self)@.step(random),
            state == final(self)@.state,
    {
        match self.state {
            State::Running => {},
            _ => {
                assert(self@ == old(self)@.step(0));
                return self.state;
            },
        }
        if self.pc as usize + 1 >= MEMORY_LEN {
            self.halt(Fault::AddressOutOfRange);
            assert(self@ == old(self)@.step(0));
            return self.state;
        }
        let opcode: Opcode = self.read_opcode();
        self.pc = self.pc + 0x0002;
        let ghost fetched = self@;
        let state: State = self.exec_opcode(&opcode);
        proof {
            let random = choose|random: u8| self@ == fetched.exec(opcode.0, random);
            assert(self@ == old(self)@.step(random));
        }
        state
    }

    /// Takes up to `opcodes_per_frame` steps, and stops before that when the
    /// engine waits for a key or halts. Says what the engine does afterwards.
    pub fn exec_opcodes(&mut self, opcodes_per_frame: u8) -> (state: State)
        requires
            old(self).wf(),
        ensures
            final(self).wf(),
            exists|randoms: Seq<u8>|
                randoms.len() == opcodes_per_frame && final(self)@ == #[trigger] old(self)@.run(
                    opcodes_per_frame as nat,
                    randoms,
                ),
            state == final(self)@.state,
    {
        let ghost mut randoms: Seq<u8> = Seq::empty();
        let mut state: State = self.state;
        let mut done: u8 = 0;
        while done < opcodes_per_frame && matches!(state, State::Running)
            invariant
                done <= opcodes_per_frame,
                self.wf(),
                state == self@.state,
                randoms.len() == done,
                self@ == old(self)@.run(done as nat, randoms),
            decreases opcodes_per_frame - done,
        {
            let ghost before = self@;
            state = self.step();
            proof {
                let random = choose|random: u8| self@ == before.step(random);
                lemma_run_reads_prefix(old(self)@, done as nat, randoms, randoms.push(random));
                randoms = randoms.push(random);
            }
            done += 1;
        }
        proof {
            let rest = Seq::new((opcodes_per_frame - done) as nat, |k: int| 0u8);
            let all = randoms + rest;
            lemma_run_reads_prefix(old(self)@, done as nat, randoms, all);
            if done < opcodes_per_frame {
                lemma_run_stays_stopped(old(self)@, done as nat, opcodes_per_frame as nat, all);
            }
            assert(all.len() == opcodes_per_frame);
            assert(self@ == old(self)@.run(opcodes_per_frame as nat, all));
        }
        state
    }

    /// Looks for the key that the engine waits for. If a key went down
    /// since the pad was last asked, the key goes to the register that
    /// waits and the engine runs again, without a fetch. If none did, the
    /// engine goes on waiting.
    pub fn on_paused(&mut self)
        requires
            old(self).wf(),
        ensures
            final(self).wf(),
            final(self)@ == old(self)@.resume(),
    {
        match self.state {
            State::WaitingForKey { register } => {
                match self.keyboard.last_pressed_key() {
                    Some(key) => {
                        self.registers[register as usize] = key;
                        self.state = State::Running;
                    },
                    None => {
                        assert(self@.keys =~= old(self)@.keys);
                    },
                }
            },
            _ => {},
        }
    }

    /// Counts one frame on both timers: each goes down by one unless it is
    /// at zero. Says what to ask of the tone generator: nothing while the
    /// sound timer rests, on while it runs, and on and then off in the frame
    /// in which it reaches zero.
    pub fn tick_timers(&mut self) -> (signal: SoundSignal)
        requires
            old(self).wf(),
        ensures
            final(self).wf(),
            final(self)@ == old(self)@.tick_timers(),
            signal == old(self)@.sound_signal(),
    {
        if self.delay_timer > 0 {
            self.delay_timer -= 1;
        }
        if self.sound_timer > 0 {
            self.sound_timer -= 1;
            if self.sound_timer == 0 {
                SoundSignal::OnThenOff
            } else {
                SoundSignal::On
            }
        } else {
            SoundSignal::Keep
        }
    }

    /// The engine's part of one frame. The key pad hears `event`; then an
    /// engine that waits looks for its key, and one that runs takes
    /// `OPCODES_PER_FRAME` steps; then the timers count. An engine that has
    /// halted, before the frame or in it, does no more and reports its
    /// fault.
    pub fn tick(&mut self, event: Option<KeyEvent>) -> (report: Result<SoundSignal, Fault>)
        requires
            old(self).wf(),
        ensures
            final(self).wf(),
            exists|randoms: Seq<u8>|
                randoms.len() == OPCODES_PER_FRAME && final(self)@ == #[trigger] old(self)@.tick(
                    event,
                    randoms,
                ) && report == old(self)@.tick_report(event, randoms),
    {
        let ghost zeros: Seq<u8> = Seq::new(OPCODES_PER_FRAME as nat, |k: int| 0u8);
        if let State::Halted { fault } = self.state {
            assert(self@ == old(self)@.tick(event, zeros));
            return Err(fault);
        }
        if let Some(event) = event {
            self.keyboard.on_keyboard_event(&event);
        }
        let ghost heard = self@;
        assert(heard == old(self)@.hear(event));
        let ghost mut randoms: Seq<u8> = zeros;
        if matches!(self.state, State::WaitingForKey { .. }) {
            self.on_paused();
        } else {
            self.exec_opcodes(OPCODES_PER_FRAME);
            proof {
                randoms = choose|randoms: Seq<u8>|
                    randoms.len() == OPCODES_PER_FRAME && self@ == #[trigger] heard.run(
                        OPCODES_PER_FRAME as nat,
                        randoms,
                    );
            }
        }
        assert(self@ == old(self)@.frame_work(event, randoms));
        if let State::Halted { fault } = self.state {
            assert(self@ == old(self)@.tick(event, randoms));
            return Err(fault);
        }
        let signal: SoundSignal = self.tick_timers();
        assert(self@ == old(self)@.tick(event, randoms));
        Ok(signal)
    }

    /// The registers V0 to VF.
    pub fn registers(&self) -> (registers: [u8; 16])
        ensures
            registers@ == self@.registers,
    {
        self.registers
    }

    /// The program counter.
    pub fn pc(&self) -> (pc: u16)
        ensures
            pc == self@.pc,
    {
        self.pc
    }

    /// The index register I.
    pub fn index(&self) -> (index: u16)
        ensures
            index == self@.index,
    {
        self.reg_index
    }

    /// The return addresses on the call stack, the latest last.
    pub fn stack(&self) -> (stack: &Vec<u16>)
        ensures
            stack@ == self@.stack,
    {
        &self.stack
    }

    /// The delay timer.
    pub fn delay_timer(&self) -> (timer: u8)
        ensures
            timer == self@.delay_timer,
    {
        self.delay_timer
    }

    /// The sound timer.
    pub fn sound_timer(&self) -> (timer: u8)
        ensures
            timer == self@.sound_timer,
    {
        self.sound_timer
    }

    /// The memory.
    pub fn memory(&self) -> (memory: &[u8; 4096])
        ensures
            memory@ == self@.memory,
    {
        &self.memory
    }

    /// What the engine is doing.
    pub fn state(&self) -> (state: State)
        ensures
            state == self@.state,
    {
        self.state
    }

    /// The key pad.
    pub fn keyboard(&self) -> (keyboard: &Keyboard)
        ensures
            keyboard@ == self@.keys,
    {
        &self.keyboard
    }

    /// The frame buffer.
    pub fn display(&self) -> (display: &Display)
        requires
            self.wf(),
        ensures
            display.wf(),
            display@ == self@.screen,
    {
        &self.display
    }
}

/// How long to sleep at the end of a frame of which `elapsed_micros`
/// microseconds have passed: what is left of `MICROS_PER_FRAME`, or nothing
/// if the frame has used up its time. Time lost is not made up.
pub fn frame_remainder(elapsed_micros: u128) -> (sleep: Option<u64>)
    ensures
        sleep == if elapsed_micros < MICROS_PER_FRAME {
            Some((MICROS_PER_FRAME - elapsed_micros) as u64)
        } else {
            None
        },
{
    if elapsed_micros < MICROS_PER_FRAME as u128 {
        Some(MICROS_PER_FRAME - elapsed_micros as u64)
    } else {
        None
    }
}

} // verus!
