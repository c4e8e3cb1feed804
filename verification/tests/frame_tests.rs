use chip8::cpu::{frame_remainder, CPU};
use chip8::keyboard::KeyEvent;
use chip8::machine::{Fault, SoundSignal, State};
use chip8::opcode::Opcode;

fn exec(cpu: &mut CPU, word: u16) -> State {
    cpu.exec_opcode(&Opcode(word))
}

fn loaded(rom: &[u8]) -> CPU {
    let mut cpu = CPU::new();
    assert_eq!(cpu.init(rom), Ok(()));
    cpu
}

fn down(key: char) -> Option<KeyEvent> {
    Some(KeyEvent::KeyDown { keycode: Some(key as i32) })
}

fn up(key: char) -> Option<KeyEvent> {
    Some(KeyEvent::KeyUp { keycode: Some(key as i32) })
}

#[test]
fn timer_counts_down_from_five_and_rests_at_zero() {
    let mut cpu = CPU::new();
    exec(&mut cpu, 0x6105);
    exec(&mut cpu, 0xF115);
    for left in [4u8, 3, 2, 1, 0] {
        cpu.tick_timers();
        assert_eq!(cpu.delay_timer(), left);
    }
    for _ in 0..600 {
        cpu.tick_timers();
        assert_eq!(cpu.delay_timer(), 0);
    }
}

#[test]
fn timers_count_independently() {
    let mut cpu = CPU::new();
    exec(&mut cpu, 0x6103);
    exec(&mut cpu, 0x62FF);
    exec(&mut cpu, 0xF115);
    exec(&mut cpu, 0xF218);
    assert_eq!(cpu.tick_timers(), SoundSignal::On);
    assert_eq!((cpu.delay_timer(), cpu.sound_timer()), (2, 254));
    cpu.tick_timers();
    cpu.tick_timers();
    assert_eq!((cpu.delay_timer(), cpu.sound_timer()), (0, 252));
    assert_eq!(cpu.tick_timers(), SoundSignal::On);
    assert_eq!((cpu.delay_timer(), cpu.sound_timer()), (0, 251));
}

#[test]
fn sound_is_on_while_the_timer_runs_and_off_when_it_ends() {
    let mut cpu = CPU::new();
    assert_eq!(cpu.tick_timers(), SoundSignal::Keep);
    exec(&mut cpu, 0x6103);
    exec(&mut cpu, 0xF118);
    assert_eq!(cpu.tick_timers(), SoundSignal::On);
    assert_eq!(cpu.sound_timer(), 2);
    assert_eq!(cpu.tick_timers(), SoundSignal::On);
    assert_eq!(cpu.sound_timer(), 1);
    assert_eq!(cpu.tick_timers(), SoundSignal::OnThenOff);
    assert_eq!(cpu.sound_timer(), 0);
    assert_eq!(cpu.tick_timers(), SoundSignal::Keep);
    assert_eq!(cpu.sound_timer(), 0);
    assert_eq!(cpu.delay_timer(), 0);
}

#[test]
fn timers_count_once_a_frame_not_once_an_instruction() {
    let mut cpu = loaded(&[0x61, 0x0A, 0xF1, 0x15, 0x12, 0x04]);
    assert_eq!(cpu.tick(None), Ok(SoundSignal::Keep));
    assert_eq!(cpu.delay_timer(), 9);
    assert_eq!(cpu.tick(None), Ok(SoundSignal::Keep));
    assert_eq!(cpu.delay_timer(), 8);
}

#[test]
fn one_frame_of_set_clear_and_jump() {
    let mut cpu = loaded(&[0x6A, 0x02, 0x00, 0xE0, 0x12, 0x00]);
    assert_eq!(cpu.tick(None), Ok(SoundSignal::Keep));
    assert_eq!(cpu.registers()[0xA], 2);
    for y in 0..32 {
        for x in 0..64 {
            assert!(!cpu.display().pixel(x, y));
        }
    }
    assert_eq!(cpu.pc(), 0x202);
    assert_eq!(cpu.state(), State::Running);
    let mut seen = vec![];
    for _ in 0..6 {
        cpu.step();
        seen.push(cpu.pc());
    }
    assert_eq!(seen, vec![0x204, 0x200, 0x202, 0x204, 0x200, 0x202]);
}

#[test]
fn wait_for_key_suspends_until_a_key_goes_down() {
    let mut cpu = loaded(&[0xFA, 0x0A, 0x6B, 0x01]);
    assert_eq!(cpu.tick(None), Ok(SoundSignal::Keep));
    assert_eq!(cpu.state(), State::WaitingForKey { register: 0xA });
    assert_eq!(cpu.pc(), 0x202);
    assert_eq!(cpu.tick(None), Ok(SoundSignal::Keep));
    assert_eq!(cpu.tick(up('a')), Ok(SoundSignal::Keep));
    assert_eq!(cpu.tick(down('p')), Ok(SoundSignal::Keep));
    assert_eq!(cpu.state(), State::WaitingForKey { register: 0xA });
    assert_eq!(cpu.pc(), 0x202);
    assert_eq!(cpu.tick(down('a')), Ok(SoundSignal::Keep));
    assert_eq!(cpu.state(), State::Running);
    assert_eq!(cpu.registers()[0xA], 7);
    assert_eq!(cpu.registers()[0xB], 0);
    assert_eq!(cpu.pc(), 0x202);
    assert!(cpu.keyboard().is_pressed(7));
    cpu.step();
    assert_eq!(cpu.registers()[0xB], 1);
}

#[test]
fn wait_for_key_takes_a_key_pressed_before_the_wait() {
    let mut cpu = loaded(&[0x12, 0x00]);
    assert_eq!(cpu.tick(down('v')), Ok(SoundSignal::Keep));
    exec(&mut cpu, 0xF30A);
    assert_eq!(cpu.state(), State::WaitingForKey { register: 3 });
    cpu.on_paused();
    assert_eq!(cpu.state(), State::Running);
    assert_eq!(cpu.registers()[3], 0xF);
    exec(&mut cpu, 0xF40A);
    cpu.on_paused();
    assert_eq!(cpu.state(), State::WaitingForKey { register: 4 });
}

#[test]
fn on_paused_leaves_a_running_engine_alone() {
    let mut cpu = loaded(&[0x12, 0x00]);
    cpu.tick(down('q')).unwrap();
    let pc = cpu.pc();
    cpu.on_paused();
    assert_eq!(cpu.state(), State::Running);
    assert_eq!(cpu.registers(), [0u8; 16]);
    assert_eq!(cpu.pc(), pc);
    exec(&mut cpu, 0xF00A);
    cpu.on_paused();
    assert_eq!(cpu.registers()[0], 4);
}

#[test]
fn timers_count_while_the_engine_waits() {
    let mut cpu = loaded(&[0x61, 0x03, 0xF1, 0x15, 0xF1, 0x18, 0xF0, 0x0A]);
    assert_eq!(cpu.tick(None), Ok(SoundSignal::On));
    assert_eq!(cpu.state(), State::WaitingForKey { register: 0 });
    assert_eq!((cpu.delay_timer(), cpu.sound_timer()), (2, 2));
    assert_eq!(cpu.tick(None), Ok(SoundSignal::On));
    assert_eq!(cpu.tick(None), Ok(SoundSignal::OnThenOff));
    assert_eq!(cpu.tick(None), Ok(SoundSignal::Keep));
    assert_eq!((cpu.delay_timer(), cpu.sound_timer()), (0, 0));
}

#[test]
fn key_skips_follow_the_pad() {
    let mut cpu = loaded(&[0x12, 0x00]);
    exec(&mut cpu, 0x6109);
    cpu.tick(down('d')).unwrap();
    let pc = cpu.pc();
    exec(&mut cpu, 0xE19E);
    assert_eq!(cpu.pc(), pc + 2);
    exec(&mut cpu, 0xE1A1);
    assert_eq!(cpu.pc(), pc + 2);
    exec(&mut cpu, 0x1200);
    cpu.tick(up('d')).unwrap();
    let pc = cpu.pc();
    exec(&mut cpu, 0xE19E);
    assert_eq!(cpu.pc(), pc);
    exec(&mut cpu, 0xE1A1);
    assert_eq!(cpu.pc(), pc + 2);
}

#[test]
fn key_skip_with_a_value_that_names_no_key() {
    let mut cpu = CPU::new();
    exec(&mut cpu, 0x61C8);
    exec(&mut cpu, 0xE19E);
    assert_eq!(cpu.pc(), 0);
    exec(&mut cpu, 0xE1A1);
    assert_eq!(cpu.pc(), 2);
}

#[test]
fn a_frame_that_halts_reports_the_fault_and_stops_the_timers() {
    let mut cpu = loaded(&[0x61, 0x05, 0xF1, 0x15, 0xF1, 0x18, 0x00, 0x01]);
    let fault = Fault::UnsupportedOpcode { opcode: 0x0001 };
    assert_eq!(cpu.tick(None), Err(fault));
    assert_eq!(cpu.state(), State::Halted { fault });
    assert_eq!((cpu.delay_timer(), cpu.sound_timer()), (5, 5));
    assert_eq!(cpu.pc(), 0x208);
    assert_eq!(cpu.tick(down('a')), Err(fault));
    assert_eq!((cpu.delay_timer(), cpu.sound_timer()), (5, 5));
    assert!(!cpu.keyboard().is_pressed(7));
    assert_eq!(cpu.pc(), 0x208);
}

#[test]
fn a_frame_that_runs_off_memory_reports_it() {
    let mut cpu = loaded(&[0x1F, 0xFF]);
    assert_eq!(cpu.tick(None), Err(Fault::AddressOutOfRange));
    assert_eq!(cpu.pc(), 0xFFF);
}

#[test]
fn a_frame_with_endless_calls_reports_the_overflow() {
    let mut cpu = loaded(&[0x22, 0x00]);
    for _ in 0..4 {
        assert_eq!(cpu.tick(None), Ok(SoundSignal::Keep));
    }
    assert_eq!(cpu.stack().len(), 64);
    assert_eq!(cpu.tick(None), Err(Fault::StackOverflow));
}

#[test]
fn a_frame_with_a_stray_return_reports_the_underflow() {
    let mut cpu = loaded(&[0x00, 0xEE]);
    assert_eq!(cpu.tick(None), Err(Fault::StackUnderflow));
}

#[test]
fn a_frame_runs_sixteen_instructions() {
    let mut cpu = loaded(&[0x70, 0x01, 0x12, 0x00]);
    assert_eq!(cpu.tick(None), Ok(SoundSignal::Keep));
    assert_eq!(cpu.registers()[0], 8);
    assert_eq!(cpu.tick(Some(KeyEvent::Other)), Ok(SoundSignal::Keep));
    assert_eq!(cpu.registers()[0], 16);
}

#[test]
fn frame_remainder_is_what_is_left_of_a_sixtieth_second() {
    assert_eq!(frame_remainder(0), Some(16666));
    assert_eq!(frame_remainder(1), Some(16665));
    assert_eq!(frame_remainder(10000), Some(6666));
    assert_eq!(frame_remainder(16665), Some(1));
}

#[test]
fn frame_remainder_of_an_overrun_is_nothing() {
    assert_eq!(frame_remainder(16666), None);
    assert_eq!(frame_remainder(16667), None);
    assert_eq!(frame_remainder(1_000_000), None);
    assert_eq!(frame_remainder(u64::MAX as u128 + 1), None);
    assert_eq!(frame_remainder(u128::MAX), None);
}
