//! Tests for the countdown timers and their tone-control signals.

use chip8::cpu::CPU;
use chip8::timer::{DelayTimer, SoundMessage, SoundTimer, Timer};

#[test]
fn timer_decay_emits_exactly_one_stop() {
    // Setting the sound timer to 2 and ticking three times reaches 0 and
    // emits exactly one stop signal, on the tick that reaches 0.
    let mut timer = SoundTimer::new();
    timer.set_value(2);
    assert_eq!(timer.take_message(), Some(SoundMessage::Play));
    timer.tick();
    assert_eq!(timer.get_value(), 1);
    assert_eq!(timer.take_message(), None);
    timer.tick();
    assert_eq!(timer.get_value(), 0);
    assert_eq!(timer.take_message(), Some(SoundMessage::Pause));
    timer.tick();
    assert_eq!(timer.get_value(), 0);
    assert_eq!(timer.take_message(), None);
}

#[test]
fn sound_timer_plays_on_every_set() {
    let mut timer = SoundTimer::new();
    timer.set_value(5);
    assert_eq!(timer.take_message(), Some(SoundMessage::Play));
    timer.set_value(3);
    assert_eq!(timer.take_message(), Some(SoundMessage::Play));
}

#[test]
fn inactive_timer_does_not_move() {
    let mut timer = DelayTimer::new();
    timer.tick();
    assert_eq!(timer.get_value(), 0);
}

#[test]
fn delay_timer_counts_down_and_stops() {
    let mut timer = DelayTimer::new();
    timer.set_value(3);
    timer.tick();
    assert_eq!(timer.get_value(), 2);
    timer.tick();
    timer.tick();
    assert_eq!(timer.get_value(), 0);
    timer.tick();
    assert_eq!(timer.get_value(), 0);
}

#[test]
fn force_audio_stop_is_the_teardown_signal() {
    let timer = SoundTimer::new();
    assert_eq!(timer.force_audio_stop(), SoundMessage::Stop);
    let cpu = CPU::new();
    assert_eq!(cpu.force_audio_stop(), SoundMessage::Stop);
}

#[test]
fn cpu_tick_drives_both_timers() {
    // Program: set delay from V1 (3), set sound from V2 (1).
    let mut cpu = CPU::new();
    cpu.load_program(&vec![0xF1, 0x15, 0xF2, 0x18]);
    cpu.set_register(1, 3);
    cpu.set_register(2, 1);
    cpu.step_with_random(0).unwrap();
    cpu.step_with_random(0).unwrap();
    assert_eq!(cpu.take_sound_message(), Some(SoundMessage::Play));
    cpu.tick();
    // The sound timer reached 0 on this frame and signalled a pause.
    assert_eq!(cpu.take_sound_message(), Some(SoundMessage::Pause));
    cpu.tick();
    assert_eq!(cpu.take_sound_message(), None);
}
