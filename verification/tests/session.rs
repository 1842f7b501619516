use chip8::{
    Channel, Chip8, Chip8Key, Message, Scheduler, SchedulerAction, TimerClock, TryRecvKind,
    TIMER_INTERVAL_MS,
};

#[test]
fn channel_delivers_messages_in_order() {
    let (host, session) = Channel::new();
    host.send(Message::Pause);
    host.send(Message::KeyReleased(Chip8Key::K3));
    assert!(matches!(session.try_recv(), Ok(Message::Pause)));
    assert!(matches!(
        session.try_recv(),
        Ok(Message::KeyReleased(Chip8Key::K3))
    ));
    assert!(matches!(session.try_recv(), Err(TryRecvKind::Empty)));
}

#[test]
fn channel_is_duplex() {
    let (host, session) = Channel::new();
    session.send(Message::Draw(chip8::FrameBuffer::new()));
    assert!(matches!(host.try_recv(), Ok(Message::Draw(_))));
    host.send(Message::Shutdown);
    assert!(matches!(session.try_recv(), Ok(Message::Shutdown)));
}

#[test]
fn channel_reports_a_dropped_far_end() {
    let (host, session) = Channel::new();
    drop(host);
    assert!(matches!(session.try_recv(), Err(TryRecvKind::Disconnected)));
}

#[test]
fn pause_then_unpause_does_not_jump_the_timer() {
    let mut clock = TimerClock::new(1000);
    // 5 ms into the interval, pause.
    clock.on_pause(1005);
    assert_eq!(clock.pause_delta, 5);
    // A long pause; on resume the same 5 ms of the interval read as elapsed.
    clock.on_unpause(50_000);
    assert_eq!(50_000 - clock.last_timer_update, 5);
    // The next update is due only after the rest of the interval.
    assert!(!clock.timer_due(50_000 + TIMER_INTERVAL_MS - 6));
    assert!(clock.timer_due(50_000 + TIMER_INTERVAL_MS - 5));
}

#[test]
fn scheduler_applies_commands() {
    let mut sched = Scheduler::new(Chip8::new(), 0);
    assert!(matches!(
        sched.handle_message(Message::Pause, 10),
        SchedulerAction::Proceed
    ));
    assert!(sched.chip8.is_paused());
    assert_eq!(sched.clock.pause_delta, 10);
    // A second pause does not re-record the delta.
    sched.handle_message(Message::Pause, 500);
    assert_eq!(sched.clock.pause_delta, 10);
    assert!(matches!(
        sched.handle_message(Message::Unpause, 1000),
        SchedulerAction::Proceed
    ));
    assert!(!sched.chip8.is_paused());
    assert_eq!(sched.clock.last_timer_update, 990);
    assert!(matches!(
        sched.handle_message(Message::Shutdown, 1001),
        SchedulerAction::Stop
    ));
    match sched.handle_message(Message::Save(String::from("state.sav")), 1002) {
        SchedulerAction::SaveTo { path } => assert_eq!(path, "state.sav"),
        other => panic!("expected a save action, got {:?}", other),
    }
}

#[test]
fn key_release_is_recorded_only_while_running() {
    let mut sched = Scheduler::new(Chip8::new(), 0);
    sched.handle_message(Message::KeyPressed(Chip8Key::K6), 1);
    assert!(sched
        .chip8
        .to_chip8_state()
        .key_matrix
        .is_pressed(Chip8Key::K6));
    sched.handle_message(Message::Pause, 2);
    sched.handle_message(Message::KeyReleased(Chip8Key::K6), 3);
    let state = sched.chip8.to_chip8_state();
    assert!(!state.key_matrix.is_pressed(Chip8Key::K6));
    // Paused: the release did not become the pending released key.
    assert!(state.last_released_key.is_none());
    sched.handle_message(Message::Unpause, 4);
    sched.handle_message(Message::KeyReleased(Chip8Key::K6), 5);
    assert_eq!(
        sched.chip8.to_chip8_state().last_released_key,
        Some(Chip8Key::K6)
    );
}

#[test]
fn run_cycle_paces_the_two_cadences() {
    let mut chip8 = Chip8::new();
    // 0x6105: load 5 into register 1; 0xF115: set the delay timer from it.
    chip8.load_rom(&vec![0x61, 0x05, 0xF1, 0x15]);
    let mut sched = Scheduler::new(chip8, 0);
    assert_eq!(sched.run_cycle(2), Ok(false));
    assert_eq!(sched.run_cycle(4), Ok(false));
    assert_eq!(sched.chip8.to_chip8_state().cpu.get_dt(), 5);
    // A full timer interval later the 60Hz decay runs before the tick.
    assert_eq!(sched.run_cycle(TIMER_INTERVAL_MS), Ok(false));
    assert_eq!(sched.chip8.to_chip8_state().cpu.get_dt(), 4);
    assert_eq!(sched.clock.last_timer_update, TIMER_INTERVAL_MS);
    // While paused, cycles do nothing.
    sched.handle_message(Message::Pause, TIMER_INTERVAL_MS + 1);
    let pc = sched.chip8.to_chip8_state().cpu.get_pc();
    assert_eq!(sched.run_cycle(10_000), Ok(false));
    assert_eq!(sched.chip8.to_chip8_state().cpu.get_pc(), pc);
    assert_eq!(sched.chip8.to_chip8_state().cpu.get_dt(), 4);
}

#[test]
fn draw_events_carry_the_frame() {
    let mut chip8 = Chip8::new();
    // 0x00E0: clear screen, which owes one redraw.
    chip8.load_rom(&vec![0x00, 0xE0]);
    let mut sched = Scheduler::new(chip8, 0);
    let (host, session) = Channel::new();
    let drew = sched.run_cycle(2).unwrap();
    assert!(drew);
    if drew {
        session.send(Message::Draw(sched.chip8.frame_buffer().duplicate()));
    }
    match host.try_recv() {
        Ok(Message::Draw(frame)) => {
            assert!(frame.get_ref().iter().all(|p| !*p));
        },
        _ => panic!("expected a draw event"),
    }
}
